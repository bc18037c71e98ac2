//! Replacing the code blocks that bear a class tag.
//!
//! The passes that run code, include other documents and embed search results
//! all work alike: the code blocks that bear the tag of the pass are listed in
//! the order of the document, something outside works out what stands in place
//! of each, and the blocks are replaced. A block for which nothing was worked
//! out stays as it is, and what is put in is not looked through again.

use crate::tree::{blocks_view, groups_view, Attr, AttrView, Block, BlockView};
use vstd::prelude::*;
use vstd::string::*;

verus! {

/// A tagged code block as it is listed: its attributes and its text.
pub struct CodeView {
    pub attr: AttrView,
    pub text: Seq<char>,
}

/// A tagged code block as it is listed: its attributes and its text.
#[derive(Debug, PartialEq, Eq)]
pub struct Code {
    pub attr: Attr,
    pub text: String,
}

impl View for Code {
    type V = CodeView;

    open spec fn view(&self) -> CodeView {
        CodeView { attr: self.attr@, text: self.text@ }
    }
}

/// The views of a sequence of listed code blocks.
pub open spec fn codes_view(s: Seq<Code>) -> Seq<CodeView> {
    Seq::new(s.len(), |i: int| s[i]@)
}

/// The views of a sequence of replacements.
pub open spec fn replacements_view(s: Seq<Option<Block>>) -> Seq<Option<BlockView>> {
    Seq::new(
        s.len(),
        |i: int|
            match s[i] {
                Some(b) => Some(b.view()),
                None => None,
            },
    )
}

/// The code blocks in `block` that bear the class tag `tag`, in the order of
/// the document. Quotations are looked through.
pub open spec fn tagged_in(block: BlockView, tag: Seq<char>) -> Seq<CodeView>
    decreases block,
{
    match block {
        BlockView::CodeBlock(attr, text) => if attr.has_class(tag) {
            seq![CodeView { attr, text }]
        } else {
            Seq::empty()
        },
        BlockView::BlockQuote(blocks) => tagged(blocks, tag),
        BlockView::Nested(_, groups) => tagged_groups(groups, tag),
        _ => Seq::empty(),
    }
}

/// The code blocks in `groups` that bear the class tag `tag`, in the order of
/// the document.
pub open spec fn tagged_groups(groups: Seq<Seq<BlockView>>, tag: Seq<char>) -> Seq<CodeView>
    decreases groups,
{
    if groups.len() == 0 {
        Seq::empty()
    } else {
        tagged_groups(groups.drop_last(), tag) + tagged(groups.last(), tag)
    }
}

/// The code blocks in `blocks` that bear the class tag `tag`, in the order of
/// the document.
pub open spec fn tagged(blocks: Seq<BlockView>, tag: Seq<char>) -> Seq<CodeView>
    decreases blocks,
{
    if blocks.len() == 0 {
        Seq::empty()
    } else {
        tagged(blocks.drop_last(), tag) + tagged_in(blocks.last(), tag)
    }
}

/// `block` with its tagged code blocks replaced: the first of them by
/// `with[from]`, the next by `with[from + 1]` and so on. A block whose
/// replacement is `None` or lies beyond `with` stays.
pub open spec fn replaced_in(
    block: BlockView,
    tag: Seq<char>,
    with: Seq<Option<BlockView>>,
    from: int,
) -> BlockView
    decreases block,
{
    match block {
        BlockView::CodeBlock(attr, text) => if attr.has_class(tag) && 0 <= from < with.len()
            && with[from] is Some {
            with[from]->0
        } else {
            block
        },
        BlockView::BlockQuote(blocks) => BlockView::BlockQuote(replaced(blocks, tag, with, from)),
        BlockView::Nested(kind, groups) => BlockView::Nested(
            kind,
            replaced_groups(groups, tag, with, from),
        ),
        _ => block,
    }
}

/// `groups` with their tagged code blocks replaced, the first of them by
/// `with[from]`.
pub open spec fn replaced_groups(
    groups: Seq<Seq<BlockView>>,
    tag: Seq<char>,
    with: Seq<Option<BlockView>>,
    from: int,
) -> Seq<Seq<BlockView>>
    decreases groups,
{
    if groups.len() == 0 {
        Seq::empty()
    } else {
        replaced_groups(groups.drop_last(), tag, with, from).push(
            replaced(
                groups.last(),
                tag,
                with,
                from + tagged_groups(groups.drop_last(), tag).len(),
            ),
        )
    }
}

/// `blocks` with their tagged code blocks replaced, the first of them by
/// `with[from]`.
pub open spec fn replaced(
    blocks: Seq<BlockView>,
    tag: Seq<char>,
    with: Seq<Option<BlockView>>,
    from: int,
) -> Seq<BlockView>
    decreases blocks,
{
    if blocks.len() == 0 {
        Seq::empty()
    } else {
        replaced(blocks.drop_last(), tag, with, from).push(
            replaced_in(
                blocks.last(),
                tag,
                with,
                from + tagged(blocks.drop_last(), tag).len(),
            ),
        )
    }
}

/// `from`, but no more than `len`.
pub open spec fn capped(from: int, len: int) -> int {
    if from < len {
        from
    } else {
        len
    }
}

impl Block {
    /// Adds the tagged code blocks of this block to `out`.
    fn list_tagged(&self, tag: &str, out: &mut Vec<Code>)
        ensures
            codes_view(final(out)@) == codes_view(old(out)@) + tagged_in(self.view(), tag@),
        decreases self,
    {
        match self {
            Block::CodeBlock(attr, text) => {
                if attr.has_class(tag) {
                    out.push(Code { attr: attr.duplicate(), text: text.clone() });
                    assert(codes_view(out@) =~= codes_view(old(out)@) + tagged_in(
                        self.view(),
                        tag@,
                    ));
                } else {
                    assert(codes_view(out@) =~= codes_view(old(out)@) + tagged_in(
                        self.view(),
                        tag@,
                    ));
                }
            },
            Block::BlockQuote(blocks) => {
                list_all_tagged(blocks, tag, out);
            },
            Block::Nested(_, groups) => {
                list_groups_tagged(groups, tag, out);
            },
            _ => {
                assert(codes_view(out@) =~= codes_view(old(out)@) + tagged_in(self.view(), tag@));
            },
        }
    }

    /// This block with its tagged code blocks replaced. `at` is the place in
    /// `with` of the replacement of the first of them, capped at the length of
    /// `with`; the place for what follows this block is returned.
    fn replace_tagged(
        &self,
        tag: &str,
        with: &Vec<Option<Block>>,
        at: usize,
        Ghost(from): Ghost<int>,
    ) -> (r: (Block, usize))
        requires
            0 <= from,
            at == capped(from, with@.len() as int),
        ensures
            r.0.view() == replaced_in(self.view(), tag@, replacements_view(with@), from),
            r.1 == capped(from + tagged_in(self.view(), tag@).len(), with@.len() as int),
        decreases self,
    {
        match self {
            Block::CodeBlock(attr, text) => {
                if attr.has_class(tag) {
                    if at < with.len() {
                        match &with[at] {
                            Some(b) => (b.duplicate(), at + 1),
                            None => (self.duplicate(), at + 1),
                        }
                    } else {
                        (self.duplicate(), at)
                    }
                } else {
                    (self.duplicate(), at)
                }
            },
            Block::BlockQuote(blocks) => {
                let (inner, next) = replace_all_tagged(blocks, tag, with, at, Ghost(from));
                (Block::BlockQuote(inner), next)
            },
            Block::Nested(kind, groups) => {
                let (inner, next) = replace_groups_tagged(groups, tag, with, at, Ghost(from));
                (Block::Nested(kind.clone(), inner), next)
            },
            _ => (self.duplicate(), at),
        }
    }
}

fn list_all_tagged(blocks: &Vec<Block>, tag: &str, out: &mut Vec<Code>)
    ensures
        codes_view(final(out)@) == codes_view(old(out)@) + tagged(blocks_view(blocks@), tag@),
    decreases blocks,
{
    let ghost all = blocks_view(blocks@);
    let mut i: usize = 0;
    assert(all.take(0) =~= Seq::empty());
    assert(codes_view(out@) =~= codes_view(old(out)@) + tagged(all.take(0), tag@));
    while i < blocks.len()
        invariant
            i <= blocks.len(),
            all == blocks_view(blocks@),
            codes_view(out@) == codes_view(old(out)@) + tagged(all.take(i as int), tag@),
        decreases blocks.len() - i,
    {
        proof {
            assert(all.take(i + 1).drop_last() =~= all.take(i as int));
            assert(all.take(i + 1).last() == blocks[i as int].view());
        }
        blocks[i].list_tagged(tag, out);
        assert(codes_view(out@) =~= codes_view(old(out)@) + tagged(all.take(i + 1), tag@));
        i += 1;
    }
    assert(all.take(i as int) =~= all);
}

fn list_groups_tagged(groups: &Vec<Vec<Block>>, tag: &str, out: &mut Vec<Code>)
    ensures
        codes_view(final(out)@) == codes_view(old(out)@) + tagged_groups(
            groups_view(groups@),
            tag@,
        ),
    decreases groups,
{
    let ghost all = groups_view(groups@);
    let mut i: usize = 0;
    assert(all.take(0) =~= Seq::empty());
    assert(codes_view(out@) =~= codes_view(old(out)@) + tagged_groups(all.take(0), tag@));
    while i < groups.len()
        invariant
            i <= groups.len(),
            all == groups_view(groups@),
            codes_view(out@) == codes_view(old(out)@) + tagged_groups(all.take(i as int), tag@),
        decreases groups.len() - i,
    {
        proof {
            assert(all.take(i + 1).drop_last() =~= all.take(i as int));
            assert(all.take(i + 1).last() == blocks_view(groups[i as int]@));
        }
        list_all_tagged(&groups[i], tag, out);
        assert(codes_view(out@) =~= codes_view(old(out)@) + tagged_groups(
            all.take(i + 1),
            tag@,
        ));
        i += 1;
    }
    assert(all.take(i as int) =~= all);
}

fn replace_groups_tagged(
    groups: &Vec<Vec<Block>>,
    tag: &str,
    with: &Vec<Option<Block>>,
    at: usize,
    Ghost(from): Ghost<int>,
) -> (r: (Vec<Vec<Block>>, usize))
    requires
        0 <= from,
        at == capped(from, with@.len() as int),
    ensures
        groups_view(r.0@) == replaced_groups(
            groups_view(groups@),
            tag@,
            replacements_view(with@),
            from,
        ),
        r.1 == capped(
            from + tagged_groups(groups_view(groups@), tag@).len(),
            with@.len() as int,
        ),
    decreases groups,
{
    let ghost all = groups_view(groups@);
    let ghost reps = replacements_view(with@);
    let mut out: Vec<Vec<Block>> = Vec::new();
    let mut at = at;
    let mut i: usize = 0;
    assert(all.take(0) =~= Seq::empty());
    assert(groups_view(out@) =~= Seq::empty());
    while i < groups.len()
        invariant
            i <= groups.len(),
            0 <= from,
            all == groups_view(groups@),
            reps == replacements_view(with@),
            groups_view(out@) == replaced_groups(all.take(i as int), tag@, reps, from),
            at == capped(
                from + tagged_groups(all.take(i as int), tag@).len(),
                with@.len() as int,
            ),
        decreases groups.len() - i,
    {
        proof {
            assert(all.take(i + 1).drop_last() =~= all.take(i as int));
            assert(all.take(i + 1).last() == blocks_view(groups[i as int]@));
        }
        let ghost here = from + tagged_groups(all.take(i as int), tag@).len();
        let ghost before = groups_view(out@);
        let (group, next) = replace_all_tagged(&groups[i], tag, with, at, Ghost(here));
        out.push(group);
        assert(groups_view(out@) =~= before.push(blocks_view(group@)));
        at = next;
        i += 1;
    }
    assert(all.take(i as int) =~= all);
    (out, at)
}

fn replace_all_tagged(
    blocks: &Vec<Block>,
    tag: &str,
    with: &Vec<Option<Block>>,
    at: usize,
    Ghost(from): Ghost<int>,
) -> (r: (Vec<Block>, usize))
    requires
        0 <= from,
        at == capped(from, with@.len() as int),
    ensures
        blocks_view(r.0@) == replaced(blocks_view(blocks@), tag@, replacements_view(with@), from),
        r.1 == capped(from + tagged(blocks_view(blocks@), tag@).len(), with@.len() as int),
    decreases blocks,
{
    let ghost all = blocks_view(blocks@);
    let ghost reps = replacements_view(with@);
    let mut out: Vec<Block> = Vec::new();
    let mut at = at;
    let mut i: usize = 0;
    assert(all.take(0) =~= Seq::empty());
    assert(blocks_view(out@) =~= Seq::empty());
    while i < blocks.len()
        invariant
            i <= blocks.len(),
            0 <= from,
            all == blocks_view(blocks@),
            reps == replacements_view(with@),
            blocks_view(out@) == replaced(all.take(i as int), tag@, reps, from),
            at == capped(from + tagged(all.take(i as int), tag@).len(), with@.len() as int),
        decreases blocks.len() - i,
    {
        proof {
            assert(all.take(i + 1).drop_last() =~= all.take(i as int));
            assert(all.take(i + 1).last() == blocks[i as int].view());
        }
        let ghost here = from + tagged(all.take(i as int), tag@).len();
        let ghost before = blocks_view(out@);
        let (block, next) = blocks[i].replace_tagged(tag, with, at, Ghost(here));
        out.push(block);
        assert(blocks_view(out@) =~= before.push(block.view()));
        at = next;
        i += 1;
    }
    assert(all.take(i as int) =~= all);
    (out, at)
}

/// The code blocks of a document that bear the class tag `tag`, in the order
/// of the document.
pub fn list_tagged(blocks: &Vec<Block>, tag: &str) -> (r: Vec<Code>)
    ensures
        codes_view(r@) == tagged(blocks_view(blocks@), tag@),
{
    let mut out: Vec<Code> = Vec::new();
    assert(codes_view(out@) =~= Seq::empty());
    list_all_tagged(blocks, tag, &mut out);
    assert(Seq::<CodeView>::empty() + tagged(blocks_view(blocks@), tag@) =~= tagged(
        blocks_view(blocks@),
        tag@,
    ));
    out
}

/// The texts of a sequence of listed code blocks.
pub open spec fn texts_of(codes: Seq<CodeView>) -> Seq<Seq<char>> {
    Seq::new(codes.len(), |i: int| codes[i].text)
}

/// The texts of the code blocks of a document that bear the class tag `tag`,
/// in the order of the document.
pub fn tagged_texts(blocks: &Vec<Block>, tag: &str) -> (r: Vec<String>)
    ensures
        crate::text::views(r@) == texts_of(tagged(blocks_view(blocks@), tag@)),
{
    let codes = list_tagged(blocks, tag);
    let mut out: Vec<String> = Vec::new();
    let mut i: usize = 0;
    while i < codes.len()
        invariant
            i <= codes.len(),
            out.len() == i,
            forall|k: int| 0 <= k < i ==> out[k]@ == codes[k]@.text,
        decreases codes.len() - i,
    {
        out.push(codes[i].text.clone());
        i += 1;
    }
    assert(crate::text::views(out@) =~= texts_of(codes_view(codes@)));
    out
}

/// The document with each code block that bears the class tag `tag` replaced
/// by what `with` holds for it: the first such block by the first entry, and
/// so on. A block whose entry is `None` or missing stays.
pub fn replace_tagged(blocks: &Vec<Block>, tag: &str, with: &Vec<Option<Block>>) -> (r: Vec<Block>)
    ensures
        blocks_view(r@) == replaced(blocks_view(blocks@), tag@, replacements_view(with@), 0),
{
    let (out, _) = replace_all_tagged(blocks, tag, with, 0, Ghost(0));
    out
}

} // verus!
