//! The pass that puts other documents, or sections of them, in place of the
//! code blocks tagged `include`.
//!
//! Reading the specification in a code block and fetching the document it
//! names is the caller's work: it takes the texts from [`include_requests`]
//! and hands what it found to [`apply_includes`].

use crate::rewrite::{
    replace_tagged, replaced, replacements_view, tagged, tagged_texts, texts_of,
};
use crate::text::{contains_string, views};
use crate::tree::{
    blocks_view, clone_blocks, inlines_view, lines_view, Attr, AttrView, Block, BlockView, Inline,
    InlineView,
};
use vstd::prelude::*;
use vstd::string::*;

verus! {

/// The class tag of the code blocks that include another document.
pub const INCLUDE_TAG: &'static str = "include";

/// The text of the link back to an included document.
pub const ATTRIBUTION: &'static str = "(copied from another page)";

/// What stands in place of a code block whose text says nothing that can be
/// included.
pub const BAD_INCLUDE_TEXT: &'static str = "Bad include block";

/// The format of the markup that is put in.
pub const MARKUP_FORMAT: &'static str = "html";

/// Where the documents are read: the target of the link back begins with this.
pub const POST_PREFIX: &'static str = "/post/";

/// What a code block asks to include: a document, and the headings of the
/// sections wanted; the whole document where no heading is named.
#[derive(Debug, PartialEq, Eq)]
pub struct IncludeSpec {
    pub src: String,
    pub headings: Vec<String>,
}

/// The view of an [`IncludeSpec`].
pub struct IncludeSpecView {
    pub src: Seq<char>,
    pub headings: Seq<Seq<char>>,
}

impl View for IncludeSpec {
    type V = IncludeSpecView;

    open spec fn view(&self) -> IncludeSpecView {
        IncludeSpecView { src: self.src@, headings: views(self.headings@) }
    }
}

/// Whether `block` is a heading whose identifier is among `headings`.
pub open spec fn wanted_heading(block: BlockView, headings: Seq<Seq<char>>) -> bool {
    block matches BlockView::Header(_, attr, _) && headings.contains(attr.id)
}

/// Whether `block` ends the section taken at level `level`: a heading of the
/// same or a shallower level that is not wanted itself.
pub open spec fn ends_section(block: BlockView, level: int, headings: Seq<Seq<char>>) -> bool {
    block matches BlockView::Header(l, attr, _) && l <= level && !headings.contains(attr.id)
}

/// The level of the section that is being taken after `doc`, or `None` where
/// none is. A wanted heading opens a section where none is open; a heading
/// that ends the open section closes it.
pub open spec fn taking_after(doc: Seq<BlockView>, headings: Seq<Seq<char>>) -> Option<int>
    decreases doc.len(),
{
    if doc.len() == 0 {
        None
    } else {
        match taking_after(doc.drop_last(), headings) {
            None => if wanted_heading(doc.last(), headings) {
                Some(doc.last()->Header_0)
            } else {
                None
            },
            Some(level) => if ends_section(doc.last(), level, headings) {
                None
            } else {
                Some(level)
            },
        }
    }
}

/// Whether the last block of `doc` is taken: it opens a section or lies in the
/// open one without ending it.
pub open spec fn takes_last(doc: Seq<BlockView>, headings: Seq<Seq<char>>) -> bool
    recommends
        doc.len() > 0,
{
    taking_after(doc, headings) is Some
}

/// The blocks of the wanted sections of `doc`, in their order.
pub open spec fn sections(doc: Seq<BlockView>, headings: Seq<Seq<char>>) -> Seq<BlockView>
    decreases doc.len(),
{
    if doc.len() == 0 {
        Seq::empty()
    } else if takes_last(doc, headings) {
        sections(doc.drop_last(), headings).push(doc.last())
    } else {
        sections(doc.drop_last(), headings)
    }
}

/// What is included of `doc`: all of it where no heading is named, else the
/// wanted sections.
pub open spec fn selection(doc: Seq<BlockView>, headings: Seq<Seq<char>>) -> Seq<BlockView> {
    if headings.len() == 0 {
        doc
    } else {
        sections(doc, headings)
    }
}

/// The line that links back to the included document.
pub open spec fn attribution(src: Seq<char>) -> BlockView {
    BlockView::LineBlock(
        seq![
            seq![
                InlineView::Link(
                    AttrView::empty(),
                    seq![InlineView::Str(ATTRIBUTION@)],
                    (POST_PREFIX@ + src, Seq::empty()),
                ),
            ],
        ],
    )
}

/// What stands in place of an include: a quotation of what is included,
/// closed by the link back.
pub open spec fn included(spec: IncludeSpecView, doc: Seq<BlockView>) -> BlockView {
    BlockView::BlockQuote(selection(doc, spec.headings).push(attribution(spec.src)))
}

fn heading_wanted(block: &Block, headings: &Vec<String>) -> (r: bool)
    ensures
        r == wanted_heading(block.view(), views(headings@)),
{
    match block {
        Block::Header(_, attr, _) => contains_string(headings, attr.id.as_str()),
        _ => false,
    }
}

fn section_ends(block: &Block, level: i64, headings: &Vec<String>) -> (r: bool)
    ensures
        r == ends_section(block.view(), level as int, views(headings@)),
{
    match block {
        Block::Header(l, attr, _) => *l <= level && !contains_string(headings, attr.id.as_str()),
        _ => false,
    }
}

/// The blocks of `doc` that an include with these headings takes.
pub fn select_blocks(doc: &Vec<Block>, headings: &Vec<String>) -> (r: Vec<Block>)
    ensures
        blocks_view(r@) == selection(blocks_view(doc@), views(headings@)),
{
    if headings.len() == 0 {
        return clone_blocks(doc);
    }
    let ghost all = blocks_view(doc@);
    let ghost wanted = views(headings@);
    let mut out: Vec<Block> = Vec::new();
    let mut taking: Option<i64> = None;
    let mut i: usize = 0;
    assert(all.take(0) =~= Seq::empty());
    assert(blocks_view(out@) =~= Seq::empty());
    while i < doc.len()
        invariant
            i <= doc.len(),
            all == blocks_view(doc@),
            wanted == views(headings@),
            blocks_view(out@) == sections(all.take(i as int), wanted),
            match taking {
                Some(level) => taking_after(all.take(i as int), wanted) == Some(level as int),
                None => taking_after(all.take(i as int), wanted) is None,
            },
        decreases doc.len() - i,
    {
        proof {
            assert(all.take(i + 1).drop_last() =~= all.take(i as int));
            assert(all.take(i + 1).last() == doc[i as int].view());
        }
        let block = &doc[i];
        taking =
        match taking {
            None => {
                if heading_wanted(block, headings) {
                    match block {
                        Block::Header(level, _, _) => Some(*level),
                        _ => None,
                    }
                } else {
                    None
                }
            },
            Some(level) => {
                if section_ends(block, level, headings) {
                    None
                } else {
                    Some(level)
                }
            },
        };
        if taking.is_some() {
            let ghost before = blocks_view(out@);
            out.push(block.duplicate());
            assert(blocks_view(out@) =~= before.push(doc[i as int].view()));
        }
        i += 1;
    }
    assert(all.take(i as int) =~= all);
    out
}

/// What stands in place of an include of `doc` as `spec` asks.
pub fn include_block(spec: &IncludeSpec, doc: &Vec<Block>) -> (r: Block)
    ensures
        r.view() == included(spec@, blocks_view(doc@)),
{
    let mut blocks = select_blocks(doc, &spec.headings);
    let mut target = POST_PREFIX.to_owned();
    target.append(spec.src.as_str());
    let mut content: Vec<Inline> = Vec::new();
    content.push(Inline::Str(ATTRIBUTION.to_owned()));
    assert(inlines_view(content@) =~= seq![InlineView::Str(ATTRIBUTION@)]);
    let link = Inline::Link(Attr::empty(), content, (target, String::new()));
    let mut line: Vec<Inline> = Vec::new();
    line.push(link);
    assert(inlines_view(line@) =~= seq![link.view()]);
    let mut lines: Vec<Vec<Inline>> = Vec::new();
    lines.push(line);
    assert(lines_view(lines@) =~= seq![inlines_view(line@)]);
    let ghost before = blocks_view(blocks@);
    let closing = Block::LineBlock(lines);
    assert(closing.view() == attribution(spec@.src));
    blocks.push(closing);
    assert(blocks_view(blocks@) =~= before.push(closing.view()));
    Block::BlockQuote(blocks)
}

/// The texts of the code blocks that include another document, in the order
/// of the document.
pub fn include_requests(blocks: &Vec<Block>) -> (r: Vec<String>)
    ensures
        views(r@) == texts_of(tagged(blocks_view(blocks@), INCLUDE_TAG@)),
{
    tagged_texts(blocks, INCLUDE_TAG)
}

/// An include that was resolved: what it asked for and the blocks of the
/// document that it named.
#[derive(Debug, PartialEq, Eq)]
pub struct Resolved {
    pub spec: IncludeSpec,
    pub doc: Vec<Block>,
}

/// What came of one include.
#[derive(Debug, PartialEq, Eq)]
pub enum Inclusion {
    /// The document that it names was found.
    Found(Resolved),
    /// The text of the code block says nothing that can be included.
    Malformed,
    /// The document that it names is not there or cannot be read.
    Missing,
}

/// What stands in place of one include: the quotation where the document was
/// found, a message where the text of the code block is malformed, and nothing
/// where the document is missing.
pub open spec fn inclusion_block(inclusion: Inclusion) -> Option<BlockView> {
    match inclusion {
        Inclusion::Found(r) => Some(included(r.spec@, blocks_view(r.doc@))),
        Inclusion::Malformed => Some(BlockView::RawBlock(MARKUP_FORMAT@, BAD_INCLUDE_TEXT@)),
        Inclusion::Missing => None,
    }
}

/// What stands in place of each include.
pub open spec fn include_blocks(inclusions: Seq<Inclusion>) -> Seq<Option<BlockView>> {
    Seq::new(inclusions.len(), |i: int| inclusion_block(inclusions[i]))
}

/// The document after the includes are put in.
pub open spec fn includes_applied(blocks: Seq<BlockView>, inclusions: Seq<Inclusion>) -> Seq<
    BlockView,
> {
    replaced(blocks, INCLUDE_TAG@, include_blocks(inclusions), 0)
}

/// Puts the included documents into the document: the entry at place `i`
/// belongs to the text at place `i` of [`include_requests`]. An include whose
/// document is missing, or that has no entry, stays as it is.
pub fn apply_includes(blocks: &Vec<Block>, inclusions: &Vec<Inclusion>) -> (r: Vec<Block>)
    ensures
        blocks_view(r@) == includes_applied(blocks_view(blocks@), inclusions@),
{
    let mut with: Vec<Option<Block>> = Vec::new();
    let mut i: usize = 0;
    while i < inclusions.len()
        invariant
            i <= inclusions.len(),
            with.len() == i,
            forall|k: int|
                0 <= k < i ==> replacements_view(with@)[k] == include_blocks(inclusions@)[k],
        decreases inclusions.len() - i,
    {
        let ghost before = replacements_view(with@);
        match &inclusions[i] {
            Inclusion::Found(r) => with.push(Some(include_block(&r.spec, &r.doc))),
            Inclusion::Malformed => with.push(
                Some(Block::RawBlock(MARKUP_FORMAT.to_owned(), BAD_INCLUDE_TEXT.to_owned())),
            ),
            Inclusion::Missing => with.push(None),
        }
        assert forall|k: int| 0 <= k < i + 1 implies replacements_view(with@)[k] == include_blocks(
            inclusions@,
        )[k] by {
            if k < i {
                assert(replacements_view(with@)[k] == before[k]);
            }
        }
        i += 1;
    }
    assert(replacements_view(with@) =~= include_blocks(inclusions@));
    replace_tagged(blocks, INCLUDE_TAG, &with)
}

} // verus!
