//! The pass that finds the mentions of a document and the type of post that
//! they make it.

use crate::meta::PostType;
use crate::text::{same_text, views};
use crate::tree::{
    blocks_view, clone_values, entries_view, entry_keys, groups_view, inlines_view, lines_view,
    meta_get,
    meta_insert, meta_lookup, meta_upsert, values_view, AttrView, Block, BlockView, Inline,
    InlineView, MetaValue, MetaValueView, Tree, TreeView,
};
use crate::assoc::has_key;
use vstd::prelude::*;
use vstd::string::*;

verus! {

/// Where every document reports itself.
pub const BRIDGE: &'static str = "https://fed.brid.gy/";

/// What the links of a document say: the targets of its mentions, in the order
/// of the document, and the type of post.
#[derive(Debug, PartialEq, Eq)]
pub struct LinkScan {
    pub mentions: Vec<String>,
    pub post_type: PostType,
}

/// The view of a [`LinkScan`].
pub struct LinkScanView {
    pub mentions: Seq<Seq<char>>,
    pub post_type: PostType,
}

impl View for LinkScan {
    type V = LinkScanView;

    open spec fn view(&self) -> LinkScanView {
        LinkScanView { mentions: views(self.mentions@), post_type: self.post_type }
    }
}

/// The type of post that a class tag stands for; `Note` for a tag that stands for none.
pub open spec fn class_type(class: Seq<char>) -> PostType {
    if class == "u-like-of"@ {
        PostType::Like
    } else if class == "u-repost-of"@ {
        PostType::Repost
    } else if class == "u-in-reply-to"@ {
        PostType::Reply
    } else {
        PostType::Note
    }
}

/// The type of post after the class tags of one mention: the type so far
/// unless that is `Note`, else what the first tag that stands for a type says.
pub open spec fn classify(so_far: PostType, classes: Seq<Seq<char>>) -> PostType
    decreases classes.len(),
{
    if classes.len() == 0 {
        so_far
    } else {
        let before = classify(so_far, classes.drop_last());
        if before == PostType::Note {
            class_type(classes.last())
        } else {
            before
        }
    }
}

/// The scan after a link with attributes `attr` and target `url`: a link that
/// bears the class tag `mention` adds its target and may set the type.
pub open spec fn scan_link(attr: AttrView, url: Seq<char>, acc: LinkScanView) -> LinkScanView {
    if attr.has_class("mention"@) {
        LinkScanView {
            mentions: acc.mentions.push(url),
            post_type: classify(acc.post_type, attr.classes),
        }
    } else {
        acc
    }
}

/// The scan after one span: a link is looked at, then its content.
pub open spec fn scan_inline(inline: InlineView, acc: LinkScanView) -> LinkScanView
    decreases inline,
{
    match inline {
        InlineView::Link(attr, content, target) => scan_inlines(
            content,
            scan_link(attr, target.0, acc),
        ),
        InlineView::Styled(_, content) => scan_inlines(content, acc),
        _ => acc,
    }
}

/// The scan after a sequence of spans, first to last.
pub open spec fn scan_inlines(s: Seq<InlineView>, acc: LinkScanView) -> LinkScanView
    decreases s,
{
    if s.len() == 0 {
        acc
    } else {
        scan_inline(s.last(), scan_inlines(s.drop_last(), acc))
    }
}

/// The scan after a sequence of lines, first to last.
pub open spec fn scan_lines(s: Seq<Seq<InlineView>>, acc: LinkScanView) -> LinkScanView
    decreases s,
{
    if s.len() == 0 {
        acc
    } else {
        scan_inlines(s.last(), scan_lines(s.drop_last(), acc))
    }
}

/// The scan after one block.
pub open spec fn scan_block(block: BlockView, acc: LinkScanView) -> LinkScanView
    decreases block,
{
    match block {
        BlockView::Plain(c) => scan_inlines(c, acc),
        BlockView::Para(c) => scan_inlines(c, acc),
        BlockView::Header(_, _, c) => scan_inlines(c, acc),
        BlockView::LineBlock(lines) => scan_lines(lines, acc),
        BlockView::BlockQuote(blocks) => scan_blocks(blocks, acc),
        BlockView::Nested(_, groups) => scan_groups(groups, acc),
        _ => acc,
    }
}

/// The scan after a sequence of groups of blocks, first to last.
pub open spec fn scan_groups(s: Seq<Seq<BlockView>>, acc: LinkScanView) -> LinkScanView
    decreases s,
{
    if s.len() == 0 {
        acc
    } else {
        scan_blocks(s.last(), scan_groups(s.drop_last(), acc))
    }
}

/// The scan after a sequence of blocks, first to last.
pub open spec fn scan_blocks(s: Seq<BlockView>, acc: LinkScanView) -> LinkScanView
    decreases s,
{
    if s.len() == 0 {
        acc
    } else {
        scan_block(s.last(), scan_blocks(s.drop_last(), acc))
    }
}

/// The scan of a document that has no links.
pub open spec fn no_links() -> LinkScanView {
    LinkScanView { mentions: Seq::empty(), post_type: PostType::Note }
}

fn type_of_class(class: &str) -> (r: PostType)
    ensures
        r == class_type(class@),
{
    if same_text(class, "u-like-of") {
        PostType::Like
    } else if same_text(class, "u-repost-of") {
        PostType::Repost
    } else if same_text(class, "u-in-reply-to") {
        PostType::Reply
    } else {
        PostType::Note
    }
}

fn classify_by(so_far: PostType, classes: &Vec<String>) -> (r: PostType)
    ensures
        r == classify(so_far, views(classes@)),
{
    let ghost all = views(classes@);
    let mut current = so_far;
    let mut i: usize = 0;
    assert(all.take(0) =~= Seq::empty());
    while i < classes.len()
        invariant
            i <= classes.len(),
            all == views(classes@),
            current == classify(so_far, all.take(i as int)),
        decreases classes.len() - i,
    {
        proof {
            assert(all.take(i + 1).drop_last() =~= all.take(i as int));
            assert(all.take(i + 1).last() == classes[i as int]@);
        }
        if current == PostType::Note {
            current = type_of_class(classes[i].as_str());
        }
        i += 1;
    }
    assert(all.take(i as int) =~= all);
    current
}

impl Inline {
    /// Adds what this span says to the scan.
    pub fn scan(&self, acc: LinkScan) -> (r: LinkScan)
        ensures
            r@ == scan_inline(self.view(), acc@),
        decreases self,
    {
        match self {
            Inline::Link(attr, content, target) => {
                let mut acc = acc;
                if attr.has_class("mention") {
                    let ghost before = acc@;
                    acc.mentions.push(target.0.clone());
                    acc.post_type = classify_by(acc.post_type, &attr.classes);
                    assert(acc@.mentions =~= before.mentions.push(target.0@));
                }
                scan_all_inlines(content, acc)
            },
            Inline::Styled(_, content) => scan_all_inlines(content, acc),
            _ => acc,
        }
    }
}

/// Adds what a sequence of spans says to the scan.
pub fn scan_all_inlines(inlines: &Vec<Inline>, acc: LinkScan) -> (r: LinkScan)
    ensures
        r@ == scan_inlines(inlines_view(inlines@), acc@),
    decreases inlines,
{
    let ghost all = inlines_view(inlines@);
    let ghost start = acc@;
    let mut acc = acc;
    let mut i: usize = 0;
    assert(all.take(0) =~= Seq::empty());
    while i < inlines.len()
        invariant
            i <= inlines.len(),
            all == inlines_view(inlines@),
            acc@ == scan_inlines(all.take(i as int), start),
        decreases inlines.len() - i,
    {
        proof {
            assert(all.take(i + 1).drop_last() =~= all.take(i as int));
            assert(all.take(i + 1).last() == inlines[i as int].view());
        }
        acc = inlines[i].scan(acc);
        i += 1;
    }
    assert(all.take(i as int) =~= all);
    acc
}

fn scan_all_lines(lines: &Vec<Vec<Inline>>, acc: LinkScan) -> (r: LinkScan)
    ensures
        r@ == scan_lines(lines_view(lines@), acc@),
{
    let ghost all = lines_view(lines@);
    let ghost start = acc@;
    let mut acc = acc;
    let mut i: usize = 0;
    assert(all.take(0) =~= Seq::empty());
    while i < lines.len()
        invariant
            i <= lines.len(),
            all == lines_view(lines@),
            acc@ == scan_lines(all.take(i as int), start),
        decreases lines.len() - i,
    {
        proof {
            assert(all.take(i + 1).drop_last() =~= all.take(i as int));
            assert(all.take(i + 1).last() == inlines_view(lines[i as int]@));
        }
        acc = scan_all_inlines(&lines[i], acc);
        i += 1;
    }
    assert(all.take(i as int) =~= all);
    acc
}

impl Block {
    /// Adds what this block says to the scan.
    pub fn scan(&self, acc: LinkScan) -> (r: LinkScan)
        ensures
            r@ == scan_block(self.view(), acc@),
        decreases self,
    {
        match self {
            Block::Plain(c) => scan_all_inlines(c, acc),
            Block::Para(c) => scan_all_inlines(c, acc),
            Block::Header(_, _, c) => scan_all_inlines(c, acc),
            Block::LineBlock(lines) => scan_all_lines(lines, acc),
            Block::BlockQuote(blocks) => scan_all_blocks(blocks, acc),
            Block::Nested(_, groups) => scan_all_groups(groups, acc),
            _ => acc,
        }
    }
}

fn scan_all_groups(groups: &Vec<Vec<Block>>, acc: LinkScan) -> (r: LinkScan)
    ensures
        r@ == scan_groups(groups_view(groups@), acc@),
    decreases groups,
{
    let ghost all = groups_view(groups@);
    let ghost start = acc@;
    let mut acc = acc;
    let mut i: usize = 0;
    assert(all.take(0) =~= Seq::empty());
    while i < groups.len()
        invariant
            i <= groups.len(),
            all == groups_view(groups@),
            acc@ == scan_groups(all.take(i as int), start),
        decreases groups.len() - i,
    {
        proof {
            assert(all.take(i + 1).drop_last() =~= all.take(i as int));
            assert(all.take(i + 1).last() == blocks_view(groups[i as int]@));
        }
        acc = scan_all_blocks(&groups[i], acc);
        i += 1;
    }
    assert(all.take(i as int) =~= all);
    acc
}

/// Adds what a sequence of blocks says to the scan.
pub fn scan_all_blocks(blocks: &Vec<Block>, acc: LinkScan) -> (r: LinkScan)
    ensures
        r@ == scan_blocks(blocks_view(blocks@), acc@),
    decreases blocks,
{
    let ghost all = blocks_view(blocks@);
    let ghost start = acc@;
    let mut acc = acc;
    let mut i: usize = 0;
    assert(all.take(0) =~= Seq::empty());
    while i < blocks.len()
        invariant
            i <= blocks.len(),
            all == blocks_view(blocks@),
            acc@ == scan_blocks(all.take(i as int), start),
        decreases blocks.len() - i,
    {
        proof {
            assert(all.take(i + 1).drop_last() =~= all.take(i as int));
            assert(all.take(i + 1).last() == blocks[i as int].view());
        }
        acc = blocks[i].scan(acc);
        i += 1;
    }
    assert(all.take(i as int) =~= all);
    acc
}

/// The mentions of a document and the type of post that its links make it.
pub fn scan_links(blocks: &Vec<Block>) -> (r: LinkScan)
    ensures
        r@ == scan_blocks(blocks_view(blocks@), no_links()),
{
    let start = LinkScan { mentions: Vec::new(), post_type: PostType::Note };
    assert(start@.mentions =~= Seq::empty());
    scan_all_blocks(blocks, start)
}

/// The type of post of a document: what its links say; where they say nothing,
/// `Article` for a document with a title and `Note` for one without.
pub open spec fn post_type_of(tree: TreeView) -> PostType {
    let scanned = scan_blocks(tree.blocks, no_links()).post_type;
    if scanned == PostType::Note && has_key(entry_keys(tree.meta), "title"@) {
        PostType::Article
    } else {
        scanned
    }
}

/// Each text as a front-matter string.
pub open spec fn as_strings(texts: Seq<Seq<char>>) -> Seq<MetaValueView> {
    Seq::new(texts.len(), |i: int| MetaValueView::MetaString(texts[i]))
}

/// The mentions that the front matter of a document lists.
pub open spec fn listed_mentions(meta: Seq<(Seq<char>, MetaValueView)>) -> Seq<MetaValueView> {
    match meta_lookup(meta, "mentions"@) {
        Some(MetaValueView::MetaList(items)) => items,
        _ => Seq::empty(),
    }
}

/// The mentions of a document: the targets of its mention links, then the
/// bridge, then what its front matter lists.
pub open spec fn mentions_of(tree: TreeView, bridge: Seq<char>) -> Seq<MetaValueView> {
    as_strings(scan_blocks(tree.blocks, no_links()).mentions.push(bridge)) + listed_mentions(
        tree.meta,
    )
}

/// The front matter with `template` set to the default of the post type,
/// unless the document names a template.
pub open spec fn with_template(meta: Seq<(Seq<char>, MetaValueView)>, post_type: PostType) -> Seq<
    (Seq<char>, MetaValueView),
> {
    if has_key(entry_keys(meta), "template"@) {
        meta
    } else {
        meta_upsert(meta, "template"@, MetaValueView::MetaString(post_type.template()))
    }
}

/// The document after the pass: its blocks as they were, and in its front
/// matter the mentions, the type of post and the template.
pub open spec fn links_found(tree: TreeView, bridge: Seq<char>) -> TreeView {
    let post_type = post_type_of(tree);
    let with_mentions = meta_upsert(
        tree.meta,
        "mentions"@,
        MetaValueView::MetaList(mentions_of(tree, bridge)),
    );
    let with_type = meta_upsert(
        with_mentions,
        "post_type"@,
        MetaValueView::MetaString(post_type.name()),
    );
    TreeView { meta: with_template(with_type, post_type), blocks: tree.blocks }
}

/// Finds the mentions of a document and its type of post, and writes both into
/// its front matter, with the template that the type of post calls for where
/// the document names none. `bridge` is added to the mentions of every document.
pub fn find_links(tree: Tree, bridge: &str) -> (r: Tree)
    ensures
        r@ == links_found(tree@, bridge@),
{
    let mut tree = tree;
    let ghost given = tree@;
    let scan = scan_links(&tree.blocks);
    let mut post_type = scan.post_type;
    proof {
        crate::assoc::lemma_find_key(entry_keys(given.meta), "title"@);
    }
    if post_type == PostType::Note && meta_get(&tree.meta, "title").is_some() {
        post_type = PostType::Article;
    }
    assert(post_type == post_type_of(given));

    let mut mentions: Vec<MetaValue> = Vec::new();
    let mut i: usize = 0;
    assert(values_view(mentions@) =~= as_strings(scan@.mentions.take(0)));
    while i < scan.mentions.len()
        invariant
            i <= scan.mentions.len(),
            values_view(mentions@) == as_strings(scan@.mentions.take(i as int)),
        decreases scan.mentions.len() - i,
    {
        let ghost before = values_view(mentions@);
        mentions.push(MetaValue::MetaString(scan.mentions[i].clone()));
        assert(values_view(mentions@) =~= before.push(
            MetaValueView::MetaString(scan@.mentions[i as int]),
        ));
        assert(values_view(mentions@) =~= as_strings(scan@.mentions.take(i + 1)));
        i += 1;
    }
    assert(scan@.mentions.take(i as int) =~= scan@.mentions);
    let ghost found = values_view(mentions@);
    mentions.push(MetaValue::MetaString(bridge.to_owned()));
    assert(values_view(mentions@) =~= found.push(MetaValueView::MetaString(bridge@)));
    assert(values_view(mentions@) =~= as_strings(scan@.mentions.push(bridge@)));
    match meta_get(&tree.meta, "mentions") {
        Some(MetaValue::MetaList(existing)) => {
            let mut more = clone_values(existing);
            let ghost first = values_view(mentions@);
            let ghost second = values_view(more@);
            mentions.append(&mut more);
            assert(values_view(mentions@) =~= first + second);
        },
        _ => {
            assert(values_view(mentions@) + Seq::<MetaValueView>::empty() =~= values_view(
                mentions@,
            ));
        },
    }
    assert(values_view(mentions@) == mentions_of(given, bridge@));
    meta_insert(&mut tree.meta, "mentions", MetaValue::MetaList(mentions));
    meta_insert(&mut tree.meta, "post_type", MetaValue::MetaString(post_type.as_str().to_owned()));
    proof {
        crate::assoc::lemma_find_key(entry_keys(entries_view(tree.meta@)), "template"@);
    }
    if meta_get(&tree.meta, "template").is_none() {
        meta_insert(
            &mut tree.meta,
            "template",
            MetaValue::MetaString(post_type.template_name().to_owned()),
        );
    }
    tree
}

/// The front matter with the pages that mention the document added to its
/// `mentioners`: behind those that are listed, or as a new list where the front
/// matter has none. A front matter in which `mentioners` is no list stays as
/// it is.
pub open spec fn with_mentioners(
    meta: Seq<(Seq<char>, MetaValueView)>,
    pages: Seq<Seq<char>>,
) -> Seq<(Seq<char>, MetaValueView)> {
    match meta_lookup(meta, "mentioners"@) {
        None => meta_upsert(meta, "mentioners"@, MetaValueView::MetaList(as_strings(pages))),
        Some(MetaValueView::MetaList(listed)) => meta_upsert(
            meta,
            "mentioners"@,
            MetaValueView::MetaList(listed + as_strings(pages)),
        ),
        Some(_) => meta,
    }
}

/// Adds the pages that mention a document to the `mentioners` of its front matter.
pub fn attach_mentioners(tree: Tree, pages: &Vec<String>) -> (r: Tree)
    ensures
        r@ == (TreeView { meta: with_mentioners(tree@.meta, views(pages@)), blocks: tree@.blocks }),
{
    let mut tree = tree;
    let mut list: Vec<MetaValue> = match meta_get(&tree.meta, "mentioners") {
        None => {
            let none: Vec<MetaValue> = Vec::new();
            assert(values_view(none@) =~= Seq::empty());
            none
        },
        Some(MetaValue::MetaList(listed)) => clone_values(listed),
        Some(_) => {
            return tree;
        },
    };
    let ghost listed = values_view(list@);
    let mut i: usize = 0;
    assert(listed + as_strings(views(pages@).take(0)) =~= listed);
    while i < pages.len()
        invariant
            i <= pages.len(),
            values_view(list@) == listed + as_strings(views(pages@).take(i as int)),
        decreases pages.len() - i,
    {
        let ghost before = values_view(list@);
        list.push(MetaValue::MetaString(pages[i].clone()));
        assert(values_view(list@) =~= before.push(MetaValueView::MetaString(pages[i as int]@)));
        assert(values_view(list@) =~= listed + as_strings(views(pages@).take(i + 1)));
        i += 1;
    }
    assert(views(pages@).take(i as int) =~= views(pages@));
    assert(Seq::<MetaValueView>::empty() + as_strings(views(pages@)) =~= as_strings(
        views(pages@),
    ));
    meta_insert(&mut tree.meta, "mentioners", MetaValue::MetaList(list));
    tree
}

} // verus!
