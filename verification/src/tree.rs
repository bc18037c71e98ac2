//! The tree of a converted document: blocks, the inline spans inside them and
//! the front-matter map.
//!
//! Each executable type has a view made of sequences of characters
//! ([`InlineView`], [`BlockView`], [`MetaValueView`], [`TreeView`]); the contracts
//! of the passes are stated over these views.

use crate::assoc::{find_key, keys_of, position};
use crate::text::{contains_string, pair_views, views};
use vstd::prelude::*;
use vstd::string::*;

verus! {

/// Identifier, class tags and key-value pairs of a node.
#[derive(Debug, PartialEq, Eq)]
pub struct Attr {
    pub id: String,
    pub classes: Vec<String>,
    pub attrs: Vec<(String, String)>,
}

/// The view of an [`Attr`].
pub struct AttrView {
    pub id: Seq<char>,
    pub classes: Seq<Seq<char>>,
    pub attrs: Seq<(Seq<char>, Seq<char>)>,
}

impl View for Attr {
    type V = AttrView;

    open spec fn view(&self) -> AttrView {
        AttrView { id: self.id@, classes: views(self.classes@), attrs: pair_views(self.attrs@) }
    }
}

impl AttrView {
    /// The attributes of a node that has none.
    pub open spec fn empty() -> AttrView {
        AttrView { id: Seq::empty(), classes: Seq::empty(), attrs: Seq::empty() }
    }

    /// Whether the node bears the class tag `class`.
    pub open spec fn has_class(self, class: Seq<char>) -> bool {
        self.classes.contains(class)
    }

    /// The keys of the key-value pairs.
    pub open spec fn keys(self) -> Seq<Seq<char>> {
        Seq::new(self.attrs.len(), |i: int| self.attrs[i].0)
    }

    /// The value of the first pair with key `key`.
    pub open spec fn value_of(self, key: Seq<char>) -> Option<Seq<char>> {
        match find_key(self.keys(), key) {
            Some(i) => Some(self.attrs[i].1),
            None => None,
        }
    }
}

/// A span of text inside a block.
#[derive(Debug, PartialEq, Eq)]
pub enum Inline {
    /// Literal text.
    Str(String),
    /// A space between words.
    Space,
    /// A line break that the source had and the output need not keep.
    SoftBreak,
    /// A line break.
    LineBreak,
    /// A link: attributes, displayed content, target URL and title.
    Link(Attr, Vec<Inline>, (String, String)),
    /// A span that holds spans, such as emphasis: what it is, as the converter
    /// wrote it, and its content.
    Styled(String, Vec<Inline>),
    /// Any other span, kept as the converter wrote it.
    Other(String),
}

/// The view of an [`Inline`].
pub enum InlineView {
    Str(Seq<char>),
    Space,
    SoftBreak,
    LineBreak,
    Link(AttrView, Seq<InlineView>, (Seq<char>, Seq<char>)),
    Styled(Seq<char>, Seq<InlineView>),
    Other(Seq<char>),
}

/// A structural part of a document.
#[derive(Debug, PartialEq, Eq)]
pub enum Block {
    /// Text that is no paragraph.
    Plain(Vec<Inline>),
    /// A paragraph.
    Para(Vec<Inline>),
    /// Lines that keep their breaks.
    LineBlock(Vec<Vec<Inline>>),
    /// Literal code with attributes.
    CodeBlock(Attr, String),
    /// Raw markup: target format and text.
    RawBlock(String, String),
    /// A quotation.
    BlockQuote(Vec<Block>),
    /// A heading: level, attributes and text.
    Header(i64, Attr, Vec<Inline>),
    /// A block that holds groups of blocks, such as a list with its items or a
    /// division: what it is, as the converter wrote it, and its groups.
    Nested(String, Vec<Vec<Block>>),
    /// Any other block, kept as the converter wrote it.
    Other(String),
}

/// The view of a [`Block`].
pub enum BlockView {
    Plain(Seq<InlineView>),
    Para(Seq<InlineView>),
    LineBlock(Seq<Seq<InlineView>>),
    CodeBlock(AttrView, Seq<char>),
    RawBlock(Seq<char>, Seq<char>),
    BlockQuote(Seq<BlockView>),
    Header(int, AttrView, Seq<InlineView>),
    Nested(Seq<char>, Seq<Seq<BlockView>>),
    Other(Seq<char>),
}

/// A front-matter value.
#[derive(Debug, PartialEq, Eq)]
pub enum MetaValue {
    MetaMap(Vec<(String, MetaValue)>),
    MetaList(Vec<MetaValue>),
    MetaBool(bool),
    MetaString(String),
}

/// The view of a [`MetaValue`].
pub enum MetaValueView {
    MetaMap(Seq<(Seq<char>, MetaValueView)>),
    MetaList(Seq<MetaValueView>),
    MetaBool(bool),
    MetaString(Seq<char>),
}

/// A converted document: its front matter and its blocks.
#[derive(Debug, PartialEq, Eq)]
pub struct Tree {
    pub meta: Vec<(String, MetaValue)>,
    pub blocks: Vec<Block>,
}

/// The view of a [`Tree`].
pub struct TreeView {
    pub meta: Seq<(Seq<char>, MetaValueView)>,
    pub blocks: Seq<BlockView>,
}

impl Inline {
    /// The span with its texts as sequences of characters.
    pub open spec fn view(&self) -> InlineView
        decreases self,
    {
        match self {
            Inline::Str(s) => InlineView::Str(s@),
            Inline::Space => InlineView::Space,
            Inline::SoftBreak => InlineView::SoftBreak,
            Inline::LineBreak => InlineView::LineBreak,
            Inline::Link(attr, content, target) => InlineView::Link(
                attr@,
                inlines_view(content@),
                (target.0@, target.1@),
            ),
            Inline::Styled(kind, content) => InlineView::Styled(kind@, inlines_view(content@)),
            Inline::Other(s) => InlineView::Other(s@),
        }
    }
}

/// The views of a sequence of inlines.
pub open spec fn inlines_view(s: Seq<Inline>) -> Seq<InlineView>
    decreases s,
{
    Seq::new(
        s.len(),
        |i: int|
            if 0 <= i < s.len() {
                s[i].view()
            } else {
                InlineView::Space
            },
    )
}

/// The views of a sequence of lines.
pub open spec fn lines_view(s: Seq<Vec<Inline>>) -> Seq<Seq<InlineView>> {
    Seq::new(s.len(), |i: int| inlines_view(s[i]@))
}

impl Block {
    /// The block with its texts as sequences of characters.
    pub open spec fn view(&self) -> BlockView
        decreases self,
    {
        match self {
            Block::Plain(c) => BlockView::Plain(inlines_view(c@)),
            Block::Para(c) => BlockView::Para(inlines_view(c@)),
            Block::LineBlock(lines) => BlockView::LineBlock(lines_view(lines@)),
            Block::CodeBlock(attr, text) => BlockView::CodeBlock(attr@, text@),
            Block::RawBlock(format, text) => BlockView::RawBlock(format@, text@),
            Block::BlockQuote(blocks) => BlockView::BlockQuote(blocks_view(blocks@)),
            Block::Header(level, attr, c) => BlockView::Header(
                *level as int,
                attr@,
                inlines_view(c@),
            ),
            Block::Nested(kind, groups) => BlockView::Nested(kind@, groups_view(groups@)),
            Block::Other(s) => BlockView::Other(s@),
        }
    }
}

/// The views of a sequence of groups of blocks.
pub open spec fn groups_view(s: Seq<Vec<Block>>) -> Seq<Seq<BlockView>>
    decreases s,
{
    Seq::new(
        s.len(),
        |i: int|
            if 0 <= i < s.len() {
                blocks_view(s[i]@)
            } else {
                Seq::empty()
            },
    )
}

/// The views of a sequence of blocks.
pub open spec fn blocks_view(s: Seq<Block>) -> Seq<BlockView>
    decreases s,
{
    Seq::new(
        s.len(),
        |i: int|
            if 0 <= i < s.len() {
                s[i].view()
            } else {
                BlockView::Other(Seq::empty())
            },
    )
}

impl MetaValue {
    /// The value with its texts as sequences of characters.
    pub open spec fn view(&self) -> MetaValueView
        decreases self,
    {
        match self {
            MetaValue::MetaMap(entries) => MetaValueView::MetaMap(entries_view(entries@)),
            MetaValue::MetaList(items) => MetaValueView::MetaList(values_view(items@)),
            MetaValue::MetaBool(b) => MetaValueView::MetaBool(*b),
            MetaValue::MetaString(s) => MetaValueView::MetaString(s@),
        }
    }
}

/// The views of a sequence of front-matter values.
pub open spec fn values_view(s: Seq<MetaValue>) -> Seq<MetaValueView>
    decreases s,
{
    Seq::new(
        s.len(),
        |i: int|
            if 0 <= i < s.len() {
                s[i].view()
            } else {
                MetaValueView::MetaBool(false)
            },
    )
}

/// The views of a sequence of front-matter entries.
pub open spec fn entries_view(s: Seq<(String, MetaValue)>) -> Seq<(Seq<char>, MetaValueView)>
    decreases s,
{
    Seq::new(
        s.len(),
        |i: int|
            if 0 <= i < s.len() {
                (s[i].0@, s[i].1.view())
            } else {
                (Seq::empty(), MetaValueView::MetaBool(false))
            },
    )
}

impl View for Tree {
    type V = TreeView;

    open spec fn view(&self) -> TreeView {
        TreeView { meta: entries_view(self.meta@), blocks: blocks_view(self.blocks@) }
    }
}

/// The keys of a front-matter map.
pub open spec fn entry_keys(entries: Seq<(Seq<char>, MetaValueView)>) -> Seq<Seq<char>> {
    Seq::new(entries.len(), |i: int| entries[i].0)
}

/// The value that a front-matter map holds under `key`: that of the first entry
/// with this key.
pub open spec fn meta_lookup(entries: Seq<(Seq<char>, MetaValueView)>, key: Seq<char>) -> Option<
    MetaValueView,
> {
    match find_key(entry_keys(entries), key) {
        Some(i) => Some(entries[i].1),
        None => None,
    }
}

/// A front-matter map with `value` under `key`: in place of the first entry with
/// this key, or at the end where there is none.
pub open spec fn meta_upsert(
    entries: Seq<(Seq<char>, MetaValueView)>,
    key: Seq<char>,
    value: MetaValueView,
) -> Seq<(Seq<char>, MetaValueView)> {
    match find_key(entry_keys(entries), key) {
        Some(i) => entries.update(i, (key, value)),
        None => entries.push((key, value)),
    }
}

/// A copy of a list of strings.
pub fn clone_strings(v: &Vec<String>) -> (r: Vec<String>)
    ensures
        views(r@) == views(v@),
{
    let mut out: Vec<String> = Vec::new();
    let mut i: usize = 0;
    while i < v.len()
        invariant
            i <= v.len(),
            out.len() == i,
            forall|k: int| 0 <= k < i ==> out[k]@ == v[k]@,
        decreases v.len() - i,
    {
        out.push(v[i].clone());
        i += 1;
    }
    assert(views(out@) =~= views(v@));
    out
}

/// A copy of a list of string pairs.
pub fn clone_pairs(v: &Vec<(String, String)>) -> (r: Vec<(String, String)>)
    ensures
        pair_views(r@) == pair_views(v@),
{
    let mut out: Vec<(String, String)> = Vec::new();
    let mut i: usize = 0;
    while i < v.len()
        invariant
            i <= v.len(),
            out.len() == i,
            forall|k: int| 0 <= k < i ==> out[k].0@ == v[k].0@ && out[k].1@ == v[k].1@,
        decreases v.len() - i,
    {
        out.push((v[i].0.clone(), v[i].1.clone()));
        i += 1;
    }
    assert(pair_views(out@) =~= pair_views(v@));
    out
}

impl Attr {
    /// The attributes of a node that has none.
    pub fn empty() -> (r: Attr)
        ensures
            r@ == AttrView::empty(),
    {
        let r = Attr { id: String::new(), classes: Vec::new(), attrs: Vec::new() };
        assert(r@.classes =~= Seq::empty());
        assert(r@.attrs =~= Seq::empty());
        r
    }

    /// A copy of these attributes.
    pub fn duplicate(&self) -> (r: Attr)
        ensures
            r@ == self@,
    {
        Attr {
            id: self.id.clone(),
            classes: clone_strings(&self.classes),
            attrs: clone_pairs(&self.attrs),
        }
    }

    /// Whether the node bears the class tag `class`.
    pub fn has_class(&self, class: &str) -> (r: bool)
        ensures
            r == self@.has_class(class@),
    {
        contains_string(&self.classes, class)
    }

    /// The value of the first key-value pair with key `key`.
    pub fn value_of(&self, key: &str) -> (r: Option<&String>)
        ensures
            match r {
                Some(v) => self@.value_of(key@) == Some(v@),
                None => self@.value_of(key@) is None,
            },
    {
        assert(self@.keys() =~= keys_of(self.attrs@));
        match position(&self.attrs, key) {
            Some(i) => Some(&self.attrs[i].1),
            None => None,
        }
    }
}

impl Inline {
    /// A copy of this span.
    pub fn duplicate(&self) -> (r: Inline)
        ensures
            r.view() == self.view(),
        decreases self,
    {
        match self {
            Inline::Str(s) => Inline::Str(s.clone()),
            Inline::Space => Inline::Space,
            Inline::SoftBreak => Inline::SoftBreak,
            Inline::LineBreak => Inline::LineBreak,
            Inline::Link(attr, content, target) => Inline::Link(
                attr.duplicate(),
                clone_inlines(content),
                (target.0.clone(), target.1.clone()),
            ),
            Inline::Styled(kind, content) => Inline::Styled(kind.clone(), clone_inlines(content)),
            Inline::Other(s) => Inline::Other(s.clone()),
        }
    }
}

/// A copy of a sequence of spans.
pub fn clone_inlines(v: &Vec<Inline>) -> (r: Vec<Inline>)
    ensures
        inlines_view(r@) == inlines_view(v@),
    decreases v,
{
    let mut out: Vec<Inline> = Vec::new();
    let mut i: usize = 0;
    while i < v.len()
        invariant
            i <= v.len(),
            out.len() == i,
            forall|k: int| 0 <= k < i ==> out[k].view() == v[k].view(),
        decreases v.len() - i,
    {
        out.push(v[i].duplicate());
        i += 1;
    }
    assert(inlines_view(out@) =~= inlines_view(v@));
    out
}

/// A copy of a sequence of lines.
pub fn clone_lines(v: &Vec<Vec<Inline>>) -> (r: Vec<Vec<Inline>>)
    ensures
        lines_view(r@) == lines_view(v@),
{
    let mut out: Vec<Vec<Inline>> = Vec::new();
    let mut i: usize = 0;
    while i < v.len()
        invariant
            i <= v.len(),
            out.len() == i,
            forall|k: int| 0 <= k < i ==> inlines_view(out[k]@) == inlines_view(v[k]@),
        decreases v.len() - i,
    {
        out.push(clone_inlines(&v[i]));
        i += 1;
    }
    assert(lines_view(out@) =~= lines_view(v@));
    out
}

impl Block {
    /// A copy of this block.
    pub fn duplicate(&self) -> (r: Block)
        ensures
            r.view() == self.view(),
        decreases self,
    {
        match self {
            Block::Plain(c) => Block::Plain(clone_inlines(c)),
            Block::Para(c) => Block::Para(clone_inlines(c)),
            Block::LineBlock(lines) => Block::LineBlock(clone_lines(lines)),
            Block::CodeBlock(attr, text) => Block::CodeBlock(attr.duplicate(), text.clone()),
            Block::RawBlock(format, text) => Block::RawBlock(format.clone(), text.clone()),
            Block::BlockQuote(blocks) => Block::BlockQuote(clone_blocks(blocks)),
            Block::Header(level, attr, c) => Block::Header(
                *level,
                attr.duplicate(),
                clone_inlines(c),
            ),
            Block::Nested(kind, groups) => Block::Nested(kind.clone(), clone_groups(groups)),
            Block::Other(s) => Block::Other(s.clone()),
        }
    }
}

/// A copy of a sequence of groups of blocks.
pub fn clone_groups(v: &Vec<Vec<Block>>) -> (r: Vec<Vec<Block>>)
    ensures
        groups_view(r@) == groups_view(v@),
    decreases v,
{
    let mut out: Vec<Vec<Block>> = Vec::new();
    let mut i: usize = 0;
    while i < v.len()
        invariant
            i <= v.len(),
            out.len() == i,
            forall|k: int| 0 <= k < i ==> blocks_view(out[k]@) == blocks_view(v[k]@),
        decreases v.len() - i,
    {
        out.push(clone_blocks(&v[i]));
        i += 1;
    }
    assert(groups_view(out@) =~= groups_view(v@));
    out
}

/// A copy of a sequence of blocks.
pub fn clone_blocks(v: &Vec<Block>) -> (r: Vec<Block>)
    ensures
        blocks_view(r@) == blocks_view(v@),
    decreases v,
{
    let mut out: Vec<Block> = Vec::new();
    let mut i: usize = 0;
    while i < v.len()
        invariant
            i <= v.len(),
            out.len() == i,
            forall|k: int| 0 <= k < i ==> out[k].view() == v[k].view(),
        decreases v.len() - i,
    {
        out.push(v[i].duplicate());
        i += 1;
    }
    assert(blocks_view(out@) =~= blocks_view(v@));
    out
}

impl MetaValue {
    /// A copy of this value.
    pub fn duplicate(&self) -> (r: MetaValue)
        ensures
            r.view() == self.view(),
        decreases self,
    {
        match self {
            MetaValue::MetaMap(entries) => MetaValue::MetaMap(clone_entries(entries)),
            MetaValue::MetaList(items) => MetaValue::MetaList(clone_values(items)),
            MetaValue::MetaBool(b) => MetaValue::MetaBool(*b),
            MetaValue::MetaString(s) => MetaValue::MetaString(s.clone()),
        }
    }
}

/// A copy of a sequence of front-matter values.
pub fn clone_values(v: &Vec<MetaValue>) -> (r: Vec<MetaValue>)
    ensures
        values_view(r@) == values_view(v@),
    decreases v,
{
    let mut out: Vec<MetaValue> = Vec::new();
    let mut i: usize = 0;
    while i < v.len()
        invariant
            i <= v.len(),
            out.len() == i,
            forall|k: int| 0 <= k < i ==> out[k].view() == v[k].view(),
        decreases v.len() - i,
    {
        out.push(v[i].duplicate());
        i += 1;
    }
    assert(values_view(out@) =~= values_view(v@));
    out
}

/// A copy of a front-matter map.
pub fn clone_entries(v: &Vec<(String, MetaValue)>) -> (r: Vec<(String, MetaValue)>)
    ensures
        entries_view(r@) == entries_view(v@),
    decreases v,
{
    let mut out: Vec<(String, MetaValue)> = Vec::new();
    let mut i: usize = 0;
    while i < v.len()
        invariant
            i <= v.len(),
            out.len() == i,
            forall|k: int| 0 <= k < i ==> out[k].0@ == v[k].0@ && out[k].1.view() == v[k].1.view(),
        decreases v.len() - i,
    {
        out.push((v[i].0.clone(), v[i].1.duplicate()));
        i += 1;
    }
    assert(entries_view(out@) =~= entries_view(v@));
    out
}

impl InlineView {
    /// The span as plain text: its text, a space for a space, a line feed for a
    /// line break, and nothing for any other span.
    pub open spec fn text(self) -> Seq<char> {
        match self {
            InlineView::Str(s) => s,
            InlineView::Space => " "@,
            InlineView::SoftBreak => "\n"@,
            InlineView::LineBreak => "\n"@,
            _ => Seq::empty(),
        }
    }
}

/// A sequence of spans as plain text.
pub open spec fn inlines_text(s: Seq<InlineView>) -> Seq<char>
    decreases s.len(),
{
    if s.len() == 0 {
        Seq::empty()
    } else {
        inlines_text(s.drop_last()) + s.last().text()
    }
}

/// A sequence of lines as plain text, each closed by a line feed.
pub open spec fn lines_text(s: Seq<Seq<InlineView>>) -> Seq<char>
    decreases s.len(),
{
    if s.len() == 0 {
        Seq::empty()
    } else {
        lines_text(s.drop_last()) + inlines_text(s.last()) + "\n"@
    }
}

impl BlockView {
    /// The block as plain text: the text of its spans for a paragraph, each
    /// line and a line feed for lines, the raw text for raw markup, each block
    /// and a line feed for a quotation, and nothing for any other block.
    pub open spec fn text(self) -> Seq<char>
        decreases self,
    {
        match self {
            BlockView::Plain(c) => inlines_text(c),
            BlockView::Para(c) => inlines_text(c),
            BlockView::LineBlock(lines) => lines_text(lines),
            BlockView::RawBlock(_, text) => text,
            BlockView::BlockQuote(blocks) => quoted_text(blocks),
            _ => Seq::empty(),
        }
    }
}

/// A sequence of quoted blocks as plain text, each closed by a line feed.
pub open spec fn quoted_text(s: Seq<BlockView>) -> Seq<char>
    decreases s,
{
    if s.len() == 0 {
        Seq::empty()
    } else {
        quoted_text(s.drop_last()) + s.last().text() + "\n"@
    }
}

/// A sequence of blocks as plain text, one after the other.
pub open spec fn blocks_text(s: Seq<BlockView>) -> Seq<char>
    decreases s.len(),
{
    if s.len() == 0 {
        Seq::empty()
    } else {
        blocks_text(s.drop_last()) + s.last().text()
    }
}

impl Inline {
    fn push_text(&self, out: &mut String)
        ensures
            final(out)@ == old(out)@ + self.view().text(),
    {
        match self {
            Inline::Str(s) => out.append(s.as_str()),
            Inline::Space => out.append(" "),
            Inline::SoftBreak => out.append("\n"),
            Inline::LineBreak => out.append("\n"),
            _ => {
                assert(out@ =~= old(out)@ + self.view().text());
            },
        }
    }
}

fn push_inlines_text(inlines: &Vec<Inline>, out: &mut String)
    ensures
        final(out)@ == old(out)@ + inlines_text(inlines_view(inlines@)),
{
    let ghost all = inlines_view(inlines@);
    let mut i: usize = 0;
    assert(all.take(0) =~= Seq::empty());
    assert(out@ =~= old(out)@ + inlines_text(all.take(0)));
    while i < inlines.len()
        invariant
            i <= inlines.len(),
            all == inlines_view(inlines@),
            out@ == old(out)@ + inlines_text(all.take(i as int)),
        decreases inlines.len() - i,
    {
        proof {
            assert(all.take(i + 1).drop_last() =~= all.take(i as int));
            assert(all.take(i + 1).last() == inlines[i as int].view());
        }
        inlines[i].push_text(out);
        assert(out@ =~= old(out)@ + inlines_text(all.take(i + 1)));
        i += 1;
    }
    assert(all.take(i as int) =~= all);
}

/// A sequence of spans as plain text.
pub fn plain_text(inlines: &Vec<Inline>) -> (r: String)
    ensures
        r@ == inlines_text(inlines_view(inlines@)),
{
    let mut out = String::new();
    push_inlines_text(inlines, &mut out);
    assert(Seq::<char>::empty() + inlines_text(inlines_view(inlines@)) =~= inlines_text(
        inlines_view(inlines@),
    ));
    out
}

fn push_lines_text(lines: &Vec<Vec<Inline>>, out: &mut String)
    ensures
        final(out)@ == old(out)@ + lines_text(lines_view(lines@)),
{
    let ghost all = lines_view(lines@);
    let mut i: usize = 0;
    assert(all.take(0) =~= Seq::empty());
    assert(out@ =~= old(out)@ + lines_text(all.take(0)));
    while i < lines.len()
        invariant
            i <= lines.len(),
            all == lines_view(lines@),
            out@ == old(out)@ + lines_text(all.take(i as int)),
        decreases lines.len() - i,
    {
        proof {
            assert(all.take(i + 1).drop_last() =~= all.take(i as int));
            assert(all.take(i + 1).last() == inlines_view(lines[i as int]@));
        }
        push_inlines_text(&lines[i], out);
        out.append("\n");
        assert(out@ =~= old(out)@ + lines_text(all.take(i + 1)));
        i += 1;
    }
    assert(all.take(i as int) =~= all);
}

impl Block {
    fn push_text(&self, out: &mut String)
        ensures
            final(out)@ == old(out)@ + self.view().text(),
        decreases self,
    {
        match self {
            Block::Plain(c) => push_inlines_text(c, out),
            Block::Para(c) => push_inlines_text(c, out),
            Block::LineBlock(lines) => push_lines_text(lines, out),
            Block::RawBlock(_, text) => out.append(text.as_str()),
            Block::BlockQuote(blocks) => push_quoted_text(blocks, out),
            _ => {
                assert(out@ =~= old(out)@ + self.view().text());
            },
        }
    }
}

fn push_quoted_text(blocks: &Vec<Block>, out: &mut String)
    ensures
        final(out)@ == old(out)@ + quoted_text(blocks_view(blocks@)),
    decreases blocks,
{
    let ghost all = blocks_view(blocks@);
    let mut i: usize = 0;
    assert(all.take(0) =~= Seq::empty());
    assert(out@ =~= old(out)@ + quoted_text(all.take(0)));
    while i < blocks.len()
        invariant
            i <= blocks.len(),
            all == blocks_view(blocks@),
            out@ == old(out)@ + quoted_text(all.take(i as int)),
        decreases blocks.len() - i,
    {
        proof {
            assert(all.take(i + 1).drop_last() =~= all.take(i as int));
            assert(all.take(i + 1).last() == blocks[i as int].view());
        }
        blocks[i].push_text(out);
        out.append("\n");
        assert(out@ =~= old(out)@ + quoted_text(all.take(i + 1)));
        i += 1;
    }
    assert(all.take(i as int) =~= all);
}

/// A sequence of blocks as plain text, one after the other.
pub fn blocks_plain_text(blocks: &Vec<Block>) -> (r: String)
    ensures
        r@ == blocks_text(blocks_view(blocks@)),
{
    let ghost all = blocks_view(blocks@);
    let mut out = String::new();
    let mut i: usize = 0;
    assert(all.take(0) =~= Seq::empty());
    while i < blocks.len()
        invariant
            i <= blocks.len(),
            all == blocks_view(blocks@),
            out@ == blocks_text(all.take(i as int)),
        decreases blocks.len() - i,
    {
        proof {
            assert(all.take(i + 1).drop_last() =~= all.take(i as int));
            assert(all.take(i + 1).last() == blocks[i as int].view());
        }
        blocks[i].push_text(&mut out);
        i += 1;
    }
    assert(all.take(i as int) =~= all);
    out
}

/// The value that the front matter holds under `key`.
pub fn meta_get<'a>(meta: &'a Vec<(String, MetaValue)>, key: &str) -> (r: Option<&'a MetaValue>)
    ensures
        match r {
            Some(v) => meta_lookup(entries_view(meta@), key@) == Some(v.view()),
            None => meta_lookup(entries_view(meta@), key@) is None,
        },
{
    assert(entry_keys(entries_view(meta@)) =~= keys_of(meta@));
    match position(meta, key) {
        Some(i) => Some(&meta[i].1),
        None => None,
    }
}

/// Puts `value` under `key`: in place of the first entry with this key, or at
/// the end where there is none.
pub fn meta_insert(meta: &mut Vec<(String, MetaValue)>, key: &str, value: MetaValue)
    ensures
        entries_view(final(meta)@) == meta_upsert(entries_view(old(meta)@), key@, value.view()),
{
    assert(entry_keys(entries_view(meta@)) =~= keys_of(meta@));
    match position(meta, key) {
        Some(i) => {
            meta.set(i, (key.to_owned(), value));
            assert(entries_view(meta@) =~= entries_view(old(meta)@).update(
                i as int,
                (key@, value.view()),
            ));
        },
        None => {
            meta.push((key.to_owned(), value));
            assert(entries_view(meta@) =~= entries_view(old(meta)@).push((key@, value.view())));
        },
    }
}

} // verus!
