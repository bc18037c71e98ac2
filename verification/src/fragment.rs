//! The pass that puts rendered search results in place of the code blocks
//! tagged `search`.
//!
//! Reading the query in a code block, running it and rendering the results is
//! the caller's work: it takes the texts from [`search_requests`] and hands
//! what it rendered to [`apply_search`].

use crate::meta::ArticleMeta;
use crate::rewrite::{replace_tagged, replaced, replacements_view, tagged, tagged_texts, texts_of};
use crate::session::{last_seen, ClientPersist};
use crate::text::views;
use crate::transclude::MARKUP_FORMAT;
use crate::tree::{blocks_view, Block, BlockView};
use vstd::prelude::*;
use vstd::string::*;

verus! {

/// The class tag of the code blocks that hold a query.
pub const SEARCH_TAG: &'static str = "search";

/// What stands in place of a code block whose query could not be read.
pub const BAD_QUERY_TEXT: &'static str = "Bad search block";

/// What begins the text that stands in place of results that could not be rendered.
pub const RENDER_FAILURE_TEXT: &'static str = "Search template failure: ";

/// What came of one embedded query.
#[derive(Debug, PartialEq, Eq)]
pub enum Rendering {
    /// The results, rendered as markup.
    Rendered(String),
    /// The text of the code block is no query.
    Malformed,
    /// The results could not be rendered; the text says why.
    Failed(String),
}

/// The view of a [`Rendering`].
pub enum RenderingView {
    Rendered(Seq<char>),
    Malformed,
    Failed(Seq<char>),
}

impl View for Rendering {
    type V = RenderingView;

    open spec fn view(&self) -> RenderingView {
        match self {
            Rendering::Rendered(s) => RenderingView::Rendered(s@),
            Rendering::Malformed => RenderingView::Malformed,
            Rendering::Failed(s) => RenderingView::Failed(s@),
        }
    }
}

/// What stands in place of an embedded query: a block of raw markup that holds
/// the rendered results, or a message where there are none.
pub open spec fn rendering_block(rendering: RenderingView) -> BlockView {
    match rendering {
        RenderingView::Rendered(markup) => BlockView::RawBlock(MARKUP_FORMAT@, markup),
        RenderingView::Malformed => BlockView::RawBlock(MARKUP_FORMAT@, BAD_QUERY_TEXT@),
        RenderingView::Failed(why) => BlockView::RawBlock(
            MARKUP_FORMAT@,
            RENDER_FAILURE_TEXT@ + why,
        ),
    }
}

/// What stands in place of each embedded query; nothing for one that has no rendering.
pub open spec fn rendering_blocks(renderings: Seq<Option<Rendering>>) -> Seq<Option<BlockView>> {
    Seq::new(
        renderings.len(),
        |i: int|
            match renderings[i] {
                Some(r) => Some(rendering_block(r@)),
                None => None,
            },
    )
}

/// The document after the renderings are put in.
pub open spec fn search_applied(blocks: Seq<BlockView>, renderings: Seq<Option<Rendering>>) -> Seq<
    BlockView,
> {
    replaced(blocks, SEARCH_TAG@, rendering_blocks(renderings), 0)
}

/// The texts of the code blocks that hold a query, in the order of the document.
pub fn search_requests(blocks: &Vec<Block>) -> (r: Vec<String>)
    ensures
        views(r@) == texts_of(tagged(blocks_view(blocks@), SEARCH_TAG@)),
{
    tagged_texts(blocks, SEARCH_TAG)
}

fn block_for(rendering: &Rendering) -> (r: Block)
    ensures
        r.view() == rendering_block(rendering@),
{
    match rendering {
        Rendering::Rendered(markup) => Block::RawBlock(MARKUP_FORMAT.to_owned(), markup.clone()),
        Rendering::Malformed => Block::RawBlock(
            MARKUP_FORMAT.to_owned(),
            BAD_QUERY_TEXT.to_owned(),
        ),
        Rendering::Failed(why) => {
            let mut text = RENDER_FAILURE_TEXT.to_owned();
            text.append(why.as_str());
            Block::RawBlock(MARKUP_FORMAT.to_owned(), text)
        },
    }
}

/// Puts the renderings into the document: the entry at place `i` belongs to
/// the text at place `i` of [`search_requests`]. A code block whose entry is
/// `None` stays as it is.
pub fn apply_search(blocks: &Vec<Block>, renderings: &Vec<Option<Rendering>>) -> (r: Vec<Block>)
    ensures
        blocks_view(r@) == search_applied(blocks_view(blocks@), renderings@),
{
    let mut with: Vec<Option<Block>> = Vec::new();
    let mut i: usize = 0;
    while i < renderings.len()
        invariant
            i <= renderings.len(),
            with.len() == i,
            forall|k: int|
                0 <= k < i ==> replacements_view(with@)[k] == rendering_blocks(renderings@)[k],
        decreases renderings.len() - i,
    {
        let ghost before = replacements_view(with@);
        match &renderings[i] {
            Some(r) => with.push(Some(block_for(r))),
            None => with.push(None),
        }
        assert forall|k: int| 0 <= k < i + 1 implies replacements_view(with@)[k]
            == rendering_blocks(renderings@)[k] by {
            if k < i {
                assert(replacements_view(with@)[k] == before[k]);
            }
        }
        i += 1;
    }
    assert(replacements_view(with@) =~= rendering_blocks(renderings@));
    replace_tagged(blocks, SEARCH_TAG, &with)
}

/// Whether a document is new to a visitor: the visitor has not seen it, or saw
/// it last before it was updated.
pub open spec fn is_new(
    seen: Seq<(Seq<char>, crate::date::Ymd)>,
    path: Seq<char>,
    updated: crate::date::Ymd,
) -> bool {
    match last_seen(seen, path) {
        Some(day) => day.key() < updated.key(),
        None => true,
    }
}

/// The paths of the documents among `results` that are new to a visitor, in
/// the order of the results.
pub open spec fn new_paths(
    results: Seq<(String, ArticleMeta)>,
    seen: Seq<(Seq<char>, crate::date::Ymd)>,
) -> Seq<Seq<char>>
    decreases results.len(),
{
    if results.len() == 0 {
        Seq::empty()
    } else {
        let rest = new_paths(results.drop_last(), seen);
        if is_new(seen, results.last().0@, results.last().1@.updated) {
            rest.push(results.last().0@)
        } else {
            rest
        }
    }
}

/// The paths of the documents among `results` that are new to the visitor.
pub fn unseen(results: &Vec<(String, ArticleMeta)>, persist: &ClientPersist) -> (r: Vec<String>)
    ensures
        views(r@) == new_paths(results@, persist@),
{
    let mut out: Vec<String> = Vec::new();
    let mut i: usize = 0;
    assert(results@.take(0) =~= Seq::empty());
    assert(views(out@) =~= Seq::empty());
    while i < results.len()
        invariant
            i <= results.len(),
            views(out@) == new_paths(results@.take(i as int), persist@),
        decreases results.len() - i,
    {
        proof {
            assert(results@.take(i + 1).drop_last() =~= results@.take(i as int));
            assert(results@.take(i + 1).last() == results@[i as int]);
        }
        let new = match persist.last_seen(results[i].0.as_str()) {
            Some(day) => day.before(&results[i].1.updated),
            None => true,
        };
        if new {
            let ghost before = views(out@);
            out.push(results[i].0.clone());
            assert(views(out@) =~= before.push(results@[i as int].0@));
        }
        i += 1;
    }
    assert(results@.take(i as int) =~= results@);
    out
}

} // verus!
