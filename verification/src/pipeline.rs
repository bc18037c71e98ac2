//! The two lists of passes: those that run once, before a document is stored,
//! and those that run each time it is read.

use crate::dynamic::{apply_dynamic, dynamic_applied, outcomes_view, Outcome};
use crate::fragment::{apply_search, search_applied, Rendering};
use crate::links::{find_links, links_found};
use crate::transclude::{apply_includes, includes_applied, Inclusion};
use crate::tree::{Tree, TreeView};
use vstd::prelude::*;

verus! {

/// The document as it is stored: after its links were found and its code was
/// run with these outcomes.
pub open spec fn preprocessed(
    tree: TreeView,
    bridge: Seq<char>,
    outcomes: Seq<crate::dynamic::OutcomeView>,
) -> TreeView {
    TreeView {
        meta: links_found(tree, bridge).meta,
        blocks: dynamic_applied(tree.blocks, outcomes),
    }
}

/// Runs the passes that come before a document is stored: first the links are
/// found, then the outcomes of the code blocks are put in. The outcomes are
/// those of the requests that [`crate::dynamic::dynamic_requests`] lists for
/// the blocks of `tree`.
pub fn run_preproc_filters(tree: Tree, bridge: &str, outcomes: &Vec<Outcome>) -> (r: Tree)
    ensures
        r@ == preprocessed(tree@, bridge@, outcomes_view(outcomes@)),
{
    let found = find_links(tree, bridge);
    let blocks = apply_dynamic(&found.blocks, outcomes);
    Tree { meta: found.meta, blocks }
}

/// The document as it is shown: after the includes were put in and then the
/// renderings of the queries.
pub open spec fn postprocessed(
    tree: TreeView,
    inclusions: Seq<Inclusion>,
    renderings: Seq<Option<Rendering>>,
) -> TreeView {
    TreeView {
        meta: tree.meta,
        blocks: search_applied(includes_applied(tree.blocks, inclusions), renderings),
    }
}

/// Runs the passes that come each time a document is read: first the includes
/// are put in, then the renderings of the queries. The renderings are those of
/// the queries that [`crate::fragment::search_requests`] lists for the blocks
/// after the includes, so a query in an included document is rendered too.
pub fn run_postproc_filters(
    tree: Tree,
    inclusions: &Vec<Inclusion>,
    renderings: &Vec<Option<Rendering>>,
) -> (r: Tree)
    ensures
        r@ == postprocessed(tree@, inclusions@, renderings@),
{
    let with_includes = apply_includes(&tree.blocks, inclusions);
    let blocks = apply_search(&with_includes, renderings);
    Tree { meta: tree.meta, blocks }
}

} // verus!
