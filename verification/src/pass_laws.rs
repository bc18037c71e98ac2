//! What holds of every document that the passes rewrite.

use crate::dynamic::{dynamic_applied, outcome_blocks, OutcomeView, DYNAMIC_TAG, FAILURE_TEXT};
use crate::rewrite::{replaced, replaced_groups, replaced_in, tagged, tagged_groups, tagged_in};
use crate::tree::BlockView;
use vstd::prelude::*;

verus! {

/// A block that holds no tagged code block stays as it is.
pub proof fn lemma_untagged_stays(
    block: BlockView,
    tag: Seq<char>,
    with: Seq<Option<BlockView>>,
    from: int,
)
    requires
        tagged_in(block, tag).len() == 0,
    ensures
        replaced_in(block, tag, with, from) == block,
    decreases block,
{
    match block {
        BlockView::BlockQuote(blocks) => {
            lemma_untagged_stay(blocks, tag, with, from);
        },
        BlockView::Nested(kind, groups) => {
            lemma_untagged_groups_stay(groups, tag, with, from);
        },
        _ => {},
    }
}

/// Groups of blocks that hold no tagged code block stay as they are.
pub proof fn lemma_untagged_groups_stay(
    groups: Seq<Seq<BlockView>>,
    tag: Seq<char>,
    with: Seq<Option<BlockView>>,
    from: int,
)
    requires
        tagged_groups(groups, tag).len() == 0,
    ensures
        replaced_groups(groups, tag, with, from) == groups,
    decreases groups,
{
    if groups.len() > 0 {
        lemma_untagged_groups_stay(groups.drop_last(), tag, with, from);
        lemma_untagged_stay(
            groups.last(),
            tag,
            with,
            from + tagged_groups(groups.drop_last(), tag).len(),
        );
        assert(replaced_groups(groups, tag, with, from) =~= groups);
    } else {
        assert(replaced_groups(groups, tag, with, from) =~= groups);
    }
}

/// Blocks that hold no tagged code block stay as they are.
pub proof fn lemma_untagged_stay(
    blocks: Seq<BlockView>,
    tag: Seq<char>,
    with: Seq<Option<BlockView>>,
    from: int,
)
    requires
        tagged(blocks, tag).len() == 0,
    ensures
        replaced(blocks, tag, with, from) == blocks,
    decreases blocks,
{
    if blocks.len() > 0 {
        lemma_untagged_stay(blocks.drop_last(), tag, with, from);
        lemma_untagged_stays(
            blocks.last(),
            tag,
            with,
            from + tagged(blocks.drop_last(), tag).len(),
        );
        assert(replaced(blocks, tag, with, from) =~= blocks);
    } else {
        assert(replaced(blocks, tag, with, from) =~= blocks);
    }
}

/// Replacing keeps the number of blocks, and what stands at a place afterwards
/// comes of the block that stood there, with the replacements that follow
/// those of the blocks before it.
pub proof fn lemma_replaced_at(
    blocks: Seq<BlockView>,
    tag: Seq<char>,
    with: Seq<Option<BlockView>>,
    from: int,
    i: int,
)
    requires
        0 <= i < blocks.len(),
    ensures
        replaced(blocks, tag, with, from).len() == blocks.len(),
        replaced(blocks, tag, with, from)[i] == replaced_in(
            blocks[i],
            tag,
            with,
            from + tagged(blocks.take(i), tag).len(),
        ),
    decreases blocks.len(),
{
    lemma_replaced_len(blocks, tag, with, from);
    if i == blocks.len() - 1 {
        assert(blocks.take(i) =~= blocks.drop_last());
    } else {
        lemma_replaced_at(blocks.drop_last(), tag, with, from, i);
        assert(blocks.drop_last().take(i) =~= blocks.take(i));
    }
}

/// Replacing keeps the number of blocks.
pub proof fn lemma_replaced_len(
    blocks: Seq<BlockView>,
    tag: Seq<char>,
    with: Seq<Option<BlockView>>,
    from: int,
)
    ensures
        replaced(blocks, tag, with, from).len() == blocks.len(),
    decreases blocks.len(),
{
    if blocks.len() > 0 {
        lemma_replaced_len(blocks.drop_last(), tag, with, from);
    }
}

/// The listed code blocks of a run of blocks are among those of a longer run,
/// at the same places.
pub proof fn lemma_tagged_prefix(blocks: Seq<BlockView>, tag: Seq<char>, i: int)
    requires
        0 <= i <= blocks.len(),
    ensures
        tagged(blocks.take(i), tag).len() <= tagged(blocks, tag).len(),
        forall|k: int|
            0 <= k < tagged(blocks.take(i), tag).len() ==> tagged(blocks, tag)[k] == tagged(
                blocks.take(i),
                tag,
            )[k],
        i < blocks.len() ==> tagged(blocks.take(i + 1), tag) == tagged(blocks.take(i), tag)
            + tagged_in(blocks[i], tag),
    decreases blocks.len() - i,
{
    if i == blocks.len() {
        assert(blocks.take(i) =~= blocks);
    } else {
        assert(blocks.take(i + 1).drop_last() =~= blocks.take(i));
        assert(blocks.take(i + 1).last() == blocks[i]);
        lemma_tagged_prefix(blocks, tag, i + 1);
    }
}

/// A code block that failed changes no other block. After the outcomes are
/// put in, the document has as many blocks as before; a block that holds no
/// code to run is as it was; and a code block that was run and failed holds
/// the failure text and nothing else of the run.
pub proof fn lemma_failure_contained(blocks: Seq<BlockView>, outcomes: Seq<OutcomeView>, i: int)
    requires
        0 <= i < blocks.len(),
    ensures
        dynamic_applied(blocks, outcomes).len() == blocks.len(),
        tagged_in(blocks[i], DYNAMIC_TAG@).len() == 0 ==> dynamic_applied(blocks, outcomes)[i]
            == blocks[i],
        ({
            let k = tagged(blocks.take(i), DYNAMIC_TAG@).len() as int;
            blocks[i] matches BlockView::CodeBlock(attr, text) ==> (attr.has_class(DYNAMIC_TAG@)
                && k < outcomes.len() && outcomes[k] is Failed ==> dynamic_applied(
                blocks,
                outcomes,
            )[i] == BlockView::CodeBlock(attr, FAILURE_TEXT@))
        }),
{
    let tag = DYNAMIC_TAG@;
    let codes = tagged(blocks, tag);
    let with = outcome_blocks(codes, outcomes);
    let k = tagged(blocks.take(i), tag).len() as int;
    lemma_replaced_at(blocks, tag, with, 0, i);
    if tagged_in(blocks[i], tag).len() == 0 {
        lemma_untagged_stays(blocks[i], tag, with, k);
    }
    lemma_tagged_prefix(blocks, tag, i);
    if i + 1 <= blocks.len() {
        lemma_tagged_prefix(blocks, tag, i + 1);
    }
    match blocks[i] {
        BlockView::CodeBlock(attr, text) => {
            if attr.has_class(tag) && k < outcomes.len() && outcomes[k] is Failed {
                let next = tagged(blocks.take(i + 1), tag);
                assert(next[k] == tagged_in(blocks[i], tag)[0]);
                assert(codes[k] == next[k]);
                assert(with[k] is Some);
            }
        },
        _ => {},
    }
}

} // verus!
