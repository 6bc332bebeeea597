//! Coalescing: neighbouring blocks that belong together become one block.
//!
//! Consecutive bulleted lists become one list, consecutive numbered lists
//! become one list, and consecutive lines of text become one paragraph with a
//! line break at each join. A blank line, and every other kind of block,
//! stands for itself and keeps its neighbours apart. A block that has no
//! markup, `Image` or `Empty`, keeps its neighbours apart as well and is then
//! left out.
//!
//! This module states the rule over views and proves what follows from it.
//! The function that carries it out is [`crate::html::preprocess`].
use vstd::prelude::*;

use crate::intermediary::all_supported;
use crate::intermediary::all_well_formed;
use crate::intermediary::unsupported;
use crate::intermediary::well_formed;
use crate::intermediary::BlockView;
use crate::intermediary::RichTextView;

verus! {

/// Whether the block `next` is folded into the block `last` that stands
/// right before it: both are bulleted lists, both are numbered lists, or
/// both are lines with text.
pub open spec fn merges(last: BlockView, next: BlockView) -> bool {
    match (last, next) {
        (BlockView::List { .. }, BlockView::List { .. }) => true,
        (BlockView::NumberedList { .. }, BlockView::NumberedList { .. }) => true,
        (BlockView::Line { rich_text: first }, BlockView::Line { rich_text: second }) => {
            first.len() > 0 && second.len() > 0
        },
        _ => false,
    }
}

/// The block that `last` and `next` become where they merge: a list of the
/// items of both, or a line of the runs of both with a line break between.
pub open spec fn merged(last: BlockView, next: BlockView) -> BlockView
    recommends
        merges(last, next),
{
    match (last, next) {
        (BlockView::List { items: first }, BlockView::List { items: second }) => BlockView::List {
            items: first + second,
        },
        (
            BlockView::NumberedList { items: first },
            BlockView::NumberedList { items: second },
        ) => BlockView::NumberedList { items: first + second },
        (
            BlockView::Line { rich_text: first },
            BlockView::Line { rich_text: second },
        ) => BlockView::Line { rich_text: first.push(RichTextView::line_break()) + second },
        _ => next,
    }
}

/// The blocks that `done` becomes when the block `next` is added at its end:
/// `next` is folded into the last block where the two merge, and appended
/// otherwise.
pub open spec fn absorb(done: Seq<BlockView>, next: BlockView) -> Seq<BlockView> {
    if done.len() > 0 && merges(done.last(), next) {
        done.drop_last().push(merged(done.last(), next))
    } else {
        done.push(next)
    }
}

/// The blocks of a sequence joined where they belong together: the blocks
/// taken from left to right, each one absorbed by what the blocks before it
/// have become. A block without markup is still in its place here, between
/// the neighbours that it keeps apart.
pub open spec fn joined(blocks: Seq<BlockView>) -> Seq<BlockView>
    decreases blocks.len(),
{
    if blocks.len() == 0 {
        Seq::empty()
    } else {
        absorb(joined(blocks.drop_last()), blocks.last())
    }
}

/// The blocks of a sequence that have markup, in their order.
pub open spec fn supported_of(blocks: Seq<BlockView>) -> Seq<BlockView>
    decreases blocks.len(),
{
    if blocks.len() == 0 {
        Seq::empty()
    } else if unsupported(blocks.last()) {
        supported_of(blocks.drop_last())
    } else {
        supported_of(blocks.drop_last()).push(blocks.last())
    }
}

/// The coalesced form of a sequence of blocks: its blocks joined where they
/// belong together, without the blocks that have no markup.
pub open spec fn coalesce(blocks: Seq<BlockView>) -> Seq<BlockView> {
    supported_of(joined(blocks))
}

/// Whether no block of the sequence would merge with the one before it.
pub open spec fn settled(blocks: Seq<BlockView>) -> bool {
    forall|i: int, j: int|
        0 <= i && j == i + 1 && j < blocks.len() ==> !merges(
            #[trigger] blocks[i],
            #[trigger] blocks[j],
        )
}

/// The items of a sequence of lists, one list after the other. A block that
/// is no list adds nothing.
pub open spec fn all_items(blocks: Seq<BlockView>) -> Seq<BlockView>
    decreases blocks.len(),
{
    if blocks.len() == 0 {
        Seq::empty()
    } else {
        all_items(blocks.drop_last()) + match blocks.last() {
            BlockView::List { items } => items,
            BlockView::NumberedList { items } => items,
            _ => Seq::empty(),
        }
    }
}

/// The runs of a sequence of lines, one line after the other, with a line
/// break at each join. A block that is no line adds its join and nothing
/// else.
pub open spec fn all_runs(blocks: Seq<BlockView>) -> Seq<RichTextView>
    decreases blocks.len(),
{
    let runs = if blocks.len() > 0 && blocks.last() is Line {
        blocks.last()->Line_rich_text
    } else {
        Seq::empty()
    };
    if blocks.len() <= 1 {
        runs
    } else {
        all_runs(blocks.drop_last()).push(RichTextView::line_break()) + runs
    }
}

/// Whether a block merges with no neighbour on either side: it is neither
/// a bulleted list, nor a numbered list, nor a line with text.
pub open spec fn stands_alone(block: BlockView) -> bool {
    &&& !(block is List)
    &&& !(block is NumberedList)
    &&& !(block is Line && block->Line_rich_text.len() > 0)
}

/// How deep the blocks inside a block are nested: 0 for a block that holds
/// no blocks, and one more than its deepest inner block otherwise.
pub open spec fn depth(block: BlockView) -> nat
    decreases block,
{
    match block {
        BlockView::Quote { children: Some(blocks), .. } => 1 + max_depth(blocks),
        BlockView::List { items } => 1 + max_depth(items),
        BlockView::NumberedList { items } => 1 + max_depth(items),
        BlockView::TodoList { items } => 1 + max_todo_depth(items),
        _ => 0,
    }
}

/// The depth of the deepest block of a sequence, 0 for the empty sequence.
pub open spec fn max_depth(blocks: Seq<BlockView>) -> nat
    decreases blocks,
{
    if blocks.len() == 0 {
        0
    } else {
        let before = max_depth(blocks.drop_last());
        let last = depth(blocks.last());
        if before >= last {
            before
        } else {
            last
        }
    }
}

/// The depth of the deepest item of a to-do list, 0 for no items.
pub open spec fn max_todo_depth(items: Seq<(bool, BlockView)>) -> nat
    decreases items,
{
    if items.len() == 0 {
        0
    } else {
        let before = max_todo_depth(items.drop_last());
        let last = depth(items.last().1);
        if before >= last {
            before
        } else {
            last
        }
    }
}

/// Joining the blocks and one more is absorbing that one into the joined
/// blocks.
pub proof fn lemma_joined_push(blocks: Seq<BlockView>, next: BlockView)
    ensures
        joined(blocks.push(next)) == absorb(joined(blocks), next),
{
    assert(blocks.push(next).drop_last() =~= blocks);
}

/// The blocks with markup of a sequence and one more block: that block is
/// added where it has markup, and not otherwise.
pub proof fn lemma_supported_of_push(blocks: Seq<BlockView>, next: BlockView)
    ensures
        supported_of(blocks.push(next)) == if unsupported(next) {
            supported_of(blocks)
        } else {
            supported_of(blocks).push(next)
        },
{
    assert(blocks.push(next).drop_last() =~= blocks);
}

/// What is kept of a sequence has markup, block by block, and is no longer
/// than the sequence.
pub proof fn lemma_supported_of_supported(blocks: Seq<BlockView>)
    ensures
        all_supported(supported_of(blocks)),
        supported_of(blocks).len() <= blocks.len(),
    decreases blocks.len(),
{
    if blocks.len() > 0 {
        lemma_supported_of_supported(blocks.drop_last());
    }
}

/// Of a sequence in which every block has markup, every block is kept.
pub proof fn lemma_supported_of_all_supported(blocks: Seq<BlockView>)
    requires
        all_supported(blocks),
    ensures
        supported_of(blocks) == blocks,
    decreases blocks.len(),
{
    if blocks.len() > 0 {
        let before = blocks.drop_last();
        assert forall|i: int| 0 <= i < before.len() implies !unsupported(#[trigger] before[i]) by {}
        lemma_supported_of_all_supported(before);
    }
}

/// Joining blocks that all have markup gives blocks that all have markup.
pub proof fn lemma_joined_supported(blocks: Seq<BlockView>)
    requires
        all_supported(blocks),
    ensures
        all_supported(joined(blocks)),
    decreases blocks.len(),
{
    if blocks.len() > 0 {
        let before = blocks.drop_last();
        assert forall|i: int| 0 <= i < before.len() implies !unsupported(#[trigger] before[i]) by {}
        lemma_joined_supported(before);
        let out = joined(blocks);
        assert forall|i: int| 0 <= i < out.len() implies !unsupported(#[trigger] out[i]) by {}
    }
}

/// Coalesced blocks all have markup: none of them is `Image` or `Empty`.
pub proof fn lemma_coalesce_supported(blocks: Seq<BlockView>)
    ensures
        all_supported(coalesce(blocks)),
{
    lemma_supported_of_supported(joined(blocks));
}

/// Where every block has markup, coalescing is joining.
pub proof fn lemma_coalesce_of_supported(blocks: Seq<BlockView>)
    requires
        all_supported(blocks),
    ensures
        coalesce(blocks) == joined(blocks),
{
    lemma_joined_supported(blocks);
    lemma_supported_of_all_supported(joined(blocks));
}

/// A single block joins to itself.
pub proof fn lemma_joined_single(block: BlockView)
    ensures
        joined(seq![block]) == seq![block],
{
    assert(joined(seq![block].drop_last()) =~= Seq::<BlockView>::empty());
}

/// A single block coalesces to itself where it has markup, and to nothing
/// where it has none.
pub proof fn lemma_coalesce_single(block: BlockView)
    ensures
        coalesce(seq![block]) == if unsupported(block) {
            Seq::<BlockView>::empty()
        } else {
            seq![block]
        },
{
    lemma_joined_single(block);
    assert(supported_of(seq![block].drop_last()) =~= Seq::<BlockView>::empty());
}

/// Joining never makes more blocks, and makes none only from none.
pub proof fn lemma_joined_len(blocks: Seq<BlockView>)
    ensures
        joined(blocks).len() <= blocks.len(),
        blocks.len() > 0 ==> joined(blocks).len() > 0,
    decreases blocks.len(),
{
    if blocks.len() > 0 {
        lemma_joined_len(blocks.drop_last());
    }
}

/// Coalescing never makes more blocks.
pub proof fn lemma_coalesce_len(blocks: Seq<BlockView>)
    ensures
        coalesce(blocks).len() <= blocks.len(),
{
    lemma_joined_len(blocks);
    lemma_supported_of_supported(joined(blocks));
}

/// In joined blocks no block would merge with the one before it.
pub proof fn lemma_joined_settled(blocks: Seq<BlockView>)
    ensures
        settled(joined(blocks)),
    decreases blocks.len(),
{
    if blocks.len() > 0 {
        lemma_joined_settled(blocks.drop_last());
    }
}

/// Blocks of which none would merge with the one before it join to
/// themselves.
pub proof fn lemma_joined_of_settled(blocks: Seq<BlockView>)
    requires
        settled(blocks),
    ensures
        joined(blocks) == blocks,
    decreases blocks.len(),
{
    if blocks.len() > 0 {
        let before = blocks.drop_last();
        assert forall|i: int, j: int| 0 <= i && j == i + 1 && j < before.len() implies !merges(
            #[trigger] before[i],
            #[trigger] before[j],
        ) by {}
        lemma_joined_of_settled(before);
    }
}

/// Coalescing is idempotent on blocks that all have markup: coalescing what
/// was coalesced changes nothing.
///
/// A block without markup is left out after it has kept its neighbours
/// apart, so on a second pass these neighbours may merge: two bulleted lists
/// around an `Image` coalesce to two lists, and these to one.
pub proof fn lemma_coalesce_idempotent(blocks: Seq<BlockView>)
    requires
        all_supported(blocks),
    ensures
        coalesce(coalesce(blocks)) == coalesce(blocks),
{
    lemma_coalesce_of_supported(blocks);
    lemma_joined_supported(blocks);
    lemma_joined_settled(blocks);
    lemma_joined_of_settled(joined(blocks));
    lemma_coalesce_of_supported(joined(blocks));
}

/// A sequence of bulleted lists coalesces to one bulleted list that holds
/// the items of all of them, in their order. Where each list has one item,
/// that list has as many items as there were lists.
pub proof fn lemma_lists_collapse(blocks: Seq<BlockView>)
    requires
        blocks.len() > 0,
        forall|i: int| 0 <= i < blocks.len() ==> #[trigger] blocks[i] is List,
    ensures
        joined(blocks) == seq![BlockView::List { items: all_items(blocks) }],
        coalesce(blocks) == seq![BlockView::List { items: all_items(blocks) }],
        (forall|i: int| 0 <= i < blocks.len() ==> (#[trigger] blocks[i])->List_items.len() == 1)
            ==> all_items(blocks) == Seq::new(
            blocks.len(),
            |i: int| blocks[i]->List_items[0],
        ),
    decreases blocks.len(),
{
    let before = blocks.drop_last();
    assert forall|i: int| 0 <= i < before.len() implies #[trigger] before[i] == blocks[i] by {}
    if before.len() == 0 {
        assert(all_items(before) =~= Seq::<BlockView>::empty());
        assert(joined(before) =~= Seq::<BlockView>::empty());
    } else {
        lemma_lists_collapse(before);
    }
    assert(joined(blocks) =~= seq![BlockView::List { items: all_items(blocks) }]);
    lemma_coalesce_single(BlockView::List { items: all_items(blocks) });
    lemma_joined_single(BlockView::List { items: all_items(blocks) });
}

/// A sequence of numbered lists coalesces to one numbered list that holds
/// the items of all of them, in their order. Where each list has one item,
/// that list has as many items as there were lists.
pub proof fn lemma_numbered_lists_collapse(blocks: Seq<BlockView>)
    requires
        blocks.len() > 0,
        forall|i: int| 0 <= i < blocks.len() ==> #[trigger] blocks[i] is NumberedList,
    ensures
        joined(blocks) == seq![BlockView::NumberedList { items: all_items(blocks) }],
        coalesce(blocks) == seq![BlockView::NumberedList { items: all_items(blocks) }],
        (forall|i: int|
            0 <= i < blocks.len() ==> (#[trigger] blocks[i])->NumberedList_items.len() == 1)
            ==> all_items(blocks) == Seq::new(
            blocks.len(),
            |i: int| blocks[i]->NumberedList_items[0],
        ),
    decreases blocks.len(),
{
    let before = blocks.drop_last();
    assert forall|i: int| 0 <= i < before.len() implies #[trigger] before[i] == blocks[i] by {}
    if before.len() == 0 {
        assert(all_items(before) =~= Seq::<BlockView>::empty());
    } else {
        lemma_numbered_lists_collapse(before);
    }
    assert(joined(blocks) =~= seq![BlockView::NumberedList { items: all_items(blocks) }]);
    lemma_coalesce_single(BlockView::NumberedList { items: all_items(blocks) });
    lemma_joined_single(BlockView::NumberedList { items: all_items(blocks) });
}

/// A blank line keeps its neighbours apart: whatever stands before it and
/// whichever block follows it, the blank line and that block come out as
/// they are, after the coalesced form of what stands before. A following
/// block without markup is left out.
pub proof fn lemma_blank_line_separates(before: Seq<BlockView>, next: BlockView)
    ensures
        coalesce(before.push(BlockView::Line { rich_text: Seq::empty() }).push(next)) == if
            unsupported(next) {
            coalesce(before).push(BlockView::Line { rich_text: Seq::empty() })
        } else {
            coalesce(before).push(BlockView::Line { rich_text: Seq::empty() }).push(next)
        },
{
    let blank = BlockView::Line { rich_text: Seq::empty() };
    lemma_joined_push(before, blank);
    lemma_joined_push(before.push(blank), next);
    lemma_supported_of_push(joined(before), blank);
    lemma_supported_of_push(joined(before).push(blank), next);
}

/// A block without markup keeps its neighbours apart and is left out: what
/// stands before it and the block after it are coalesced each for itself.
pub proof fn lemma_unsupported_separates(
    before: Seq<BlockView>,
    dropped: BlockView,
    next: BlockView,
)
    requires
        unsupported(dropped),
    ensures
        coalesce(before.push(dropped)) == coalesce(before),
        coalesce(before.push(dropped).push(next)) == coalesce(before) + coalesce(seq![next]),
{
    lemma_joined_push(before, dropped);
    lemma_joined_push(before.push(dropped), next);
    lemma_supported_of_push(joined(before), dropped);
    lemma_supported_of_push(joined(before).push(dropped), next);
    lemma_coalesce_single(next);
}

/// What is kept of two sequences, one after the other, is what is kept of
/// the first followed by what is kept of the second.
pub proof fn lemma_supported_of_concat(first: Seq<BlockView>, second: Seq<BlockView>)
    ensures
        supported_of(first + second) == supported_of(first) + supported_of(second),
    decreases second.len(),
{
    if second.len() > 0 {
        lemma_supported_of_concat(first, second.drop_last());
        assert((first + second).drop_last() =~= first + second.drop_last());
    }
}

/// A block that stands alone splits the joining: what stands before it and
/// what stands after it are joined each for itself, with the block between
/// them as it is.
pub proof fn lemma_joined_split(before: Seq<BlockView>, alone: BlockView, after: Seq<BlockView>)
    requires
        stands_alone(alone),
    ensures
        joined(before.push(alone) + after) == joined(before).push(alone) + joined(after),
    decreases after.len(),
{
    if after.len() == 0 {
        lemma_joined_push(before, alone);
    } else {
        let rest = after.drop_last();
        lemma_joined_split(before, alone, rest);
        lemma_joined_len(rest);
        assert((before.push(alone) + after).drop_last() =~= before.push(alone) + rest);
    }
}

/// A block that stands alone splits the coalescing: what stands before it
/// and what stands after it are coalesced each for itself, with the block
/// between them where it has markup.
pub proof fn lemma_coalesce_split(before: Seq<BlockView>, alone: BlockView, after: Seq<BlockView>)
    requires
        stands_alone(alone),
    ensures
        coalesce(before.push(alone) + after) == coalesce(before) + coalesce(seq![alone])
            + coalesce(after),
{
    lemma_joined_split(before, alone, after);
    lemma_supported_of_concat(joined(before).push(alone), joined(after));
    lemma_supported_of_push(joined(before), alone);
    lemma_coalesce_single(alone);
}

/// A sequence of lines with text coalesces to one line that holds the runs
/// of all of them, in their order, with a line break at each join: one
/// break less than there were lines.
pub proof fn lemma_lines_collapse(blocks: Seq<BlockView>)
    requires
        blocks.len() > 0,
        forall|i: int|
            0 <= i < blocks.len() ==> (#[trigger] blocks[i]) is Line
                && blocks[i]->Line_rich_text.len() > 0,
    ensures
        all_runs(blocks).len() > 0,
        joined(blocks) == seq![BlockView::Line { rich_text: all_runs(blocks) }],
        coalesce(blocks) == seq![BlockView::Line { rich_text: all_runs(blocks) }],
    decreases blocks.len(),
{
    let before = blocks.drop_last();
    assert forall|i: int| 0 <= i < before.len() implies #[trigger] before[i] == blocks[i] by {}
    if before.len() == 0 {
        assert(joined(before) =~= Seq::<BlockView>::empty());
    } else {
        lemma_lines_collapse(before);
    }
    lemma_coalesce_single(BlockView::Line { rich_text: all_runs(blocks) });
    lemma_joined_single(BlockView::Line { rich_text: all_runs(blocks) });
}

/// Two lines with text, one right after the other, coalesce to one line:
/// the runs of the first, a line break, and the runs of the second.
pub proof fn lemma_lines_merge(first: Seq<RichTextView>, second: Seq<RichTextView>)
    requires
        first.len() > 0,
        second.len() > 0,
    ensures
        coalesce(seq![BlockView::Line { rich_text: first }, BlockView::Line { rich_text: second }])
            == seq![
            BlockView::Line { rich_text: first.push(RichTextView::line_break()) + second },
        ],
{
    let a = BlockView::Line { rich_text: first };
    let b = BlockView::Line { rich_text: second };
    lemma_joined_single(a);
    lemma_joined_push(seq![a], b);
    assert(seq![a].push(b) =~= seq![a, b]);
    lemma_coalesce_single(merged(a, b));
    lemma_joined_single(merged(a, b));
    assert(joined(seq![a, b]) =~= seq![merged(a, b)]);
}

/// Two well-formed blocks that merge become a well-formed block.
pub proof fn lemma_merged_well_formed(last: BlockView, next: BlockView)
    requires
        merges(last, next),
        well_formed(last),
        well_formed(next),
    ensures
        well_formed(merged(last, next)),
{
    match (last, next) {
        (BlockView::List { items: first }, BlockView::List { items: second }) => {
            let all = first + second;
            assert forall|i: int| 0 <= i < all.len() implies well_formed(#[trigger] all[i]) by {}
        },
        (BlockView::NumberedList { items: first }, BlockView::NumberedList { items: second }) => {
            let all = first + second;
            assert forall|i: int| 0 <= i < all.len() implies well_formed(#[trigger] all[i]) by {}
        },
        _ => {},
    }
}

/// Joining keeps well-formed blocks well formed.
pub proof fn lemma_joined_well_formed(blocks: Seq<BlockView>)
    requires
        all_well_formed(blocks),
    ensures
        all_well_formed(joined(blocks)),
    decreases blocks.len(),
{
    if blocks.len() > 0 {
        let before = blocks.drop_last();
        assert forall|i: int| 0 <= i < before.len() implies well_formed(#[trigger] before[i]) by {}
        lemma_joined_well_formed(before);
        let done = joined(before);
        let next = blocks.last();
        if done.len() > 0 && merges(done.last(), next) {
            lemma_merged_well_formed(done.last(), next);
        }
    }
}

/// What is kept of well-formed blocks is well formed.
pub proof fn lemma_supported_of_well_formed(blocks: Seq<BlockView>)
    requires
        all_well_formed(blocks),
    ensures
        all_well_formed(supported_of(blocks)),
    decreases blocks.len(),
{
    if blocks.len() > 0 {
        let before = blocks.drop_last();
        assert forall|i: int| 0 <= i < before.len() implies well_formed(#[trigger] before[i]) by {}
        lemma_supported_of_well_formed(before);
    }
}

/// Coalescing keeps well-formed blocks well formed.
pub proof fn lemma_coalesce_well_formed(blocks: Seq<BlockView>)
    requires
        all_well_formed(blocks),
    ensures
        all_well_formed(coalesce(blocks)),
{
    lemma_joined_well_formed(blocks);
    lemma_supported_of_well_formed(joined(blocks));
}

/// No block of a sequence is deeper than the sequence.
pub proof fn lemma_depth_of_index(blocks: Seq<BlockView>, i: int)
    requires
        0 <= i < blocks.len(),
    ensures
        depth(blocks[i]) <= max_depth(blocks),
    decreases blocks.len(),
{
    if i < blocks.len() - 1 {
        lemma_depth_of_index(blocks.drop_last(), i);
    }
}

/// A sequence of one block is as deep as the block.
pub proof fn lemma_depth_of_single(block: BlockView)
    ensures
        max_depth(seq![block]) == depth(block),
{
    assert(max_depth(seq![block].drop_last()) == 0);
}

/// No item of a to-do list is deeper than the list of items.
pub proof fn lemma_todo_depth_of_index(items: Seq<(bool, BlockView)>, i: int)
    requires
        0 <= i < items.len(),
    ensures
        depth(items[i].1) <= max_todo_depth(items),
    decreases items.len(),
{
    if i < items.len() - 1 {
        lemma_todo_depth_of_index(items.drop_last(), i);
    }
}

/// Two sequences, one after the other, are as deep as the deeper of them.
pub proof fn lemma_depth_of_concat(first: Seq<BlockView>, second: Seq<BlockView>)
    ensures
        max_depth(first + second) == if max_depth(first) >= max_depth(second) {
            max_depth(first)
        } else {
            max_depth(second)
        },
    decreases second.len(),
{
    if second.len() > 0 {
        lemma_depth_of_concat(first, second.drop_last());
        assert((first + second).drop_last() =~= first + second.drop_last());
    }
}

/// Two blocks that merge become a block as deep as the deeper of them.
pub proof fn lemma_depth_of_merged(last: BlockView, next: BlockView)
    requires
        merges(last, next),
    ensures
        depth(merged(last, next)) == if depth(last) >= depth(next) {
            depth(last)
        } else {
            depth(next)
        },
{
    match (last, next) {
        (BlockView::List { items: first }, BlockView::List { items: second }) => {
            lemma_depth_of_concat(first, second);
        },
        (BlockView::NumberedList { items: first }, BlockView::NumberedList { items: second }) => {
            lemma_depth_of_concat(first, second);
        },
        _ => {},
    }
}

/// Joining keeps the depth of a sequence of blocks.
pub proof fn lemma_joined_depth(blocks: Seq<BlockView>)
    ensures
        max_depth(joined(blocks)) == max_depth(blocks),
    decreases blocks.len(),
{
    if blocks.len() > 0 {
        lemma_joined_depth(blocks.drop_last());
        let done = joined(blocks.drop_last());
        let next = blocks.last();
        if done.len() > 0 && merges(done.last(), next) {
            lemma_depth_of_merged(done.last(), next);
            let out = done.drop_last().push(merged(done.last(), next));
            assert(out.drop_last() =~= done.drop_last());
        } else {
            assert(done.push(next).drop_last() =~= done);
        }
    }
}

/// What is kept of a sequence is as deep as the sequence.
pub proof fn lemma_supported_of_depth(blocks: Seq<BlockView>)
    ensures
        max_depth(supported_of(blocks)) == max_depth(blocks),
    decreases blocks.len(),
{
    if blocks.len() > 0 {
        let before = blocks.drop_last();
        lemma_supported_of_depth(before);
        if unsupported(blocks.last()) {
            assert(depth(blocks.last()) == 0);
        } else {
            assert(supported_of(before).push(blocks.last()).drop_last() =~= supported_of(before));
        }
    }
}

/// Coalescing keeps the depth of a sequence of blocks.
pub proof fn lemma_coalesce_depth(blocks: Seq<BlockView>)
    ensures
        max_depth(coalesce(blocks)) == max_depth(blocks),
{
    lemma_joined_depth(blocks);
    lemma_supported_of_depth(joined(blocks));
}

} // verus!
