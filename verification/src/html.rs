//! The HTML renderer: coalesces the blocks of an intermediary document and
//! writes the markup of what they have become.
//!
//! [`html`] says, over views, which markup a document stands for;
//! [`from_blocks`] computes it. Texts are written as they are: nothing is
//! escaped.
use vstd::prelude::*;

use crate::coalesce::all_items;
use crate::coalesce::all_runs;
use crate::coalesce::coalesce;
use crate::coalesce::depth;
use crate::coalesce::joined;
use crate::coalesce::lemma_blank_line_separates;
use crate::coalesce::lemma_coalesce_depth;
use crate::coalesce::lemma_coalesce_idempotent;
use crate::coalesce::lemma_coalesce_len;
use crate::coalesce::lemma_coalesce_single;
use crate::coalesce::lemma_coalesce_supported;
use crate::coalesce::lemma_coalesce_well_formed;
use crate::coalesce::lemma_depth_of_index;
use crate::coalesce::lemma_depth_of_single;
use crate::coalesce::lemma_joined_push;
use crate::coalesce::lemma_joined_split;
use crate::coalesce::lemma_lines_collapse;
use crate::coalesce::lemma_lines_merge;
use crate::coalesce::lemma_lists_collapse;
use crate::coalesce::lemma_numbered_lists_collapse;
use crate::coalesce::lemma_supported_of_push;
use crate::coalesce::lemma_todo_depth_of_index;
use crate::coalesce::max_depth;
use crate::coalesce::max_todo_depth;
use crate::coalesce::merged;
use crate::coalesce::merges;
use crate::coalesce::stands_alone;
use crate::coalesce::supported_of;
use crate::intermediary::all_supported;
use crate::intermediary::all_well_formed;
use crate::intermediary::lemma_block_views;
use crate::intermediary::lemma_todo_views;
use crate::intermediary::unsupported;
use crate::intermediary::Block;
use crate::intermediary::BlockView;
use crate::intermediary::RichText;
use crate::intermediary::RichTextView;

verus! {

/// The numeral of one decimal digit.
pub open spec fn digit(d: nat) -> Seq<char>
    recommends
        d < 10,
{
    if d == 0 {
        "0"@
    } else if d == 1 {
        "1"@
    } else if d == 2 {
        "2"@
    } else if d == 3 {
        "3"@
    } else if d == 4 {
        "4"@
    } else if d == 5 {
        "5"@
    } else if d == 6 {
        "6"@
    } else if d == 7 {
        "7"@
    } else if d == 8 {
        "8"@
    } else {
        "9"@
    }
}

/// The decimal numeral of a number, without leading zeros.
pub open spec fn decimal(n: nat) -> Seq<char>
    decreases n,
{
    if n < 10 {
        digit(n)
    } else {
        decimal(n / 10) + digit(n % 10)
    }
}

/// The text where the flag is set, and nothing where it is not.
pub open spec fn when(flag: bool, text: Seq<char>) -> Seq<char> {
    if flag {
        text
    } else {
        Seq::empty()
    }
}

/// The opening tags of a run's styling, outermost first: bold, italic,
/// underline, strikethrough, code.
pub open spec fn open_tags(run: RichTextView) -> Seq<char> {
    when(run.bold, "<b>"@) + when(run.italic, "<i>"@) + when(run.underline, "<u>"@) + when(
        run.strikethrough,
        "<s>"@,
    ) + when(run.code, "<code>"@)
}

/// The closing tags of a run's styling, innermost first: the tags of
/// [`open_tags`] in reverse.
pub open spec fn close_tags(run: RichTextView) -> Seq<char> {
    when(run.code, "</code>"@) + when(run.strikethrough, "</s>"@) + when(run.underline, "</u>"@)
        + when(run.italic, "</i>"@) + when(run.bold, "</b>"@)
}

/// The markup of one run: a line break for the run that stands for one,
/// else the text inside the tags of its styling, and all of that inside a
/// link where the run has one.
pub open spec fn run_html(run: RichTextView) -> Seq<char> {
    if run.is_line_break() {
        "<br />"@
    } else {
        let styled = open_tags(run) + run.plain_text + close_tags(run);
        match run.href {
            Some(href) => "<a href=\""@ + href + "\">"@ + styled + "</a>"@,
            None => styled,
        }
    }
}

/// The markup of a sequence of runs: the markup of each, in order.
pub open spec fn inline_html(runs: Seq<RichTextView>) -> Seq<char>
    decreases runs.len(),
{
    if runs.len() == 0 {
        Seq::empty()
    } else {
        inline_html(runs.drop_last()) + run_html(runs.last())
    }
}

/// The markup of a document: the markup of its blocks once coalesced.
pub open spec fn html(blocks: Seq<BlockView>) -> Seq<char>
    decreases max_depth(blocks), 2nat, 0nat,
{
    proof {
        lemma_coalesce_depth(blocks);
    }
    blocks_html(coalesce(blocks))
}

/// The markup of blocks as they stand, each for itself, in order.
pub open spec fn blocks_html(blocks: Seq<BlockView>) -> Seq<char>
    decreases max_depth(blocks), 1nat, blocks.len(),
{
    if blocks.len() == 0 {
        Seq::empty()
    } else {
        blocks_html(blocks.drop_last()) + block_html(blocks.last())
    }
}

/// The markup of one block.
///
/// The nested blocks of a quote follow the quote as a document of their own.
/// Each item of a list is written as a document of one block. No markup
/// stands for `Image` and `Empty`.
pub open spec fn block_html(block: BlockView) -> Seq<char>
    decreases depth(block), 0nat, 0nat,
{
    match block {
        BlockView::Header { rich_text, size } => "<h"@ + decimal(size) + ">"@ + inline_html(
            rich_text,
        ) + "</h"@ + decimal(size) + ">"@,
        BlockView::Divider => "<hr />"@,
        BlockView::Quote { rich_text, children } => "<blockquote>"@ + inline_html(rich_text)
            + "</blockquote>"@ + match children {
            Some(blocks) => html(blocks),
            None => Seq::empty(),
        },
        BlockView::CodeBlock { text, lang } => "<pre><code class=\"language-"@ + lang + "\">"@
            + text + "</code></pre>"@,
        BlockView::List { items } => "<ul>"@ + items_html(items) + "</ul>"@,
        BlockView::NumberedList { items } => "<ol>"@ + items_html(items) + "</ol>"@,
        BlockView::TodoList { items } => "<ul>"@ + todo_items_html(items) + "</ul>"@,
        BlockView::Line { rich_text } => if rich_text.len() == 0 {
            "<br />"@
        } else {
            "<p>"@ + inline_html(rich_text) + "</p>"@
        },
        BlockView::Image { .. } => Seq::empty(),
        BlockView::Empty => Seq::empty(),
    }
}

/// The markup of the items of a bulleted or numbered list.
pub open spec fn items_html(items: Seq<BlockView>) -> Seq<char>
    decreases max_depth(items), 3nat, items.len(),
{
    if items.len() == 0 {
        Seq::empty()
    } else {
        proof {
            lemma_depth_of_single(items.last());
        }
        items_html(items.drop_last()) + "<li>"@ + html(seq![items.last()]) + "</li>"@
    }
}

/// The markup of the items of a to-do list, each with its checkbox.
pub open spec fn todo_items_html(items: Seq<(bool, BlockView)>) -> Seq<char>
    decreases max_todo_depth(items), 3nat, items.len(),
{
    if items.len() == 0 {
        Seq::empty()
    } else {
        proof {
            lemma_depth_of_single(items.last().1);
        }
        todo_items_html(items.drop_last()) + "<li><input type=\"checkbox\" "@ + when(
            items.last().0,
            "checked"@,
        ) + ">"@ + html(seq![items.last().1]) + "</li>"@
    }
}

/// The blocks that are done and the block that is pending, as one sequence.
pub open spec fn with_pending(done: Seq<BlockView>, pending: Option<BlockView>) -> Seq<BlockView> {
    match pending {
        Some(block) => done.push(block),
        None => done,
    }
}

/// The markup of runs, one sequence after the other, is the markup of the
/// first sequence followed by the markup of the second.
pub proof fn lemma_inline_html_concat(first: Seq<RichTextView>, second: Seq<RichTextView>)
    ensures
        inline_html(first + second) == inline_html(first) + inline_html(second),
    decreases second.len(),
{
    if second.len() > 0 {
        lemma_inline_html_concat(first, second.drop_last());
        assert((first + second).drop_last() =~= first + second.drop_last());
    }
}

/// The markup of blocks as they stand, one block for itself.
pub proof fn lemma_blocks_html_single(block: BlockView)
    ensures
        blocks_html(seq![block]) == block_html(block),
{
    assert(blocks_html(seq![block].drop_last()) =~= Seq::<char>::empty());
}

/// The markup of a document of one block is the markup of that block.
pub proof fn lemma_html_single(block: BlockView)
    ensures
        html(seq![block]) == block_html(block),
{
    lemma_coalesce_single(block);
    lemma_blocks_html_single(block);
}

/// Leaving out the blocks that have no markup does not change the markup
/// of blocks as they stand.
pub proof fn lemma_blocks_html_of_supported(blocks: Seq<BlockView>)
    ensures
        blocks_html(supported_of(blocks)) == blocks_html(blocks),
    decreases blocks.len(),
{
    if blocks.len() > 0 {
        let before = blocks.drop_last();
        lemma_blocks_html_of_supported(before);
        if unsupported(blocks.last()) {
            assert(blocks_html(before) + block_html(blocks.last()) =~= blocks_html(before));
        } else {
            assert(supported_of(before).push(blocks.last()).drop_last() =~= supported_of(before));
        }
    }
}

/// The markup of a document is the markup of its blocks once joined: that
/// coalescing leaves out the blocks without markup is not seen in it.
pub proof fn lemma_html_of_joined(blocks: Seq<BlockView>)
    ensures
        html(blocks) == blocks_html(joined(blocks)),
{
    lemma_blocks_html_of_supported(joined(blocks));
}

/// Coalescing a document beforehand does not change its markup, where all
/// its blocks have markup.
///
/// Where a block without markup stands between two blocks that would merge,
/// it is left out by the first pass and the two merge in the second: two
/// bulleted lists around an `Image` are written as two lists, and as one
/// list once coalesced beforehand.
pub proof fn lemma_html_of_coalesced(blocks: Seq<BlockView>)
    requires
        all_supported(blocks),
    ensures
        html(coalesce(blocks)) == html(blocks),
{
    lemma_coalesce_idempotent(blocks);
}

/// A document of bulleted lists and nothing else is written as one list:
/// one `<ul>` element that holds one `<li>` element for each item of each
/// list, in their order. Where each list has one item, these are as many
/// `<li>` elements as there were lists.
pub proof fn lemma_lists_render_as_one(blocks: Seq<BlockView>)
    requires
        blocks.len() > 0,
        forall|i: int| 0 <= i < blocks.len() ==> #[trigger] blocks[i] is List,
    ensures
        html(blocks) == "<ul>"@ + items_html(all_items(blocks)) + "</ul>"@,
        (forall|i: int| 0 <= i < blocks.len() ==> (#[trigger] blocks[i])->List_items.len() == 1)
            ==> all_items(blocks).len() == blocks.len(),
{
    lemma_lists_collapse(blocks);
    lemma_blocks_html_single(BlockView::List { items: all_items(blocks) });
}

/// A document of numbered lists and nothing else is written as one list:
/// one `<ol>` element that holds one `<li>` element for each item of each
/// list, in their order. Where each list has one item, these are as many
/// `<li>` elements as there were lists.
pub proof fn lemma_numbered_lists_render_as_one(blocks: Seq<BlockView>)
    requires
        blocks.len() > 0,
        forall|i: int| 0 <= i < blocks.len() ==> #[trigger] blocks[i] is NumberedList,
    ensures
        html(blocks) == "<ol>"@ + items_html(all_items(blocks)) + "</ol>"@,
        (forall|i: int| 0 <= i < blocks.len() ==> (#[trigger] blocks[i])->NumberedList_items.len() == 1)
            ==> all_items(blocks).len() == blocks.len(),
{
    lemma_numbered_lists_collapse(blocks);
    lemma_blocks_html_single(BlockView::NumberedList { items: all_items(blocks) });
}

/// The markup of blocks as they stand, one sequence after the other, is the
/// markup of the first sequence followed by the markup of the second.
pub proof fn lemma_blocks_html_concat(first: Seq<BlockView>, second: Seq<BlockView>)
    ensures
        blocks_html(first + second) == blocks_html(first) + blocks_html(second),
    decreases second.len(),
{
    if second.len() > 0 {
        lemma_blocks_html_concat(first, second.drop_last());
        assert((first + second).drop_last() =~= first + second.drop_last());
    }
}

/// A block that stands alone splits the markup: the document is written as
/// what stands before the block, the block, and what stands after it, each
/// for itself. So a divider between two parts of a document is written as
/// the first part, `<hr />`, and the second part.
pub proof fn lemma_html_split(before: Seq<BlockView>, alone: BlockView, after: Seq<BlockView>)
    requires
        stands_alone(alone),
    ensures
        html(before.push(alone) + after) == html(before) + block_html(alone) + html(after),
        alone is Divider ==> html(before.push(alone) + after) == html(before) + "<hr />"@ + html(
            after,
        ),
{
    lemma_html_of_joined(before.push(alone) + after);
    lemma_html_of_joined(before);
    lemma_html_of_joined(after);
    lemma_joined_split(before, alone, after);
    lemma_blocks_html_concat(joined(before).push(alone), joined(after));
    assert(joined(before).push(alone).drop_last() =~= joined(before));
}

/// A document of lines with text and nothing else is written as one
/// paragraph: the markup of the runs of all the lines, with a line break at
/// each join.
pub proof fn lemma_lines_render_as_one_paragraph(blocks: Seq<BlockView>)
    requires
        blocks.len() > 0,
        forall|i: int|
            0 <= i < blocks.len() ==> (#[trigger] blocks[i]) is Line
                && blocks[i]->Line_rich_text.len() > 0,
    ensures
        html(blocks) == "<p>"@ + inline_html(all_runs(blocks)) + "</p>"@,
{
    lemma_lines_collapse(blocks);
    lemma_blocks_html_single(BlockView::Line { rich_text: all_runs(blocks) });
}

/// A blank line between two lines with text keeps them apart: the three
/// blocks coalesce to themselves, and the document is written as two
/// paragraphs with a line break between them.
pub proof fn lemma_blank_line_renders_between(first: Seq<RichTextView>, second: Seq<RichTextView>)
    requires
        first.len() > 0,
        second.len() > 0,
    ensures
        coalesce(
            seq![
                BlockView::Line { rich_text: first },
                BlockView::Line { rich_text: Seq::empty() },
                BlockView::Line { rich_text: second },
            ],
        ) == seq![
            BlockView::Line { rich_text: first },
            BlockView::Line { rich_text: Seq::empty() },
            BlockView::Line { rich_text: second },
        ],
        html(
            seq![
                BlockView::Line { rich_text: first },
                BlockView::Line { rich_text: Seq::empty() },
                BlockView::Line { rich_text: second },
            ],
        ) == "<p>"@ + inline_html(first) + "</p>"@ + "<br />"@ + "<p>"@ + inline_html(second)
            + "</p>"@,
{
    let a = BlockView::Line { rich_text: first };
    let blank = BlockView::Line { rich_text: Seq::empty() };
    let b = BlockView::Line { rich_text: second };
    let all = seq![a, blank, b];
    lemma_coalesce_single(a);
    lemma_blank_line_separates(seq![a], b);
    assert(seq![a].push(blank).push(b) =~= all);
    lemma_blocks_html_single(a);
    assert(all.drop_last() =~= seq![a, blank]);
    assert(seq![a, blank].drop_last() =~= seq![a]);
    assert(blocks_html(seq![a, blank]) == blocks_html(seq![a]) + block_html(blank));
}

/// Two lines with text, one right after the other, are written as one
/// paragraph: the markup of the first, a line break, and the markup of the
/// second.
pub proof fn lemma_lines_render_as_one(first: Seq<RichTextView>, second: Seq<RichTextView>)
    requires
        first.len() > 0,
        second.len() > 0,
    ensures
        html(seq![BlockView::Line { rich_text: first }, BlockView::Line { rich_text: second }])
            == "<p>"@ + inline_html(first) + "<br />"@ + inline_html(second) + "</p>"@,
{
    let joined = first.push(RichTextView::line_break()) + second;
    lemma_lines_merge(first, second);
    lemma_blocks_html_single(BlockView::Line { rich_text: joined });
    lemma_inline_html_concat(first.push(RichTextView::line_break()), second);
    assert(first.push(RichTextView::line_break()).drop_last() =~= first);
}

/// The numeral of one decimal digit.
fn digit_text(d: usize) -> (text: &'static str)
    requires
        d < 10,
    ensures
        text@ == digit(d as nat),
{
    if d == 0 {
        "0"
    } else if d == 1 {
        "1"
    } else if d == 2 {
        "2"
    } else if d == 3 {
        "3"
    } else if d == 4 {
        "4"
    } else if d == 5 {
        "5"
    } else if d == 6 {
        "6"
    } else if d == 7 {
        "7"
    } else if d == 8 {
        "8"
    } else {
        "9"
    }
}

/// Appends the decimal numeral of `n`.
fn push_decimal(out: &mut String, n: usize)
    ensures
        final(out)@ == old(out)@ + decimal(n as nat),
    decreases n,
{
    if n >= 10 {
        push_decimal(out, n / 10);
    }
    out.append(digit_text(n % 10));
}

/// Appends the text where the flag is set.
fn push_when(out: &mut String, flag: bool, text: &str)
    ensures
        final(out)@ == old(out)@ + when(flag, text@),
{
    if flag {
        out.append(text);
    }
}

/// Writes the opening tags of a run's styling.
fn opening_tags(text: &RichText) -> (out: String)
    ensures
        out@ == open_tags(text@),
{
    let mut out = String::new();
    push_when(&mut out, text.bold, "<b>");
    push_when(&mut out, text.italic, "<i>");
    push_when(&mut out, text.underline, "<u>");
    push_when(&mut out, text.strikethrough, "<s>");
    push_when(&mut out, text.code, "<code>");
    out
}

/// Writes the closing tags of a run's styling.
fn closing_tags(text: &RichText) -> (out: String)
    ensures
        out@ == close_tags(text@),
{
    let mut out = String::new();
    push_when(&mut out, text.code, "</code>");
    push_when(&mut out, text.strikethrough, "</s>");
    push_when(&mut out, text.underline, "</u>");
    push_when(&mut out, text.italic, "</i>");
    push_when(&mut out, text.bold, "</b>");
    out
}

/// Appends a link to `href` around markup that is already written.
fn push_link(out: &mut String, href: &str, styled: &str)
    ensures
        final(out)@ == old(out)@ + ("<a href=\""@ + href@ + "\">"@ + styled@ + "</a>"@),
{
    out.append("<a href=\"");
    out.append(href);
    out.append("\">");
    out.append(styled);
    out.append("</a>");
}

/// Appends the markup of one run.
fn push_run(out: &mut String, text: &RichText)
    ensures
        final(out)@ == old(out)@ + run_html(text@),
{
    if text.is_line_break() {
        out.append("<br />");
        return ;
    }
    let mut styled = opening_tags(text);
    let closing = closing_tags(text);
    styled.append(text.plain_text.as_str());
    styled.append(closing.as_str());
    match &text.href {
        Some(href) => {
            push_link(out, href.as_str(), styled.as_str());
        },
        None => {
            out.append(styled.as_str());
        },
    }
}

/// Writes the markup of a sequence of runs.
pub fn rich_text_to_html(rich_text: Vec<RichText>) -> (out: String)
    ensures
        out@ == inline_html(rich_text.deep_view()),
{
    let ghost all = rich_text.deep_view();
    let mut out = String::new();
    let mut i: usize = 0;
    while i < rich_text.len()
        invariant
            i <= rich_text.len(),
            all == rich_text.deep_view(),
            out@ == inline_html(all.take(i as int)),
        decreases rich_text.len() - i,
    {
        push_run(&mut out, &rich_text[i]);
        assert(all.take(i + 1).drop_last() =~= all.take(i as int));
        i = i + 1;
    }
    assert(all.take(rich_text.len() as int) =~= all);
    out
}

/// Decides what becomes of the pending block `last` when the block `next`
/// arrives. The first part of the result is the block that is done, if one
/// is; the second is the block that is pending from now on, if one is.
fn absorb_block(last: Option<Block>, next: Block) -> (out: (Option<Block>, Option<Block>))
    ensures
        last is Some && merges(last->0@, next@) ==> out.0 is None && out.1.deep_view() == Some(
            merged(last->0@, next@),
        ),
        !(last is Some && merges(last->0@, next@)) ==> out.0.deep_view() == last.deep_view()
            && out.1.deep_view() == if unsupported(next@) {
            None
        } else {
            Some(next@)
        },
{
    match next {
        Block::List { items } => match last {
            Some(Block::List { items: last_items }) => {
                let mut all = last_items;
                let mut rest = items;
                all.append(&mut rest);
                proof {
                    lemma_block_views(last_items);
                    lemma_block_views(items);
                    lemma_block_views(all);
                    assert(all.deep_view() =~= last_items.deep_view() + items.deep_view());
                }
                (None, Some(Block::List { items: all }))
            },
            other => (other, Some(Block::List { items })),
        },
        Block::NumberedList { items } => match last {
            Some(Block::NumberedList { items: last_items }) => {
                let mut all = last_items;
                let mut rest = items;
                all.append(&mut rest);
                proof {
                    lemma_block_views(last_items);
                    lemma_block_views(items);
                    lemma_block_views(all);
                    assert(all.deep_view() =~= last_items.deep_view() + items.deep_view());
                }
                (None, Some(Block::NumberedList { items: all }))
            },
            other => (other, Some(Block::NumberedList { items })),
        },
        Block::Line { rich_text } => {
            if rich_text.is_empty() {
                (last, Some(Block::Line { rich_text }))
            } else {
                match last {
                    Some(Block::Line { rich_text: last_text }) => {
                        if last_text.is_empty() {
                            (
                                Some(Block::Line { rich_text: last_text }),
                                Some(Block::Line { rich_text }),
                            )
                        } else {
                            let mut all = last_text;
                            let mut rest = rich_text;
                            all.push(RichText::default());
                            all.append(&mut rest);
                            assert(all.deep_view() =~= last_text.deep_view().push(
                                RichTextView::line_break(),
                            ) + rich_text.deep_view());
                            (None, Some(Block::Line { rich_text: all }))
                        }
                    },
                    other => (other, Some(Block::Line { rich_text })),
                }
            }
        },
        Block::Image { .. } => (last, None),
        Block::Empty => (last, None),
        other => (last, Some(other)),
    }
}

/// Coalesces the blocks of a document: see [`coalesce`]. Blocks that belong
/// together are joined, and a block without markup is left out after it has
/// kept its neighbours apart.
pub fn preprocess(blocks: Vec<Block>) -> (out: Vec<Block>)
    ensures
        out.deep_view() == coalesce(blocks.deep_view()),
        all_supported(out.deep_view()),
        all_well_formed(blocks.deep_view()) ==> all_well_formed(out.deep_view()),
        out.len() <= blocks.len(),
{
    let ghost all = blocks.deep_view();
    proof {
        lemma_coalesce_len(all);
        lemma_coalesce_supported(all);
        if all_well_formed(all) {
            lemma_coalesce_well_formed(all);
        }
    }
    let mut out: Vec<Block> = Vec::new();
    let mut last_block: Option<Block> = None;
    for block in it: blocks
        invariant
            it.seq() == blocks@,
            all == blocks.deep_view(),
            with_pending(out.deep_view(), last_block.deep_view()) == coalesce(
                all.take(it.index() as int),
            ),
            last_block is Some ==> joined(all.take(it.index() as int)).len() > 0
                && last_block.deep_view() == Some(joined(all.take(it.index() as int)).last())
                && !unsupported(last_block->0@),
            last_block is None ==> joined(all.take(it.index() as int)).len() == 0 || unsupported(
                joined(all.take(it.index() as int)).last(),
            ),
    {
        let ghost before = joined(all.take(it.index() as int));
        proof {
            assert(all.take(it.index() + 1) =~= all.take(it.index() as int).push(block@));
            lemma_joined_push(all.take(it.index() as int), block@);
            if before.len() > 0 && merges(before.last(), block@) {
                lemma_supported_of_push(before.drop_last(), merged(before.last(), block@));
                assert(supported_of(before.drop_last()).push(before.last()).drop_last()
                    =~= supported_of(before.drop_last()));
            } else {
                lemma_supported_of_push(before, block@);
            }
        }
        let (finished, pending) = absorb_block(last_block, block);
        match finished {
            Some(finished) => {
                out.push(finished);
            },
            None => {},
        }
        last_block = pending;
    }
    assert(all.take(all.len() as int) =~= all);
    let ghost done = out.deep_view();
    match last_block {
        Some(last) => {
            out.push(last);
            assert(out.deep_view() =~= done.push(last@));
        },
        None => {},
    }
    out
}

/// Writes the markup of one block.
fn block_to_html(block: Block) -> (out: String)
    ensures
        out@ == block_html(block@),
    decreases depth(block@), 0nat, 0nat,
{
    let mut out = String::new();
    match block {
        Block::Header { rich_text, size } => {
            let inner = rich_text_to_html(rich_text);
            out.append("<h");
            push_decimal(&mut out, size);
            out.append(">");
            out.append(inner.as_str());
            out.append("</h");
            push_decimal(&mut out, size);
            out.append(">");
        },
        Block::Divider => {
            out.append("<hr />");
        },
        Block::Quote { rich_text, children } => {
            let inner = rich_text_to_html(rich_text);
            out.append("<blockquote>");
            out.append(inner.as_str());
            out.append("</blockquote>");
            match children {
                Some(children) => {
                    proof {
                        lemma_block_views(children);
                    }
                    let nested = from_blocks(children, false);
                    out.append(nested.as_str());
                },
                None => {},
            }
        },
        Block::CodeBlock { text, lang } => {
            out.append("<pre><code class=\"language-");
            out.append(lang.as_str());
            out.append("\">");
            out.append(text.as_str());
            out.append("</code></pre>");
        },
        Block::List { items } => {
            proof {
                lemma_block_views(items);
            }
            let inner = items_to_html(items);
            out.append("<ul>");
            out.append(inner.as_str());
            out.append("</ul>");
        },
        Block::NumberedList { items } => {
            proof {
                lemma_block_views(items);
            }
            let inner = items_to_html(items);
            out.append("<ol>");
            out.append(inner.as_str());
            out.append("</ol>");
        },
        Block::TodoList { items } => {
            proof {
                lemma_todo_views(items);
            }
            let inner = todo_items_to_html(items);
            out.append("<ul>");
            out.append(inner.as_str());
            out.append("</ul>");
        },
        Block::Line { rich_text } => {
            if rich_text.is_empty() {
                out.append("<br />");
            } else {
                let inner = rich_text_to_html(rich_text);
                out.append("<p>");
                out.append(inner.as_str());
                out.append("</p>");
            }
        },
        Block::Image { .. } => {},
        Block::Empty => {},
    }
    out
}

/// Writes the markup of the items of a bulleted or numbered list.
fn items_to_html(items: Vec<Block>) -> (out: String)
    ensures
        out@ == items_html(items.deep_view()),
    decreases max_depth(items.deep_view()), 3nat, 0nat,
{
    let ghost all = items.deep_view();
    let mut out = String::new();
    for item in it: items
        invariant
            it.seq() == items@,
            all == items.deep_view(),
            out@ == items_html(all.take(it.index() as int)),
    {
        let single = vec![item];
        proof {
            assert(all.take(it.index() + 1).drop_last() =~= all.take(it.index() as int));
            assert(single.deep_view() =~= seq![item@]);
            lemma_depth_of_index(all, it.index() as int);
            lemma_depth_of_single(item@);
        }
        let inner = from_blocks(single, true);
        out.append("<li>");
        out.append(inner.as_str());
        out.append("</li>");
    }
    assert(all.take(all.len() as int) =~= all);
    out
}

/// Writes the markup of the items of a to-do list.
fn todo_items_to_html(items: Vec<(bool, Block)>) -> (out: String)
    ensures
        out@ == todo_items_html(items.deep_view()),
    decreases max_todo_depth(items.deep_view()), 3nat, 0nat,
{
    let ghost all = items.deep_view();
    let mut out = String::new();
    for entry in it: items
        invariant
            it.seq() == items@,
            all == items.deep_view(),
            out@ == todo_items_html(all.take(it.index() as int)),
    {
        let (checked, item) = entry;
        let single = vec![item];
        proof {
            assert(all.take(it.index() + 1).drop_last() =~= all.take(it.index() as int));
            assert(single.deep_view() =~= seq![item@]);
            lemma_todo_depth_of_index(all, it.index() as int);
            lemma_depth_of_single(item@);
        }
        let inner = from_blocks(single, false);
        out.append("<li><input type=\"checkbox\" ");
        push_when(&mut out, checked, "checked");
        out.append(">");
        out.append(inner.as_str());
        out.append("</li>");
    }
    assert(all.take(all.len() as int) =~= all);
    out
}

/// Writes the markup of a document: coalesces its blocks, then writes each
/// of them. The flag `extra` asks for more detail in diagnostics where a
/// caller keeps any; the markup does not depend on it.
pub fn from_blocks(blocks: Vec<Block>, extra: bool) -> (out: String)
    ensures
        out@ == html(blocks.deep_view()),
    decreases max_depth(blocks.deep_view()), 2nat, 0nat,
{
    let coalesced = preprocess(blocks);
    let ghost all = coalesced.deep_view();
    proof {
        lemma_coalesce_depth(blocks.deep_view());
    }
    let mut out = String::new();
    for block in it: coalesced
        invariant
            it.seq() == coalesced@,
            all == coalesced.deep_view(),
            max_depth(all) == max_depth(blocks.deep_view()),
            out@ == blocks_html(all.take(it.index() as int)),
    {
        proof {
            assert(all.take(it.index() + 1).drop_last() =~= all.take(it.index() as int));
            lemma_depth_of_index(all, it.index() as int);
        }
        let inner = block_to_html(block);
        out.append(inner.as_str());
    }
    assert(all.take(all.len() as int) =~= all);
    out
}

} // verus!
