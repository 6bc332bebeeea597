//! The intermediary document: a small, closed vocabulary of blocks and inline
//! runs, and the normalizer that maps the block records of a page onto it.
//!
//! [`normalize`] says, over views, which intermediary blocks a page stands
//! for; [`parse_blocks`] computes them.
use vstd::prelude::*;

use crate::notion::Block as NotionBlock;
use crate::notion::BlockData as NotionBlockData;
use crate::notion::BlockDataView as NotionBlockDataView;
use crate::notion::BlockView as NotionBlockView;
use crate::notion::NotionColor;
use crate::notion::RichText as NotionRichText;
use crate::notion::RichTextView as NotionRichTextView;

verus! {

/// The colour of a run: the nine text colours and the default.
#[derive(Debug, Clone, Copy, PartialEq, Eq, Structural)]
pub enum IntermediaryColor {
    Blue,
    Brown,
    Default,
    Gray,
    Green,
    Orange,
    Yellow,
    Pink,
    Purple,
    Red,
}

/// An inline run of text with its styling. The run that equals
/// `RichText::default()` stands for a line break inside a paragraph.
#[derive(Debug, PartialEq, Eq)]
pub struct RichText {
    pub plain_text: String,
    pub bold: bool,
    pub italic: bool,
    pub underline: bool,
    pub strikethrough: bool,
    pub code: bool,
    pub color: IntermediaryColor,
    pub href: Option<String>,
}

/// A block of the intermediary document.
///
/// A `Line` without runs is a blank line. The items of the three kinds of
/// list are blocks themselves. `Empty` and `Image` are part of the
/// vocabulary, and no markup is written for them.
#[allow(inconsistent_fields)]
#[derive(Debug, PartialEq, Eq)]
pub enum Block {
    Header {
        rich_text: Vec<RichText>,
        size: usize,
    },
    Divider,
    Quote {
        rich_text: Vec<RichText>,
        children: Option<Vec<Block>>,
    },
    CodeBlock {
        text: String,
        lang: String,
    },
    Image {
        url: String,
    },
    List {
        items: Vec<Block>,
    },
    NumberedList {
        items: Vec<Block>,
    },
    TodoList {
        items: Vec<(bool, Block)>,
    },
    Line {
        rich_text: Vec<RichText>,
    },
    Empty,
}

/// What the normalizer leaves out of a page, for the caller to report.
#[derive(Debug, PartialEq, Eq)]
pub enum Warning {
    /// A block record of a type that has no intermediary block, with its
    /// type tag. The record is left out.
    UnsupportedBlock {
        ty: String,
    },
    /// A to-do with nested blocks. The nested blocks are left out.
    TodoChildrenIgnored,
    /// A bulleted or numbered item with nested blocks. The nested blocks are
    /// left out.
    ListChildrenIgnored,
}

/// View of a [`Warning`].
pub enum WarningView {
    UnsupportedBlock {
        ty: Seq<char>,
    },
    TodoChildrenIgnored,
    ListChildrenIgnored,
}

impl View for Warning {
    type V = WarningView;

    open spec fn view(&self) -> WarningView {
        match self {
            Warning::UnsupportedBlock { ty } => WarningView::UnsupportedBlock { ty: ty@ },
            Warning::TodoChildrenIgnored => WarningView::TodoChildrenIgnored,
            Warning::ListChildrenIgnored => WarningView::ListChildrenIgnored,
        }
    }
}

impl DeepView for Warning {
    type V = WarningView;

    open spec fn deep_view(&self) -> WarningView {
        self.view()
    }
}

/// View of a [`RichText`].
pub struct RichTextView {
    pub plain_text: Seq<char>,
    pub bold: bool,
    pub italic: bool,
    pub underline: bool,
    pub strikethrough: bool,
    pub code: bool,
    pub color: IntermediaryColor,
    pub href: Option<Seq<char>>,
}

/// View of a [`Block`]: the same variants over sequences.
#[allow(inconsistent_fields)]
pub enum BlockView {
    Header {
        rich_text: Seq<RichTextView>,
        size: nat,
    },
    Divider,
    Quote {
        rich_text: Seq<RichTextView>,
        children: Option<Seq<BlockView>>,
    },
    CodeBlock {
        text: Seq<char>,
        lang: Seq<char>,
    },
    Image {
        url: Seq<char>,
    },
    List {
        items: Seq<BlockView>,
    },
    NumberedList {
        items: Seq<BlockView>,
    },
    TodoList {
        items: Seq<(bool, BlockView)>,
    },
    Line {
        rich_text: Seq<RichTextView>,
    },
    Empty,
}

impl RichTextView {
    /// The run that stands for a line break: no text, no styling, no link,
    /// the default colour.
    pub open spec fn line_break() -> RichTextView {
        RichTextView {
            plain_text: Seq::empty(),
            bold: false,
            italic: false,
            underline: false,
            strikethrough: false,
            code: false,
            color: IntermediaryColor::Default,
            href: None,
        }
    }

    /// Whether the run is the one that stands for a line break.
    pub open spec fn is_line_break(self) -> bool {
        &&& self.plain_text.len() == 0
        &&& !self.bold
        &&& !self.italic
        &&& !self.underline
        &&& !self.strikethrough
        &&& !self.code
        &&& self.color == IntermediaryColor::Default
        &&& self.href is None
    }
}

impl View for RichText {
    type V = RichTextView;

    open spec fn view(&self) -> RichTextView {
        RichTextView {
            plain_text: self.plain_text@,
            bold: self.bold,
            italic: self.italic,
            underline: self.underline,
            strikethrough: self.strikethrough,
            code: self.code,
            color: self.color,
            href: match self.href {
                Some(href) => Some(href@),
                None => None,
            },
        }
    }
}

impl DeepView for RichText {
    type V = RichTextView;

    open spec fn deep_view(&self) -> RichTextView {
        self.view()
    }
}

/// The view of a block.
pub open spec fn block_view(block: Block) -> BlockView
    decreases block,
{
    match block {
        Block::Header { rich_text, size } => BlockView::Header {
            rich_text: rich_text.deep_view(),
            size: size as nat,
        },
        Block::Divider => BlockView::Divider,
        Block::Quote { rich_text, children } => BlockView::Quote {
            rich_text: rich_text.deep_view(),
            children: match children {
                Some(blocks) => Some(block_views(blocks@)),
                None => None,
            },
        },
        Block::CodeBlock { text, lang } => BlockView::CodeBlock { text: text@, lang: lang@ },
        Block::Image { url } => BlockView::Image { url: url@ },
        Block::List { items } => BlockView::List { items: block_views(items@) },
        Block::NumberedList { items } => BlockView::NumberedList { items: block_views(items@) },
        Block::TodoList { items } => BlockView::TodoList { items: todo_views(items@) },
        Block::Line { rich_text } => BlockView::Line { rich_text: rich_text.deep_view() },
        Block::Empty => BlockView::Empty,
    }
}

/// The views of a sequence of blocks, item by item.
pub open spec fn block_views(blocks: Seq<Block>) -> Seq<BlockView>
    decreases blocks,
{
    Seq::new(
        blocks.len(),
        |i: int|
            if 0 <= i < blocks.len() {
                block_view(blocks[i])
            } else {
                arbitrary()
            },
    )
}

/// The views of the items of a to-do list, item by item.
pub open spec fn todo_views(items: Seq<(bool, Block)>) -> Seq<(bool, BlockView)>
    decreases items,
{
    Seq::new(
        items.len(),
        |i: int|
            if 0 <= i < items.len() {
                (items[i].0, block_view(items[i].1))
            } else {
                arbitrary()
            },
    )
}

/// The deep view of a vector of blocks is the views of its blocks.
pub proof fn lemma_block_views(blocks: Vec<Block>)
    ensures
        block_views(blocks@) == blocks.deep_view(),
{
}

/// The deep view of the items of a to-do list is the views of its items.
pub proof fn lemma_todo_views(items: Vec<(bool, Block)>)
    ensures
        todo_views(items@) == items.deep_view(),
{
}

impl View for Block {
    type V = BlockView;

    open spec fn view(&self) -> BlockView {
        block_view(*self)
    }
}

impl DeepView for Block {
    type V = BlockView;

    open spec fn deep_view(&self) -> BlockView {
        block_view(*self)
    }
}

impl BlockView {
    /// The name of the variant.
    pub open spec fn name(self) -> Seq<char> {
        match self {
            BlockView::Header { .. } => "Header"@,
            BlockView::Divider => "Divider"@,
            BlockView::Quote { .. } => "Quote"@,
            BlockView::CodeBlock { .. } => "CodeBlock"@,
            BlockView::Image { .. } => "Image"@,
            BlockView::List { .. } => "List"@,
            BlockView::NumberedList { .. } => "NumberedList"@,
            BlockView::TodoList { .. } => "TodoList"@,
            BlockView::Line { .. } => "Line"@,
            BlockView::Empty => "Empty"@,
        }
    }
}

impl Block {
    /// The name of the variant, for diagnostics.
    pub fn to_string(&self) -> (text: String)
        ensures
            text@ == self@.name(),
    {
        let name: &str = match self {
            Block::Header { .. } => "Header",
            Block::Divider => "Divider",
            Block::Quote { .. } => "Quote",
            Block::CodeBlock { .. } => "CodeBlock",
            Block::Image { .. } => "Image",
            Block::List { .. } => "List",
            Block::NumberedList { .. } => "NumberedList",
            Block::TodoList { .. } => "TodoList",
            Block::Line { .. } => "Line",
            Block::Empty => "Empty",
        };
        String::from_str(name)
    }
}

impl Default for IntermediaryColor {
    fn default() -> (color: IntermediaryColor)
        ensures
            color == IntermediaryColor::Default,
    {
        IntermediaryColor::Default
    }
}

impl Default for RichText {
    fn default() -> (text: RichText)
        ensures
            text@ == RichTextView::line_break(),
    {
        RichText {
            plain_text: String::new(),
            bold: false,
            italic: false,
            underline: false,
            strikethrough: false,
            code: false,
            color: IntermediaryColor::Default,
            href: None,
        }
    }
}

impl RichText {
    /// Whether the run is the one that stands for a line break, that is,
    /// whether it equals `RichText::default()`.
    pub fn is_line_break(&self) -> (answer: bool)
        ensures
            answer == self@.is_line_break(),
    {
        self.plain_text.as_str().is_empty() && !self.bold && !self.italic && !self.underline
            && !self.strikethrough && !self.code && self.color == IntermediaryColor::Default
            && self.href.is_none()
    }
}

/// Whether a block is well formed: a header has level 1, 2 or 3, a list of
/// any kind has at least one item, and the blocks inside a block are well
/// formed in turn.
pub open spec fn well_formed(block: BlockView) -> bool
    decreases block,
{
    match block {
        BlockView::Header { size, .. } => 1 <= size <= 3,
        BlockView::Quote { children: Some(blocks), .. } => forall|i: int|
            0 <= i < blocks.len() ==> well_formed(#[trigger] blocks[i]),
        BlockView::List { items } => items.len() > 0 && forall|i: int|
            0 <= i < items.len() ==> well_formed(#[trigger] items[i]),
        BlockView::NumberedList { items } => items.len() > 0 && forall|i: int|
            0 <= i < items.len() ==> well_formed(#[trigger] items[i]),
        BlockView::TodoList { items } => items.len() > 0 && forall|i: int|
            0 <= i < items.len() ==> well_formed((#[trigger] items[i]).1),
        _ => true,
    }
}

/// Whether every block of a sequence is well formed.
pub open spec fn all_well_formed(blocks: Seq<BlockView>) -> bool {
    forall|i: int| 0 <= i < blocks.len() ==> well_formed(#[trigger] blocks[i])
}

/// Whether a block is of a kind that has no markup and that coalescing
/// leaves out: `Image` or `Empty`.
pub open spec fn unsupported(block: BlockView) -> bool {
    block is Image || block is Empty
}

/// Whether every block of a sequence has markup, that is, none is `Image`
/// or `Empty`. Blocks inside the blocks are not looked at.
pub open spec fn all_supported(blocks: Seq<BlockView>) -> bool {
    forall|i: int| 0 <= i < blocks.len() ==> !unsupported(#[trigger] blocks[i])
}

/// The colour that a colour tag of the page stands for: a text colour stands
/// for itself, a background and the default for the default.
pub open spec fn color_of(color: NotionColor) -> IntermediaryColor {
    match color {
        NotionColor::Blue => IntermediaryColor::Blue,
        NotionColor::Brown => IntermediaryColor::Brown,
        NotionColor::Gray => IntermediaryColor::Gray,
        NotionColor::Green => IntermediaryColor::Green,
        NotionColor::Orange => IntermediaryColor::Orange,
        NotionColor::Yellow => IntermediaryColor::Yellow,
        NotionColor::Pink => IntermediaryColor::Pink,
        NotionColor::Purple => IntermediaryColor::Purple,
        NotionColor::Red => IntermediaryColor::Red,
        _ => IntermediaryColor::Default,
    }
}

impl From<NotionColor> for IntermediaryColor {
    fn from(value: NotionColor) -> (color: IntermediaryColor) {
        match value {
            NotionColor::Blue => IntermediaryColor::Blue,
            NotionColor::Brown => IntermediaryColor::Brown,
            NotionColor::Gray => IntermediaryColor::Gray,
            NotionColor::Green => IntermediaryColor::Green,
            NotionColor::Orange => IntermediaryColor::Orange,
            NotionColor::Yellow => IntermediaryColor::Yellow,
            NotionColor::Pink => IntermediaryColor::Pink,
            NotionColor::Purple => IntermediaryColor::Purple,
            NotionColor::Red => IntermediaryColor::Red,
            _ => IntermediaryColor::Default,
        }
    }
}

impl vstd::std_specs::convert::FromSpecImpl<NotionColor> for IntermediaryColor {
    open spec fn obeys_from_spec() -> bool {
        true
    }

    open spec fn from_spec(value: NotionColor) -> IntermediaryColor {
        color_of(value)
    }
}

/// The run that a run of the page stands for: the same text, styling and
/// link, and the colour by [`color_of`].
pub open spec fn run_of(text: NotionRichTextView) -> RichTextView {
    RichTextView {
        plain_text: text.plain_text,
        bold: text.annotations.bold,
        italic: text.annotations.italic,
        underline: text.annotations.underline,
        strikethrough: text.annotations.strikethrough,
        code: text.annotations.code,
        color: color_of(text.annotations.color),
        href: text.href,
    }
}

/// The runs that the runs of the page stand for, one for one.
pub open spec fn runs_of(text: Seq<NotionRichTextView>) -> Seq<RichTextView> {
    Seq::new(text.len(), |i: int| run_of(text[i]))
}

/// The texts of the runs, one after the other, without their styling.
pub open spec fn plain_text_of(text: Seq<NotionRichTextView>) -> Seq<char>
    decreases text.len(),
{
    if text.len() == 0 {
        Seq::empty()
    } else {
        plain_text_of(text.drop_last()) + text.last().plain_text
    }
}

/// The intermediary block that one block record stands for, or `None` where
/// the record is of a type that has none.
///
/// A to-do, a bulleted item and a numbered item each become a list of one
/// item, a `Line` with the record's runs; their nested blocks are left out.
/// A numbered item that has nested blocks becomes a bulleted `List`, not a
/// `NumberedList`. The nested blocks of a quote are normalized in turn.
pub open spec fn normalize_block(block: NotionBlockView) -> Option<BlockView>
    decreases block,
{
    match block.block {
        NotionBlockDataView::Heading1 { rich_text } => Some(
            BlockView::Header { rich_text: runs_of(rich_text), size: 1 },
        ),
        NotionBlockDataView::Heading2 { rich_text } => Some(
            BlockView::Header { rich_text: runs_of(rich_text), size: 2 },
        ),
        NotionBlockDataView::Heading3 { rich_text } => Some(
            BlockView::Header { rich_text: runs_of(rich_text), size: 3 },
        ),
        NotionBlockDataView::Quote { rich_text, children } => Some(
            BlockView::Quote {
                rich_text: runs_of(rich_text),
                children: match children {
                    Some(blocks) => Some(normalize(blocks)),
                    None => None,
                },
            },
        ),
        NotionBlockDataView::Code { rich_text, language } => Some(
            BlockView::CodeBlock { text: plain_text_of(rich_text), lang: language.name() },
        ),
        NotionBlockDataView::ToDo { rich_text, checked, .. } => Some(
            BlockView::TodoList {
                items: seq![(checked, BlockView::Line { rich_text: runs_of(rich_text) })],
            },
        ),
        NotionBlockDataView::BulletedListItem { rich_text, .. } => Some(
            BlockView::List { items: seq![BlockView::Line { rich_text: runs_of(rich_text) }] },
        ),
        NotionBlockDataView::NumberedListItem { rich_text, children } => if children is Some {
            Some(BlockView::List { items: seq![BlockView::Line { rich_text: runs_of(rich_text) }] })
        } else {
            Some(
                BlockView::NumberedList {
                    items: seq![BlockView::Line { rich_text: runs_of(rich_text) }],
                },
            )
        },
        NotionBlockDataView::Divider => Some(BlockView::Divider),
        NotionBlockDataView::Paragraph { rich_text } => Some(
            BlockView::Line { rich_text: runs_of(rich_text) },
        ),
        _ => None,
    }
}

/// The intermediary blocks that a sequence of block records stands for: the
/// block of each record that has one, in the order of the records.
pub open spec fn normalize(blocks: Seq<NotionBlockView>) -> Seq<BlockView>
    decreases blocks,
{
    if blocks.len() == 0 {
        Seq::empty()
    } else {
        match normalize_block(blocks.last()) {
            Some(block) => normalize(blocks.drop_last()).push(block),
            None => normalize(blocks.drop_last()),
        }
    }
}

/// What the normalizer leaves out of one block record: the record itself
/// where its type has no intermediary block, the nested blocks of a to-do
/// or of a list item where it has any, and for a quote what is left out of
/// its nested blocks.
pub open spec fn block_warnings_of(block: NotionBlockView) -> Seq<WarningView>
    decreases block,
{
    match block.block {
        NotionBlockDataView::Quote { children: Some(blocks), .. } => warnings_of(blocks),
        NotionBlockDataView::ToDo { children: Some(_), .. } => seq![
            WarningView::TodoChildrenIgnored,
        ],
        NotionBlockDataView::BulletedListItem { children: Some(_), .. } => seq![
            WarningView::ListChildrenIgnored,
        ],
        NotionBlockDataView::NumberedListItem { children: Some(_), .. } => seq![
            WarningView::ListChildrenIgnored,
        ],
        _ => if normalize_block(block) is None {
            seq![WarningView::UnsupportedBlock { ty: block.ty }]
        } else {
            Seq::empty()
        },
    }
}

/// What the normalizer leaves out of a sequence of block records, in the
/// order of the records.
pub open spec fn warnings_of(blocks: Seq<NotionBlockView>) -> Seq<WarningView>
    decreases blocks,
{
    if blocks.len() == 0 {
        Seq::empty()
    } else {
        warnings_of(blocks.drop_last()) + block_warnings_of(blocks.last())
    }
}

/// The block that a block record stands for is well formed.
pub proof fn lemma_normalize_block_well_formed(block: NotionBlockView)
    ensures
        normalize_block(block) matches Some(out) ==> well_formed(out),
    decreases block,
{
    let line = |rich_text: Seq<NotionRichTextView>| BlockView::Line { rich_text: runs_of(rich_text) };
    match block.block {
        NotionBlockDataView::Quote { children: Some(blocks), .. } => {
            lemma_normalize_well_formed(blocks);
        },
        NotionBlockDataView::ToDo { rich_text, .. } => {
            assert(well_formed(line(rich_text)));
        },
        NotionBlockDataView::BulletedListItem { rich_text, .. } => {
            assert(well_formed(line(rich_text)));
        },
        NotionBlockDataView::NumberedListItem { rich_text, .. } => {
            assert(well_formed(line(rich_text)));
        },
        _ => {},
    }
}

/// The blocks that block records stand for are well formed, and there are
/// no more of them than there are records.
pub proof fn lemma_normalize_well_formed(blocks: Seq<NotionBlockView>)
    ensures
        all_well_formed(normalize(blocks)),
        normalize(blocks).len() <= blocks.len(),
    decreases blocks,
{
    if blocks.len() > 0 {
        lemma_normalize_well_formed(blocks.drop_last());
        lemma_normalize_block_well_formed(blocks.last());
    }
}

/// The blocks that two sequences of block records stand for, one sequence
/// after the other, are the blocks of the first followed by the blocks of
/// the second.
pub proof fn lemma_normalize_concat(first: Seq<NotionBlockView>, second: Seq<NotionBlockView>)
    ensures
        normalize(first + second) == normalize(first) + normalize(second),
    decreases second.len(),
{
    if second.len() > 0 {
        lemma_normalize_concat(first, second.drop_last());
        assert((first + second).drop_last() =~= first + second.drop_last());
    }
}

/// Every list that a block record stands for has one item, and that item
/// is a line.
pub proof fn lemma_normalize_block_single_item(block: NotionBlockView)
    ensures
        match normalize_block(block) {
            Some(BlockView::List { items }) => items.len() == 1 && items[0] is Line,
            Some(BlockView::NumberedList { items }) => items.len() == 1 && items[0] is Line,
            Some(BlockView::TodoList { items }) => items.len() == 1 && items[0].1 is Line,
            _ => true,
        },
{
}

/// The blocks that block records stand for all have markup: the normalizer
/// makes no `Image` and no `Empty`.
pub proof fn lemma_normalize_supported(blocks: Seq<NotionBlockView>)
    ensures
        all_supported(normalize(blocks)),
    decreases blocks.len(),
{
    if blocks.len() > 0 {
        lemma_normalize_supported(blocks.drop_last());
        let out = normalize(blocks);
        assert(normalize_block(blocks.last()) matches Some(block) ==> !unsupported(block));
        assert forall|i: int| 0 <= i < out.len() implies !unsupported(#[trigger] out[i]) by {}
    }
}

/// Maps the runs of the page onto intermediary runs.
pub fn notion_to_text(text: Vec<NotionRichText>) -> (out: Vec<RichText>)
    ensures
        out.deep_view() == runs_of(text.deep_view()),
{
    let ghost all = text.deep_view();
    let mut out: Vec<RichText> = Vec::new();
    for t in it: text
        invariant
            it.seq() == text@,
            all == text.deep_view(),
            out.len() == it.index(),
            forall|i: int| 0 <= i < out.len() ==> out[i]@ == run_of(all[i]),
    {
        out.push(
            RichText {
                plain_text: t.plain_text,
                bold: t.annotations.bold,
                italic: t.annotations.italic,
                underline: t.annotations.underline,
                strikethrough: t.annotations.strikethrough,
                code: t.annotations.code,
                href: t.href,
                color: IntermediaryColor::from(t.annotations.color),
            },
        );
    }
    out
}

/// Joins the texts of the runs.
fn plain_text(text: &Vec<NotionRichText>) -> (out: String)
    ensures
        out@ == plain_text_of(text.deep_view()),
{
    let ghost all = text.deep_view();
    let mut out = String::new();
    let mut i: usize = 0;
    while i < text.len()
        invariant
            i <= text.len(),
            all == text.deep_view(),
            out@ == plain_text_of(all.take(i as int)),
        decreases text.len() - i,
    {
        out.append(text[i].plain_text.as_str());
        assert(all.take(i + 1).drop_last() =~= all.take(i as int));
        i = i + 1;
    }
    assert(all.take(text.len() as int) =~= all);
    out
}

/// Wraps runs into the single item of a list.
fn line_item(rich_text: Vec<NotionRichText>) -> (items: Vec<Block>)
    ensures
        items.deep_view() == seq![BlockView::Line { rich_text: runs_of(rich_text.deep_view()) }],
        block_views(items@) == items.deep_view(),
{
    let items = vec![Block::Line { rich_text: notion_to_text(rich_text) }];
    proof {
        lemma_block_views(items);
    }
    items
}

/// Whether a block record is of a type that has an intermediary block, that
/// is, whether [`parse_blocks`] keeps it.
pub fn is_supported(block: &NotionBlock) -> (answer: bool)
    ensures
        answer == (normalize_block(block@) is Some),
{
    match &block.block {
        NotionBlockData::Heading1 { .. } => true,
        NotionBlockData::Heading2 { .. } => true,
        NotionBlockData::Heading3 { .. } => true,
        NotionBlockData::Quote { .. } => true,
        NotionBlockData::Code { .. } => true,
        NotionBlockData::ToDo { .. } => true,
        NotionBlockData::BulletedListItem { .. } => true,
        NotionBlockData::NumberedListItem { .. } => true,
        NotionBlockData::Divider => true,
        NotionBlockData::Paragraph { .. } => true,
        _ => false,
    }
}

/// Lists what [`parse_blocks`] leaves out of a page: see [`warnings_of`].
pub fn warnings(notion: &Vec<NotionBlock>) -> (out: Vec<Warning>)
    ensures
        out.deep_view() == warnings_of(notion.deep_view()),
    decreases notion,
{
    let ghost all = notion.deep_view();
    let mut out: Vec<Warning> = Vec::new();
    let mut i: usize = 0;
    while i < notion.len()
        invariant
            i <= notion.len(),
            all == notion.deep_view(),
            out.deep_view() == warnings_of(all.take(i as int)),
        decreases notion.len() - i,
    {
        let block = &notion[i];
        assert(all.take(i + 1).drop_last() =~= all.take(i as int));
        match &block.block {
            NotionBlockData::Quote { children: Some(children), .. } => {
                proof {
                    crate::notion::lemma_block_views(*children);
                }
                let mut inner = warnings(children);
                out.append(&mut inner);
                assert(block_warnings_of(block@) == warnings_of(children.deep_view()));
            },
            NotionBlockData::ToDo { children: Some(_), .. } => {
                out.push(Warning::TodoChildrenIgnored);
                assert(block_warnings_of(block@) == seq![WarningView::TodoChildrenIgnored]);
            },
            NotionBlockData::BulletedListItem { children: Some(_), .. } => {
                out.push(Warning::ListChildrenIgnored);
                assert(block_warnings_of(block@) == seq![WarningView::ListChildrenIgnored]);
            },
            NotionBlockData::NumberedListItem { children: Some(_), .. } => {
                out.push(Warning::ListChildrenIgnored);
                assert(block_warnings_of(block@) == seq![WarningView::ListChildrenIgnored]);
            },
            _ => {
                if !is_supported(block) {
                    out.push(Warning::UnsupportedBlock { ty: block.ty.clone() });
                    assert(block_warnings_of(block@) == seq![
                        WarningView::UnsupportedBlock { ty: block@.ty },
                    ]);
                } else {
                    assert(block_warnings_of(block@) == Seq::<WarningView>::empty());
                }
            },
        }
        i = i + 1;
    }
    assert(all.take(notion.len() as int) =~= all);
    out
}

/// Maps one block record onto the intermediary block it stands for, if any.
pub fn parse_block(block: NotionBlock) -> (out: Option<Block>)
    ensures
        out.deep_view() == normalize_block(block@),
    decreases block,
{
    let out = match block.block {
        NotionBlockData::Heading1 { rich_text } => {
            Block::Header { rich_text: notion_to_text(rich_text), size: 1 }
        },
        NotionBlockData::Heading2 { rich_text } => {
            Block::Header { rich_text: notion_to_text(rich_text), size: 2 }
        },
        NotionBlockData::Heading3 { rich_text } => {
            Block::Header { rich_text: notion_to_text(rich_text), size: 3 }
        },
        NotionBlockData::Quote { rich_text, children } => {
            let children = match children {
                Some(children) => {
                    let parsed = parse_blocks(children);
                    proof {
                        crate::notion::lemma_block_views(children);
                        lemma_block_views(parsed);
                    }
                    Some(parsed)
                },
                None => None,
            };
            Block::Quote { rich_text: notion_to_text(rich_text), children }
        },
        NotionBlockData::Code { rich_text, language } => {
            Block::CodeBlock { text: plain_text(&rich_text), lang: language.to_string() }
        },
        NotionBlockData::ToDo { rich_text, checked, .. } => {
            let items = vec![(checked, Block::Line { rich_text: notion_to_text(rich_text) })];
            proof {
                lemma_todo_views(items);
            }
            assert(items.deep_view() =~= seq![
                (checked, BlockView::Line { rich_text: runs_of(rich_text.deep_view()) }),
            ]);
            Block::TodoList { items }
        },
        NotionBlockData::BulletedListItem { rich_text, .. } => {
            Block::List { items: line_item(rich_text) }
        },
        NotionBlockData::NumberedListItem { rich_text, children } => {
            if children.is_some() {
                Block::List { items: line_item(rich_text) }
            } else {
                Block::NumberedList { items: line_item(rich_text) }
            }
        },
        NotionBlockData::Divider => Block::Divider,
        NotionBlockData::Paragraph { rich_text } => {
            Block::Line { rich_text: notion_to_text(rich_text) }
        },
        _ => {
            return None;
        },
    };
    Some(out)
}

/// Maps the block records of a page onto the intermediary document: see
/// [`normalize`]. Records of a type that has no intermediary block are left
/// out, so the result may be shorter than the page; the order is kept. What
/// comes out is well formed and holds no `Image` and no `Empty`.
pub fn parse_blocks(notion: Vec<NotionBlock>) -> (out: Vec<Block>)
    ensures
        out.deep_view() == normalize(notion.deep_view()),
        all_well_formed(out.deep_view()),
        all_supported(out.deep_view()),
        out.len() <= notion.len(),
    decreases notion,
{
    let ghost all = notion.deep_view();
    proof {
        lemma_normalize_well_formed(all);
        lemma_normalize_supported(all);
    }
    let mut out: Vec<Block> = Vec::new();
    for block in it: notion
        invariant
            it.seq() == notion@,
            all == notion.deep_view(),
            out.deep_view() == normalize(all.take(it.index() as int)),
    {
        assert(all.take(it.index() + 1).drop_last() =~= all.take(it.index() as int));
        match parse_block(block) {
            Some(parsed) => {
                out.push(parsed);
            },
            None => {},
        }
    }
    assert(all.take(all.len() as int) =~= all);
    out
}

} // verus!
