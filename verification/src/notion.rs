//! Block records of a Notion page, as the block-children listing of the
//! Notion API hands them out, and their mathematical views.
//!
//! The types here only carry data. Every record has a view in which strings
//! are sequences of characters and vectors are sequences, so that contracts
//! elsewhere in the crate can speak of a page without speaking of memory.
use vstd::prelude::*;

verus! {

/// One page of a block-children listing.
#[derive(Debug)]
pub struct PageResponse {
    pub results: Vec<Block>,
}

/// A block record: its type tag as sent, and the payload that goes with it.
#[derive(Debug)]
pub struct Block {
    pub ty: String,
    pub block: BlockData,
}

/// The payload of a block record, one variant per block type. Only the
/// variants that carry rich text are read by the rest of the crate; the
/// others are recognised and carry nothing.
#[derive(Debug)]
pub enum BlockData {
    Bookmark {},
    Breadcrumb,
    BulletedListItem {
        rich_text: Vec<RichText>,
        children: Option<Vec<Block>>,
    },
    Callout {},
    ChildDatabase {},
    ChildPage {},
    Code {
        rich_text: Vec<RichText>,
        language: NotionLanguages,
    },
    ColumnList,
    Column,
    Divider,
    Embed {},
    Equation {},
    File {},
    Heading1 {
        rich_text: Vec<RichText>,
    },
    Heading2 {
        rich_text: Vec<RichText>,
    },
    Heading3 {
        rich_text: Vec<RichText>,
    },
    Image {},
    LinkPreview {},
    Mention(),
    NumberedListItem {
        rich_text: Vec<RichText>,
        children: Option<Vec<Block>>,
    },
    Paragraph {
        rich_text: Vec<RichText>,
    },
    Pdf {},
    Quote {
        rich_text: Vec<RichText>,
        children: Option<Vec<Block>>,
    },
    Table {},
    TableRow {},
    TableOfContents {},
    ToDo {
        rich_text: Vec<RichText>,
        checked: bool,
        children: Option<Vec<Block>>,
    },
    Toggle {},
    Video {},
}

/// An inline run of text with its styling.
#[derive(Debug)]
pub struct RichText {
    pub annotations: Annotations,
    pub plain_text: String,
    pub href: Option<String>,
}

/// The styling of an inline run.
#[derive(Debug, Clone, Copy)]
pub struct Annotations {
    pub bold: bool,
    pub italic: bool,
    pub strikethrough: bool,
    pub underline: bool,
    pub code: bool,
    pub color: NotionColor,
}

/// The language tag of a code block.
#[derive(Debug, Clone, Copy)]
pub enum NotionLanguages {
    Abap,
    Arduino,
    Bash,
    Basic,
    C,
    Clojure,
    Coffeescript,
    Cpp,
    CSharp,
    Css,
    Dart,
    Diff,
    Docker,
    Elixir,
    Elm,
    Erlang,
    Flow,
    Fortran,
    FSharp,
    Gherkin,
    Glsl,
    Go,
    GraphQl,
    Groovy,
    Haskell,
    Html,
    Java,
    Javascript,
    Json,
    Julia,
    Kotlin,
    Latex,
    Less,
    Lisp,
    Liverscript,
    Lua,
    Makefile,
    Markdown,
    Markup,
    Matlab,
    Mermaid,
    Nix,
    ObjectiveC,
    Ocaml,
    Pascal,
    Perl,
    Php,
    PlainText,
    Powershell,
    Prolog,
    Protobuf,
    Python,
    R,
    Reason,
    Ruby,
    Rust,
    Sass,
    Scala,
    Scheme,
    Scss,
    Shell,
    Sql,
    Swift,
    Typescript,
    VbNet,
    Verilog,
    Vhdl,
    VisualBasic,
    WebAssembly,
    Xml,
    Yaml,
    JavaOrCLangs,
}

/// The colour tag of an inline run: nine colours, each as a text colour and
/// as a background, and the default.
#[derive(Debug, Clone, Copy)]
pub enum NotionColor {
    Blue,
    BlueBackground,
    Brown,
    BrownBackground,
    Default,
    Gray,
    GrayBackground,
    Green,
    GreenBackground,
    Orange,
    OrangeBackground,
    Yellow,
    YellowBackground,
    Pink,
    PinkBackground,
    Purple,
    PurpleBackground,
    Red,
    RedBackground,
}

/// View of a [`RichText`].
pub struct RichTextView {
    pub annotations: Annotations,
    pub plain_text: Seq<char>,
    pub href: Option<Seq<char>>,
}

/// View of a [`Block`].
pub struct BlockView {
    pub ty: Seq<char>,
    pub block: BlockDataView,
}

/// View of a [`BlockData`]: the same variants over sequences.
pub enum BlockDataView {
    Bookmark {},
    Breadcrumb,
    BulletedListItem {
        rich_text: Seq<RichTextView>,
        children: Option<Seq<BlockView>>,
    },
    Callout {},
    ChildDatabase {},
    ChildPage {},
    Code {
        rich_text: Seq<RichTextView>,
        language: NotionLanguages,
    },
    ColumnList,
    Column,
    Divider,
    Embed {},
    Equation {},
    File {},
    Heading1 {
        rich_text: Seq<RichTextView>,
    },
    Heading2 {
        rich_text: Seq<RichTextView>,
    },
    Heading3 {
        rich_text: Seq<RichTextView>,
    },
    Image {},
    LinkPreview {},
    Mention(),
    NumberedListItem {
        rich_text: Seq<RichTextView>,
        children: Option<Seq<BlockView>>,
    },
    Paragraph {
        rich_text: Seq<RichTextView>,
    },
    Pdf {},
    Quote {
        rich_text: Seq<RichTextView>,
        children: Option<Seq<BlockView>>,
    },
    Table {},
    TableRow {},
    TableOfContents {},
    ToDo {
        rich_text: Seq<RichTextView>,
        checked: bool,
        children: Option<Seq<BlockView>>,
    },
    Toggle {},
    Video {},
}

impl View for RichText {
    type V = RichTextView;

    open spec fn view(&self) -> RichTextView {
        RichTextView {
            annotations: self.annotations,
            plain_text: self.plain_text@,
            href: match self.href {
                Some(href) => Some(href@),
                None => None,
            },
        }
    }
}

impl DeepView for RichText {
    type V = RichTextView;

    open spec fn deep_view(&self) -> RichTextView {
        self.view()
    }
}

/// The view of a block record.
pub open spec fn block_view(block: Block) -> BlockView
    decreases block,
{
    BlockView { ty: block.ty@, block: data_view(block.block) }
}

/// The view of a payload.
pub open spec fn data_view(data: BlockData) -> BlockDataView
    decreases data,
{
    match data {
        BlockData::Bookmark {} => BlockDataView::Bookmark {},
        BlockData::Breadcrumb => BlockDataView::Breadcrumb,
        BlockData::BulletedListItem { rich_text, children } => BlockDataView::BulletedListItem {
            rich_text: rich_text.deep_view(),
            children: children_view(children),
        },
        BlockData::Callout {} => BlockDataView::Callout {},
        BlockData::ChildDatabase {} => BlockDataView::ChildDatabase {},
        BlockData::ChildPage {} => BlockDataView::ChildPage {},
        BlockData::Code { rich_text, language } => BlockDataView::Code {
            rich_text: rich_text.deep_view(),
            language: language,
        },
        BlockData::ColumnList => BlockDataView::ColumnList,
        BlockData::Column => BlockDataView::Column,
        BlockData::Divider => BlockDataView::Divider,
        BlockData::Embed {} => BlockDataView::Embed {},
        BlockData::Equation {} => BlockDataView::Equation {},
        BlockData::File {} => BlockDataView::File {},
        BlockData::Heading1 { rich_text } => BlockDataView::Heading1 {
            rich_text: rich_text.deep_view(),
        },
        BlockData::Heading2 { rich_text } => BlockDataView::Heading2 {
            rich_text: rich_text.deep_view(),
        },
        BlockData::Heading3 { rich_text } => BlockDataView::Heading3 {
            rich_text: rich_text.deep_view(),
        },
        BlockData::Image {} => BlockDataView::Image {},
        BlockData::LinkPreview {} => BlockDataView::LinkPreview {},
        BlockData::Mention() => BlockDataView::Mention(),
        BlockData::NumberedListItem { rich_text, children } => BlockDataView::NumberedListItem {
            rich_text: rich_text.deep_view(),
            children: children_view(children),
        },
        BlockData::Paragraph { rich_text } => BlockDataView::Paragraph {
            rich_text: rich_text.deep_view(),
        },
        BlockData::Pdf {} => BlockDataView::Pdf {},
        BlockData::Quote { rich_text, children } => BlockDataView::Quote {
            rich_text: rich_text.deep_view(),
            children: children_view(children),
        },
        BlockData::Table {} => BlockDataView::Table {},
        BlockData::TableRow {} => BlockDataView::TableRow {},
        BlockData::TableOfContents {} => BlockDataView::TableOfContents {},
        BlockData::ToDo { rich_text, checked, children } => BlockDataView::ToDo {
            rich_text: rich_text.deep_view(),
            checked: checked,
            children: children_view(children),
        },
        BlockData::Toggle {} => BlockDataView::Toggle {},
        BlockData::Video {} => BlockDataView::Video {},
    }
}

/// The view of the nested blocks of a container, where it has any.
pub open spec fn children_view(children: Option<Vec<Block>>) -> Option<Seq<BlockView>>
    decreases children,
{
    match children {
        Some(blocks) => Some(block_views(blocks@)),
        None => None,
    }
}

/// The views of a sequence of block records, item by item.
pub open spec fn block_views(blocks: Seq<Block>) -> Seq<BlockView>
    decreases blocks,
{
    Seq::new(
        blocks.len(),
        |i: int|
            if 0 <= i < blocks.len() {
                block_view(blocks[i])
            } else {
                arbitrary()
            },
    )
}

/// The deep view of a vector of block records is the views of its records.
pub proof fn lemma_block_views(blocks: Vec<Block>)
    ensures
        block_views(blocks@) == blocks.deep_view(),
{
}

impl View for Block {
    type V = BlockView;

    open spec fn view(&self) -> BlockView {
        block_view(*self)
    }
}

impl DeepView for Block {
    type V = BlockView;

    open spec fn deep_view(&self) -> BlockView {
        block_view(*self)
    }
}

impl View for BlockData {
    type V = BlockDataView;

    open spec fn view(&self) -> BlockDataView {
        data_view(*self)
    }
}

impl DeepView for BlockData {
    type V = BlockDataView;

    open spec fn deep_view(&self) -> BlockDataView {
        data_view(*self)
    }
}

impl View for PageResponse {
    type V = Seq<BlockView>;

    open spec fn view(&self) -> Seq<BlockView> {
        self.results.deep_view()
    }
}

impl DeepView for PageResponse {
    type V = Seq<BlockView>;

    open spec fn deep_view(&self) -> Seq<BlockView> {
        self.results.deep_view()
    }
}

impl NotionLanguages {
    /// The name of the language tag: the name of the variant, letter for
    /// letter.
    pub open spec fn name(self) -> Seq<char> {
        match self {
            NotionLanguages::Abap => "Abap"@,
            NotionLanguages::Arduino => "Arduino"@,
            NotionLanguages::Bash => "Bash"@,
            NotionLanguages::Basic => "Basic"@,
            NotionLanguages::C => "C"@,
            NotionLanguages::Clojure => "Clojure"@,
            NotionLanguages::Coffeescript => "Coffeescript"@,
            NotionLanguages::Cpp => "Cpp"@,
            NotionLanguages::CSharp => "CSharp"@,
            NotionLanguages::Css => "Css"@,
            NotionLanguages::Dart => "Dart"@,
            NotionLanguages::Diff => "Diff"@,
            NotionLanguages::Docker => "Docker"@,
            NotionLanguages::Elixir => "Elixir"@,
            NotionLanguages::Elm => "Elm"@,
            NotionLanguages::Erlang => "Erlang"@,
            NotionLanguages::Flow => "Flow"@,
            NotionLanguages::Fortran => "Fortran"@,
            NotionLanguages::FSharp => "FSharp"@,
            NotionLanguages::Gherkin => "Gherkin"@,
            NotionLanguages::Glsl => "Glsl"@,
            NotionLanguages::Go => "Go"@,
            NotionLanguages::GraphQl => "GraphQl"@,
            NotionLanguages::Groovy => "Groovy"@,
            NotionLanguages::Haskell => "Haskell"@,
            NotionLanguages::Html => "Html"@,
            NotionLanguages::Java => "Java"@,
            NotionLanguages::Javascript => "Javascript"@,
            NotionLanguages::Json => "Json"@,
            NotionLanguages::Julia => "Julia"@,
            NotionLanguages::Kotlin => "Kotlin"@,
            NotionLanguages::Latex => "Latex"@,
            NotionLanguages::Less => "Less"@,
            NotionLanguages::Lisp => "Lisp"@,
            NotionLanguages::Liverscript => "Liverscript"@,
            NotionLanguages::Lua => "Lua"@,
            NotionLanguages::Makefile => "Makefile"@,
            NotionLanguages::Markdown => "Markdown"@,
            NotionLanguages::Markup => "Markup"@,
            NotionLanguages::Matlab => "Matlab"@,
            NotionLanguages::Mermaid => "Mermaid"@,
            NotionLanguages::Nix => "Nix"@,
            NotionLanguages::ObjectiveC => "ObjectiveC"@,
            NotionLanguages::Ocaml => "Ocaml"@,
            NotionLanguages::Pascal => "Pascal"@,
            NotionLanguages::Perl => "Perl"@,
            NotionLanguages::Php => "Php"@,
            NotionLanguages::PlainText => "PlainText"@,
            NotionLanguages::Powershell => "Powershell"@,
            NotionLanguages::Prolog => "Prolog"@,
            NotionLanguages::Protobuf => "Protobuf"@,
            NotionLanguages::Python => "Python"@,
            NotionLanguages::R => "R"@,
            NotionLanguages::Reason => "Reason"@,
            NotionLanguages::Ruby => "Ruby"@,
            NotionLanguages::Rust => "Rust"@,
            NotionLanguages::Sass => "Sass"@,
            NotionLanguages::Scala => "Scala"@,
            NotionLanguages::Scheme => "Scheme"@,
            NotionLanguages::Scss => "Scss"@,
            NotionLanguages::Shell => "Shell"@,
            NotionLanguages::Sql => "Sql"@,
            NotionLanguages::Swift => "Swift"@,
            NotionLanguages::Typescript => "Typescript"@,
            NotionLanguages::VbNet => "VbNet"@,
            NotionLanguages::Verilog => "Verilog"@,
            NotionLanguages::Vhdl => "Vhdl"@,
            NotionLanguages::VisualBasic => "VisualBasic"@,
            NotionLanguages::WebAssembly => "WebAssembly"@,
            NotionLanguages::Xml => "Xml"@,
            NotionLanguages::Yaml => "Yaml"@,
            NotionLanguages::JavaOrCLangs => "JavaOrCLangs"@,
        }
    }

    /// The name of the language tag as a string.
    pub fn to_string(&self) -> (text: String)
        ensures
            text@ == self.name(),
    {
        let name: &str = match self {
            NotionLanguages::Abap => "Abap",
            NotionLanguages::Arduino => "Arduino",
            NotionLanguages::Bash => "Bash",
            NotionLanguages::Basic => "Basic",
            NotionLanguages::C => "C",
            NotionLanguages::Clojure => "Clojure",
            NotionLanguages::Coffeescript => "Coffeescript",
            NotionLanguages::Cpp => "Cpp",
            NotionLanguages::CSharp => "CSharp",
            NotionLanguages::Css => "Css",
            NotionLanguages::Dart => "Dart",
            NotionLanguages::Diff => "Diff",
            NotionLanguages::Docker => "Docker",
            NotionLanguages::Elixir => "Elixir",
            NotionLanguages::Elm => "Elm",
            NotionLanguages::Erlang => "Erlang",
            NotionLanguages::Flow => "Flow",
            NotionLanguages::Fortran => "Fortran",
            NotionLanguages::FSharp => "FSharp",
            NotionLanguages::Gherkin => "Gherkin",
            NotionLanguages::Glsl => "Glsl",
            NotionLanguages::Go => "Go",
            NotionLanguages::GraphQl => "GraphQl",
            NotionLanguages::Groovy => "Groovy",
            NotionLanguages::Haskell => "Haskell",
            NotionLanguages::Html => "Html",
            NotionLanguages::Java => "Java",
            NotionLanguages::Javascript => "Javascript",
            NotionLanguages::Json => "Json",
            NotionLanguages::Julia => "Julia",
            NotionLanguages::Kotlin => "Kotlin",
            NotionLanguages::Latex => "Latex",
            NotionLanguages::Less => "Less",
            NotionLanguages::Lisp => "Lisp",
            NotionLanguages::Liverscript => "Liverscript",
            NotionLanguages::Lua => "Lua",
            NotionLanguages::Makefile => "Makefile",
            NotionLanguages::Markdown => "Markdown",
            NotionLanguages::Markup => "Markup",
            NotionLanguages::Matlab => "Matlab",
            NotionLanguages::Mermaid => "Mermaid",
            NotionLanguages::Nix => "Nix",
            NotionLanguages::ObjectiveC => "ObjectiveC",
            NotionLanguages::Ocaml => "Ocaml",
            NotionLanguages::Pascal => "Pascal",
            NotionLanguages::Perl => "Perl",
            NotionLanguages::Php => "Php",
            NotionLanguages::PlainText => "PlainText",
            NotionLanguages::Powershell => "Powershell",
            NotionLanguages::Prolog => "Prolog",
            NotionLanguages::Protobuf => "Protobuf",
            NotionLanguages::Python => "Python",
            NotionLanguages::R => "R",
            NotionLanguages::Reason => "Reason",
            NotionLanguages::Ruby => "Ruby",
            NotionLanguages::Rust => "Rust",
            NotionLanguages::Sass => "Sass",
            NotionLanguages::Scala => "Scala",
            NotionLanguages::Scheme => "Scheme",
            NotionLanguages::Scss => "Scss",
            NotionLanguages::Shell => "Shell",
            NotionLanguages::Sql => "Sql",
            NotionLanguages::Swift => "Swift",
            NotionLanguages::Typescript => "Typescript",
            NotionLanguages::VbNet => "VbNet",
            NotionLanguages::Verilog => "Verilog",
            NotionLanguages::Vhdl => "Vhdl",
            NotionLanguages::VisualBasic => "VisualBasic",
            NotionLanguages::WebAssembly => "WebAssembly",
            NotionLanguages::Xml => "Xml",
            NotionLanguages::Yaml => "Yaml",
            NotionLanguages::JavaOrCLangs => "JavaOrCLangs",
        };
        String::from_str(name)
    }
}

} // verus!
