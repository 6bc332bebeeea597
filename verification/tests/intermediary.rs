use notion2html::html::from_blocks;
use notion2html::intermediary::is_supported;
use notion2html::intermediary::notion_to_text;
use notion2html::intermediary::parse_block;
use notion2html::intermediary::parse_blocks;
use notion2html::intermediary::warnings;
use notion2html::intermediary::Warning;
use notion2html::intermediary::Block;
use notion2html::intermediary::IntermediaryColor;
use notion2html::intermediary::RichText;
use notion2html::notion::Annotations;
use notion2html::notion::Block as NotionBlock;
use notion2html::notion::BlockData;
use notion2html::notion::NotionColor;
use notion2html::notion::NotionLanguages;
use notion2html::notion::PageResponse;
use notion2html::notion::RichText as NotionRichText;

fn plain() -> Annotations {
    Annotations {
        bold: false,
        italic: false,
        strikethrough: false,
        underline: false,
        code: false,
        color: NotionColor::Default,
    }
}

fn text(content: &str) -> NotionRichText {
    NotionRichText { annotations: plain(), plain_text: content.to_string(), href: None }
}

fn record(ty: &str, block: BlockData) -> NotionBlock {
    NotionBlock { ty: ty.to_string(), block }
}

fn paragraph(content: &str) -> NotionBlock {
    record("paragraph", BlockData::Paragraph { rich_text: vec![text(content)] })
}

fn run(content: &str) -> RichText {
    RichText { plain_text: content.to_string(), ..RichText::default() }
}

fn line(content: &str) -> Block {
    Block::Line { rich_text: vec![run(content)] }
}

fn unsupported() -> Vec<NotionBlock> {
    vec![
        record("bookmark", BlockData::Bookmark {}),
        record("breadcrumb", BlockData::Breadcrumb),
        record("callout", BlockData::Callout {}),
        record("child_database", BlockData::ChildDatabase {}),
        record("child_page", BlockData::ChildPage {}),
        record("column_list", BlockData::ColumnList),
        record("column", BlockData::Column),
        record("embed", BlockData::Embed {}),
        record("equation", BlockData::Equation {}),
        record("file", BlockData::File {}),
        record("image", BlockData::Image {}),
        record("link_preview", BlockData::LinkPreview {}),
        record("mention", BlockData::Mention()),
        record("pdf", BlockData::Pdf {}),
        record("table", BlockData::Table {}),
        record("table_row", BlockData::TableRow {}),
        record("table_of_contents", BlockData::TableOfContents {}),
        record("toggle", BlockData::Toggle {}),
        record("video", BlockData::Video {}),
    ]
}

#[test]
fn empty_page_normalizes_to_no_blocks() {
    assert_eq!(parse_blocks(vec![]), vec![]);
    assert_eq!(from_blocks(parse_blocks(vec![]), false), "");
    assert_eq!(notion_to_text(vec![]), vec![]);
}

#[test]
fn headings_become_headers_of_their_level() {
    let page = vec![
        record("heading_1", BlockData::Heading1 { rich_text: vec![text("a")] }),
        record("heading_2", BlockData::Heading2 { rich_text: vec![text("b")] }),
        record("heading_3", BlockData::Heading3 { rich_text: vec![text("c")] }),
    ];
    assert_eq!(
        parse_blocks(page),
        vec![
            Block::Header { rich_text: vec![run("a")], size: 1 },
            Block::Header { rich_text: vec![run("b")], size: 2 },
            Block::Header { rich_text: vec![run("c")], size: 3 },
        ]
    );
}

#[test]
fn paragraph_becomes_a_line() {
    assert_eq!(parse_blocks(vec![paragraph("p")]), vec![line("p")]);
    let empty = record("paragraph", BlockData::Paragraph { rich_text: vec![] });
    assert_eq!(parse_blocks(vec![empty]), vec![Block::Line { rich_text: vec![] }]);
}

#[test]
fn divider_becomes_a_divider() {
    assert_eq!(parse_blocks(vec![record("divider", BlockData::Divider)]), vec![Block::Divider]);
}

#[test]
fn quote_without_children_has_none() {
    let quote = record("quote", BlockData::Quote { rich_text: vec![text("q")], children: None });
    assert_eq!(
        parse_blocks(vec![quote]),
        vec![Block::Quote { rich_text: vec![run("q")], children: None }]
    );
}

#[test]
fn quote_children_are_normalized_in_turn() {
    let inner = record(
        "quote",
        BlockData::Quote {
            rich_text: vec![text("inner")],
            children: Some(vec![record("video", BlockData::Video {}), paragraph("deep")]),
        },
    );
    let quote = record(
        "quote",
        BlockData::Quote {
            rich_text: vec![text("q")],
            children: Some(vec![paragraph("a"), record("image", BlockData::Image {}), inner]),
        },
    );
    assert_eq!(
        parse_blocks(vec![quote]),
        vec![Block::Quote {
            rich_text: vec![run("q")],
            children: Some(vec![
                line("a"),
                Block::Quote { rich_text: vec![run("inner")], children: Some(vec![line("deep")]) },
            ]),
        }]
    );
}

#[test]
fn quote_with_an_empty_list_of_children_keeps_it() {
    let quote =
        record("quote", BlockData::Quote { rich_text: vec![], children: Some(vec![]) });
    assert_eq!(
        parse_blocks(vec![quote]),
        vec![Block::Quote { rich_text: vec![], children: Some(vec![]) }]
    );
}

#[test]
fn code_joins_the_texts_and_names_the_language() {
    let bold = NotionRichText {
        annotations: Annotations { bold: true, ..plain() },
        plain_text: "let x".to_string(),
        href: Some("https://example.org".to_string()),
    };
    let code = record(
        "code",
        BlockData::Code { rich_text: vec![bold, text(" = 1;")], language: NotionLanguages::Rust },
    );
    assert_eq!(
        parse_blocks(vec![code]),
        vec![Block::CodeBlock { text: "let x = 1;".to_string(), lang: "Rust".to_string() }]
    );
    let none = record(
        "code",
        BlockData::Code { rich_text: vec![], language: NotionLanguages::PlainText },
    );
    assert_eq!(
        parse_blocks(vec![none]),
        vec![Block::CodeBlock { text: String::new(), lang: "PlainText".to_string() }]
    );
}

#[test]
fn to_do_becomes_a_list_of_one_checked_or_unchecked_line() {
    let done = record(
        "to_do",
        BlockData::ToDo { rich_text: vec![text("a")], checked: true, children: None },
    );
    let open = record(
        "to_do",
        BlockData::ToDo {
            rich_text: vec![text("b")],
            checked: false,
            children: Some(vec![paragraph("lost")]),
        },
    );
    assert_eq!(
        parse_blocks(vec![done, open]),
        vec![
            Block::TodoList { items: vec![(true, line("a"))] },
            Block::TodoList { items: vec![(false, line("b"))] },
        ]
    );
}

#[test]
fn bulleted_item_becomes_a_list_of_one_line() {
    let bare = record(
        "bulleted_list_item",
        BlockData::BulletedListItem { rich_text: vec![text("a")], children: None },
    );
    let nested = record(
        "bulleted_list_item",
        BlockData::BulletedListItem {
            rich_text: vec![text("b")],
            children: Some(vec![paragraph("lost")]),
        },
    );
    assert_eq!(
        parse_blocks(vec![bare, nested]),
        vec![Block::List { items: vec![line("a")] }, Block::List { items: vec![line("b")] }]
    );
}

#[test]
fn numbered_item_becomes_a_numbered_list_of_one_line() {
    let bare = record(
        "numbered_list_item",
        BlockData::NumberedListItem { rich_text: vec![text("a")], children: None },
    );
    assert_eq!(parse_blocks(vec![bare]), vec![Block::NumberedList { items: vec![line("a")] }]);
}

// A numbered item that has nested blocks comes out as a bulleted list. This
// looks like a slip rather than a choice; it is pinned here as it stands.
#[test]
fn numbered_item_with_children_becomes_a_bulleted_list() {
    let nested = record(
        "numbered_list_item",
        BlockData::NumberedListItem {
            rich_text: vec![text("a")],
            children: Some(vec![paragraph("lost")]),
        },
    );
    assert_eq!(parse_blocks(vec![nested]), vec![Block::List { items: vec![line("a")] }]);
    let empty = record(
        "numbered_list_item",
        BlockData::NumberedListItem { rich_text: vec![text("a")], children: Some(vec![]) },
    );
    assert_eq!(parse_blocks(vec![empty]), vec![Block::List { items: vec![line("a")] }]);
}

#[test]
fn unsupported_records_are_left_out() {
    assert_eq!(unsupported().len(), 19);
    assert_eq!(parse_blocks(unsupported()), vec![]);
    for block in unsupported() {
        assert!(!is_supported(&block));
        assert_eq!(parse_block(block), None);
    }
}

#[test]
fn supported_records_are_kept_in_order() {
    let mut page = unsupported();
    page.insert(0, paragraph("first"));
    page.insert(7, record("divider", BlockData::Divider));
    page.push(paragraph("last"));
    assert_eq!(parse_blocks(page), vec![line("first"), Block::Divider, line("last")]);
}

#[test]
fn supported_records_are_told_apart() {
    let page = vec![
        paragraph("p"),
        record("divider", BlockData::Divider),
        record("heading_1", BlockData::Heading1 { rich_text: vec![] }),
        record("heading_2", BlockData::Heading2 { rich_text: vec![] }),
        record("heading_3", BlockData::Heading3 { rich_text: vec![] }),
        record("quote", BlockData::Quote { rich_text: vec![], children: None }),
        record("code", BlockData::Code { rich_text: vec![], language: NotionLanguages::C }),
        record("to_do", BlockData::ToDo { rich_text: vec![], checked: false, children: None }),
        record(
            "bulleted_list_item",
            BlockData::BulletedListItem { rich_text: vec![], children: None },
        ),
        record(
            "numbered_list_item",
            BlockData::NumberedListItem { rich_text: vec![], children: None },
        ),
    ];
    for block in &page {
        assert!(is_supported(block));
    }
    assert_eq!(parse_blocks(page).len(), 10);
}

#[test]
fn the_type_tag_does_not_decide() {
    let odd = record("video", BlockData::Paragraph { rich_text: vec![text("p")] });
    assert!(is_supported(&odd));
    assert_eq!(parse_blocks(vec![odd]), vec![line("p")]);
}

#[test]
fn run_keeps_text_styling_and_link() {
    let source = NotionRichText {
        annotations: Annotations {
            bold: true,
            italic: false,
            strikethrough: true,
            underline: false,
            code: true,
            color: NotionColor::Green,
        },
        plain_text: "t".to_string(),
        href: Some("u".to_string()),
    };
    assert_eq!(
        notion_to_text(vec![source]),
        vec![RichText {
            plain_text: "t".to_string(),
            bold: true,
            italic: false,
            underline: false,
            strikethrough: true,
            code: true,
            color: IntermediaryColor::Green,
            href: Some("u".to_string()),
        }]
    );
    let other = NotionRichText {
        annotations: Annotations { italic: true, underline: true, ..plain() },
        plain_text: "o".to_string(),
        href: None,
    };
    assert_eq!(
        notion_to_text(vec![other, text("p")]),
        vec![RichText { italic: true, underline: true, ..run("o") }, run("p")]
    );
}

#[test]
fn text_colours_are_kept() {
    assert_eq!(IntermediaryColor::from(NotionColor::Blue), IntermediaryColor::Blue);
    assert_eq!(IntermediaryColor::from(NotionColor::Brown), IntermediaryColor::Brown);
    assert_eq!(IntermediaryColor::from(NotionColor::Gray), IntermediaryColor::Gray);
    assert_eq!(IntermediaryColor::from(NotionColor::Green), IntermediaryColor::Green);
    assert_eq!(IntermediaryColor::from(NotionColor::Orange), IntermediaryColor::Orange);
    assert_eq!(IntermediaryColor::from(NotionColor::Yellow), IntermediaryColor::Yellow);
    assert_eq!(IntermediaryColor::from(NotionColor::Pink), IntermediaryColor::Pink);
    assert_eq!(IntermediaryColor::from(NotionColor::Purple), IntermediaryColor::Purple);
    assert_eq!(IntermediaryColor::from(NotionColor::Red), IntermediaryColor::Red);
    assert_eq!(IntermediaryColor::from(NotionColor::Default), IntermediaryColor::Default);
}

#[test]
fn backgrounds_become_the_default_colour() {
    let backgrounds = [
        NotionColor::BlueBackground,
        NotionColor::BrownBackground,
        NotionColor::GrayBackground,
        NotionColor::GreenBackground,
        NotionColor::OrangeBackground,
        NotionColor::YellowBackground,
        NotionColor::PinkBackground,
        NotionColor::PurpleBackground,
        NotionColor::RedBackground,
    ];
    for color in backgrounds {
        assert_eq!(IntermediaryColor::from(color), IntermediaryColor::Default);
    }
}

#[test]
fn run_without_text_or_styling_becomes_the_line_break() {
    let parsed = notion_to_text(vec![text("")]);
    assert!(parsed[0].is_line_break());
    let shaded = NotionRichText {
        annotations: Annotations { color: NotionColor::RedBackground, ..plain() },
        plain_text: String::new(),
        href: None,
    };
    assert!(notion_to_text(vec![shaded])[0].is_line_break());
}

#[test]
fn block_names_are_the_variant_names() {
    assert_eq!(Block::Header { rich_text: vec![], size: 1 }.to_string(), "Header");
    assert_eq!(Block::Divider.to_string(), "Divider");
    assert_eq!(Block::Quote { rich_text: vec![], children: None }.to_string(), "Quote");
    assert_eq!(
        Block::CodeBlock { text: String::new(), lang: String::new() }.to_string(),
        "CodeBlock"
    );
    assert_eq!(Block::Image { url: String::new() }.to_string(), "Image");
    assert_eq!(Block::List { items: vec![] }.to_string(), "List");
    assert_eq!(Block::NumberedList { items: vec![] }.to_string(), "NumberedList");
    assert_eq!(Block::TodoList { items: vec![] }.to_string(), "TodoList");
    assert_eq!(Block::Line { rich_text: vec![] }.to_string(), "Line");
    assert_eq!(Block::Empty.to_string(), "Empty");
}

#[test]
fn language_names_are_the_variant_names() {
    assert_eq!(NotionLanguages::Abap.to_string(), "Abap");
    assert_eq!(NotionLanguages::C.to_string(), "C");
    assert_eq!(NotionLanguages::Cpp.to_string(), "Cpp");
    assert_eq!(NotionLanguages::CSharp.to_string(), "CSharp");
    assert_eq!(NotionLanguages::FSharp.to_string(), "FSharp");
    assert_eq!(NotionLanguages::GraphQl.to_string(), "GraphQl");
    assert_eq!(NotionLanguages::ObjectiveC.to_string(), "ObjectiveC");
    assert_eq!(NotionLanguages::PlainText.to_string(), "PlainText");
    assert_eq!(NotionLanguages::VbNet.to_string(), "VbNet");
    assert_eq!(NotionLanguages::VisualBasic.to_string(), "VisualBasic");
    assert_eq!(NotionLanguages::WebAssembly.to_string(), "WebAssembly");
    assert_eq!(NotionLanguages::Yaml.to_string(), "Yaml");
    assert_eq!(NotionLanguages::JavaOrCLangs.to_string(), "JavaOrCLangs");
    assert_eq!(format!("{:?}", NotionLanguages::Liverscript), NotionLanguages::Liverscript.to_string());
}

#[test]
fn page_renders_from_records_to_markup() {
    let page = PageResponse {
        results: vec![
            record("heading_1", BlockData::Heading1 { rich_text: vec![text("Title")] }),
            paragraph("a"),
            paragraph("b"),
            record("paragraph", BlockData::Paragraph { rich_text: vec![] }),
            record("table", BlockData::Table {}),
            record(
                "bulleted_list_item",
                BlockData::BulletedListItem { rich_text: vec![text("x")], children: None },
            ),
            record(
                "bulleted_list_item",
                BlockData::BulletedListItem { rich_text: vec![text("y")], children: None },
            ),
            record(
                "numbered_list_item",
                BlockData::NumberedListItem { rich_text: vec![text("1")], children: None },
            ),
            record(
                "to_do",
                BlockData::ToDo { rich_text: vec![text("t")], checked: true, children: None },
            ),
            record(
                "code",
                BlockData::Code { rich_text: vec![text("x")], language: NotionLanguages::Go },
            ),
            record("divider", BlockData::Divider),
        ],
    };
    assert_eq!(
        from_blocks(parse_blocks(page.results), false),
        "<h1>Title</h1><p>a<br />b</p><br />\
         <ul><li><p>x</p></li><li><p>y</p></li></ul>\
         <ol><li><p>1</p></li></ol>\
         <ul><li><input type=\"checkbox\" checked><p>t</p></li></ul>\
         <pre><code class=\"language-Go\">x</code></pre><hr />"
    );
}

fn unsupported_block(ty: &str) -> Warning {
    Warning::UnsupportedBlock { ty: ty.to_string() }
}

#[test]
fn page_without_anything_left_out_has_no_warnings() {
    assert_eq!(warnings(&vec![]), vec![]);
    let page = vec![
        paragraph("p"),
        record("divider", BlockData::Divider),
        record("heading_1", BlockData::Heading1 { rich_text: vec![] }),
        record("quote", BlockData::Quote { rich_text: vec![], children: None }),
        record("quote", BlockData::Quote { rich_text: vec![], children: Some(vec![]) }),
        record("code", BlockData::Code { rich_text: vec![], language: NotionLanguages::C }),
        record("to_do", BlockData::ToDo { rich_text: vec![], checked: false, children: None }),
        record(
            "bulleted_list_item",
            BlockData::BulletedListItem { rich_text: vec![], children: None },
        ),
        record(
            "numbered_list_item",
            BlockData::NumberedListItem { rich_text: vec![], children: None },
        ),
    ];
    assert_eq!(warnings(&page), vec![]);
}

#[test]
fn each_unsupported_record_is_warned_of_with_its_type_tag() {
    let found = warnings(&unsupported());
    assert_eq!(found.len(), 19);
    assert_eq!(found[0], unsupported_block("bookmark"));
    assert_eq!(found[1], unsupported_block("breadcrumb"));
    assert_eq!(found[18], unsupported_block("video"));
    let odd = record("anything", BlockData::Pdf {});
    assert_eq!(warnings(&vec![odd]), vec![unsupported_block("anything")]);
}

#[test]
fn ignored_children_are_warned_of() {
    let page = vec![
        record(
            "to_do",
            BlockData::ToDo {
                rich_text: vec![],
                checked: true,
                children: Some(vec![record("video", BlockData::Video {})]),
            },
        ),
        record(
            "bulleted_list_item",
            BlockData::BulletedListItem { rich_text: vec![], children: Some(vec![]) },
        ),
        record(
            "numbered_list_item",
            BlockData::NumberedListItem {
                rich_text: vec![],
                children: Some(vec![paragraph("lost")]),
            },
        ),
    ];
    assert_eq!(
        warnings(&page),
        vec![
            Warning::TodoChildrenIgnored,
            Warning::ListChildrenIgnored,
            Warning::ListChildrenIgnored,
        ]
    );
}

#[test]
fn warnings_follow_the_page_into_quotes() {
    let inner = record(
        "quote",
        BlockData::Quote {
            rich_text: vec![],
            children: Some(vec![
                record("pdf", BlockData::Pdf {}),
                record(
                    "to_do",
                    BlockData::ToDo {
                        rich_text: vec![],
                        checked: false,
                        children: Some(vec![]),
                    },
                ),
            ]),
        },
    );
    let page = vec![
        record("table", BlockData::Table {}),
        record(
            "quote",
            BlockData::Quote {
                rich_text: vec![text("q")],
                children: Some(vec![
                    paragraph("kept"),
                    record("image", BlockData::Image {}),
                    inner,
                    record("embed", BlockData::Embed {}),
                ]),
            },
        ),
        paragraph("kept"),
        record("file", BlockData::File {}),
    ];
    assert_eq!(
        warnings(&page),
        vec![
            unsupported_block("table"),
            unsupported_block("image"),
            unsupported_block("pdf"),
            Warning::TodoChildrenIgnored,
            unsupported_block("embed"),
            unsupported_block("file"),
        ]
    );
}

#[test]
fn normalizing_two_pages_in_a_row_is_normalizing_each() {
    let first = || vec![paragraph("a"), record("video", BlockData::Video {})];
    let second = || vec![record("divider", BlockData::Divider), paragraph("b")];
    let mut whole = first();
    whole.extend(second());
    let mut expected = parse_blocks(first());
    expected.extend(parse_blocks(second()));
    assert_eq!(parse_blocks(whole), expected);
}

#[test]
fn normalizer_makes_no_image_and_no_empty() {
    let mut page = unsupported();
    page.push(paragraph("p"));
    for block in parse_blocks(page) {
        assert!(!matches!(block, Block::Image { .. } | Block::Empty));
    }
}
