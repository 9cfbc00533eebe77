use std::sync::Arc;

use mdbook_typst::converters::{
    process_events, ConvertCallouts, ConvertHtmlAnchors, FixCodeBlockFence, FixHeadingStutter,
    PartToCoverPage, ResolveCssImageStyles,
};
use mdbook_typst::css::{CssClassStyles, CssStyles};
use mdbook_typst::event::{
    Bookmark, CodeDisplay, Event, Heading, HtmlKind, Image, Origin, Outline, Quote, QuoteKind,
    QuoteMarks,
};
use mdbook_typst::html::{
    convert_html_to_typst, extract_html_class, extract_img_alt, extract_span_caption,
    is_caption_span_open,
};
use mdbook_typst::images::CopyReferencedAssets;

fn heading(level: u8, label: Option<&str>) -> Heading {
    Heading {
        level,
        outline: Outline::Include,
        bookmark: Bookmark::Include,
        label: label.map(|l| l.to_string()),
    }
}

fn quote() -> Quote {
    Quote { kind: QuoteKind::Block, marks: QuoteMarks::Auto, attribution: None }
}

fn raw(e: &Event) -> &str {
    match e {
        Event::Raw(t) => t.as_str(),
        other => panic!("expected a raw event, got {:?}", other),
    }
}

fn text(e: &Event) -> &str {
    match e {
        Event::Text(t) => t.as_str(),
        other => panic!("expected a text event, got {:?}", other),
    }
}

#[test]
fn callout_becomes_a_styled_block() {
    let events = vec![
        Event::QuoteStart(quote()),
        Event::Text("Note: Be careful".into()),
        Event::QuoteEnd(quote()),
    ];
    let out = ConvertCallouts::new(events).collect();
    assert_eq!(out.len(), 3);
    assert_eq!(
        raw(&out[0]),
        "#block(width: 100%, stroke: (left: 3pt + rgb(\"#1976D2\")), inset: 1em, fill: rgb(\"#1976D2\").lighten(90%))[#text(weight: \"bold\", fill: rgb(\"#1976D2\"))[Note] "
    );
    assert_eq!(text(&out[1]), "Be careful");
    assert_eq!(raw(&out[2]), "]\n");
}

#[test]
fn plain_quote_is_kept() {
    let events = vec![
        Event::QuoteStart(quote()),
        Event::Text("Just words".into()),
        Event::QuoteEnd(quote()),
        Event::Text("after".into()),
    ];
    let out = ConvertCallouts::new(events).collect();
    assert_eq!(out.len(), 4);
    assert!(matches!(out[0], Event::QuoteStart(_)));
    assert_eq!(text(&out[1]), "Just words");
    assert!(matches!(out[2], Event::QuoteEnd(_)));
    assert_eq!(text(&out[3]), "after");
}

#[test]
fn code_fence_with_filename_gets_a_title_block() {
    let events = vec![
        Event::CodeBlockStart(Some("rust,filename=main.rs".into()), CodeDisplay::Block),
        Event::FencedCodeStart(Origin::Book, "rust,ignore".into()),
    ];
    let out = FixCodeBlockFence::new(events).collect();
    assert_eq!(out.len(), 3);
    assert_eq!(
        raw(&out[0]),
        "#block(width: 100%, inset: (x: 0.5em, y: 0.3em), fill: luma(240), radius: (top: 4pt))[#text(size: 0.85em, style: \"italic\")[main.rs]]\n"
    );
    assert!(matches!(&out[1], Event::CodeBlockStart(Some(l), CodeDisplay::Block) if l == "rust"));
    assert!(matches!(&out[2], Event::CodeBlockStart(Some(l), CodeDisplay::Block) if l == "rust"));
}

#[test]
fn part_becomes_a_cover_page_and_deepens_its_headings() {
    let events = vec![
        Event::PartStart(Some("Basics".into()), None),
        Event::HeadingStart(heading(1, None)),
        Event::HeadingEnd(heading(1, None)),
        Event::PartEnd(Some("Basics".into()), None),
        Event::HeadingStart(heading(1, None)),
    ];
    let out = PartToCoverPage::new(events).collect();
    assert_eq!(out.len(), 5);
    assert!(raw(&out[0]).contains("#heading(level: 1, outlined: true, \"Basics\")"));
    assert!(matches!(&out[1], Event::HeadingStart(h) if h.level == 2));
    assert!(matches!(&out[2], Event::HeadingEnd(h) if h.level == 2));
    assert!(matches!(&out[3], Event::FunctionCall(None, n, a) if n == "pagebreak" && a == &vec!["weak: true".to_string()]));
    assert!(matches!(&out[4], Event::HeadingStart(h) if h.level == 1));
}

#[test]
fn untitled_part_is_dropped() {
    let events = vec![Event::PartStart(None, None), Event::HeadingStart(heading(1, None))];
    let out = PartToCoverPage::new(events).collect();
    assert_eq!(out.len(), 1);
    assert!(matches!(&out[0], Event::HeadingStart(h) if h.level == 1));
}

#[test]
fn heading_stutter_is_removed_and_its_label_kept() {
    let events = vec![
        Event::HeadingStart(heading(1, None)),
        Event::Text("Title".into()),
        Event::HeadingEnd(heading(1, None)),
        Event::HeadingStart(heading(1, Some("title"))),
        Event::Text("Title".into()),
        Event::HeadingEnd(heading(1, Some("title"))),
        Event::Text("body".into()),
    ];
    let out = FixHeadingStutter::new(events).collect();
    assert_eq!(out.len(), 5);
    assert_eq!(text(&out[1]), "Title");
    assert_eq!(raw(&out[3]), "#[] <title>\n");
    assert_eq!(text(&out[4]), "body");
}

#[test]
fn html_anchor_becomes_a_label() {
    let css = Arc::new(CssClassStyles::new());
    let events = vec![Event::Html(Origin::Book, HtmlKind::Block, "<a id=\"sec-1\"></a>".into())];
    let out = ConvertHtmlAnchors::new(events, css).collect();
    assert_eq!(out.len(), 1);
    assert_eq!(raw(&out[0]), "#[] <sec-1>\n");
}

#[test]
fn html_conversions() {
    let mut styles = CssClassStyles::new();
    styles.insert(
        "big".to_string(),
        CssStyles {
            width: Some("10px".into()),
            height: None,
            color: None,
            background: None,
            background_color: None,
            font_size: None,
            font_weight: None,
            text_align: None,
        },
    );
    let img = convert_html_to_typst("<img src=\"a.png\" alt=\"A \\\"b\\\"\" class=\"big\">", &styles);
    assert!(matches!(&img, Some(Event::Raw(r)) if r.starts_with("#image(\"a.png\", alt: ") && r.ends_with(", width: 10pt)")));
    let plain = convert_html_to_typst("<img src=\"a.png\" alt=\"A\">", &styles);
    assert!(matches!(&plain, Some(Event::Raw(r)) if r == "#image(\"a.png\", alt: \"A\")"));
    let other = convert_html_to_typst("<div>x*/y</div>", &styles);
    assert!(matches!(&other, Some(Event::Raw(r)) if r == "/* HTML: <div>x* /y</div> */\n"));
    let close = convert_html_to_typst(" </span> ", &styles);
    assert!(matches!(&close, Some(Event::Raw(r)) if r.is_empty()));
    assert_eq!(extract_img_alt("<img src='a' alt='Ferris'>"), Some("Ferris".to_string()));
    assert_eq!(extract_html_class("<img class=\"c1\" src='a'>"), Some("c1".to_string()));
    assert!(is_caption_span_open("<span class=\"caption\">"));
    assert!(!is_caption_span_open("<span>"));
    assert_eq!(
        extract_span_caption("<span class=\"caption\">Figure 1: #1</span>"),
        Some("Figure 1: \\#1".to_string())
    );
}

#[test]
fn image_sizes_come_from_css_classes() {
    let mut styles = CssClassStyles::new();
    styles.insert(
        "big".to_string(),
        CssStyles {
            width: Some("10px".into()),
            height: Some("2em".into()),
            color: None,
            background: None,
            background_color: None,
            font_size: None,
            font_weight: None,
            text_align: None,
        },
    );
    let image = |class: Option<&str>, width: Option<&str>| Image {
        src: "a.png".into(),
        alt: String::new(),
        class: class.map(|c| c.to_string()),
        width: width.map(|w| w.to_string()),
        height: None,
    };
    let events = vec![
        Event::ImageStart(image(Some("big"), None)),
        Event::ImageStart(image(Some("big"), Some("5pt"))),
        Event::ImageStart(image(None, None)),
    ];
    let out = ResolveCssImageStyles::new(events, Arc::new(styles)).collect();
    assert!(matches!(&out[0], Event::ImageStart(i) if i.width.as_deref() == Some("10pt") && i.height.as_deref() == Some("2em")));
    assert!(matches!(&out[1], Event::ImageStart(i) if i.width.as_deref() == Some("5pt")));
    assert!(matches!(&out[2], Event::ImageStart(i) if i.width.is_none() && i.height.is_none()));
}

#[test]
fn plain_text_footnotes_become_typst_footnotes() {
    let events = vec![
        Event::Text("See[^n] and [^missing].\n\n[^n]: Note [text]".into()),
        Event::Code("[^n]".into()),
    ];
    let out = process_events(events);
    assert_eq!(out.len(), 2);
    assert_eq!(text(&out[0]), "See#footnote[Note \\[text\\]] and [^missing].\n\n");
    assert!(matches!(&out[1], Event::Code(c) if c == "[^n]"));
}

#[test]
fn asset_copies_are_planned_once() {
    let mut assets = CopyReferencedAssets::new("src".into(), "out".into());
    assert!(assets.copy_asset("http://example.com/a.png").is_none());
    assert!(assets.copy_asset("/abs/a.png").is_none());
    let plan = assets.copy_asset("./img/a.png").unwrap();
    assert_eq!(plan.source, "src/./img/a.png");
    assert_eq!(plan.dest, "out/./img/a.png");
    assert_eq!(plan.fallback_source, "src/img/a.png");
    assert_eq!(plan.fallback_dest, "out/img/a.png");
    assert_eq!(
        plan.pick(false, true),
        Some(("src/img/a.png".to_string(), "out/img/a.png".to_string()))
    );
    assert_eq!(plan.pick(false, false), None);
    let (source, _) = plan.pick(true, false).unwrap();
    assets.record_copy(source);
    assert!(assets.copy_asset("./img/a.png").is_none());
    assert!(assets.copy_asset("img/b.png").is_some());
}

#[test]
fn referenced_assets() {
    let comment = Event::Raw("/* HTML: <img src=\"a.png\"/> */\n".into());
    assert_eq!(CopyReferencedAssets::referenced_asset(&comment), Some("a.png".to_string()));
    let html = Event::Html(Origin::Markdown, HtmlKind::Inline, "<img src='b.png'>".into());
    assert_eq!(CopyReferencedAssets::referenced_asset(&html), Some("b.png".to_string()));
    let md = Event::MarkdownImageStart(Origin::Book, "c.png".into(), 0);
    assert_eq!(CopyReferencedAssets::referenced_asset(&md), Some("c.png".to_string()));
    assert_eq!(CopyReferencedAssets::referenced_asset(&Event::Text("x".into())), None);
}

#[test]
fn a_differently_titled_heading_is_kept() {
    let events = vec![
        Event::HeadingStart(heading(1, None)),
        Event::Text("A".into()),
        Event::HeadingEnd(heading(1, None)),
        Event::HeadingStart(heading(2, Some("b"))),
        Event::Text("B".into()),
        Event::HeadingEnd(heading(2, Some("b"))),
    ];
    let out = FixHeadingStutter::new(events).collect();
    assert_eq!(out.len(), 6);
    assert!(matches!(&out[3], Event::HeadingStart(h) if h.level == 2));
    assert_eq!(text(&out[4]), "B");
    assert!(matches!(&out[5], Event::HeadingEnd(h) if h.level == 2));
}

#[test]
fn a_chapter_markdown_heading_with_the_same_text_is_skipped() {
    let events = vec![
        Event::MarkdownHeadingStart(Origin::Book, 0),
        Event::MarkdownText(Origin::Book, "T".into()),
        Event::MarkdownHeadingEnd(Origin::Book, 1),
        Event::MarkdownHeadingStart(Origin::Book, 2),
        Event::MarkdownText(Origin::Book, "T".into()),
        Event::MarkdownHeadingEnd(Origin::Book, 3),
        Event::Text("after".into()),
    ];
    let out = FixHeadingStutter::new(events).collect();
    // The repeated start and the event after it are skipped.
    assert_eq!(out.len(), 5);
    assert!(matches!(&out[3], Event::MarkdownHeadingEnd(Origin::Book, 3)));
    assert_eq!(text(&out[4]), "after");
    let different = vec![
        Event::MarkdownHeadingStart(Origin::Book, 0),
        Event::MarkdownText(Origin::Book, "T".into()),
        Event::MarkdownHeadingEnd(Origin::Book, 1),
        Event::MarkdownHeadingStart(Origin::Book, 2),
        Event::MarkdownText(Origin::Book, "U".into()),
        Event::MarkdownHeadingEnd(Origin::Book, 3),
    ];
    assert_eq!(FixHeadingStutter::new(different).collect().len(), 6);
}

#[test]
fn plain_and_nested_quotes() {
    let events = vec![
        Event::QuoteStart(quote()),
        Event::Code("c".into()),
        Event::Text("A remark".into()),
        Event::QuoteEnd(quote()),
        Event::QuoteEnd(quote()),
    ];
    let out = ConvertCallouts::new(events).collect();
    assert_eq!(out.len(), 5);
    assert!(matches!(&out[4], Event::QuoteEnd(_)));
}

#[test]
fn asset_paths_are_compared_by_component() {
    let mut assets = CopyReferencedAssets::new("src".into(), "out".into());
    let plan = assets.copy_asset("img/./a.png").unwrap();
    assets.record_copy(plan.source);
    assert!(assets.copy_asset("img/a.png").is_none());
    assert!(assets.copy_asset("img//a.png").is_none());
    assert!(assets.copy_asset("img/b.png").is_some());
}
