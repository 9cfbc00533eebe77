use std::sync::Arc;

use mdbook_typst::code_blocks::parse_code_info;
use mdbook_typst::converters::{
    ConvertCallouts, ConvertHtmlAnchors, FixCodeBlockFence, FixHeadingStutter, PartToCoverPage,
    ResolveCssImageStyles,
};
use mdbook_typst::css::CssClassStyles;
use mdbook_typst::event::{CodeDisplay, Event, Image, Origin};
use mdbook_typst::footnotes;
use mdbook_typst::html::{convert_html_to_typst, extract_html_from_comment};
use mdbook_typst::json::{strip_nulls, Json};

fn plain_events() -> Vec<Event> {
    vec![
        Event::Text("a [b] c".into()),
        Event::Code("x".into()),
        Event::Raw("#pagebreak()".into()),
        Event::FunctionCall(None, "v".into(), vec!["1em".into()]),
        Event::Other(7),
        Event::Separator,
    ]
}

fn describe(events: &[Event]) -> Vec<String> {
    events.iter().map(|e| format!("{:?}", e)).collect()
}

#[test]
fn converters_keep_streams_they_have_nothing_to_do_with() {
    let css = Arc::new(CssClassStyles::new());
    let expected = describe(&plain_events());
    assert_eq!(describe(&ConvertCallouts::new(plain_events()).collect()), expected);
    assert_eq!(describe(&FixCodeBlockFence::new(plain_events()).collect()), expected);
    assert_eq!(describe(&PartToCoverPage::new(plain_events()).collect()), expected);
    assert_eq!(describe(&FixHeadingStutter::new(plain_events()).collect()), expected);
    assert_eq!(describe(&ConvertHtmlAnchors::new(plain_events(), css.clone()).collect()), expected);
    assert_eq!(describe(&ResolveCssImageStyles::new(plain_events(), css).collect()), expected);
    assert_eq!(describe(&footnotes::process_events(plain_events())), expected);
}

#[test]
fn fixing_fences_twice_is_fixing_once() {
    let events = || {
        vec![
            Event::CodeBlockStart(Some("rust,filename=\"a.rs\"".into()), CodeDisplay::Inline),
            Event::FencedCodeStart(Origin::Markdown, " py , x".into()),
            Event::Text("t".into()),
        ]
    };
    let once = FixCodeBlockFence::new(events()).collect();
    let once_again = FixCodeBlockFence::new(events()).collect();
    let twice = FixCodeBlockFence::new(once_again).collect();
    assert_eq!(describe(&twice), describe(&once));
}

#[test]
fn resolving_image_styles_twice_is_resolving_once() {
    let mut styles = CssClassStyles::new();
    let mut s = mdbook_typst::css::CssStyles {
        width: Some("3px".into()),
        height: None,
        color: None,
        background: None,
        background_color: None,
        font_size: None,
        font_weight: None,
        text_align: None,
    };
    s.height = Some("1em".into());
    styles.insert("c".into(), s);
    let css = Arc::new(styles);
    let image = || Image {
        src: "a.png".into(),
        alt: "A".into(),
        class: Some("c".into()),
        width: None,
        height: None,
    };
    let events = || vec![Event::ImageStart(image()), Event::ImageEnd(image())];
    let once = ResolveCssImageStyles::new(events(), css.clone()).collect();
    let again = ResolveCssImageStyles::new(events(), css.clone()).collect();
    let twice = ResolveCssImageStyles::new(again, css).collect();
    assert_eq!(describe(&twice), describe(&once));
}

#[test]
fn a_language_is_its_own_code_info() {
    let (lang, _) = parse_code_info(" rust ,ignore");
    let lang = lang.unwrap();
    assert_eq!(parse_code_info(&lang), (Some(lang.clone()), None));
}

#[test]
fn html_kept_in_a_comment_comes_back_out() {
    let css = CssClassStyles::new();
    let html = "<div class=\"x\">a */ b</div>";
    let comment = match convert_html_to_typst(html, &css) {
        Some(Event::Raw(r)) => r,
        other => panic!("expected a raw event, got {:?}", other),
    };
    assert_eq!(extract_html_from_comment(&comment), Some(html.to_string()));
}

#[test]
fn stripping_nulls_twice_is_stripping_once() {
    let value = || {
        Json::Object(vec![
            ("a".into(), Json::Null),
            ("b".into(), Json::Array(vec![Json::Null, Json::Object(vec![("c".into(), Json::Null)])])),
        ])
    };
    let mut once = value();
    strip_nulls(&mut once);
    let mut twice = value();
    strip_nulls(&mut twice);
    strip_nulls(&mut twice);
    assert_eq!(format!("{:?}", once), format!("{:?}", twice));
    assert_eq!(
        format!("{:?}", once),
        format!("{:?}", Json::Object(vec![("b".into(), Json::Array(vec![Json::Null, Json::Object(vec![])]))]))
    );
}

#[test]
fn untrimmed_html_comes_back_trimmed() {
    let css = CssClassStyles::new();
    let html = "  <div>x</div>\n";
    let comment = match convert_html_to_typst(html, &css) {
        Some(Event::Raw(r)) => r,
        other => panic!("expected a raw event, got {:?}", other),
    };
    assert_eq!(extract_html_from_comment(&comment), Some("<div>x</div>".to_string()));
}
