use mdbook_typst::event::Event;
use pullup::markdown::{Event as MarkdownEvent, Options, Parser, Tag};
use mdbook_typst::footnotes::{mdbook_events, process_events, Book, BookItem, Chapter};

fn raw_text(e: &Event) -> Option<&str> {
    match e {
        Event::Raw(t) => Some(t.as_str()),
        _ => None,
    }
}

#[test]
fn replaces_reference_with_structured_typst_body() {
    let events = vec![
        Event::FootnoteDefinitionStart("note".into()),
        Event::Raw("#quote[Quoted]".into()),
        Event::FootnoteDefinitionEnd,
        Event::FootnoteReference("note".into()),
    ];

    let output = process_events(events);
    assert!(matches!(raw_text(&output[0]), Some(text) if text == "#footnote["));
    assert!(matches!(raw_text(&output[1]), Some(text) if text == "#quote[Quoted]"));
    assert!(matches!(raw_text(&output[2]), Some(text) if text == "]"));
}

#[test]
fn undefined_reference_is_kept() {
    let events = vec![
        Event::Text("A".into()),
        Event::FootnoteReference("missing".into()),
    ];
    let output = process_events(events);
    assert_eq!(output.len(), 2);
    assert!(matches!(&output[1], Event::FootnoteReference(l) if l == "missing"));
}

#[test]
fn definition_body_is_used_for_every_reference_and_removed() {
    let events = vec![
        Event::FootnoteReference("n".into()),
        Event::FootnoteDefinitionStart("n".into()),
        Event::Text("body".into()),
        Event::FootnoteDefinitionEnd,
        Event::FootnoteReference("n".into()),
    ];
    let output = process_events(events);
    assert_eq!(output.len(), 6);
    assert_eq!(raw_text(&output[0]), Some("#footnote["));
    assert!(matches!(&output[1], Event::Text(t) if t == "body"));
    assert_eq!(raw_text(&output[2]), Some("]"));
    assert_eq!(raw_text(&output[3]), Some("#footnote["));
    assert!(matches!(&output[4], Event::Text(t) if t == "body"));
    assert_eq!(raw_text(&output[5]), Some("]"));
}

#[test]
fn unterminated_definition_is_left_in_place() {
    let events = vec![
        Event::FootnoteDefinitionStart("n".into()),
        Event::Text("body".into()),
    ];
    let output = process_events(events);
    assert_eq!(output.len(), 2);
    assert!(matches!(&output[0], Event::FootnoteDefinitionStart(l) if l == "n"));
}


fn chapter(name: &str, content: &str, draft: bool) -> Chapter {
    Chapter {
        name: name.into(),
        content: content.into(),
        content_events: if content.is_empty() { vec![] } else { vec![Event::Text(content.into())] },
        path: if draft { None } else { Some(format!("{}.md", name)) },
        source_path: Some(format!("{}.md", name)),
        sub_items: vec![],
    }
}

fn kinds(events: &[Event]) -> Vec<String> {
    events
        .iter()
        .map(|e| format!("{:?}", e).split(|c: char| c == '(' || c == ' ').next().unwrap().to_string())
        .collect()
}

#[test]
fn book_without_parts_is_one_untitled_part() {
    let book = Book {
        root: "/book".into(),
        title: Some("Title".into()),
        authors: vec!["Ann".into()],
        sections: vec![BookItem::Chapter(chapter("one", "text", false)), BookItem::Separator],
    };
    let events = mdbook_events(&book);
    assert_eq!(
        kinds(&events),
        vec![
            "BookConfigurationStart",
            "Root",
            "Title",
            "AuthorListStart",
            "Author",
            "AuthorListEnd",
            "BookConfigurationEnd",
            "BookContentStart",
            "PartStart",
            "ChapterStart",
            "Text",
            "ContentEnd",
            "ChapterEnd",
            "Separator",
            "PartEnd",
            "BookContentEnd",
        ]
    );
    assert!(matches!(&events[8], Event::PartStart(None, None)));
    assert!(matches!(&events[9], Event::ChapterStart(c) if c.name == "one" && !c.draft));
}

#[test]
fn parts_open_and_close_around_their_chapters() {
    let mut parent = chapter("draft", "", true);
    parent.sub_items = vec![BookItem::Chapter(chapter("child", "c", false))];
    let book = Book {
        root: "/book".into(),
        title: None,
        authors: vec![],
        sections: vec![
            BookItem::PartTitle("P1".into()),
            BookItem::Chapter(parent),
            BookItem::PartTitle("P2".into()),
        ],
    };
    let events = mdbook_events(&book);
    assert_eq!(
        kinds(&events),
        vec![
            "BookConfigurationStart",
            "Root",
            "BookConfigurationEnd",
            "BookContentStart",
            "PartStart",
            "ChapterStart",
            "ChapterStart",
            "Text",
            "ContentEnd",
            "ChapterEnd",
            "ChapterEnd",
            "PartEnd",
            "PartStart",
            "PartEnd",
            "BookContentEnd",
        ]
    );
    assert!(matches!(&events[4], Event::PartStart(Some(t), None) if t == "P1"));
    assert!(matches!(&events[5], Event::ChapterStart(c) if c.draft));
    assert!(matches!(&events[11], Event::PartEnd(Some(t), None) if t == "P1"));
    assert!(matches!(&events[12], Event::PartStart(Some(t), None) if t == "P2"));
}

#[test]
fn pulldown_parses_footnote_definitions_and_references() {
    let events = Parser::new_ext(
        "A reference[^note].\n\n[^note]: A *formatted* note.",
        Options::ENABLE_FOOTNOTES,
    )
    .collect::<Vec<_>>();

    assert!(events
        .iter()
        .any(|event| matches!(event, MarkdownEvent::FootnoteReference(_))));
    assert!(events
        .iter()
        .any(|event| matches!(event, MarkdownEvent::Start(Tag::FootnoteDefinition(_)))));
}
