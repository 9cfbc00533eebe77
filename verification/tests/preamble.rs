use mdbook_typst::event::Event;
use mdbook_typst::preamble::{
    assemble, horizontal_rule_default, preamble, replace_rules, StyleSettings, TocSettings,
    TocShowRule,
};

fn style() -> StyleSettings {
    StyleSettings {
        enable: None,
        paper: None,
        text_size: None,
        text_font: None,
        paragraph_spacing: None,
        paragraph_leading: None,
        heading_numbering: None,
        heading_above: None,
        heading_below: None,
        link_underline: None,
        link_color: None,
    }
}

fn toc() -> TocSettings {
    TocSettings { enable: None, entry_show_rules: None, depth: None, indent: None }
}

fn describe(events: &[Event]) -> Vec<String> {
    events.iter().map(|e| format!("{:?}", e)).collect()
}

#[test]
fn defaults_give_style_rules_and_an_outline() {
    let out = preamble(&style(), &toc());
    let d = describe(&out);
    assert_eq!(d[0], format!("{:?}", Event::SetRule("page".into(), "paper".into(), "\"a4\"".into())));
    assert_eq!(d[1], format!("{:?}", Event::SetRule("text".into(), "size".into(), "11pt".into())));
    assert!(matches!(&out[2], Event::SetRule(e, p, v) if e == "text" && p == "font" && v == "\"Linux Libertine\""));
    assert!(matches!(&out[5], Event::Raw(r) if r.contains("#block(above: 1.4em, below: 1em, it)")));
    assert!(matches!(&out[6], Event::Raw(r) if r == "#show link: underline\n"));
    assert!(matches!(&out[7], Event::Raw(r) if r == "#show link: set text(blue)\n"));
    assert!(matches!(&out[8], Event::ShowStart(s, f) if s == "outline.entry.where(level: 1)" && f == "it => block(above: 1.5em)[#strong(it)]"));
    assert!(matches!(&out[9], Event::ShowEnd(_, _)));
    assert!(matches!(&out[10], Event::FunctionCall(None, n, a) if n == "outline" && a == &vec!["depth: 3".to_string(), "indent: auto".to_string()]));
    assert!(matches!(&out[11], Event::PageBreak));
    assert_eq!(out.len(), 12);
}

#[test]
fn disabled_style_and_toc_give_nothing() {
    let mut st = style();
    st.enable = Some(false);
    let mut t = toc();
    t.enable = Some(false);
    assert!(preamble(&st, &t).is_empty());
}

#[test]
fn empty_settings_are_left_out_and_values_are_used() {
    let mut st = style();
    st.paper = Some(String::new());
    st.text_size = Some("12pt".into());
    st.heading_numbering = Some("1.1".into());
    st.heading_above = Some(String::new());
    st.heading_below = Some(String::new());
    st.link_underline = Some(false);
    st.link_color = Some(String::new());
    let mut t = toc();
    t.enable = Some(false);
    let out = preamble(&st, &t);
    assert_eq!(out.len(), 5);
    assert!(matches!(&out[0], Event::SetRule(_, p, v) if p == "size" && v == "12pt"));
    assert!(matches!(&out[4], Event::SetRule(e, _, v) if e == "heading" && v == "\"1.1\""));
}

#[test]
fn outline_rules_depth_and_indent() {
    let mut st = style();
    st.enable = Some(false);
    let t = TocSettings {
        enable: Some(true),
        entry_show_rules: Some(vec![
            TocShowRule { level: 2, strong: false, text_size: "1em".into() },
            TocShowRule { level: 120, strong: true, text_size: "2em".into() },
        ]),
        depth: Some(10),
        indent: Some(String::new()),
    };
    let out = preamble(&st, &t);
    assert_eq!(out.len(), 6);
    assert!(matches!(&out[0], Event::ShowStart(s, f) if s == "outline.entry.where(level: 2)" && f == "it => block(above: 1em)[#it]"));
    assert!(matches!(&out[2], Event::ShowStart(s, _) if s == "outline.entry.where(level: 120)"));
    assert!(matches!(&out[4], Event::FunctionCall(None, _, a) if a == &vec!["depth: 10".to_string()]));
    let mut t2 = toc();
    t2.entry_show_rules = Some(vec![]);
    let out = preamble(&st, &t2);
    assert_eq!(out.len(), 2);
}

#[test]
fn horizontal_rules_are_replaced() {
    let events = vec![Event::MarkdownRule, Event::Text("x".into())];
    let out = replace_rules(events, Some(horizontal_rule_default().to_string()));
    assert!(matches!(&out[0], Event::Raw(r) if r == "#align(center, line(length: 60%))\n"));
    let out = replace_rules(vec![Event::MarkdownRule], None);
    assert!(matches!(&out[0], Event::MarkdownRule));
}

#[test]
fn document_parts_come_in_order() {
    let doc = assemble(
        Some("H".into()),
        vec![Event::PageBreak],
        vec![Event::Text("book".into())],
        Some("F".into()),
    );
    assert_eq!(
        describe(&doc),
        describe(&[Event::Raw("H".into()), Event::PageBreak, Event::Text("book".into()), Event::Raw("F".into())])
    );
    assert_eq!(assemble(None, vec![], vec![], None).len(), 0);
}
