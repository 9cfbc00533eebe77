use mdbook_typst::callouts::detect_callout_type;
use mdbook_typst::code_blocks::parse_code_info;
use mdbook_typst::converters::{
    comments_to_images, definitions_from_captures, join_pieces, replace_references_with,
    extract_footnote_definitions, footnote_content, footnote_definition_regex,
    process_html_comments,
};
use mdbook_typst::css::CssClassStyles;
use mdbook_typst::html::{extract_anchor_id, extract_html_from_comment, extract_img_src};
use std::sync::Arc;

#[test]
fn converters_double_quoted() {
    assert_eq!(
        extract_img_src(r#"<img src="img/ferris.svg" alt="Ferris"/>"#),
        Some("img/ferris.svg".to_string())
    );
}

#[test]
fn converters_single_quoted() {
    assert_eq!(
        extract_img_src("<img src='test.png' class='foo'>"),
        Some("test.png".to_string())
    );
}

#[test]
fn not_an_img() {
    assert_eq!(extract_img_src("<a href='foo.png'>link</a>"), None);
}

#[test]
fn no_src() {
    assert_eq!(extract_img_src("<img alt='test'>"), None);
}

#[test]
fn anchor_double_quoted() {
    assert_eq!(
        extract_anchor_id(r#"<a id="test-anchor"></a>"#),
        Some("test-anchor".to_string())
    );
}

#[test]
fn anchor_single_quoted() {
    assert_eq!(
        extract_anchor_id("<a id='test-anchor'></a>"),
        Some("test-anchor".to_string())
    );
}

#[test]
fn not_an_anchor() {
    assert_eq!(extract_anchor_id("<p>text</p>"), None);
}

#[test]
fn no_id() {
    assert_eq!(extract_anchor_id("<a href='#foo'></a>"), None);
}

#[test]
fn empty_string() {
    let (lang, filename) = parse_code_info("");
    assert_eq!(lang, None);
    assert_eq!(filename, None);
}

#[test]
fn language_only() {
    let (lang, filename) = parse_code_info("rust");
    assert_eq!(lang, Some("rust".to_string()));
    assert_eq!(filename, None);
}

#[test]
fn language_with_ignore() {
    let (lang, filename) = parse_code_info("rust,ignore");
    assert_eq!(lang, Some("rust".to_string()));
    assert_eq!(filename, None);
}

#[test]
fn language_with_multiple_attributes() {
    let (lang, filename) = parse_code_info("rust,ignore,no_run,editable");
    assert_eq!(lang, Some("rust".to_string()));
    assert_eq!(filename, None);
}

#[test]
fn language_with_filename() {
    let (lang, filename) = parse_code_info("rust,filename=\"src/main.rs\"");
    assert_eq!(lang, Some("rust".to_string()));
    assert_eq!(filename, Some("src/main.rs".to_string()));
}

#[test]
fn language_with_filename_and_other_attrs() {
    let (lang, filename) = parse_code_info("rust,ignore,filename=\"src/lib.rs\",editable");
    assert_eq!(lang, Some("rust".to_string()));
    assert_eq!(filename, Some("src/lib.rs".to_string()));
}

#[test]
fn filename_with_single_quotes() {
    let (lang, filename) = parse_code_info("rust,filename='test.rs'");
    assert_eq!(lang, Some("rust".to_string()));
    assert_eq!(filename, Some("test.rs".to_string()));
}

#[test]
fn filename_without_quotes() {
    let (lang, filename) = parse_code_info("rust,filename=main.rs");
    assert_eq!(lang, Some("rust".to_string()));
    assert_eq!(filename, Some("main.rs".to_string()));
}

#[test]
fn whitespace_handling() {
    let (lang, filename) = parse_code_info(" rust , ignore , filename=\"foo.rs\" ");
    assert_eq!(lang, Some("rust".to_string()));
    assert_eq!(filename, Some("foo.rs".to_string()));
}

#[test]
fn note_prefix() {
    let result = detect_callout_type("Note: This is important");
    assert!(result.is_some());
    let (prefix, callout_type, _) = result.unwrap();
    assert_eq!(prefix, "Note:");
    assert_eq!(callout_type, "note");
}

#[test]
fn warning_prefix() {
    let result = detect_callout_type("Warning: Be careful!");
    assert!(result.is_some());
    let (prefix, callout_type, _) = result.unwrap();
    assert_eq!(prefix, "Warning:");
    assert_eq!(callout_type, "warning");
}

#[test]
fn tip_prefix() {
    let result = detect_callout_type("Tip: Try this");
    assert!(result.is_some());
    let (prefix, callout_type, _) = result.unwrap();
    assert_eq!(prefix, "Tip:");
    assert_eq!(callout_type, "tip");
}

#[test]
fn important_prefix() {
    let result = detect_callout_type("Important: Read this");
    assert!(result.is_some());
    let (prefix, callout_type, _) = result.unwrap();
    assert_eq!(prefix, "Important:");
    assert_eq!(callout_type, "important");
}

#[test]
fn no_prefix() {
    let result = detect_callout_type("Just some regular text");
    assert!(result.is_none());
}

#[test]
fn leading_whitespace() {
    let result = detect_callout_type("   Note: With whitespace");
    assert!(result.is_some());
    let (prefix, _, _) = result.unwrap();
    assert_eq!(prefix, "Note:");
}

#[test]
fn extract_from_comment() {
    let input = r#"/* HTML: <img src="img/ferris.svg" class="ferris-explain" alt="test"/> */"#;
    let result = extract_html_from_comment(input);
    assert_eq!(
        result,
        Some(r#"<img src="img/ferris.svg" class="ferris-explain" alt="test"/>"#.to_string())
    );
}

#[test]
fn extract_from_comment_with_newline() {
    let input = "/* HTML: <img src=\"test.png\"/> */\n";
    let result = extract_html_from_comment(input);
    assert_eq!(result, Some("<img src=\"test.png\"/>".to_string()));
}

#[test]
fn convert_ferris_img() {
    let css = Arc::new(CssClassStyles::new());
    let input =
        r#"[/* HTML: <img src="img/ferris/test.svg" class="ferris-explain" alt="Ferris"/> */]"#;
    let result = process_html_comments(input, &css);
    assert!(
        result.contains("#image"),
        "Expected #image, got: {}",
        result
    );
}

#[test]
fn convert_self_closing_img() {
    let css = Arc::new(CssClassStyles::new());
    let input = r#"/* HTML: <img src="test.png" alt="test"/> */"#;
    let result = process_html_comments(input, &css);
    assert!(
        result.contains("#image"),
        "Expected #image, got: {}",
        result
    );
}

#[test]
fn extracts_multiline_definition_and_keeps_surrounding_text() {
    let input = "Before\n[^source]: First line\n  continuation\nAfter";
    let definition_regex = footnote_definition_regex().unwrap();
    let (cleaned, definitions) = extract_footnote_definitions(input, &definition_regex);

    assert_eq!(cleaned, "Before\n\nAfter");
    assert_eq!(
        definitions.get("source").map(|s| s.as_str()),
        Some("First line\n  continuation")
    );
}

#[test]
fn escapes_square_brackets_in_plain_text() {
    assert_eq!(
        footnote_content("A [literal] note".into()),
        r"A \[literal\] note"
    );
}

#[test]
fn preserves_typst_markup_for_quotes_and_images() {
    let content = "#quote[Quoted text] #image(\"figure.png\")".to_string();
    assert_eq!(footnote_content(content.clone()), content);
}

#[test]
fn definitions_come_from_their_capture_groups() {
    let caps = vec![
        vec![Some("[^a]: x".to_string()), Some("a".to_string()), Some("  first [1] ".to_string())],
        vec![Some("[^b]: y".to_string()), Some("b".to_string()), None],
        vec![Some("[^a]: z".to_string()), Some("a".to_string()), Some("#emph[z]".to_string())],
    ];
    let defs = definitions_from_captures(&caps);
    assert_eq!(defs.get("a").map(|s| s.as_str()), Some("#emph[z]"));
    assert_eq!(defs.get("b"), None);
    assert_eq!(join_pieces(&vec!["Before\n".to_string(), "\nAfter".to_string()]), "Before\n\nAfter");
}

#[test]
fn references_are_replaced_between_the_pieces() {
    let caps = vec![
        vec![Some("[^a]: note".to_string()), Some("a".to_string()), Some("note".to_string())],
    ];
    let defs = definitions_from_captures(&caps);
    let pieces = vec!["x".to_string(), " y ".to_string(), "".to_string()];
    let refs = vec![
        vec![Some("[^a]".to_string()), Some("a".to_string())],
        vec![Some("[^zz]".to_string()), Some("zz".to_string())],
    ];
    assert_eq!(replace_references_with(&pieces, &refs, &defs), "x#footnote[note] y [^zz]");
}

#[test]
fn comments_become_images_between_the_pieces() {
    let css = CssClassStyles::new();
    let pieces = vec!["[".to_string(), "]".to_string()];
    let caps = vec![vec![
        Some("/* HTML: <img src=\"a.png\" alt=\"A\"/> */".to_string()),
        Some("<img src=\"a.png\" alt=\"A\"/>".to_string()),
    ]];
    assert_eq!(comments_to_images(&pieces, &caps, &css), "[#image(\"a.png\", alt: \"A\")]");
    let no_src = vec![vec![Some("/* HTML: <img/> */".to_string()), Some("<img/>".to_string())]];
    assert_eq!(comments_to_images(&pieces, &no_src, &css), "[/* HTML: <img/> */]");
}
