use mdbook_typst::render::{
    finish_markup, heading_spacing_rule, insert_template, markup_file_name, none_on_empty,
    none_on_empty_vec, output_name, quote, resolve_setting, template_markup,
    typst_compile_format, OutputFormat, OutputNameError,
};

#[test]
fn none_on_empty_strings() {
    assert_eq!(none_on_empty(""), None);
    assert_eq!(none_on_empty("a4"), Some("a4".to_string()));
}

#[test]
fn none_on_empty_lists() {
    let empty: Vec<u32> = vec![];
    assert_eq!(none_on_empty_vec(&empty), None);
    assert_eq!(none_on_empty_vec(&[1, 2, 3]), Some(vec![1, 2, 3]));
}

#[test]
fn settings_fall_back_to_defaults_and_empty_disables() {
    assert_eq!(resolve_setting(None, "a4"), Some("a4".to_string()));
    assert_eq!(resolve_setting(Some(""), "a4"), None);
    assert_eq!(resolve_setting(Some("us-letter"), "a4"), Some("us-letter".to_string()));
}

#[test]
fn quoting() {
    assert_eq!(quote("Libertinus Serif"), "\"Libertinus Serif\"");
}

#[test]
fn heading_spacing_rules() {
    assert_eq!(heading_spacing_rule(&None, &None), None);
    assert_eq!(
        heading_spacing_rule(&None, &Some("1em".to_string())),
        Some(
            "\n        #show heading: it => [\n            #block(below: 1em, it)\n        ]\n"
                .to_string()
        )
    );
    assert_eq!(
        heading_spacing_rule(&Some("2em".to_string()), &None),
        Some(
            "\n        #show heading: it => [\n            #block(above: 2em, it)\n        ]\n"
                .to_string()
        )
    );
    assert_eq!(
        heading_spacing_rule(&Some("2em".to_string()), &Some("1em".to_string())),
        Some(
            "\n        #show heading: it => [\n            #block(above: 2em, below: 1em, it)\n        ]\n"
                .to_string()
        )
    );
}

#[test]
fn template_needs_name_and_argument() {
    assert_eq!(
        template_markup(&Some("t.typ".to_string()), &Some("title: [T]".to_string())),
        "#import \"t.typ\": template\n#show: template.with(\ntitle: [T])\n"
    );
    assert_eq!(template_markup(&Some("t.typ".to_string()), &None), "");
    assert_eq!(template_markup(&None, &Some("x".to_string())), "");
}

#[test]
fn template_goes_after_the_set_lines() {
    let markup = "#set page(paper: \"a4\")\n  #set text(size: 11pt)\n= Title\nBody\n";
    assert_eq!(
        insert_template(markup, "TEMPLATE\n"),
        "#set page(paper: \"a4\")\n  #set text(size: 11pt)\nTEMPLATE\n= Title\nBody\n"
    );
}

#[test]
fn template_goes_first_without_set_lines() {
    assert_eq!(insert_template("= Title\n", "T\n"), "T\n= Title\n");
}

#[test]
fn template_goes_last_when_every_line_sets() {
    assert_eq!(insert_template("#set a\n#set b", "T"), "#set a\n#set bT");
    assert_eq!(insert_template("", "T"), "T");
}

#[test]
fn template_goes_before_a_blank_line() {
    assert_eq!(insert_template("#set a\n\n= H\n", "T\n"), "#set a\nT\n\n= H\n");
}

#[test]
fn finishing_touches() {
    assert_eq!(
        finish_markup("a \\#footnote[x] ==== Deep"),
        "a #footnote[x] === Deep"
    );
    assert_eq!(finish_markup("====="), "====");
    assert_eq!(finish_markup("plain"), "plain");
}

#[test]
fn default_output_names() {
    assert_eq!(output_name(None, OutputFormat::Pdf), Ok("book.pdf".to_string()));
    assert_eq!(output_name(None, OutputFormat::Svg), Ok("book{n}.svg".to_string()));
    assert_eq!(output_name(None, OutputFormat::Png), Ok("book{n}.png".to_string()));
    assert_eq!(output_name(None, OutputFormat::Typst), Ok("book.typst".to_string()));
    assert_eq!(markup_file_name(), "book.typst");
}

#[test]
fn image_output_names_need_a_page_number() {
    assert_eq!(
        output_name(Some("page.png"), OutputFormat::Png),
        Err(OutputNameError::MissingPageNumber)
    );
    assert_eq!(
        output_name(Some("page.svg"), OutputFormat::Svg),
        Err(OutputNameError::MissingPageNumber)
    );
    assert_eq!(
        output_name(Some("page-{n}.png"), OutputFormat::Png),
        Ok("page-{n}.png".to_string())
    );
    assert_eq!(
        output_name(Some("out.pdf"), OutputFormat::Pdf),
        Ok("out.pdf".to_string())
    );
}

#[test]
fn compile_formats() {
    assert_eq!(typst_compile_format(OutputFormat::Pdf), Some("pdf"));
    assert_eq!(typst_compile_format(OutputFormat::Svg), Some("svg"));
    assert_eq!(typst_compile_format(OutputFormat::Png), Some("png"));
    assert_eq!(typst_compile_format(OutputFormat::Typst), None);
}
