use cssparser::{ParseError, Parser, Token};
use mdbook_typst::css::{CssClassStyles, CssStyles, CssToken};

fn convert(token: &Token<'_>) -> CssToken {
    match token {
        Token::Ident(s) => CssToken::Ident(s.to_string()),
        Token::Delim(c) => CssToken::Delim(*c),
        Token::Colon => CssToken::Colon,
        Token::Semicolon => CssToken::Semicolon,
        Token::Comma => CssToken::Comma,
        Token::Hash(s) => CssToken::Hash(s.to_string()),
        Token::Dimension { value, unit, .. } => CssToken::Dimension(format!("{}{}", value, unit)),
        Token::Percentage { unit_value, .. } => {
            CssToken::Percentage(format!("{}%", unit_value * 100.0))
        }
        Token::Number { value, .. } => CssToken::Number(format!("{}", value)),
        Token::Function(name) => CssToken::Function(name.to_string()),
        Token::CurlyBracketBlock => CssToken::CurlyBlock,
        Token::ParenthesisBlock => CssToken::ParenBlock,
        Token::SquareBracketBlock => CssToken::SquareBlock,
        _ => CssToken::Other,
    }
}

fn tokenize(parser: &mut Parser<'_>, out: &mut Vec<CssToken>) {
    while let Ok(token) = parser.next() {
        let token = token.clone();
        out.push(convert(&token));
        let opens_block = matches!(
            token,
            Token::Function(_)
                | Token::CurlyBracketBlock
                | Token::ParenthesisBlock
                | Token::SquareBracketBlock
        );
        if opens_block {
            let _ = parser.parse_nested_block(|inner| -> Result<(), ParseError<()>> {
                tokenize(inner, out);
                Ok(())
            });
            out.push(CssToken::BlockEnd);
        }
    }
}

trait ParseCss {
    fn parse_css(&mut self, css: &str);
}

impl ParseCss for CssClassStyles {
    fn parse_css(&mut self, css: &str) {
        let mut parser = Parser::new(css);
        let mut tokens = Vec::new();
        tokenize(&mut parser, &mut tokens);
        self.parse_css_tokens(&tokens);
    }
}

#[test]
fn parse_simple_class() {
    let mut styles = CssClassStyles::new();
    styles.parse_css(
        r#"
            .ferris-explain {
                width: 100px;
            }
        "#,
    );

    let ferris = styles.get("ferris-explain").unwrap();
    assert_eq!(ferris.width, Some("100px".to_string()));
    assert_eq!(ferris.typst_width(), Some("100pt".to_string()));
}

#[test]
fn parse_multiple_classes() {
    let mut styles = CssClassStyles::new();
    styles.parse_css(
        r#"
            .ferris-large {
                width: 4.5em;
            }
            .ferris-small {
                width: 2.3em;
            }
        "#,
    );

    assert_eq!(styles.get_width("ferris-large"), Some("4.5em".to_string()));
    assert_eq!(styles.get_width("ferris-small"), Some("2.3em".to_string()));
}

#[test]
fn parse_multiple_properties() {
    let mut styles = CssClassStyles::new();
    styles.parse_css(
        r#"
            .my-image {
                width: 200px;
                height: 100px;
                background-color: #fff;
            }
        "#,
    );

    let img = styles.get("my-image").unwrap();
    assert_eq!(img.typst_width(), Some("200pt".to_string()));
    assert_eq!(img.typst_height(), Some("100pt".to_string()));
}

#[test]
fn parse_ferris_css() {
    let mut styles = CssClassStyles::new();
    styles.parse_css(
        r#"
body.light .does_not_compile,
body.light .panics {
  background: #fff1f1;
}

.ferris-container {
  position: absolute;
  z-index: 99;
}

.ferris {
  vertical-align: top;
  margin-left: 0.2em;
  height: auto;
}

.ferris-large {
  width: 4.5em;
}

.ferris-small {
  width: 2.3em;
}

.ferris-explain {
  width: 100px;
}
        "#,
    );

    assert_eq!(
        styles.get_width("ferris-explain"),
        Some("100pt".to_string())
    );
    assert_eq!(styles.get_width("ferris-large"), Some("4.5em".to_string()));
    assert_eq!(styles.get_width("ferris-small"), Some("2.3em".to_string()));
}

#[test]
fn declarations_from_hand_made_tokens() {
    let tokens = vec![
        CssToken::Delim('.'),
        CssToken::Ident("pic".into()),
        CssToken::Comma,
        CssToken::Delim('.'),
        CssToken::Ident("alt".into()),
        CssToken::Delim('.'),
        CssToken::Ident("extra".into()),
        CssToken::CurlyBlock,
        CssToken::Ident("width".into()),
        CssToken::Colon,
        CssToken::Percentage("50%".into()),
        CssToken::Semicolon,
        CssToken::Ident("color".into()),
        CssToken::Colon,
        CssToken::Function("rgb".into()),
        CssToken::Number("1".into()),
        CssToken::Comma,
        CssToken::Number("2".into()),
        CssToken::BlockEnd,
        CssToken::Semicolon,
        CssToken::Ident("font-weight".into()),
        CssToken::Colon,
        CssToken::Ident("bold".into()),
        CssToken::Ident("italic".into()),
        CssToken::BlockEnd,
    ];
    let mut styles = CssClassStyles::new();
    styles.parse_css_tokens(&tokens);
    let pic = styles.get("pic").unwrap();
    assert_eq!(pic.width, Some("50%".to_string()));
    assert_eq!(pic.color, Some("rgb(1, 2)".to_string()));
    assert_eq!(pic.font_weight, Some("bold italic".to_string()));
    // A compound selector is filed under its first class.
    assert!(styles.get("alt").is_some());
    assert!(styles.get("extra").is_none());
}

#[test]
fn later_rules_replace_earlier_ones() {
    let mut styles = CssClassStyles::new();
    styles.parse_css(".a { width: 1px; } .a { height: 2em; }");
    let a = styles.get("a").unwrap();
    assert_eq!(a.width, None);
    assert_eq!(a.height, Some("2em".to_string()));
    assert_eq!(styles.get_height("a"), Some("2em".to_string()));
    assert_eq!(styles.get_width("missing"), None);
}

#[test]
fn non_class_selectors_are_ignored() {
    let mut styles = CssClassStyles::new();
    styles.parse_css("p { width: 1px; } #id { width: 2px; }");
    assert!(styles.get("p").is_none());
    assert!(styles.get("id").is_none());
}

#[test]
fn dimensions_convert_to_typst() {
    assert_eq!(CssStyles::css_dimension_to_typst(" 12px "), "12pt");
    assert_eq!(CssStyles::css_dimension_to_typst("3pxpx"), "3pt");
    assert_eq!(CssStyles::css_dimension_to_typst("50%"), "50%");
    assert_eq!(CssStyles::css_dimension_to_typst("1.5em"), "1.5em");
    // Converting again changes nothing.
    let once = CssStyles::css_dimension_to_typst("7px");
    assert_eq!(CssStyles::css_dimension_to_typst(&once), once);
}

#[test]
fn new_table_is_empty() {
    let styles = CssClassStyles::new();
    assert!(styles.get("anything").is_none());
    assert_eq!(styles.get_height("anything"), None);
}
