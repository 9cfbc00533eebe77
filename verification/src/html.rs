//! Reading HTML fragments and writing their Typst equivalents.

use vstd::prelude::*;

use crate::css::{class_height, class_width, CssClassStyles};
use crate::event::{opt_view, Event, EventView};
use crate::text::{
    before_char, before_char_chars, before_space_or_gt, before_space_or_gt_chars, chars_to_string,
    contains, contains_chars, ends_with, ends_with_chars, find, find_chars, matches_at, push_all,
    push_str, replace, replace_str, slice, starts_with, starts_with_chars, str_chars, trim,
    trim_chars,
};

verus! {

/// The value of an attribute, given the text right after its `=`: up to the
/// closing quote when quoted, else up to a space or `>`.
pub open spec fn attr_value(rest: Seq<char>) -> Seq<char> {
    if rest.len() > 0 && rest[0] == '"' {
        before_char(rest.drop_first(), '"')
    } else if rest.len() > 0 && rest[0] == '\'' {
        before_char(rest.drop_first(), '\'')
    } else {
        before_space_or_gt(rest)
    }
}

/// The value after the first occurrence of `attr` (such as `src=`) in `h`.
pub open spec fn attribute(h: Seq<char>, attr: Seq<char>) -> Option<Seq<char>> {
    match find(h, attr) {
        Some(i) => Some(attr_value(h.skip(i + attr.len()))),
        None => None,
    }
}

/// The value of `attr` in `html` when the trimmed `html` starts with `tag`.
pub open spec fn tag_attr(html: Seq<char>, tag: Seq<char>, attr: Seq<char>) -> Option<Seq<char>> {
    let h = trim(html);
    if starts_with(h, tag) {
        attribute(h, attr)
    } else {
        None
    }
}

/// The `src` of an `<img>` tag.
pub open spec fn img_src(html: Seq<char>) -> Option<Seq<char>> {
    tag_attr(html, "<img "@, "src="@)
}

/// The `alt` of an `<img>` tag.
pub open spec fn img_alt(html: Seq<char>) -> Option<Seq<char>> {
    tag_attr(html, "<img "@, "alt="@)
}

/// The `id` of an `<a>` tag.
pub open spec fn anchor_id(html: Seq<char>) -> Option<Seq<char>> {
    tag_attr(html, "<a "@, "id="@)
}

/// The `class` of any tag.
pub open spec fn html_class(html: Seq<char>) -> Option<Seq<char>> {
    attribute(trim(html), "class="@)
}

/// `html`, trimmed, opens a caption span and does not close it.
pub open spec fn caption_span_open(html: Seq<char>) -> bool {
    let h = trim(html);
    &&& starts_with(h, "<span "@)
    &&& (contains(h, "class=\"caption\""@) || contains(h, "class='caption'"@))
    &&& !contains(h, "</span>"@)
}

/// The HTML in a comment `/* HTML: ... */`, with `* /` turned back into `*/`.
pub open spec fn html_from_comment(comment: Seq<char>) -> Option<Seq<char>> {
    let c = trim(comment);
    if starts_with(c, "/* HTML:"@) && ends_with(c, "*/"@) {
        let h = trim(replace(c.subrange(8, c.len() - 2), "* /"@, "*/"@));
        if h.len() > 0 {
            Some(h)
        } else {
            None
        }
    } else {
        None
    }
}

/// `s` with the characters that Typst reads as markup escaped.
pub open spec fn escape_typst(s: Seq<char>) -> Seq<char> {
    replace(
        replace(replace(replace(s, "#"@, "\\#"@), "$"@, "\\$"@), "<"@, "\\<"@),
        ">"@,
        "\\>"@,
    )
}

/// The escaped, trimmed content of `<span class="caption">...</span>`.
pub open spec fn span_caption(html: Seq<char>) -> Option<Seq<char>> {
    let h = trim(html);
    if !starts_with(h, "<span "@) {
        None
    } else if !contains(h, "class=\"caption\""@) && !contains(h, "class='caption'"@) {
        None
    } else {
        match find(h, ">"@) {
            None => None,
            Some(t) => {
                let rest = h.skip(t + 1);
                match find(rest, "</span>"@) {
                    Some(p) => Some(trim(escape_typst(rest.take(p)))),
                    None => None,
                }
            },
        }
    }
}

/// A Typst label for an anchor.
pub open spec fn anchor_label(id: Seq<char>) -> Seq<char> {
    "#[] <"@ + id + ">\n"@
}

/// A centered, emphasized caption.
pub open spec fn caption_markup(caption: Seq<char>) -> Seq<char> {
    "#align(center)[#emph["@ + caption + "]]\n"@
}

/// A Typst comment holding HTML that has no Typst equivalent.
pub open spec fn html_comment(html: Seq<char>) -> Seq<char> {
    "/* HTML: "@ + replace(html, "*/"@, "* /"@) + " */\n"@
}

/// `name` and `value` when there is a value, else nothing.
pub open spec fn opt_arg(name: Seq<char>, value: Option<Seq<char>>) -> Seq<char> {
    match value {
        Some(v) => name + v,
        None => Seq::empty(),
    }
}

/// A Typst `#image` call.
pub open spec fn image_call(
    src: Seq<char>,
    alt: Seq<char>,
    width: Option<Seq<char>>,
    height: Option<Seq<char>>,
) -> Seq<char> {
    "#image(\""@ + src + "\", alt: \""@ + alt + "\""@ + opt_arg(", width: "@, width) + opt_arg(
        ", height: "@,
        height,
    ) + ")"@
}

/// The value of an optional string, or the empty string.
pub open spec fn or_empty(o: Option<Seq<char>>) -> Seq<char> {
    match o {
        Some(s) => s,
        None => Seq::empty(),
    }
}

/// The Typst width that the styles give the class of `html`.
pub open spec fn html_width(html: Seq<char>, css: Map<Seq<char>, crate::css::CssStyles>) -> Option<
    Seq<char>,
> {
    match html_class(html) {
        Some(c) => class_width(css, c),
        None => None,
    }
}

/// The Typst height that the styles give the class of `html`.
pub open spec fn html_height(html: Seq<char>, css: Map<Seq<char>, crate::css::CssStyles>) -> Option<
    Seq<char>,
> {
    match html_class(html) {
        Some(c) => class_height(css, c),
        None => None,
    }
}

/// The Typst image call for an `<img>` tag with source `src`.
pub open spec fn img_markup(
    html: Seq<char>,
    src: Seq<char>,
    css: Map<Seq<char>, crate::css::CssStyles>,
) -> Seq<char> {
    image_call(
        src,
        replace(or_empty(img_alt(html)), "\""@, "\\\""@),
        html_width(html, css),
        html_height(html, css),
    )
}

/// The raw Typst markup that stands for an HTML fragment.
pub open spec fn html_to_typst(html: Seq<char>, css: Map<Seq<char>, crate::css::CssStyles>) -> Seq<
    char,
> {
    match anchor_id(html) {
        Some(id) => anchor_label(id),
        None => match span_caption(trim(html)) {
            Some(c) => caption_markup(c),
            None => if trim(html) == "</span>"@ {
                Seq::empty()
            } else {
                match img_src(html) {
                    Some(src) => img_markup(html, src, css),
                    None => html_comment(html),
                }
            },
        },
    }
}

fn attr_value_chars(rest: &Vec<char>) -> (r: Vec<char>)
    ensures
        r@ == attr_value(rest@),
{
    if rest.len() > 0 && rest[0] == '"' {
        let t = slice(rest, 1, rest.len());
        assert(t@ =~= rest@.drop_first());
        before_char_chars(&t, '"')
    } else if rest.len() > 0 && rest[0] == '\'' {
        let t = slice(rest, 1, rest.len());
        assert(t@ =~= rest@.drop_first());
        before_char_chars(&t, '\'')
    } else {
        before_space_or_gt_chars(rest)
    }
}

fn attribute_chars(h: &Vec<char>, attr: &str) -> (r: Option<String>)
    ensures
        opt_view(r) == attribute(h@, attr@),
{
    let a = str_chars(attr);
    match find_chars(h, &a) {
        Some(i) => {
            assert(matches_at(h@, i as int, a@));
            assert(i + a@.len() <= h@.len());
            assert(i + a.len() <= h.len());
            let rest = slice(h, i + a.len(), h.len());
            assert(rest@ =~= h@.skip(i + a@.len()));
            let v = attr_value_chars(&rest);
            Some(chars_to_string(&v))
        },
        None => None,
    }
}

fn tag_attribute(html: &str, tag: &str, attr: &str) -> (r: Option<String>)
    ensures
        opt_view(r) == tag_attr(html@, tag@, attr@),
{
    let h = str_chars(html);
    let h = trim_chars(&h);
    let t = str_chars(tag);
    if starts_with_chars(&h, &t) {
        attribute_chars(&h, attr)
    } else {
        None
    }
}

/// Extract the src attribute from an HTML img tag.
pub fn extract_img_src(html: &str) -> (r: Option<String>)
    ensures
        opt_view(r) == img_src(html@),
{
    tag_attribute(html, "<img ", "src=")
}

/// Extract the alt attribute from an HTML img tag.
pub fn extract_img_alt(html: &str) -> (r: Option<String>)
    ensures
        opt_view(r) == img_alt(html@),
{
    tag_attribute(html, "<img ", "alt=")
}

/// Extract the id attribute from an HTML anchor tag.
pub fn extract_anchor_id(html: &str) -> (r: Option<String>)
    ensures
        opt_view(r) == anchor_id(html@),
{
    tag_attribute(html, "<a ", "id=")
}

/// Extract the class attribute from an HTML tag.
pub fn extract_html_class(html: &str) -> (r: Option<String>)
    ensures
        opt_view(r) == html_class(html@),
{
    let h = str_chars(html);
    let h = trim_chars(&h);
    attribute_chars(&h, "class=")
}

/// Check if HTML is an opening caption span tag.
pub fn is_caption_span_open(html: &str) -> (b: bool)
    ensures
        b == caption_span_open(html@),
{
    let h = str_chars(html);
    let h = trim_chars(&h);
    starts_with_chars(&h, &str_chars("<span ")) && (contains_chars(
        &h,
        &str_chars("class=\"caption\""),
    ) || contains_chars(&h, &str_chars("class='caption'"))) && !contains_chars(
        &h,
        &str_chars("</span>"),
    )
}

/// Extract HTML content from a Typst comment like `/* HTML: <img ...> */`.
pub fn extract_html_from_comment(comment: &str) -> (r: Option<String>)
    ensures
        opt_view(r) == html_from_comment(comment@),
{
    let c = str_chars(comment);
    let c = trim_chars(&c);
    let open = str_chars("/* HTML:");
    let close = str_chars("*/");
    if starts_with_chars(&c, &open) && ends_with_chars(&c, &close) {
        proof {
            reveal_strlit("/* HTML:");
            reveal_strlit("*/");
            reveal_strlit("* /");
            assert(c@[6] == c@.take(8)[6]);
            assert(c@[7] == c@.take(8)[7]);
            assert(c@[c@.len() - 2] == c@.skip(c@.len() - 2)[0]);
        }
        let inner = slice(&c, 8, c.len() - 2);
        let h = replace_str(&inner, "* /", "*/");
        let h = trim_chars(&h);
        if h.len() > 0 {
            return Some(chars_to_string(&h));
        }
    }
    None
}

fn escape_typst_chars(s: &Vec<char>) -> (r: Vec<char>)
    ensures
        r@ == escape_typst(s@),
{
    proof {
        reveal_strlit("#");
        reveal_strlit("$");
        reveal_strlit("<");
        reveal_strlit(">");
    }
    let a = replace_str(s, "#", "\\#");
    let b = replace_str(&a, "$", "\\$");
    let c = replace_str(&b, "<", "\\<");
    replace_str(&c, ">", "\\>")
}

/// Extract content from a `<span class="caption">...</span>` tag: the
/// inner text, escaped for Typst and trimmed.
pub fn extract_span_caption(html: &str) -> (r: Option<String>)
    ensures
        opt_view(r) == span_caption(html@),
{
    let h = str_chars(html);
    let h = trim_chars(&h);
    if !starts_with_chars(&h, &str_chars("<span ")) {
        return None;
    }
    if !contains_chars(&h, &str_chars("class=\"caption\"")) && !contains_chars(
        &h,
        &str_chars("class='caption'"),
    ) {
        return None;
    }
    let gt = str_chars(">");
    let tag_end = match find_chars(&h, &gt) {
        Some(t) => t,
        None => return None,
    };
    proof {
        reveal_strlit(">");
    }
    assert(matches_at(h@, tag_end as int, gt@));
    assert(gt@.len() == 1);
    assert(tag_end + 1 <= h.len());
    let rest = slice(&h, tag_end + 1, h.len());
    assert(rest@ =~= h@.skip(tag_end + 1));
    match find_chars(&rest, &str_chars("</span>")) {
        Some(p) => {
            let content = slice(&rest, 0, p);
            assert(content@ =~= rest@.take(p as int));
            let escaped = escape_typst_chars(&content);
            let t = trim_chars(&escaped);
            Some(chars_to_string(&t))
        },
        None => None,
    }
}

/// Appends `name` and the value, when there is one.
fn push_opt_arg(out: &mut Vec<char>, name: &str, value: &Option<String>)
    ensures
        final(out)@ == old(out)@ + opt_arg(name@, opt_view(*value)),
{
    match value {
        Some(v) => {
            push_str(out, name);
            push_str(out, v.as_str());
        },
        None => {
            assert(old(out)@ + Seq::<char>::empty() =~= old(out)@);
        },
    }
}

/// A Typst `#image` call.
pub fn image_call_string(
    src: &str,
    alt: &Vec<char>,
    width: &Option<String>,
    height: &Option<String>,
) -> (r: String)
    ensures
        r@ == image_call(src@, alt@, opt_view(*width), opt_view(*height)),
{
    let mut out: Vec<char> = Vec::new();
    push_str(&mut out, "#image(\"");
    push_str(&mut out, src);
    push_str(&mut out, "\", alt: \"");
    push_all(&mut out, alt);
    push_str(&mut out, "\"");
    push_opt_arg(&mut out, ", width: ", width);
    push_opt_arg(&mut out, ", height: ", height);
    push_str(&mut out, ")");
    assert(out@ =~= image_call(src@, alt@, opt_view(*width), opt_view(*height)));
    chars_to_string(&out)
}

/// The Typst image call for an `<img>` tag with source `src`.
pub fn img_markup_string(html: &str, src: &str, css_styles: &CssClassStyles) -> (r: String)
    ensures
        r@ == img_markup(html@, src@, css_styles@),
{
    let alt = match extract_img_alt(html) {
        Some(a) => str_chars(a.as_str()),
        None => Vec::new(),
    };
    assert(alt@ == or_empty(img_alt(html@)));
    proof {
        reveal_strlit("\"");
    }
    let alt_escaped = replace_str(&alt, "\"", "\\\"");
    let class = extract_html_class(html);
    let width = match &class {
        Some(c) => css_styles.get_width(c.as_str()),
        None => None,
    };
    let height = match &class {
        Some(c) => css_styles.get_height(c.as_str()),
        None => None,
    };
    image_call_string(src, &alt_escaped, &width, &height)
}

/// The string `prefix`, `middle`, `suffix`.
fn wrap(prefix: &str, middle: &Vec<char>, suffix: &str) -> (r: String)
    ensures
        r@ == prefix@ + middle@ + suffix@,
{
    let mut out = str_chars(prefix);
    push_all(&mut out, middle);
    push_str(&mut out, suffix);
    chars_to_string(&out)
}

/// Convert HTML to Typst markup: an anchor with an id becomes a label, a
/// caption span a centered caption, an `<img>` an image sized by the CSS of
/// its class, a lone `</span>` nothing; other HTML is kept as a comment.
pub fn convert_html_to_typst(html: &str, css_styles: &CssClassStyles) -> (r: Option<Event>)
    ensures
        r matches Some(e) && e@ == EventView::Raw(html_to_typst(html@, css_styles@)),
{
    let html_chars = str_chars(html);
    let html_trimmed = trim_chars(&html_chars);
    let html_trimmed_string = chars_to_string(&html_trimmed);
    if let Some(id) = extract_anchor_id(html) {
        return Some(Event::Raw(wrap("#[] <", &str_chars(id.as_str()), ">\n")));
    }
    if let Some(caption) = extract_span_caption(html_trimmed_string.as_str()) {
        return Some(Event::Raw(wrap("#align(center)[#emph[", &str_chars(caption.as_str()), "]]\n")));
    }
    let close = str_chars("</span>");
    if html_trimmed.len() == close.len() && starts_with_chars(&html_trimmed, &close) {
        assert(html_trimmed@ =~= "</span>"@);
        return Some(Event::Raw(String::new()));
    }
    proof {
        if html_trimmed@ == close@ {
            assert(html_trimmed@.take(close@.len() as int) =~= html_trimmed@);
        }
    }
    if let Some(src) = extract_img_src(html) {
        return Some(Event::Raw(img_markup_string(html, src.as_str(), css_styles)));
    }
    proof {
        reveal_strlit("*/");
    }
    let escaped = replace_str(&html_chars, "*/", "* /");
    Some(Event::Raw(wrap("/* HTML: ", &escaped, " */\n")))
}

} // verus!
