//! Properties of the markup helpers that hold for every input.

use vstd::prelude::*;

use crate::css::dimension_to_typst;
use crate::css::{class_height, class_width, CssStyles};
use crate::anchors::{anchors_run, closes_span, convert_html_anchors};
use crate::event::{EventView, HtmlKind, Origin};
use crate::html::{caption_markup, caption_span_open, html_class, html_comment, html_from_comment, img_markup};
use crate::images::{normal_path, planned_copy, CopyReferencedAssetsView};
use crate::laws::lemma_trim_idempotent;
use crate::text::{
    contains, ends_with, find_from, is_ws, matches_at, replace, starts_with, trim, trim_end,
    trim_end_matches, trim_start,
};

verus! {

proof fn lemma_trim_end_matches_prefix(s: Seq<char>, p: Seq<char>)
    ensures
        trim_end_matches(s, p).len() <= s.len(),
        trim_end_matches(s, p) == s.take(trim_end_matches(s, p).len() as int),
    decreases s.len(),
{
    if p.len() > 0 && ends_with(s, p) {
        let s1 = s.take(s.len() - p.len());
        lemma_trim_end_matches_prefix(s1, p);
        let t = trim_end_matches(s, p);
        assert(s1.take(t.len() as int) =~= s.take(t.len() as int));
    } else {
        assert(s.take(s.len() as int) =~= s);
    }
}

/// A string that neither starts nor ends with whitespace is its own trim.
proof fn lemma_trim_unpadded(s: Seq<char>)
    requires
        s.len() > 0,
        !is_ws(s[0]),
        !is_ws(s.last()),
    ensures
        trim(s) == s,
{
    assert(trim_start(s) == s);
    assert(trim_end(s) == s);
}

/// A dimension already in Typst's form is left as it is: converting twice
/// gives what converting once gives.
pub proof fn law_dimension_to_typst_idempotent(value: Seq<char>)
    ensures
        dimension_to_typst(dimension_to_typst(value)) == dimension_to_typst(value),
{
    reveal_strlit("px");
    reveal_strlit("pt");
    let v = trim(value);
    lemma_trim_idempotent(value);
    if ends_with(v, "px"@) {
        let t = trim_end_matches(v, "px"@);
        lemma_trim_end_matches_prefix(v, "px"@);
        let out = t + "pt"@;
        assert(out.last() == 't');
        if t.len() > 0 {
            assert(out[0] == t[0]);
            assert(t[0] == v.take(t.len() as int)[0]);
        } else {
            assert(out[0] == 'p');
        }
        lemma_trim_unpadded(out);
        assert(!ends_with(out, "px"@)) by {
            assert(out.skip(out.len() - 2)[1] == out.last());
        }
    }
}

/// No occurrence of `p` in `s` at or after `i`.
proof fn lemma_find_none(s: Seq<char>, p: Seq<char>, i: int)
    requires
        0 <= i,
        find_from(s, p, i) is None,
    ensures
        forall|j: int| i <= j ==> !#[trigger] matches_at(s, j, p),
    decreases s.len() + 1 - i,
{
    if i + p.len() <= s.len() {
        lemma_find_none(s, p, i + 1);
    }
}

/// Appending a character that cannot end a match of `p` appends it to the
/// replaced string.
proof fn lemma_replace_push(s: Seq<char>, c: char, p: Seq<char>, r: Seq<char>)
    requires
        p.len() > 0,
        c != p.last(),
    ensures
        replace(s.push(c), p, r) == replace(s, p, r).push(c),
    decreases s.len(),
{
    let u = s.push(c);
    if s.len() == 0 {
        assert(!starts_with(u, p)) by {
            if p.len() == 1 {
                assert(u.take(1)[0] == c);
            }
        }
        assert(u.drop_first() =~= Seq::<char>::empty());
        assert(replace(u.drop_first(), p, r) == u.drop_first());
        assert(replace(s, p, r) == s);
        assert(replace(u, p, r) =~= seq![c]);
    } else if starts_with(s, p) {
        assert(u.take(p.len() as int) =~= s.take(p.len() as int));
        assert(u.skip(p.len() as int) =~= s.skip(p.len() as int).push(c));
        lemma_replace_push(s.skip(p.len() as int), c, p, r);
        assert(replace(u, p, r) =~= replace(s, p, r).push(c));
    } else {
        assert(!starts_with(u, p)) by {
            if p.len() <= s.len() {
                assert(u.take(p.len() as int) =~= s.take(p.len() as int));
            } else if p.len() == s.len() + 1 {
                assert(u.take(p.len() as int) =~= u);
                assert(u.last() == c);
                if u == p {
                    assert(p.last() == c);
                }
            }
        }
        assert(u.drop_first() =~= s.drop_first().push(c));
        lemma_replace_push(s.drop_first(), c, p, r);
        assert(replace(u, p, r) =~= replace(s, p, r).push(c));
    }
}

pub open spec fn comment_close() -> Seq<char> {
    "*/"@
}

pub open spec fn escaped_close() -> Seq<char> {
    "* /"@
}

/// Escaping `*/` and unescaping it again gives back a string that held no
/// `* /` of its own.
proof fn lemma_unescape_escape(h: Seq<char>)
    requires
        forall|j: int| !#[trigger] matches_at(h, j, escaped_close()),
    ensures
        replace(replace(h, comment_close(), escaped_close()), escaped_close(), comment_close())
            == h,
    decreases h.len(),
{
    reveal_strlit("*/");
    reveal_strlit("* /");
    let a = comment_close();
    let b = escaped_close();
    let e = replace(h, a, b);
    if h.len() == 0 {
    } else if starts_with(h, a) {
        let rest = h.skip(2);
        assert forall|j: int| !#[trigger] matches_at(rest, j, b) by {
            if matches_at(rest, j, b) {
                assert(rest.subrange(j, j + 3) =~= h.subrange(j + 2, j + 5));
                assert(matches_at(h, j + 2, b));
            }
        }
        lemma_unescape_escape(rest);
        let er = replace(rest, a, b);
        assert(e == b + er);
        assert(starts_with(b + er, b)) by {
            assert((b + er).take(3) =~= b);
        }
        assert((b + er).skip(3) =~= er);
        assert(replace(e, b, a) == a + replace(er, b, a));
        assert(h =~= a + rest) by {
            assert(h.take(2) =~= a);
        }
    } else {
        let t = h.drop_first();
        assert forall|j: int| !#[trigger] matches_at(t, j, b) by {
            if matches_at(t, j, b) {
                assert(t.subrange(j, j + 3) =~= h.subrange(j + 1, j + 4));
                assert(matches_at(h, j + 1, b));
            }
        }
        lemma_unescape_escape(t);
        let rt = replace(t, a, b);
        assert(e == seq![h[0]] + rt);
        assert(!starts_with(e, b)) by {
            if starts_with(e, b) {
                assert(e.take(3) == b);
                assert(e[0] == e.take(3)[0] && e[1] == e.take(3)[1] && e[2] == e.take(3)[2]);
                assert(e[0] == '*' && e[1] == ' ' && e[2] == '/');
                assert(rt[0] == ' ');
                assert(!starts_with(t, a)) by {
                    if starts_with(t, a) {
                        assert(rt == b + replace(t.skip(2), a, b));
                        assert(rt[0] == '*');
                    }
                }
                assert(t.len() > 0);
                assert(rt == seq![t[0]] + replace(t.drop_first(), a, b));
                assert(t[0] == ' ');
                let t2 = t.drop_first();
                let r2 = replace(t2, a, b);
                assert(rt[1] == r2[0]);
                assert(t2.len() > 0);
                if starts_with(t2, a) {
                    assert(r2 == b + replace(t2.skip(2), a, b));
                    assert(r2[0] == '*');
                } else {
                    assert(r2 == seq![t2[0]] + replace(t2.drop_first(), a, b));
                    assert(h[2] == '/');
                    assert(h.subrange(0, 3) =~= b);
                    assert(matches_at(h, 0, b));
                }
            }
        }
        assert(e.drop_first() =~= rt);
        assert(replace(e, b, a) == seq![h[0]] + replace(rt, b, a));
        assert(h =~= seq![h[0]] + t);
    }
}

/// The HTML that is kept in a Typst comment, because Typst has nothing for
/// it, is read back out of that comment: the comment written for a fragment
/// that is not blank and holds no `* /` of its own yields the fragment
/// without its surrounding whitespace.
pub proof fn law_html_comment_round_trip(h: Seq<char>)
    requires
        trim(h).len() > 0,
        !contains(h, "* /"@),
    ensures
        html_from_comment(html_comment(h)) == Some(trim(h)),
{
    reveal_strlit("* /");
    reveal_strlit("*/");
    reveal_strlit("/* HTML: ");
    reveal_strlit("/* HTML:");
    reveal_strlit(" */\n");
    reveal_strlit(" */");
    lemma_find_none(h, "* /"@, 0);
    assert forall|j: int| !#[trigger] matches_at(h, j, escaped_close()) by {
        if j < 0 {
        } else {
            assert(!matches_at(h, j, "* /"@));
        }
    }
    lemma_unescape_escape(h);
    let a = comment_close();
    let b = escaped_close();
    let e = replace(h, a, b);
    let x = "/* HTML: "@ + e + " */"@;
    let c = html_comment(h);
    assert(c =~= x.push('\n'));
    // trimming drops the final newline and nothing else
    assert(x[0] == '/');
    assert(x.last() == '/');
    assert(trim_end(c) == trim_end(x)) by {
        assert(c.drop_last() =~= x);
    }
    lemma_trim_unpadded(x);
    assert(trim_start(c) == c);
    assert(trim(c) == x);
    assert(starts_with(x, "/* HTML:"@)) by {
        assert(x.take(8) =~= "/* HTML:"@);
    }
    assert(ends_with(x, "*/"@)) by {
        assert(x.skip(x.len() - 2) =~= "*/"@);
    }
    let inner = x.subrange(8, x.len() - 2);
    assert(inner =~= seq![' '] + e.push(' '));
    // unescaping works through the padding spaces
    lemma_replace_push(e, ' ', b, a);
    assert(!starts_with(inner, b)) by {
        reveal_strlit("* /");
        assert(inner[0] == ' ');
        if starts_with(inner, b) {
            assert(inner.take(3)[0] == b[0]);
        }
    }
    assert(inner.drop_first() =~= e.push(' '));
    let u = replace(inner, b, a);
    assert(u == seq![' '] + replace(e.push(' '), b, a));
    assert(u =~= seq![' '] + h.push(' '));
    // and the padding is trimmed away, with the fragment's own whitespace
    assert(trim_start(u) == trim_start(u.drop_first()));
    assert(u.drop_first() =~= h.push(' '));
    lemma_trim_start_push(h, ' ');
    let t = trim_start(h);
    assert(trim_end(t.push(' ')) == trim_end(t)) by {
        assert(t.push(' ').drop_last() =~= t);
    }
    assert(trim(u) == trim(h));
}

/// Appending to a string with a non-whitespace character appends to its
/// start-trimmed form.
proof fn lemma_trim_start_push(s: Seq<char>, c: char)
    requires
        trim_start(s).len() > 0,
    ensures
        trim_start(s.push(c)) == trim_start(s).push(c),
    decreases s.len(),
{
    if s.len() > 0 && is_ws(s[0]) {
        assert(s.push(c).drop_first() =~= s.drop_first().push(c));
        lemma_trim_start_push(s.drop_first(), c);
    } else {
        assert(s.len() > 0);
        assert(s.push(c)[0] == s[0]);
    }
}

/// Once the copy planned for an asset has been made and recorded, the same
/// asset is never planned for copying again.
pub proof fn law_asset_copied_once(a: CopyReferencedAssetsView, path: Seq<char>)
    requires
        planned_copy(a, path) is Some,
    ensures
        planned_copy(
            CopyReferencedAssetsView {
                source_dir: a.source_dir,
                dest_dir: a.dest_dir,
                copied: a.copied.insert(normal_path(planned_copy(a, path)->0.source)),
            },
            path,
        ) is None,
{
}


proof fn lemma_ends_with_concat(p: Seq<char>, y: Seq<char>)
    ensures
        ends_with(p + y, y),
{
    assert((p + y).skip((p + y).len() - y.len()) =~= y);
}

proof fn lemma_starts_with_concat(x: Seq<char>, q: Seq<char>)
    ensures
        starts_with(x + q, x),
{
    assert((x + q).take(x.len() as int) =~= x);
}

/// The `#image` call made for an `<img>` tag carries the sizes that the CSS
/// class of the tag gives: its source and alt text come first, and the call
/// ends with the class's width and height (each only where the class sets
/// it), width before height.
pub proof fn law_img_markup_carries_css_sizes(
    html: Seq<char>,
    src: Seq<char>,
    css: Map<Seq<char>, CssStyles>,
    class: Seq<char>,
)
    requires
        html_class(html) == Some(class),
    ensures
        starts_with(img_markup(html, src, css), "#image(\""@ + src + "\", alt: \""@),
        match (class_width(css, class), class_height(css, class)) {
            (Some(w), Some(h)) => ends_with(
                img_markup(html, src, css),
                ", width: "@ + w + ", height: "@ + h + ")"@,
            ) && ends_with(img_markup(html, src, css), ", height: "@ + h + ")"@),
            (None, Some(h)) => ends_with(img_markup(html, src, css), ", height: "@ + h + ")"@),
            (Some(w), None) => ends_with(img_markup(html, src, css), ", width: "@ + w + ")"@),
            (None, None) => ends_with(img_markup(html, src, css), "\")"@),
        },
{
    let m = img_markup(html, src, css);
    let head = "#image(\""@ + src + "\", alt: \""@;
    lemma_starts_with_concat(head, m.subrange(head.len() as int, m.len() as int));
    assert(m =~= head + m.subrange(head.len() as int, m.len() as int));
    match (class_width(css, class), class_height(css, class)) {
        (Some(w), Some(h)) => {
            let y = ", width: "@ + w + ", height: "@ + h + ")"@;
            let pre = m.subrange(0, m.len() - y.len());
            assert(m =~= pre + y);
            lemma_ends_with_concat(pre, y);
            let y2 = ", height: "@ + h + ")"@;
            let pre2 = m.subrange(0, m.len() - y2.len());
            assert(m =~= pre2 + y2);
            lemma_ends_with_concat(pre2, y2);
        },
        (None, Some(h)) => {
            let y2 = ", height: "@ + h + ")"@;
            let pre2 = m.subrange(0, m.len() - y2.len());
            assert(m =~= pre2 + y2);
            lemma_ends_with_concat(pre2, y2);
        },
        (Some(w), None) => {
            let y = ", width: "@ + w + ")"@;
            let pre = m.subrange(0, m.len() - y.len());
            assert(m =~= pre + y);
            lemma_ends_with_concat(pre, y);
        },
        (None, None) => {
            reveal_strlit("\")");
            reveal_strlit("\"");
            reveal_strlit(")");
            let y = "\")"@;
            let pre = m.subrange(0, m.len() - y.len());
            assert(m =~= pre + y);
            lemma_ends_with_concat(pre, y);
        },
    }
}


/// What the events of a caption span say: its texts as they are and its
/// inline code between backticks, in order; other events say nothing.
pub open spec fn caption_text(s: Seq<EventView>) -> Seq<char>
    decreases s.len(),
{
    if s.len() == 0 {
        Seq::empty()
    } else {
        (match s[0] {
            EventView::Text(t) => t,
            EventView::Code(c) => "`"@ + c + "`"@,
            _ => Seq::empty(),
        }) + caption_text(s.drop_first())
    }
}

proof fn lemma_caption_collects(
    caption: Seq<char>,
    s: Seq<EventView>,
    close: EventView,
    rest: Seq<EventView>,
    css: Map<Seq<char>, CssStyles>,
)
    requires
        closes_span(close),
        forall|i: int| 0 <= i < s.len() ==> !closes_span(#[trigger] s[i]),
    ensures
        anchors_run(true, caption, s + seq![close] + rest, css) == seq![
            EventView::Raw(caption_markup(caption + caption_text(s))),
        ] + anchors_run(false, Seq::empty(), rest, css),
    decreases s.len(),
{
    let x = s + seq![close] + rest;
    if s.len() == 0 {
        assert(x[0] == close);
        assert(x.drop_first() =~= rest);
        assert(caption + caption_text(s) =~= caption);
    } else {
        let e = s[0];
        assert(x[0] == e);
        assert(x.drop_first() =~= s.drop_first() + seq![close] + rest);
        assert forall|i: int| 0 <= i < s.drop_first().len() implies !closes_span(
            #[trigger] s.drop_first()[i],
        ) by {
            assert(s.drop_first()[i] == s[i + 1]);
        }
        assert(!closes_span(s[0]));
        match e {
            EventView::Text(t) => {
                lemma_caption_collects(caption + t, s.drop_first(), close, rest, css);
                assert(caption + t + caption_text(s.drop_first()) =~= caption + caption_text(s));
            },
            EventView::Code(c) => {
                lemma_caption_collects(caption + "`"@ + c + "`"@, s.drop_first(), close, rest, css);
                assert(caption + "`"@ + c + "`"@ + caption_text(s.drop_first()) =~= caption
                    + caption_text(s));
            },
            _ => {
                lemma_caption_collects(caption, s.drop_first(), close, rest, css);
                assert(caption + caption_text(s.drop_first()) =~= caption + caption_text(s));
            },
        }
    }
}

/// A caption span becomes one centred caption made of everything it says:
/// from the opening `<span class="caption">` to the closing `</span>`, its
/// texts in order with each inline code kept between backticks; the
/// conversion then goes on after the span as at the start of a stream.
pub proof fn law_caption_keeps_text_and_code(
    origin: Origin,
    kind: HtmlKind,
    open: Seq<char>,
    s: Seq<EventView>,
    close: EventView,
    rest: Seq<EventView>,
    css: Map<Seq<char>, CssStyles>,
)
    requires
        caption_span_open(open),
        closes_span(close),
        forall|i: int| 0 <= i < s.len() ==> !closes_span(#[trigger] s[i]),
    ensures
        convert_html_anchors(seq![EventView::Html(origin, kind, open)] + s + seq![close] + rest, css)
            == seq![EventView::Raw(caption_markup(caption_text(s)))] + convert_html_anchors(
            rest,
            css,
        ),
{
    let x = seq![EventView::Html(origin, kind, open)] + s + seq![close] + rest;
    assert(x[0] == EventView::Html(origin, kind, open));
    assert(x.drop_first() =~= s + seq![close] + rest);
    lemma_caption_collects(Seq::empty(), s, close, rest, css);
    assert(Seq::<char>::empty() + caption_text(s) =~= caption_text(s));
}

} // verus!
