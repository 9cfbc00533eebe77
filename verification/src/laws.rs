//! Properties of the converters that hold for every input.

use vstd::prelude::*;

use crate::anchors::{anchors_run, convert_html_anchors};
use crate::callouts::{callout_run, convert_callouts, detect_callout, first_text};
use crate::css::CssStyles;
use crate::event::EventView;
use crate::footnotes::{definition_at, definitions_from, footnotes_from, structured_footnotes};
use crate::headings::{
    fix_heading_stutter, part_run, parts_to_cover_pages, stutter_run, is_book_heading_start,
};
use crate::images::resolve_css_image_styles;
use crate::stream::concat_map;
use crate::code_blocks::{code_info, fence_step, fix_code_block_fences, split_char};
use crate::headings::{heading_text, is_heading_end, label_event, part_step};
use crate::event::HeadingView;
use crate::event::CodeDisplay;
use crate::images::{resolve_image, resolve_step};
use crate::text::{before_char, is_ws, trim, trim_end, trim_start};

verus! {

/// A stream whose every event `f` keeps as it is comes out of `concat_map` unchanged.
pub proof fn lemma_concat_map_identity(s: Seq<EventView>, f: spec_fn(EventView) -> Seq<EventView>)
    requires
        forall|i: int| 0 <= i < s.len() ==> #[trigger] f(s[i]) == seq![s[i]],
    ensures
        concat_map(s, f) == s,
    decreases s.len(),
{
    if s.len() > 0 {
        assert forall|i: int| 0 <= i < s.drop_last().len() implies #[trigger] f(s.drop_last()[i])
            == seq![s.drop_last()[i]] by {
            assert(s.drop_last()[i] == s[i]);
        }
        lemma_concat_map_identity(s.drop_last(), f);
        assert(f(s[s.len() - 1]) == seq![s[s.len() - 1]]);
        assert(s.drop_last() + seq![s.last()] =~= s);
    }
}

/// Events other than code block starts pass through the code block fence
/// fix unchanged: a stream without code block starts is left as it is.
pub proof fn law_fences_keep_other_events(s: Seq<EventView>)
    requires
        forall|i: int| 0 <= i < s.len() ==> !(#[trigger] s[i] is CodeBlockStart) && !(
        s[i] is FencedCodeStart),
    ensures
        fix_code_block_fences(s) == s,
{
    lemma_concat_map_identity(s, |e: EventView| crate::code_blocks::fence_step(e));
}

/// Events other than image tags pass through the CSS image resolution
/// unchanged: a stream without images is left as it is.
pub proof fn law_image_styles_keep_other_events(s: Seq<EventView>, css: Map<Seq<char>, CssStyles>)
    requires
        forall|i: int| 0 <= i < s.len() ==> !(#[trigger] s[i] is ImageStart) && !(
        s[i] is ImageEnd),
    ensures
        resolve_css_image_styles(s, css) == s,
{
    lemma_concat_map_identity(s, |e: EventView| crate::images::resolve_step(e, css));
}

/// Outside mdBook parts nothing changes: a stream without part events is
/// left as it is.
pub proof fn law_parts_keep_other_events(s: Seq<EventView>)
    requires
        forall|i: int| 0 <= i < s.len() ==> !(#[trigger] s[i] is PartStart) && !(s[i] is PartEnd),
    ensures
        parts_to_cover_pages(s) == s,
    decreases s.len(),
{
    lemma_part_run_identity(s);
}

proof fn lemma_part_run_identity(s: Seq<EventView>)
    requires
        forall|i: int| 0 <= i < s.len() ==> !(#[trigger] s[i] is PartStart) && !(s[i] is PartEnd),
    ensures
        part_run(false, s) == s,
    decreases s.len(),
{
    if s.len() > 0 {
        assert forall|i: int| 0 <= i < s.drop_first().len() implies !(
        #[trigger] s.drop_first()[i] is PartStart) && !(s.drop_first()[i] is PartEnd) by {
            assert(s.drop_first()[i] == s[i + 1]);
        }
        lemma_part_run_identity(s.drop_first());
        assert(!(s[0] is PartStart) && !(s[0] is PartEnd));
        assert(seq![s[0]] + s.drop_first() =~= s);
    }
}

/// A stream without heading starts has no stutter to fix and is left as it is.
pub proof fn law_stutter_keeps_streams_without_heading_starts(s: Seq<EventView>)
    requires
        forall|i: int| 0 <= i < s.len() ==> !is_book_heading_start(#[trigger] s[i]) && !(
        s[i] is HeadingStart),
    ensures
        fix_heading_stutter(s) == s,
{
    lemma_stutter_identity(None, None, None, s);
}

proof fn lemma_stutter_identity(
    prev: Option<EventView>,
    title: Option<Seq<char>>,
    book_title: Option<Seq<char>>,
    s: Seq<EventView>,
)
    requires
        forall|i: int| 0 <= i < s.len() ==> !is_book_heading_start(#[trigger] s[i]) && !(
        s[i] is HeadingStart),
    ensures
        stutter_run(prev, title, book_title, None, s) == s,
    decreases s.len(),
{
    if s.len() > 0 {
        assert forall|i: int| 0 <= i < s.drop_first().len() implies !is_book_heading_start(
            #[trigger] s.drop_first()[i],
        ) && !(s.drop_first()[i] is HeadingStart) by {
            assert(s.drop_first()[i] == s[i + 1]);
        }
        lemma_stutter_identity(Some(s[0]), title, book_title, s.drop_first());
        assert(!is_book_heading_start(s[0]) && !(s[0] is HeadingStart));
        assert(seq![s[0]] + s.drop_first() =~= s);
    }
}

/// The first position at or after `k` that holds a quote start or end, or
/// the length of `s`.
pub open spec fn quote_close(s: Seq<EventView>, k: int) -> int
    decreases s.len() - k,
{
    if k < 0 || k >= s.len() || s[k] is QuoteStart || s[k] is QuoteEnd {
        k
    } else {
        quote_close(s, k + 1)
    }
}

pub proof fn lemma_quote_close_bounds(s: Seq<EventView>, k: int)
    requires
        0 <= k <= s.len(),
    ensures
        k <= quote_close(s, k) <= s.len(),
        forall|i: int| k <= i < quote_close(s, k) ==> !(#[trigger] s[i] is QuoteStart) && !(
        s[i] is QuoteEnd),
    decreases s.len() - k,
{
    if k < s.len() && !(s[k] is QuoteStart) && !(s[k] is QuoteEnd) {
        lemma_quote_close_bounds(s, k + 1);
    }
}

/// A blockquote whose first text does not start with a callout prefix.
pub open spec fn plain_quote(q: Seq<EventView>) -> bool {
    match first_text(q) {
        Some(t) => detect_callout(t) is None,
        None => true,
    }
}

/// Every blockquote of `s` is closed, holds no other blockquote, and is no
/// callout; quote ends outside a blockquote may occur anywhere.
pub open spec fn plain_quotes(s: Seq<EventView>) -> bool
    decreases s.len(),
{
    if s.len() == 0 {
        true
    } else if s[0] is QuoteStart {
        let j = quote_close(s, 1);
        proof {
            lemma_quote_close_bounds(s, 1);
        }
        if j < s.len() && s[j] is QuoteEnd {
            plain_quote(s.take(j + 1)) && plain_quotes(s.skip(j + 1))
        } else {
            false
        }
    } else {
        plain_quotes(s.drop_first())
    }
}

proof fn lemma_callout_quote_body(s: Seq<EventView>, k: int, j: int)
    requires
        1 <= k <= j < s.len(),
        forall|i: int| 1 <= i < j ==> !(#[trigger] s[i] is QuoteStart) && !(s[i] is QuoteEnd),
    ensures
        callout_run(true, s.take(k), s.skip(k)) == callout_run(true, s.take(j), s.skip(j)),
    decreases j - k,
{
    if k < j {
        assert(s.skip(k)[0] == s[k]);
        assert(s.skip(k).drop_first() =~= s.skip(k + 1));
        assert(s.take(k).push(s[k]) =~= s.take(k + 1));
        lemma_callout_quote_body(s, k + 1, j);
    }
}

/// Blockquotes that are no callouts come out as they went in: a stream whose
/// blockquotes are closed, do not nest and do not start with a callout prefix
/// is left as it is.
pub proof fn law_plain_quotes_are_kept(s: Seq<EventView>)
    requires
        plain_quotes(s),
    ensures
        convert_callouts(s) == s,
    decreases s.len(),
{
    if s.len() > 0 {
        if s[0] is QuoteStart {
            let j = quote_close(s, 1);
            lemma_quote_close_bounds(s, 1);
            assert(s.drop_first() =~= s.skip(1));
            assert(seq![s[0]] =~= s.take(1));
            lemma_callout_quote_body(s, 1, j);
            assert(s.skip(j)[0] == s[j]);
            assert(s.skip(j).drop_first() =~= s.skip(j + 1));
            assert(s.take(j).push(s[j]) =~= s.take(j + 1));
            law_plain_quotes_are_kept(s.skip(j + 1));
            assert(s.take(j + 1) + s.skip(j + 1) =~= s);
        } else {
            law_plain_quotes_are_kept(s.drop_first());
            assert(seq![s[0]] + s.drop_first() =~= s);
        }
    }
}

/// Outside blockquotes nothing changes: a stream without quote events is
/// left as it is.
pub proof fn law_callouts_keep_other_events(s: Seq<EventView>)
    requires
        forall|i: int| 0 <= i < s.len() ==> !(#[trigger] s[i] is QuoteStart) && !(
        s[i] is QuoteEnd),
    ensures
        convert_callouts(s) == s,
{
    lemma_callout_identity(s);
}

proof fn lemma_callout_identity(s: Seq<EventView>)
    requires
        forall|i: int| 0 <= i < s.len() ==> !(#[trigger] s[i] is QuoteStart) && !(
        s[i] is QuoteEnd),
    ensures
        callout_run(false, Seq::empty(), s) == s,
    decreases s.len(),
{
    if s.len() > 0 {
        assert forall|i: int| 0 <= i < s.drop_first().len() implies !(
        #[trigger] s.drop_first()[i] is QuoteStart) && !(s.drop_first()[i] is QuoteEnd) by {
            assert(s.drop_first()[i] == s[i + 1]);
        }
        lemma_callout_identity(s.drop_first());
        assert(!(s[0] is QuoteStart) && !(s[0] is QuoteEnd));
        assert(seq![s[0]] + s.drop_first() =~= s);
    }
}

/// Events other than HTML and raw markup pass through the HTML conversion
/// unchanged: a stream without them is left as it is.
pub proof fn law_anchors_keep_other_events(s: Seq<EventView>, css: Map<Seq<char>, CssStyles>)
    requires
        forall|i: int| 0 <= i < s.len() ==> !(#[trigger] s[i] is Html) && !(s[i] is Raw),
    ensures
        convert_html_anchors(s, css) == s,
{
    lemma_anchors_identity(s, css);
}

proof fn lemma_anchors_identity(s: Seq<EventView>, css: Map<Seq<char>, CssStyles>)
    requires
        forall|i: int| 0 <= i < s.len() ==> !(#[trigger] s[i] is Html) && !(s[i] is Raw),
    ensures
        anchors_run(false, Seq::empty(), s, css) == s,
    decreases s.len(),
{
    if s.len() > 0 {
        assert forall|i: int| 0 <= i < s.drop_first().len() implies !(
        #[trigger] s.drop_first()[i] is Html) && !(s.drop_first()[i] is Raw) by {
            assert(s.drop_first()[i] == s[i + 1]);
        }
        lemma_anchors_identity(s.drop_first(), css);
        assert(!(s[0] is Html) && !(s[0] is Raw));
        assert(seq![s[0]] + s.drop_first() =~= s);
    }
}

/// A stream without footnote definitions and references is left as it is.
pub proof fn law_footnotes_keep_other_events(s: Seq<EventView>)
    requires
        forall|i: int| 0 <= i < s.len() ==> !(#[trigger] s[i] is FootnoteDefinitionStart) && !(
        s[i] is FootnoteReference),
    ensures
        structured_footnotes(s) == s,
{
    lemma_footnotes_identity(s, 0, definitions_from(s, 0));
    assert(s.skip(0) =~= s);
}

proof fn lemma_footnotes_identity(s: Seq<EventView>, i: int, defs: Map<Seq<char>, Seq<EventView>>)
    requires
        0 <= i <= s.len(),
        forall|j: int| 0 <= j < s.len() ==> !(#[trigger] s[j] is FootnoteDefinitionStart) && !(
        s[j] is FootnoteReference),
    ensures
        footnotes_from(s, i, defs) == s.skip(i),
    decreases s.len() - i,
{
    if i < s.len() {
        assert(!(s[i] is FootnoteDefinitionStart) && !(s[i] is FootnoteReference));
        assert(!definition_at(s, i));
        lemma_footnotes_identity(s, i + 1, defs);
        assert(seq![s[i]] + s.skip(i + 1) =~= s.skip(i));
    } else {
        assert(s.skip(i) =~= Seq::<EventView>::empty());
    }
}

/// `concat_map` of a concatenation is the concatenation of the images.
pub proof fn lemma_concat_map_append(
    a: Seq<EventView>,
    b: Seq<EventView>,
    f: spec_fn(EventView) -> Seq<EventView>,
)
    ensures
        concat_map(a + b, f) == concat_map(a, f) + concat_map(b, f),
    decreases b.len(),
{
    if b.len() == 0 {
        assert(a + b =~= a);
        assert(concat_map(a, f) + concat_map(b, f) =~= concat_map(a, f));
    } else {
        assert((a + b).drop_last() =~= a + b.drop_last());
        assert((a + b).last() == b.last());
        lemma_concat_map_append(a, b.drop_last(), f);
        assert(concat_map(a, f) + concat_map(b.drop_last(), f) + f(b.last()) =~= concat_map(a, f)
            + (concat_map(b.drop_last(), f) + f(b.last())));
    }
}

/// Rewriting twice is rewriting once when each event's image is left as it
/// is by a second rewrite.
pub proof fn lemma_concat_map_idempotent(s: Seq<EventView>, f: spec_fn(EventView) -> Seq<EventView>)
    requires
        forall|e: EventView| #[trigger] concat_map(f(e), f) == f(e),
    ensures
        concat_map(concat_map(s, f), f) == concat_map(s, f),
    decreases s.len(),
{
    if s.len() > 0 {
        lemma_concat_map_idempotent(s.drop_last(), f);
        lemma_concat_map_append(concat_map(s.drop_last(), f), f(s.last()), f);
    }
}

proof fn lemma_before_char_has_no(s: Seq<char>, c: char)
    ensures
        forall|i: int| 0 <= i < before_char(s, c).len() ==> #[trigger] before_char(s, c)[i] != c,
    decreases s.len(),
{
    if s.len() > 0 && s[0] != c {
        lemma_before_char_has_no(s.drop_first(), c);
        assert forall|i: int| 0 <= i < before_char(s, c).len() implies #[trigger] before_char(
            s,
            c,
        )[i] != c by {
            if i > 0 {
                assert(before_char(s, c)[i] == before_char(s.drop_first(), c)[i - 1]);
            }
        }
    }
}

proof fn lemma_before_char_prefix(s: Seq<char>, c: char)
    ensures
        before_char(s, c).len() <= s.len(),
        before_char(s, c) == s.take(before_char(s, c).len() as int),
    decreases s.len(),
{
    if s.len() > 0 && s[0] != c {
        lemma_before_char_prefix(s.drop_first(), c);
        assert(seq![s[0]] + s.drop_first().take(before_char(s.drop_first(), c).len() as int)
            =~= s.take(before_char(s, c).len() as int));
    } else {
        assert(s.take(0) =~= Seq::<char>::empty());
    }
}

proof fn lemma_before_char_without(s: Seq<char>, c: char)
    requires
        forall|i: int| 0 <= i < s.len() ==> #[trigger] s[i] != c,
    ensures
        before_char(s, c) == s,
    decreases s.len(),
{
    if s.len() > 0 {
        assert forall|i: int| 0 <= i < s.drop_first().len() implies #[trigger] s.drop_first()[i]
            != c by {
            assert(s.drop_first()[i] == s[i + 1]);
        }
        lemma_before_char_without(s.drop_first(), c);
        assert(s[0] != c);
        assert(seq![s[0]] + s.drop_first() =~= s);
    }
}

proof fn lemma_trim_start_suffix(s: Seq<char>)
    ensures
        trim_start(s).len() <= s.len(),
        trim_start(s) == s.skip(s.len() - trim_start(s).len()),
        trim_start(s).len() > 0 ==> !is_ws(trim_start(s)[0]),
    decreases s.len(),
{
    if s.len() > 0 && is_ws(s[0]) {
        lemma_trim_start_suffix(s.drop_first());
        assert(s.drop_first().skip(s.drop_first().len() - trim_start(s).len()) =~= s.skip(
            s.len() - trim_start(s).len(),
        ));
    } else {
        assert(s.skip(0) =~= s);
    }
}

proof fn lemma_trim_end_prefix(s: Seq<char>)
    ensures
        trim_end(s).len() <= s.len(),
        trim_end(s) == s.take(trim_end(s).len() as int),
        trim_end(s).len() > 0 ==> !is_ws(trim_end(s).last()),
    decreases s.len(),
{
    if s.len() > 0 && is_ws(s.last()) {
        lemma_trim_end_prefix(s.drop_last());
        assert(s.drop_last().take(trim_end(s).len() as int) =~= s.take(trim_end(s).len() as int));
    } else {
        assert(s.take(s.len() as int) =~= s);
    }
}

/// Trimming a trimmed string changes nothing.
pub proof fn lemma_trim_idempotent(s: Seq<char>)
    ensures
        trim(trim(s)) == trim(s),
        trim(s).len() > 0 ==> !is_ws(trim(s)[0]) && !is_ws(trim(s).last()),
{
    let a = trim_start(s);
    let r = trim_end(a);
    lemma_trim_start_suffix(s);
    lemma_trim_end_prefix(a);
    if r.len() > 0 {
        assert(r[0] == a[0]);
        assert(trim_start(r) == r);
        assert(trim_end(r) == r);
    } else {
        assert(trim_start(r) == r);
        assert(trim_end(r) == r);
    }
}

/// A string without `c` keeps having none once trimmed.
proof fn lemma_trim_keeps_absent(s: Seq<char>, c: char)
    requires
        forall|i: int| 0 <= i < s.len() ==> #[trigger] s[i] != c,
    ensures
        forall|i: int| 0 <= i < trim(s).len() ==> #[trigger] trim(s)[i] != c,
{
    let a = trim_start(s);
    lemma_trim_start_suffix(s);
    lemma_trim_end_prefix(a);
    assert forall|i: int| 0 <= i < trim(s).len() implies #[trigger] trim(s)[i] != c by {
        assert(trim(s)[i] == a[i]);
        assert(a[i] == s[s.len() - a.len() + i]);
    }
}

/// The language that a code block info string gives is trimmed, not empty,
/// and without commas; read as an info string itself, it gives itself and
/// no file name.
pub proof fn law_code_info_language_is_stable(info: Seq<char>)
    ensures
        code_info(info).0 matches Some(lang) ==> {
            &&& lang.len() > 0
            &&& trim(lang) == lang
            &&& forall|i: int| 0 <= i < lang.len() ==> #[trigger] lang[i] != ','
            &&& code_info(lang) == (Some(lang), None::<Seq<char>>)
        },
{
    if info.len() > 0 {
        let parts = split_char(info, ',');
        let b = before_char(info, ',');
        lemma_before_char_prefix(info, ',');
        if b.len() >= info.len() {
            assert(b =~= info);
        }
        assert(parts[0] == b);
        if code_info(info).0 is Some {
            let lang = trim(b);
            lemma_before_char_has_no(info, ',');
            lemma_trim_keeps_absent(b, ',');
            lemma_trim_idempotent(b);
            lemma_before_char_without(lang, ',');
            assert(split_char(lang, ',') == seq![lang]);
            assert(seq![lang].drop_first() =~= Seq::<Seq<char>>::empty());
        }
    }
}

proof fn lemma_fence_step_stable(e: EventView)
    ensures
        concat_map(fence_step(e), |x: EventView| fence_step(x)) == fence_step(e),
{
    let f = |x: EventView| fence_step(x);
    let r = fence_step(e);
    let (lang, display) = match e {
        EventView::CodeBlockStart(Some(info), d) => (code_info(info).0, d),
        EventView::FencedCodeStart(_, info) => (code_info(info).0, CodeDisplay::Block),
        _ => (None, CodeDisplay::Block),
    };
    match e {
        EventView::CodeBlockStart(Some(info), _) => {
            law_code_info_language_is_stable(info);
        },
        EventView::FencedCodeStart(_, info) => {
            law_code_info_language_is_stable(info);
        },
        _ => {},
    }
    let start = EventView::CodeBlockStart(lang, display);
    assert(f(start) == seq![start]) by {
        match lang {
            Some(l) => {},
            None => {},
        }
    }
    if e is CodeBlockStart && e->CodeBlockStart_0 is Some || e is FencedCodeStart {
        if r.len() == 2 {
            assert(f(r[0]) == seq![r[0]]);
            lemma_concat_map_identity(r, f);
        } else {
            assert(r =~= seq![start]);
            lemma_concat_map_identity(r, f);
        }
    } else {
        assert(r == seq![e]);
        assert(f(e) == seq![e]);
        lemma_concat_map_identity(r, f);
    }
}

/// Fixing the code block fences of a fixed stream changes nothing.
pub proof fn law_fix_code_block_fences_idempotent(s: Seq<EventView>)
    ensures
        fix_code_block_fences(fix_code_block_fences(s)) == fix_code_block_fences(s),
{
    let f = |x: EventView| fence_step(x);
    assert forall|e: EventView| #[trigger] concat_map(f(e), f) == f(e) by {
        lemma_fence_step_stable(e);
    }
    lemma_concat_map_idempotent(s, f);
}

/// Resolving the image sizes of a resolved stream changes nothing.
pub proof fn law_resolve_css_image_styles_idempotent(s: Seq<EventView>, css: Map<Seq<char>, CssStyles>)
    ensures
        resolve_css_image_styles(resolve_css_image_styles(s, css), css) == resolve_css_image_styles(
            s,
            css,
        ),
{
    let f = |x: EventView| resolve_step(x, css);
    assert forall|e: EventView| #[trigger] concat_map(f(e), f) == f(e) by {
        let r = f(e);
        match e {
            EventView::ImageStart(i) => {
                assert(resolve_image(resolve_image(i, css), css) == resolve_image(i, css));
            },
            EventView::ImageEnd(i) => {
                assert(resolve_image(resolve_image(i, css), css) == resolve_image(i, css));
            },
            _ => {},
        }
        lemma_concat_map_identity(r, f);
    }
    lemma_concat_map_idempotent(s, f);
}


proof fn lemma_concat_map_single(e: EventView, f: spec_fn(EventView) -> Seq<EventView>)
    ensures
        concat_map(seq![e], f) == f(e),
{
    assert(seq![e].drop_last() =~= Seq::<EventView>::empty());
    assert(concat_map(Seq::<EventView>::empty(), f) == Seq::<EventView>::empty());
    assert(Seq::<EventView>::empty() + f(e) =~= f(e));
}

/// Each code fence is fixed on its own: the events around an event do not
/// change what it becomes (a fence with a file name becomes the file-name
/// block and the code block start; any other fence, the code block start).
pub proof fn law_fences_fixed_one_by_one(a: Seq<EventView>, e: EventView, b: Seq<EventView>)
    ensures
        fix_code_block_fences(a + seq![e] + b) == fix_code_block_fences(a) + fence_step(e)
            + fix_code_block_fences(b),
{
    let f = |x: EventView| fence_step(x);
    lemma_concat_map_append(a + seq![e], b, f);
    lemma_concat_map_append(a, seq![e], f);
    lemma_concat_map_single(e, f);
}

/// Each image is sized on its own: the events around an image do not change
/// what it becomes.
pub proof fn law_images_resolved_one_by_one(
    a: Seq<EventView>,
    e: EventView,
    b: Seq<EventView>,
    css: Map<Seq<char>, CssStyles>,
)
    ensures
        resolve_css_image_styles(a + seq![e] + b, css) == resolve_css_image_styles(a, css)
            + resolve_step(e, css) + resolve_css_image_styles(b, css),
{
    let f = |x: EventView| resolve_step(x, css);
    lemma_concat_map_append(a + seq![e], b, f);
    lemma_concat_map_append(a, seq![e], f);
    lemma_concat_map_single(e, f);
}

/// Whether a part is open after the events `s`, from the state `in_part`.
pub open spec fn part_state(in_part: bool, s: Seq<EventView>) -> bool
    decreases s.len(),
{
    if s.len() == 0 {
        in_part
    } else {
        part_state(part_step(in_part, s[0]).1, s.drop_first())
    }
}

/// Parts are converted event by event: what follows a stretch of events is
/// converted from the state that stretch leaves, whether a named part is open.
pub proof fn law_parts_converted_event_by_event(in_part: bool, a: Seq<EventView>, b: Seq<EventView>)
    ensures
        part_run(in_part, a + b) == part_run(in_part, a) + part_run(part_state(in_part, a), b),
    decreases a.len(),
{
    if a.len() == 0 {
        assert(a + b =~= b);
        assert(part_run(in_part, a) == Seq::<EventView>::empty());
        assert(Seq::<EventView>::empty() + part_run(in_part, b) =~= part_run(in_part, b));
    } else {
        let next = part_step(in_part, a[0]).1;
        assert((a + b)[0] == a[0]);
        assert((a + b).drop_first() =~= a.drop_first() + b);
        law_parts_converted_event_by_event(next, a.drop_first(), b);
        let o = part_step(in_part, a[0]).0;
        assert(part_run(in_part, a + b) == o + part_run(next, a.drop_first() + b));
        assert(part_run(in_part, a) == o + part_run(next, a.drop_first()));
        assert(o + (part_run(next, a.drop_first()) + part_run(part_state(next, a.drop_first()), b))
            =~= (o + part_run(next, a.drop_first())) + part_run(part_state(next, a.drop_first()), b));
    }
}


/// The events of an optional event.
pub open spec fn opt_seq(o: Option<EventView>) -> Seq<EventView> {
    match o {
        Some(e) => seq![e],
        None => Seq::empty(),
    }
}

/// A heading repeated at once with the same text loses the repeat, whatever
/// headings came before it: from any state in which the previous event is
/// not a Typst heading end, the first of two headings with the text `t`
/// is kept, the second is replaced by its label, and the fix goes on after
/// them remembering `t` as the last heading's text.
pub proof fn law_repeated_heading_is_removed(
    prev: Option<EventView>,
    title: Option<Seq<char>>,
    book_title: Option<Seq<char>>,
    h1: HeadingView,
    e1: HeadingView,
    h2: HeadingView,
    e2: HeadingView,
    t: Seq<char>,
    rest: Seq<EventView>,
)
    requires
        !(prev matches Some(p) && is_heading_end(p)),
    ensures
        stutter_run(
            prev,
            title,
            book_title,
            None,
            seq![
                EventView::HeadingStart(h1),
                EventView::Text(t),
                EventView::HeadingEnd(e1),
                EventView::HeadingStart(h2),
                EventView::Text(t),
                EventView::HeadingEnd(e2),
            ] + rest,
        ) == seq![EventView::HeadingStart(h1), EventView::Text(t), EventView::HeadingEnd(e1)]
            + opt_seq(label_event(h2.label)) + stutter_run(
            Some(EventView::HeadingEnd(e1)),
            Some(t),
            book_title,
            None,
            rest,
        ),
{
    let s = seq![
        EventView::HeadingStart(h1),
        EventView::Text(t),
        EventView::HeadingEnd(e1),
        EventView::HeadingStart(h2),
        EventView::Text(t),
        EventView::HeadingEnd(e2),
    ] + rest;
    let s1 = s.drop_first();
    let s2 = s1.drop_first();
    let s3 = s2.drop_first();
    let s4 = s3.drop_first();
    let s5 = s4.drop_first();
    let s6 = s5.drop_first();
    assert(s6 =~= rest);
    assert(s5[0] == EventView::HeadingEnd(e2));
    assert(heading_text(s5) == Seq::<char>::empty());
    assert(heading_text(s4) == t + heading_text(s5));
    assert(heading_text(s4) =~= t);
    assert(heading_text(s2) == Seq::<char>::empty());
    assert(heading_text(s1) =~= t);
    let ts = Some(t);
    let end1 = EventView::HeadingEnd(e1);
    // the repeat is skipped to its end, leaving its label
    assert(crate::headings::after_first_heading_end(s4) == crate::headings::after_first_heading_end(s5));
    assert(crate::headings::after_first_heading_end(s5) == s6);
    assert(stutter_run(Some(end1), ts, book_title, None, s3) == stutter_run(
        Some(end1),
        ts,
        book_title,
        label_event(h2.label),
        rest,
    ));
    assert(stutter_run(Some(end1), ts, book_title, label_event(h2.label), rest) == opt_seq(
        label_event(h2.label),
    ) + stutter_run(Some(end1), ts, book_title, None, rest)) by {
        if label_event(h2.label) is None {
            assert(Seq::<EventView>::empty() + stutter_run(Some(end1), ts, book_title, None, rest)
                =~= stutter_run(Some(end1), ts, book_title, None, rest));
        }
    }
    assert(stutter_run(prev, title, book_title, None, s) == seq![EventView::HeadingStart(h1)]
        + stutter_run(Some(EventView::HeadingStart(h1)), ts, book_title, None, s1));
    assert(stutter_run(Some(EventView::HeadingStart(h1)), ts, book_title, None, s1) == seq![
        EventView::Text(t),
    ] + stutter_run(Some(EventView::Text(t)), ts, book_title, None, s2));
    assert(stutter_run(Some(EventView::Text(t)), ts, book_title, None, s2) == seq![end1]
        + stutter_run(Some(end1), ts, book_title, None, s3));
    assert(seq![EventView::HeadingStart(h1)] + (seq![EventView::Text(t)] + (seq![end1] + (opt_seq(
        label_event(h2.label),
    ) + stutter_run(Some(end1), ts, book_title, None, rest)))) =~= seq![
        EventView::HeadingStart(h1),
        EventView::Text(t),
        end1,
    ] + opt_seq(label_event(h2.label)) + stutter_run(Some(end1), ts, book_title, None, rest));
}


/// A heading that follows a heading with a different text is no repeat and is
/// kept, with its text remembered as the last heading's text.
pub proof fn law_differently_titled_heading_is_kept(
    e0: HeadingView,
    x: Seq<char>,
    book_title: Option<Seq<char>>,
    h: HeadingView,
    e: HeadingView,
    t: Seq<char>,
    rest: Seq<EventView>,
)
    requires
        t != x,
    ensures
        stutter_run(
            Some(EventView::HeadingEnd(e0)),
            Some(x),
            book_title,
            None,
            seq![EventView::HeadingStart(h), EventView::Text(t), EventView::HeadingEnd(e)] + rest,
        ) == seq![EventView::HeadingStart(h), EventView::Text(t), EventView::HeadingEnd(e)]
            + stutter_run(Some(EventView::HeadingEnd(e)), Some(t), book_title, None, rest),
{
    let s = seq![EventView::HeadingStart(h), EventView::Text(t), EventView::HeadingEnd(e)] + rest;
    let s1 = s.drop_first();
    let s2 = s1.drop_first();
    let s3 = s2.drop_first();
    assert(s3 =~= rest);
    assert(s2[0] == EventView::HeadingEnd(e));
    assert(heading_text(s2) == Seq::<char>::empty());
    assert(heading_text(s1) =~= t);
    let ts = Some(t);
    assert(stutter_run(Some(EventView::HeadingEnd(e0)), Some(x), book_title, None, s) == seq![
        EventView::HeadingStart(h),
    ] + stutter_run(Some(EventView::HeadingStart(h)), ts, book_title, None, s1));
    assert(stutter_run(Some(EventView::HeadingStart(h)), ts, book_title, None, s1) == seq![
        EventView::Text(t),
    ] + stutter_run(Some(EventView::Text(t)), ts, book_title, None, s2));
    assert(stutter_run(Some(EventView::Text(t)), ts, book_title, None, s2) == seq![
        EventView::HeadingEnd(e),
    ] + stutter_run(Some(EventView::HeadingEnd(e)), ts, book_title, None, s3));
    assert(seq![EventView::HeadingStart(h)] + (seq![EventView::Text(t)] + (seq![
        EventView::HeadingEnd(e),
    ] + stutter_run(Some(EventView::HeadingEnd(e)), ts, book_title, None, rest))) =~= seq![
        EventView::HeadingStart(h),
        EventView::Text(t),
        EventView::HeadingEnd(e),
    ] + stutter_run(Some(EventView::HeadingEnd(e)), ts, book_title, None, rest));
}

} // verus!
