//! Text-level conversions: footnotes written as plain Markdown text, and HTML
//! comments left in the final markup.

use vstd::prelude::*;
use vstd::hash_map::StringHashMap;

use crate::css::{CssClassStyles, CssStyles};
use crate::event::{events_view, strings_view, Event, EventView};
use crate::html::{extract_img_src, img_markup, img_markup_string, img_src, or_empty};
use crate::pattern::{
    captures_view, concat, concat_strings, interleave, interleave_strings, regex_captures,
    regex_compiles, regex_split, Pattern,
};
use crate::stream::{concat_map, lemma_concat_map_step, push_event};
use crate::text::{
    chars_to_string, contains, contains_chars, replace, replace_str, str_chars, trim, trim_chars,
};

pub use crate::anchors::ConvertHtmlAnchors;
pub use crate::callouts::ConvertCallouts;
pub use crate::code_blocks::FixCodeBlockFence;
pub use crate::headings::{FixHeadingStutter, PartToCoverPage};
pub use crate::images::ResolveCssImageStyles;

verus! {

/// The pattern of a footnote definition: `[^label]: text`, with indented
/// continuation lines.
pub open spec fn definition_pattern() -> Seq<char> {
    "(?m)^[ \\t]{0,3}\\[\\^([^\\s\\]]+)\\]:[ \\t]*(.*(?:\\n(?:[ \\t]{2,}|\\t).*)*)"@
}

/// The pattern of a footnote reference: `[^label]`.
pub open spec fn reference_pattern() -> Seq<char> {
    "\\[\\^([^\\s\\]]+)\\]"@
}

/// The pattern of an `<img>` tag kept in a Typst comment.
pub open spec fn img_comment_pattern() -> Seq<char> {
    "/\\* HTML: (<img[^>]*/?>) \\*/"@
}

/// Footnote content as Typst content: text that holds Typst markup (`#`) is
/// kept; plain text gets its backslashes and square brackets escaped.
pub open spec fn footnote_markup(content: Seq<char>) -> Seq<char> {
    if contains(content, "#"@) {
        content
    } else {
        replace(replace(replace(content, "\\"@, "\\\\"@), "["@, "\\["@), "]"@, "\\]"@)
    }
}

/// Group `i` of a match, if it took part.
pub open spec fn group(c: Seq<Option<Seq<char>>>, i: int) -> Option<Seq<char>> {
    if 0 <= i < c.len() {
        c[i]
    } else {
        None
    }
}

/// The values of a map of strings.
pub open spec fn defs_view(m: Map<Seq<char>, String>) -> Map<Seq<char>, Seq<char>> {
    m.map_values(|v: String| v@)
}

/// The definitions that the matches of the definition pattern give: label
/// to content; a later definition of a label replaces an earlier one.
pub open spec fn text_defs(caps: Seq<Seq<Option<Seq<char>>>>) -> Map<Seq<char>, Seq<char>>
    decreases caps.len(),
{
    if caps.len() == 0 {
        Map::empty()
    } else {
        let m = text_defs(caps.drop_last());
        let c = caps.last();
        match (group(c, 1), group(c, 2)) {
            (Some(label), Some(content)) => m.insert(label, footnote_markup(trim(content))),
            _ => m,
        }
    }
}

/// Convert footnote content to Typst content.
///
/// Markdown that has already become Typst markup must remain executable so
/// quotes, images, emphasis, and figures continue to work. Plain text is
/// escaped to prevent a literal square bracket from terminating the
/// surrounding Typst content block.
pub fn footnote_content(content: String) -> (r: String)
    ensures
        r@ == footnote_markup(content@),
{
    let c = str_chars(content.as_str());
    if contains_chars(&c, &str_chars("#")) {
        content
    } else {
        proof {
            reveal_strlit("\\");
            reveal_strlit("[");
            reveal_strlit("]");
        }
        let a = replace_str(&c, "\\", "\\\\");
        let b = replace_str(&a, "[", "\\[");
        let d = replace_str(&b, "]", "\\]");
        chars_to_string(&d)
    }
}

/// Compiles the footnote definition pattern.
pub fn footnote_definition_regex() -> (r: Option<Pattern>)
    ensures
        r is Some <==> regex_compiles(definition_pattern()),
        r matches Some(p) ==> p@ == definition_pattern(),
{
    Pattern::compile("(?m)^[ \\t]{0,3}\\[\\^([^\\s\\]]+)\\]:[ \\t]*(.*(?:\\n(?:[ \\t]{2,}|\\t).*)*)")
}

/// Compiles the footnote reference pattern.
pub fn footnote_reference_regex() -> (r: Option<Pattern>)
    ensures
        r is Some <==> regex_compiles(reference_pattern()),
        r matches Some(p) ==> p@ == reference_pattern(),
{
    Pattern::compile("\\[\\^([^\\s\\]]+)\\]")
}

/// The text that is left between the matches: the pieces joined.
pub fn join_pieces(pieces: &Vec<String>) -> (r: String)
    ensures
        r@ == concat(strings_view(pieces@)),
{
    let v = concat_strings(pieces);
    chars_to_string(&v)
}

/// The footnote definitions that the matches of the definition pattern give,
/// from the capture groups of each match (label in group 1, content in
/// group 2).
pub fn definitions_from_captures(caps: &Vec<Vec<Option<String>>>) -> (r: StringHashMap<String>)
    ensures
        defs_view(r@) == text_defs(captures_view(caps@)),
{
    let ghost cv = captures_view(caps@);
    let mut definitions: StringHashMap<String> = StringHashMap::new();
    let mut k: usize = 0;
    assert(defs_view(definitions@) =~= Map::<Seq<char>, Seq<char>>::empty());
    while k < caps.len()
        invariant
            k <= caps.len(),
            cv == captures_view(caps@),
            defs_view(definitions@) == text_defs(cv.take(k as int)),
        decreases caps.len() - k,
    {
        assert(cv.take(k + 1).drop_last() =~= cv.take(k as int));
        let c = &caps[k];
        assert(cv[k as int] == crate::pattern::groups_view(c@));
        if c.len() > 2 {
            match (&c[1], &c[2]) {
                (Some(label), Some(content)) => {
                    let t = trim_chars(&str_chars(content.as_str()));
                    let value = footnote_content(chars_to_string(&t));
                    let ghost before = definitions@;
                    definitions.insert(label.clone(), value);
                    assert(defs_view(definitions@) =~= defs_view(before).insert(label@, value@));
                },
                _ => {},
            }
        }
        k = k + 1;
    }
    assert(cv.take(caps.len() as int) =~= cv);
    definitions
}

/// Take the footnote definitions out of a text: the text without them, and
/// each label with its content.
pub fn extract_footnote_definitions(text: &str, definition_re: &Pattern) -> (r: (
    String,
    StringHashMap<String>,
))
    ensures
        r.0@ == concat(regex_split(definition_re@, text@)),
        defs_view(r.1@) == text_defs(regex_captures(definition_re@, text@)),
{
    let pieces = definition_re.split(text);
    let caps = definition_re.captures(text);
    (join_pieces(&pieces), definitions_from_captures(&caps))
}

/// What a text event becomes once its footnote definitions are taken out.
pub open spec fn clean_step(e: EventView, def_pattern: Seq<char>) -> Seq<EventView> {
    match e {
        EventView::Text(t) => seq![EventView::Text(concat(regex_split(def_pattern, t)))],
        _ => seq![e],
    }
}

/// All the footnote definitions of a stream's text events; a later
/// definition of a label replaces an earlier one.
pub open spec fn stream_defs(s: Seq<EventView>, def_pattern: Seq<char>) -> Map<
    Seq<char>,
    Seq<char>,
>
    decreases s.len(),
{
    if s.len() == 0 {
        Map::empty()
    } else {
        let m = stream_defs(s.drop_last(), def_pattern);
        match s.last() {
            EventView::Text(t) => m.union_prefer_right(
                text_defs(regex_captures(def_pattern, t)),
            ),
            _ => m,
        }
    }
}

/// What a footnote reference becomes: a `#footnote` call with the content of
/// its definition, or the reference unchanged when its label is not defined.
pub open spec fn reference_replacement(
    c: Seq<Option<Seq<char>>>,
    defs: Map<Seq<char>, Seq<char>>,
) -> Seq<char> {
    match group(c, 1) {
        Some(label) => if defs.contains_key(label) {
            "#footnote["@ + defs[label] + "]"@
        } else {
            or_empty(group(c, 0))
        },
        None => or_empty(group(c, 0)),
    }
}

/// The pieces between the reference matches, each match replaced.
pub open spec fn references_replaced(
    pieces: Seq<Seq<char>>,
    caps: Seq<Seq<Option<Seq<char>>>>,
    defs: Map<Seq<char>, Seq<char>>,
) -> Seq<char> {
    interleave(pieces, caps.map_values(|c: Seq<Option<Seq<char>>>| reference_replacement(c, defs)))
}

/// A text with its footnote references replaced.
pub open spec fn replace_references(
    t: Seq<char>,
    ref_pattern: Seq<char>,
    defs: Map<Seq<char>, Seq<char>>,
) -> Seq<char> {
    references_replaced(regex_split(ref_pattern, t), regex_captures(ref_pattern, t), defs)
}

/// What a text event becomes once its references are replaced.
pub open spec fn reference_step(
    e: EventView,
    ref_pattern: Seq<char>,
    defs: Map<Seq<char>, Seq<char>>,
) -> Seq<EventView> {
    match e {
        EventView::Text(t) => seq![EventView::Text(replace_references(t, ref_pattern, defs))],
        _ => seq![e],
    }
}

/// A stream whose footnote definitions are taken out of its text and whose
/// footnote references become Typst footnotes.
pub open spec fn footnote_events(
    s: Seq<EventView>,
    def_pattern: Seq<char>,
    ref_pattern: Seq<char>,
) -> Seq<EventView> {
    let cleaned = concat_map(s, |e: EventView| clean_step(e, def_pattern));
    let defs = stream_defs(s, def_pattern);
    concat_map(cleaned, |e: EventView| reference_step(e, ref_pattern, defs))
}

fn reference_replacement_exec(c: &Vec<Option<String>>, defs: &StringHashMap<String>) -> (r: Vec<
    char,
>)
    ensures
        r@ == reference_replacement(crate::pattern::groups_view(c@), defs_view(defs@)),
{
    let whole: Vec<char> = if c.len() > 0 {
        match &c[0] {
            Some(w) => str_chars(w.as_str()),
            None => Vec::new(),
        }
    } else {
        Vec::new()
    };
    assert(whole@ == or_empty(group(crate::pattern::groups_view(c@), 0)));
    if c.len() > 1 {
        match &c[1] {
            Some(label) => {
                match defs.get(label.as_str()) {
                    Some(content) => {
                        let mut r = str_chars("#footnote[");
                        crate::text::push_str(&mut r, content.as_str());
                        crate::text::push_str(&mut r, "]");
                        return r;
                    },
                    None => {
                        return whole;
                    },
                }
            },
            None => {},
        }
    }
    whole
}

/// The text between the reference matches (`pieces`), with each match
/// (`caps`, its capture groups) replaced by a `#footnote` call holding the
/// content of its definition, or kept where its label is not defined.
pub fn replace_references_with(
    pieces: &Vec<String>,
    caps: &Vec<Vec<Option<String>>>,
    defs: &StringHashMap<String>,
) -> (r: String)
    ensures
        r@ == references_replaced(strings_view(pieces@), captures_view(caps@), defs_view(defs@)),
{
    let ghost cv = captures_view(caps@);
    let ghost f = |c: Seq<Option<Seq<char>>>| reference_replacement(c, defs_view(defs@));
    let mut reps: Vec<Vec<char>> = Vec::new();
    let mut k: usize = 0;
    while k < caps.len()
        invariant
            k <= caps.len(),
            cv == captures_view(caps@),
            f == (|c: Seq<Option<Seq<char>>>| reference_replacement(c, defs_view(defs@))),
            reps.len() == k,
            forall|j: int| 0 <= j < k ==> #[trigger] reps@[j]@ == f(cv[j]),
        decreases caps.len() - k,
    {
        let r = reference_replacement_exec(&caps[k], defs);
        assert(cv[k as int] == crate::pattern::groups_view(caps@[k as int]@));
        assert(f(cv[k as int]) == r@);
        reps.push(r);
        k = k + 1;
    }
    assert(reps@.map_values(|v: Vec<char>| v@) =~= cv.map_values(f));
    let out = interleave_strings(pieces, &reps);
    chars_to_string(&out)
}

/// Replace footnote references of a text with `#footnote` calls.
fn replace_references_exec(
    t: &str,
    reference_re: &Pattern,
    defs: &StringHashMap<String>,
) -> (r: String)
    ensures
        r@ == replace_references(t@, reference_re@, defs_view(defs@)),
{
    let pieces = reference_re.split(t);
    let caps = reference_re.captures(t);
    replace_references_with(&pieces, &caps, defs)
}

/// Convert footnote definitions and references, written as plain text in
/// the Typst text events, into Typst footnotes, with compiled patterns.
pub fn process_events_with(
    events: Vec<Event>,
    definition_re: &Pattern,
    reference_re: &Pattern,
) -> (out: Vec<Event>)
    ensures
        events_view(out@) == footnote_events(events_view(events@), definition_re@, reference_re@),
{
    let ghost input = events_view(events@);
    let ghost dp = definition_re@;
    let ghost f = |e: EventView| clean_step(e, dp);
    let mut definitions: StringHashMap<String> = StringHashMap::new();
    let mut cleaned: Vec<Event> = Vec::new();
    let mut i: usize = 0;
    assert(defs_view(definitions@) =~= Map::<Seq<char>, Seq<char>>::empty());
    // Collect definitions first so references can appear before their source.
    while i < events.len()
        invariant
            i <= events.len(),
            input == events_view(events@),
            dp == definition_re@,
            f == (|e: EventView| clean_step(e, dp)),
            events_view(cleaned@) == concat_map(input.take(i as int), f),
            defs_view(definitions@) == stream_defs(input.take(i as int), dp),
        decreases events.len() - i,
    {
        proof {
            lemma_concat_map_step(input, f, i as int);
            assert(input[i as int] == events@[i as int]@);
            assert(input.take(i + 1).drop_last() =~= input.take(i as int));
        }
        match &events[i] {
            Event::Text(t) => {
                let (text, found) = extract_footnote_definitions(t.as_str(), definition_re);
                let ghost before = definitions@;
                definitions.union_prefer_right(found);
                assert(defs_view(definitions@) =~= defs_view(before).union_prefer_right(
                    text_defs(regex_captures(dp, t@)),
                ));
                push_event(&mut cleaned, Event::Text(text));
            },
            e => {
                push_event(&mut cleaned, e.copy());
            },
        }
        i = i + 1;
    }
    assert(input.take(input.len() as int) =~= input);
    let ghost mid = events_view(cleaned@);
    let ghost defs = defs_view(definitions@);
    let ghost rp = reference_re@;
    let ghost g = |e: EventView| reference_step(e, rp, defs);
    let mut out: Vec<Event> = Vec::new();
    let mut j: usize = 0;
    while j < cleaned.len()
        invariant
            j <= cleaned.len(),
            mid == events_view(cleaned@),
            defs == defs_view(definitions@),
            rp == reference_re@,
            g == (|e: EventView| reference_step(e, rp, defs)),
            events_view(out@) == concat_map(mid.take(j as int), g),
        decreases cleaned.len() - j,
    {
        proof {
            lemma_concat_map_step(mid, g, j as int);
            assert(mid[j as int] == cleaned@[j as int]@);
        }
        match &cleaned[j] {
            Event::Text(t) => {
                let updated = replace_references_exec(t.as_str(), reference_re, &definitions);
                push_event(&mut out, Event::Text(updated));
            },
            e => {
                push_event(&mut out, e.copy());
            },
        }
        j = j + 1;
    }
    assert(mid.take(mid.len() as int) =~= mid);
    out
}

/// Convert Markdown footnote definitions and references into Typst footnotes.
///
/// mdBook/pullup currently exposes these as ordinary text. A definition may
/// span indented continuation lines, and references are replaced only when
/// their definition exists. Formatting produced by the Markdown converter
/// (quotes, images, emphasis, and so on) is retained as Typst content.
/// Where the `regex` crate refused either pattern, the events are returned
/// unchanged.
pub fn process_events(events: Vec<Event>) -> (out: Vec<Event>)
    ensures
        regex_compiles(definition_pattern()) && regex_compiles(reference_pattern()) ==> events_view(
            out@,
        ) == footnote_events(events_view(events@), definition_pattern(), reference_pattern()),
        !(regex_compiles(definition_pattern()) && regex_compiles(reference_pattern()))
            ==> events_view(out@) == events_view(events@),
{
    match (footnote_definition_regex(), footnote_reference_regex()) {
        (Some(d), Some(r)) => process_events_with(events, &d, &r),
        _ => events,
    }
}

/// What an `<img>` comment becomes: the image call, or the comment unchanged
/// when the tag has no `src`.
pub open spec fn img_comment_replacement(
    c: Seq<Option<Seq<char>>>,
    css: Map<Seq<char>, CssStyles>,
) -> Seq<char> {
    let html = or_empty(group(c, 1));
    match img_src(html) {
        Some(src) => img_markup(html, src, css),
        None => or_empty(group(c, 0)),
    }
}

/// The pieces between the `<img>` comment matches, each match replaced.
pub open spec fn images_from_comments(
    pieces: Seq<Seq<char>>,
    caps: Seq<Seq<Option<Seq<char>>>>,
    css: Map<Seq<char>, CssStyles>,
) -> Seq<char> {
    interleave(pieces, caps.map_values(|c: Seq<Option<Seq<char>>>| img_comment_replacement(c, css)))
}

/// Markup whose `<img>` comments are replaced by image calls.
pub open spec fn html_comments_to_images(
    markup: Seq<char>,
    img_pattern: Seq<char>,
    css: Map<Seq<char>, CssStyles>,
) -> Seq<char> {
    images_from_comments(regex_split(img_pattern, markup), regex_captures(img_pattern, markup), css)
}

fn img_comment_replacement_exec(c: &Vec<Option<String>>, css_styles: &CssClassStyles) -> (r: Vec<
    char,
>)
    ensures
        r@ == img_comment_replacement(crate::pattern::groups_view(c@), css_styles@),
{
    let html = if c.len() > 1 {
        match &c[1] {
            Some(h) => h.clone(),
            None => String::new(),
        }
    } else {
        String::new()
    };
    assert(html@ == or_empty(group(crate::pattern::groups_view(c@), 1)));
    match extract_img_src(html.as_str()) {
        Some(src) => str_chars(img_markup_string(html.as_str(), src.as_str(), css_styles).as_str()),
        None => {
            if c.len() > 0 {
                match &c[0] {
                    Some(w) => str_chars(w.as_str()),
                    None => Vec::new(),
                }
            } else {
                Vec::new()
            }
        },
    }
}

/// The markup between the `<img>` comment matches (`pieces`), with each
/// match (`caps`, its capture groups: the tag in group 1) replaced by its
/// image call, or kept where the tag has no `src`.
pub fn comments_to_images(
    pieces: &Vec<String>,
    caps: &Vec<Vec<Option<String>>>,
    css_styles: &CssClassStyles,
) -> (r: String)
    ensures
        r@ == images_from_comments(strings_view(pieces@), captures_view(caps@), css_styles@),
{
    let ghost cv = captures_view(caps@);
    let ghost f = |c: Seq<Option<Seq<char>>>| img_comment_replacement(c, css_styles@);
    let mut reps: Vec<Vec<char>> = Vec::new();
    let mut k: usize = 0;
    while k < caps.len()
        invariant
            k <= caps.len(),
            cv == captures_view(caps@),
            f == (|c: Seq<Option<Seq<char>>>| img_comment_replacement(c, css_styles@)),
            reps.len() == k,
            forall|j: int| 0 <= j < k ==> #[trigger] reps@[j]@ == f(cv[j]),
        decreases caps.len() - k,
    {
        let r = img_comment_replacement_exec(&caps[k], css_styles);
        assert(cv[k as int] == crate::pattern::groups_view(caps@[k as int]@));
        assert(f(cv[k as int]) == r@);
        reps.push(r);
        k = k + 1;
    }
    assert(reps@.map_values(|v: Vec<char>| v@) =~= cv.map_values(f));
    let out = interleave_strings(pieces, &reps);
    chars_to_string(&out)
}

/// Replace the `<img>` comments of Typst markup with image calls, with a
/// compiled pattern.
pub fn process_html_comments_with(
    markup: &str,
    img_re: &Pattern,
    css_styles: &CssClassStyles,
) -> (r: String)
    ensures
        r@ == html_comments_to_images(markup@, img_re@, css_styles@),
{
    let pieces = img_re.split(markup);
    let caps = img_re.captures(markup);
    comments_to_images(&pieces, &caps, css_styles)
}

/// Post-process Typst markup strings to replace HTML comments with proper
/// Typst code. This handles HTML that was embedded inside table cells or
/// other constructs where the event-based conversion couldn't intercept it.
/// Where the `regex` crate refused the pattern, the markup is returned
/// unchanged.
pub fn process_html_comments(markup: &str, css_styles: &CssClassStyles) -> (r: String)
    ensures
        regex_compiles(img_comment_pattern()) ==> r@ == html_comments_to_images(
            markup@,
            img_comment_pattern(),
            css_styles@,
        ),
        !regex_compiles(img_comment_pattern()) ==> r@ == markup@,
{
    match Pattern::compile("/\\* HTML: (<img[^>]*/?>) \\*/") {
        Some(re) => process_html_comments_with(markup, &re, css_styles),
        None => String::from_str(markup),
    }
}

} // verus!
