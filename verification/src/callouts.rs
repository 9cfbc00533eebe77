//! Blockquotes that start with "Note:", "Warning:" and the like, as callouts.

use vstd::prelude::*;

use crate::event::{events_view, Event, EventView};
use crate::stream::{push_event, push_events};
use crate::text::{
    chars_to_string, push_all, push_str, slice, starts_with, starts_with_chars, str_chars,
    trim_start, trim_start_chars,
};

verus! {

/// The number of callout kinds.
pub open spec fn callout_count() -> int {
    6
}

/// The prefix that marks callout kind `k`.
pub open spec fn callout_prefix(k: int) -> Seq<char> {
    if k == 0 {
        "Note:"@
    } else if k == 1 {
        "Warning:"@
    } else if k == 2 {
        "Tip:"@
    } else if k == 3 {
        "Important:"@
    } else if k == 4 {
        "Caution:"@
    } else {
        "Info:"@
    }
}

/// The name of callout kind `k`.
pub open spec fn callout_kind(k: int) -> Seq<char> {
    if k == 0 {
        "note"@
    } else if k == 1 {
        "warning"@
    } else if k == 2 {
        "tip"@
    } else if k == 3 {
        "important"@
    } else if k == 4 {
        "caution"@
    } else {
        "info"@
    }
}

/// The color of callout kind `k`.
pub open spec fn callout_color(k: int) -> Seq<char> {
    if k == 0 {
        "rgb(\"#1976D2\")"@
    } else if k == 1 {
        "rgb(\"#F57C00\")"@
    } else if k == 2 {
        "rgb(\"#388E3C\")"@
    } else if k == 3 {
        "rgb(\"#D32F2F\")"@
    } else if k == 4 {
        "rgb(\"#F57C00\")"@
    } else {
        "rgb(\"#1976D2\")"@
    }
}

/// The first callout kind, from `k` on, whose prefix starts `t`.
pub open spec fn callout_from(t: Seq<char>, k: int) -> Option<int>
    decreases callout_count() - k,
{
    if k < 0 || k >= callout_count() {
        None
    } else if starts_with(t, callout_prefix(k)) {
        Some(k)
    } else {
        callout_from(t, k + 1)
    }
}

/// The callout kind whose prefix starts `text`, leading whitespace aside.
pub open spec fn detect_callout(text: Seq<char>) -> Option<int> {
    callout_from(trim_start(text), 0)
}

/// The upper case of an ASCII lower-case letter; other characters are kept.
pub open spec fn ascii_upper(c: char) -> char {
    if 'a' <= c && c <= 'z' {
        ((c as u8) - 32) as char
    } else {
        c
    }
}

/// `s` with its first character in upper case.
pub open spec fn capitalize(s: Seq<char>) -> Seq<char> {
    if s.len() == 0 {
        s
    } else {
        seq![ascii_upper(s[0])] + s.skip(1)
    }
}

/// The opening of the styled block of callout kind `k`.
pub open spec fn callout_header(k: int) -> Seq<char> {
    "#block(width: 100%, stroke: (left: 3pt + "@ + callout_color(k) + "), inset: 1em, fill: "@
        + callout_color(k) + ".lighten(90%))[#text(weight: \"bold\", fill: "@ + callout_color(k)
        + ")["@ + capitalize(callout_kind(k)) + "] "@
}

/// The content of the first text event of `buf`.
pub open spec fn first_text(buf: Seq<EventView>) -> Option<Seq<char>>
    decreases buf.len(),
{
    if buf.len() == 0 {
        None
    } else if buf[0] is Text {
        Some(buf[0]->Text_0)
    } else {
        first_text(buf.drop_first())
    }
}

/// The first text of a callout, without its prefix and the whitespace around it.
pub open spec fn strip_prefix_text(t: Seq<char>, prefix: Seq<char>) -> Seq<EventView> {
    let c = trim_start(t);
    if starts_with(c, prefix) {
        let s = trim_start(c.skip(prefix.len() as int));
        if s.len() > 0 {
            seq![EventView::Text(s)]
        } else {
            Seq::empty()
        }
    } else {
        seq![EventView::Text(t)]
    }
}

/// The content of a callout: the quote's events without its start and end,
/// the first text without the prefix.
pub open spec fn callout_body(buf: Seq<EventView>, prefix: Seq<char>, first: bool) -> Seq<EventView>
    decreases buf.len(),
{
    if buf.len() == 0 {
        Seq::empty()
    } else {
        let e = buf[0];
        let rest = buf.drop_first();
        if e is QuoteStart || e is QuoteEnd {
            callout_body(rest, prefix, first)
        } else if first && e is Text {
            strip_prefix_text(e->Text_0, prefix) + callout_body(rest, prefix, false)
        } else {
            seq![e] + callout_body(rest, prefix, first)
        }
    }
}

/// What a whole blockquote becomes: a styled callout when its first text
/// starts with a callout prefix, else the quote unchanged.
pub open spec fn quote_output(buf: Seq<EventView>) -> Seq<EventView> {
    match first_text(buf) {
        Some(t) => match detect_callout(t) {
            Some(k) => seq![EventView::Raw(callout_header(k))] + callout_body(
                buf,
                callout_prefix(k),
                true,
            ) + seq![EventView::Raw("]\n"@)],
            None => buf,
        },
        None => buf,
    }
}

/// The rest of a stream with callouts, from the given state: whether a
/// blockquote is open, and its events so far.
pub open spec fn callout_run(in_quote: bool, buf: Seq<EventView>, s: Seq<EventView>) -> Seq<
    EventView,
>
    decreases s.len(),
{
    if s.len() == 0 {
        Seq::empty()
    } else {
        let e = s[0];
        let rest = s.drop_first();
        if e is QuoteStart {
            callout_run(true, seq![e], rest)
        } else if e is QuoteEnd && in_quote {
            quote_output(buf.push(e)) + callout_run(false, Seq::empty(), rest)
        } else if in_quote {
            callout_run(true, buf.push(e), rest)
        } else {
            seq![e] + callout_run(in_quote, buf, rest)
        }
    }
}

/// A stream whose blockquotes that start with a callout prefix are styled
/// callouts; a blockquote still open at the end of the stream is dropped.
pub open spec fn convert_callouts(s: Seq<EventView>) -> Seq<EventView> {
    callout_run(false, Seq::empty(), s)
}

/// Detect callout type from text content: the prefix, the kind and the color.
pub fn detect_callout_type(text: &str) -> (r: Option<(&'static str, &'static str, &'static str)>)
    ensures
        match r {
            Some((p, t, c)) => detect_callout(text@) matches Some(k) && p@ == callout_prefix(k)
                && t@ == callout_kind(k) && c@ == callout_color(k),
            None => detect_callout(text@) is None,
        },
{
    let t = str_chars(text);
    let t = trim_start_chars(&t);
    proof {
        reveal_with_fuel(callout_from, 7);
    }
    if starts_with_chars(&t, &str_chars("Note:")) {
        return Some(("Note:", "note", "rgb(\"#1976D2\")"));
    }
    if starts_with_chars(&t, &str_chars("Warning:")) {
        return Some(("Warning:", "warning", "rgb(\"#F57C00\")"));
    }
    if starts_with_chars(&t, &str_chars("Tip:")) {
        return Some(("Tip:", "tip", "rgb(\"#388E3C\")"));
    }
    if starts_with_chars(&t, &str_chars("Important:")) {
        return Some(("Important:", "important", "rgb(\"#D32F2F\")"));
    }
    if starts_with_chars(&t, &str_chars("Caution:")) {
        return Some(("Caution:", "caution", "rgb(\"#F57C00\")"));
    }
    if starts_with_chars(&t, &str_chars("Info:")) {
        return Some(("Info:", "info", "rgb(\"#1976D2\")"));
    }
    None
}

fn ascii_upper_exec(c: char) -> (r: char)
    ensures
        r == ascii_upper(c),
{
    if 'a' <= c && c <= 'z' {
        ((c as u8) - 32) as char
    } else {
        c
    }
}

fn capitalize_exec(s: &str) -> (r: Vec<char>)
    ensures
        r@ == capitalize(s@),
{
    let v = str_chars(s);
    if v.len() == 0 {
        return v;
    }
    let mut r: Vec<char> = Vec::new();
    r.push(ascii_upper_exec(v[0]));
    let tail = slice(&v, 1, v.len());
    push_all(&mut r, &tail);
    assert(r@ =~= capitalize(s@));
    r
}

/// Convert blockquotes that start with "Note:", "Warning:", etc. to styled callouts.
///
/// mdBook uses blockquotes with special prefixes for notes and warnings:
/// - `> Note: ...` -> informational note
/// - `> Warning: ...` -> warning callout
pub struct ConvertCallouts {
    events: Vec<Event>,
}

impl View for ConvertCallouts {
    type V = Seq<EventView>;

    closed spec fn view(&self) -> Seq<EventView> {
        events_view(self.events@)
    }
}

fn first_text_exec(buf: &Vec<Event>) -> (r: Option<String>)
    ensures
        match r {
            Some(t) => first_text(events_view(buf@)) == Some(t@),
            None => first_text(events_view(buf@)) is None,
        },
{
    let ghost b = events_view(buf@);
    let mut i: usize = 0;
    assert(b.skip(0) =~= b);
    while i < buf.len()
        invariant
            i <= buf.len(),
            b == events_view(buf@),
            first_text(b) == first_text(b.skip(i as int)),
        decreases buf.len() - i,
    {
        assert(b.skip(i as int)[0] == buf@[i as int]@);
        assert(b.skip(i as int).drop_first() =~= b.skip(i + 1));
        match &buf[i] {
            Event::Text(t) => {
                return Some(t.clone());
            },
            _ => {},
        }
        i = i + 1;
    }
    None
}

/// Appends the body of a callout whose prefix is `prefix`.
fn push_callout_body(out: &mut Vec<Event>, buf: &Vec<Event>, prefix: &str)
    ensures
        events_view(final(out)@) == events_view(old(out)@) + callout_body(
            events_view(buf@),
            prefix@,
            true,
        ),
{
    let ghost b = events_view(buf@);
    let ghost start = events_view(out@);
    let mut first = true;
    let mut i: usize = 0;
    assert(b.skip(0) =~= b);
    while i < buf.len()
        invariant
            i <= buf.len(),
            b == events_view(buf@),
            start + callout_body(b, prefix@, true) == events_view(out@) + callout_body(
                b.skip(i as int),
                prefix@,
                first,
            ),
        decreases buf.len() - i,
    {
        assert(b.skip(i as int)[0] == buf@[i as int]@);
        assert(b.skip(i as int).drop_first() =~= b.skip(i + 1));
        let ghost before = events_view(out@);
        let ghost was_first = first;
        match &buf[i] {
            Event::QuoteStart(_) => {},
            Event::QuoteEnd(_) => {},
            Event::Text(t) => {
                if first {
                    first = false;
                    let c = str_chars(t.as_str());
                    let c = trim_start_chars(&c);
                    let p = str_chars(prefix);
                    if starts_with_chars(&c, &p) {
                        let after = slice(&c, p.len(), c.len());
                        assert(after@ =~= c@.skip(p@.len() as int));
                        let stripped = trim_start_chars(&after);
                        if stripped.len() > 0 {
                            push_event(out, Event::Text(chars_to_string(&stripped)));
                        }
                    } else {
                        push_event(out, Event::Text(t.clone()));
                    }
                } else {
                    push_event(out, Event::Text(t.clone()));
                }
            },
            e => {
                push_event(out, e.copy());
            },
        }
        assert(events_view(out@) + callout_body(b.skip(i + 1), prefix@, first) =~= before
            + callout_body(b.skip(i as int), prefix@, was_first));
        i = i + 1;
    }
    assert(b.skip(i as int) =~= Seq::<EventView>::empty());
    assert(events_view(out@) =~= events_view(out@) + Seq::<EventView>::empty());
}

/// Appends what a whole blockquote becomes.
fn push_quote_output(out: &mut Vec<Event>, buf: &Vec<Event>)
    ensures
        events_view(final(out)@) == events_view(old(out)@) + quote_output(events_view(buf@)),
{
    let info = match first_text_exec(buf) {
        Some(t) => detect_callout_type(t.as_str()),
        None => None,
    };
    match info {
        Some((prefix, callout_type, color)) => {
            let mut header = str_chars("#block(width: 100%, stroke: (left: 3pt + ");
            push_str(&mut header, color);
            push_str(&mut header, "), inset: 1em, fill: ");
            push_str(&mut header, color);
            push_str(&mut header, ".lighten(90%))[#text(weight: \"bold\", fill: ");
            push_str(&mut header, color);
            push_str(&mut header, ")[");
            let title = capitalize_exec(callout_type);
            push_all(&mut header, &title);
            push_str(&mut header, "] ");
            let ghost before = events_view(out@);
            push_event(out, Event::Raw(chars_to_string(&header)));
            push_callout_body(out, buf, prefix);
            push_event(out, Event::Raw(String::from_str("]\n")));
            assert(events_view(out@) =~= before + quote_output(events_view(buf@)));
        },
        None => {
            push_events(out, buf);
        },
    }
}

impl ConvertCallouts {
    pub fn new(events: Vec<Event>) -> (r: Self)
        ensures
            r@ == events_view(events@),
    {
        ConvertCallouts { events }
    }

    /// All the events of the converted stream.
    pub fn collect(self) -> (out: Vec<Event>)
        ensures
            events_view(out@) == convert_callouts(self@),
    {
        let ghost input = events_view(self.events@);
        let n = self.events.len();
        let mut out: Vec<Event> = Vec::new();
        let mut in_quote = false;
        let mut buf: Vec<Event> = Vec::new();
        let mut i: usize = 0;
        assert(input.skip(0) =~= input);
        assert(events_view(out@) =~= Seq::<EventView>::empty());
        assert(events_view(buf@) =~= Seq::<EventView>::empty());
        while i < n
            invariant
                i <= n == self.events.len(),
                input == events_view(self.events@),
                convert_callouts(input) == events_view(out@) + callout_run(
                    in_quote,
                    events_view(buf@),
                    input.skip(i as int),
                ),
            decreases n - i,
        {
            assert(input.skip(i as int)[0] == self.events@[i as int]@);
            assert(input.skip(i as int).drop_first() =~= input.skip(i + 1));
            let ghost before = events_view(out@);
            let ghost old_buf = events_view(buf@);
            let ghost was_in_quote = in_quote;
            match &self.events[i] {
                Event::QuoteStart(q) => {
                    in_quote = true;
                    buf = Vec::new();
                    push_event(&mut buf, Event::QuoteStart(q.copy()));
                    assert(events_view(buf@) =~= seq![input[i as int]]);
                },
                Event::QuoteEnd(q) => {
                    if in_quote {
                        in_quote = false;
                        push_event(&mut buf, Event::QuoteEnd(q.copy()));
                        push_quote_output(&mut out, &buf);
                        buf = Vec::new();
                        assert(events_view(buf@) =~= Seq::<EventView>::empty());
                    } else {
                        push_event(&mut out, Event::QuoteEnd(q.copy()));
                    }
                },
                e => {
                    if in_quote {
                        push_event(&mut buf, e.copy());
                    } else {
                        push_event(&mut out, e.copy());
                    }
                },
            }
            assert(events_view(out@) + callout_run(in_quote, events_view(buf@), input.skip(i + 1))
                =~= before + callout_run(was_in_quote, old_buf, input.skip(i as int)));
            i = i + 1;
        }
        assert(input.skip(i as int) =~= Seq::<EventView>::empty());
        assert(events_view(out@) =~= events_view(out@) + Seq::<EventView>::empty());
        out
    }
}

} // verus!
