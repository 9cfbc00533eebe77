//! mdBook code block fences: `rust,ignore,filename="src/main.rs"`.

use vstd::prelude::*;

use crate::event::{events_view, opt_view, CodeDisplay, Event, EventView};
use crate::stream::{concat_map, lemma_concat_map_step, lemma_events_view_take, push_event};
use crate::text::{
    before_char, before_char_chars, chars_to_string, push_all, push_str, slice, starts_with,
    starts_with_chars, str_chars, trim, trim_char, trim_char_chars, trim_chars,
};

verus! {

/// The pieces of `s` split at every `c` (`str::split`).
pub open spec fn split_char(s: Seq<char>, c: char) -> Seq<Seq<char>>
    decreases s.len(),
{
    let b = before_char(s, c);
    if b.len() >= s.len() {
        seq![s]
    } else {
        seq![b] + split_char(s.skip(b.len() + 1int), c)
    }
}

/// `Some(s)` unless `s` is empty.
pub open spec fn non_empty(s: Seq<char>) -> Option<Seq<char>> {
    if s.len() == 0 {
        None
    } else {
        Some(s)
    }
}

/// The value of a `filename=` attribute: trimmed, unquoted.
pub open spec fn filename_attr(part: Seq<char>) -> Option<Seq<char>> {
    let p = trim(part);
    if starts_with(p, "filename="@) {
        Some(trim_char(trim_char(p.skip(9), '"'), '\''))
    } else {
        None
    }
}

/// The value of the last `filename=` attribute among `parts`.
pub open spec fn last_filename(parts: Seq<Seq<char>>) -> Option<Seq<char>>
    decreases parts.len(),
{
    if parts.len() == 0 {
        None
    } else {
        match filename_attr(parts.last()) {
            Some(f) => Some(f),
            None => last_filename(parts.drop_last()),
        }
    }
}

/// The language and the file name in a code block info string: the language
/// is the first comma-separated value, trimmed; the file name is the value of
/// the last `filename=` attribute.
pub open spec fn code_info(info: Seq<char>) -> (Option<Seq<char>>, Option<Seq<char>>) {
    if info.len() == 0 {
        (None, None)
    } else {
        let parts = split_char(info, ',');
        (non_empty(trim(parts[0])), last_filename(parts.drop_first()))
    }
}

/// The views of vectors of characters.
pub open spec fn char_vecs_view(v: Seq<Vec<char>>) -> Seq<Seq<char>> {
    v.map_values(|x: Vec<char>| x@)
}

proof fn lemma_before_char_len(s: Seq<char>, c: char)
    ensures
        before_char(s, c).len() <= s.len(),
        before_char(s, c).len() < s.len() ==> s[before_char(s, c).len() as int] == c,
    decreases s.len(),
{
    if s.len() > 0 && s[0] != c {
        lemma_before_char_len(s.drop_first(), c);
    }
}

/// `s.split(c)`.
pub fn split_char_chars(s: &Vec<char>, c: char) -> (r: Vec<Vec<char>>)
    ensures
        char_vecs_view(r@) == split_char(s@, c),
{
    let mut r: Vec<Vec<char>> = Vec::new();
    let mut pos: usize = 0;
    assert(s@.skip(0) =~= s@);
    loop
        invariant
            pos <= s.len(),
            split_char(s@, c) == char_vecs_view(r@) + split_char(s@.skip(pos as int), c),
        decreases s.len() - pos,
    {
        let rest = slice(s, pos, s.len());
        assert(rest@ =~= s@.skip(pos as int));
        let b = before_char_chars(&rest, c);
        proof {
            lemma_before_char_len(rest@, c);
        }
        if b.len() >= rest.len() {
            let ghost old_r = r@;
            r.push(rest);
            assert(char_vecs_view(r@) =~= char_vecs_view(old_r) + seq![s@.skip(pos as int)]);
            return r;
        }
        let ghost old_r = r@;
        let blen = b.len();
        r.push(b);
        assert(s@.skip(pos as int).skip(blen + 1) =~= s@.skip(pos + blen + 1));
        assert(char_vecs_view(r@) =~= char_vecs_view(old_r) + seq![before_char(rest@, c)]);
        pos = pos + blen + 1;
    }
}

fn filename_attr_chars(part: &Vec<char>) -> (r: Option<Vec<char>>)
    ensures
        match r {
            Some(v) => filename_attr(part@) == Some(v@),
            None => filename_attr(part@) is None,
        },
{
    let p = trim_chars(part);
    let key = str_chars("filename=");
    if starts_with_chars(&p, &key) {
        proof {
            reveal_strlit("filename=");
        }
        let rest = slice(&p, 9, p.len());
        assert(rest@ =~= p@.skip(9));
        let a = trim_char_chars(&rest, '"');
        Some(trim_char_chars(&a, '\''))
    } else {
        None
    }
}

/// Parse an mdBook code block info string into its language and file name.
///
/// `"rust"`, `"rust,ignore"` and `"rust,editable"` give `("rust", None)`;
/// `"rust,ignore,filename=\"src/main.rs\""` gives `("rust", Some("src/main.rs"))`.
pub fn parse_code_info(info: &str) -> (r: (Option<String>, Option<String>))
    ensures
        (opt_view(r.0), opt_view(r.1)) == code_info(info@),
{
    let s = str_chars(info);
    if s.len() == 0 {
        return (None, None);
    }
    let parts = split_char_chars(&s, ',');
    proof {
        assert(char_vecs_view(parts@).len() > 0) by {
            reveal_with_fuel(split_char, 1);
        }
    }
    let first = trim_chars(&parts[0]);
    let lang = if first.len() == 0 {
        None
    } else {
        Some(chars_to_string(&first))
    };
    let ghost all = char_vecs_view(parts@);
    let ghost attrs = all.drop_first();
    let mut filename: Option<String> = None;
    let mut i: usize = 1;
    while i < parts.len()
        invariant
            1 <= i <= parts.len(),
            all == char_vecs_view(parts@),
            attrs == all.drop_first(),
            opt_view(filename) == last_filename(attrs.take(i - 1)),
        decreases parts.len() - i,
    {
        proof {
            assert(attrs.take(i as int).drop_last() =~= attrs.take(i - 1));
            assert(attrs.take(i as int).last() == parts@[i as int]@);
        }
        match filename_attr_chars(&parts[i]) {
            Some(v) => {
                filename = Some(chars_to_string(&v));
            },
            None => {},
        }
        i = i + 1;
    }
    assert(attrs.take(parts.len() - 1) =~= attrs);
    (lang, filename)
}

/// The styled line that shows a code block's file name above it.
pub open spec fn filename_banner(name: Seq<char>) -> Seq<char> {
    "#block(width: 100%, inset: (x: 0.5em, y: 0.3em), fill: luma(240), radius: (top: 4pt))[#text(size: 0.85em, style: \"italic\")["@
        + name + "]]\n"@
}

/// The events that replace a code block start with the given info string.
pub open spec fn fence_events(info: Seq<char>, display: CodeDisplay) -> Seq<EventView> {
    let (lang, filename) = code_info(info);
    match filename {
        Some(f) => seq![EventView::Raw(filename_banner(f)), EventView::CodeBlockStart(lang, display)],
        None => seq![EventView::CodeBlockStart(lang, display)],
    }
}

/// What one event becomes.
pub open spec fn fence_step(e: EventView) -> Seq<EventView> {
    match e {
        EventView::CodeBlockStart(Some(info), display) => fence_events(info, display),
        EventView::FencedCodeStart(_, info) => fence_events(info, CodeDisplay::Block),
        _ => seq![e],
    }
}

/// A stream with its code block fences fixed.
pub open spec fn fix_code_block_fences(s: Seq<EventView>) -> Seq<EventView> {
    concat_map(s, |e: EventView| fence_step(e))
}

/// Fix mdBook code block fence names.
///
/// mdBook uses comma-separated info strings like `rust,ignore` or
/// `rust,editable,filename="src/main.rs"`. This converter:
/// 1. Extracts the language (first comma-separated value)
/// 2. Extracts the filename if present and displays it above the code block
/// 3. Ignores other mdBook-specific attributes (ignore, editable, etc.)
pub struct FixCodeBlockFence {
    events: Vec<Event>,
}

impl View for FixCodeBlockFence {
    type V = Seq<EventView>;

    closed spec fn view(&self) -> Seq<EventView> {
        events_view(self.events@)
    }
}

fn fence_step_exec(out: &mut Vec<Event>, info: &str, display: CodeDisplay)
    ensures
        events_view(final(out)@) == events_view(old(out)@) + fence_events(info@, display),
{
    let (lang, filename) = parse_code_info(info);
    match filename {
        Some(fname) => {
            let mut banner = str_chars(
                "#block(width: 100%, inset: (x: 0.5em, y: 0.3em), fill: luma(240), radius: (top: 4pt))[#text(size: 0.85em, style: \"italic\")[",
            );
            push_str(&mut banner, fname.as_str());
            push_str(&mut banner, "]]\n");
            push_event(out, Event::Raw(chars_to_string(&banner)));
            push_event(out, Event::CodeBlockStart(lang, display));
        },
        None => {
            push_event(out, Event::CodeBlockStart(lang, display));
        },
    }
}

impl FixCodeBlockFence {
    pub fn new(events: Vec<Event>) -> (r: Self)
        ensures
            r@ == events_view(events@),
    {
        FixCodeBlockFence { events }
    }

    /// All the events of the fixed stream.
    pub fn collect(self) -> (out: Vec<Event>)
        ensures
            events_view(out@) == fix_code_block_fences(self@),
    {
        let ghost input = events_view(self.events@);
        let ghost f = |e: EventView| fence_step(e);
        let mut out: Vec<Event> = Vec::new();
        let mut i: usize = 0;
        while i < self.events.len()
            invariant
                i <= self.events.len(),
                input == events_view(self.events@),
                f == (|e: EventView| fence_step(e)),
                events_view(out@) == concat_map(input.take(i as int), f),
            decreases self.events.len() - i,
        {
            proof {
                lemma_concat_map_step(input, f, i as int);
                assert(input[i as int] == self.events@[i as int]@);
                assert(f(input[i as int]) == fence_step(input[i as int]));
            }
            match &self.events[i] {
                Event::CodeBlockStart(Some(info), display) => {
                    fence_step_exec(&mut out, info.as_str(), *display);
                },
                Event::FencedCodeStart(_, info) => {
                    fence_step_exec(&mut out, info.as_str(), CodeDisplay::Block);
                },
                e => {
                    push_event(&mut out, e.copy());
                },
            }
            i = i + 1;
        }
        assert(input.take(input.len() as int) =~= input);
        out
    }
}

} // verus!
