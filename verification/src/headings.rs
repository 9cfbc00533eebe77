//! Parts as cover pages, and duplicate chapter headings.

use vstd::prelude::*;

use crate::event::{events_view, opt_event_view, opt_view, Event, EventView, Heading, HeadingView, Origin};
use crate::stream::push_event;
use crate::text::{chars_to_string, push_str, str_chars};

verus! {

/// The Typst markup of a part's cover page.
pub open spec fn cover_page(name: Seq<char>) -> Seq<char> {
    "\n                        #set page(\n                            header: none,\n                        )\n                        #heading(level: 1, outlined: true, \""@
        + name
        + "\")\n                        #pagebreak()\n                        #set page(\n                            header:  text(size: 8pt, fill: gray)[#align(right)["@
        + name + "]],\n                        )\n                        \n"@
}

/// The call that ends a part: `#pagebreak(weak: true)`.
pub open spec fn part_break() -> EventView {
    EventView::FunctionCall(None, "pagebreak"@, seq!["weak: true"@])
}

/// A heading one level deeper (at most 255).
pub open spec fn deeper(h: HeadingView) -> HeadingView {
    HeadingView {
        level: if h.level < 255 {
            (h.level + 1) as u8
        } else {
            255
        },
        outline: h.outline,
        bookmark: h.bookmark,
        label: h.label,
    }
}

/// What one event becomes, and whether a part is open after it.
pub open spec fn part_step(in_part: bool, e: EventView) -> (Seq<EventView>, bool) {
    match e {
        EventView::PartStart(Some(name), _) => (seq![EventView::Raw(cover_page(name))], true),
        EventView::PartStart(None, _) => (Seq::empty(), false),
        EventView::PartEnd(_, _) => (seq![part_break()], false),
        EventView::HeadingStart(h) => if in_part {
            (seq![EventView::HeadingStart(deeper(h))], in_part)
        } else {
            (seq![e], in_part)
        },
        EventView::HeadingEnd(h) => if in_part {
            (seq![EventView::HeadingEnd(deeper(h))], in_part)
        } else {
            (seq![e], in_part)
        },
        _ => (seq![e], in_part),
    }
}

/// The rest of a stream with parts as cover pages, from the given state.
pub open spec fn part_run(in_part: bool, s: Seq<EventView>) -> Seq<EventView>
    decreases s.len(),
{
    if s.len() == 0 {
        Seq::empty()
    } else {
        let (o, next) = part_step(in_part, s[0]);
        o + part_run(next, s.drop_first())
    }
}

/// A stream whose named parts start with a cover page and end with a weak
/// page break, and whose headings inside a part are one level deeper.
pub open spec fn parts_to_cover_pages(s: Seq<EventView>) -> Seq<EventView> {
    part_run(false, s)
}

/// Convert mdBook parts to chapters with cover pages.
pub struct PartToCoverPage {
    events: Vec<Event>,
}

impl View for PartToCoverPage {
    type V = Seq<EventView>;

    closed spec fn view(&self) -> Seq<EventView> {
        events_view(self.events@)
    }
}

fn deeper_heading(h: &Heading) -> (r: Heading)
    ensures
        r@ == deeper(h@),
{
    let mut r = h.copy();
    r.level = if h.level < 255 {
        h.level + 1
    } else {
        255
    };
    r
}

proof fn lemma_skip_step(s: Seq<EventView>, i: int)
    requires
        0 <= i < s.len(),
    ensures
        s.skip(i).len() > 0,
        s.skip(i)[0] == s[i],
        s.skip(i).drop_first() == s.skip(i + 1),
{
    assert(s.skip(i).drop_first() =~= s.skip(i + 1));
}

impl PartToCoverPage {
    pub fn new(events: Vec<Event>) -> (r: Self)
        ensures
            r@ == events_view(events@),
    {
        PartToCoverPage { events }
    }

    /// All the events of the converted stream.
    pub fn collect(self) -> (out: Vec<Event>)
        ensures
            events_view(out@) == parts_to_cover_pages(self@),
    {
        let ghost input = events_view(self.events@);
        let mut out: Vec<Event> = Vec::new();
        let mut in_part = false;
        let mut i: usize = 0;
        assert(input.skip(0) =~= input);
        while i < self.events.len()
            invariant
                i <= self.events.len(),
                input == events_view(self.events@),
                part_run(false, input) == events_view(out@) + part_run(in_part, input.skip(
                    i as int,
                )),
            decreases self.events.len() - i,
        {
            proof {
                lemma_skip_step(input, i as int);
                assert(input[i as int] == self.events@[i as int]@);
            }
            let ghost before = events_view(out@);
            let ghost (o, next) = part_step(in_part, input[i as int]);
            match &self.events[i] {
                Event::PartStart(Some(name), _) => {
                    let mut page = str_chars(
                        "\n                        #set page(\n                            header: none,\n                        )\n                        #heading(level: 1, outlined: true, \"",
                    );
                    push_str(&mut page, name.as_str());
                    push_str(
                        &mut page,
                        "\")\n                        #pagebreak()\n                        #set page(\n                            header:  text(size: 8pt, fill: gray)[#align(right)[",
                    );
                    push_str(&mut page, name.as_str());
                    push_str(&mut page, "]],\n                        )\n                        \n");
                    push_event(&mut out, Event::Raw(chars_to_string(&page)));
                    in_part = true;
                },
                Event::PartStart(None, _) => {
                    in_part = false;
                },
                Event::PartEnd(_, _) => {
                    let mut args: Vec<String> = Vec::new();
                    args.push(String::from_str("weak: true"));
                    assert(crate::event::strings_view(args@) =~= seq!["weak: true"@]);
                    push_event(
                        &mut out,
                        Event::FunctionCall(None, String::from_str("pagebreak"), args),
                    );
                    in_part = false;
                },
                Event::HeadingStart(h) => {
                    if in_part {
                        push_event(&mut out, Event::HeadingStart(deeper_heading(h)));
                    } else {
                        push_event(&mut out, Event::HeadingStart(h.copy()));
                    }
                },
                Event::HeadingEnd(h) => {
                    if in_part {
                        push_event(&mut out, Event::HeadingEnd(deeper_heading(h)));
                    } else {
                        push_event(&mut out, Event::HeadingEnd(h.copy()));
                    }
                },
                e => {
                    push_event(&mut out, e.copy());
                },
            }
            assert(events_view(out@) =~= before + o);
            assert(in_part == next);
            i = i + 1;
        }
        assert(input.skip(i as int) =~= Seq::<EventView>::empty());
        assert(events_view(out@) =~= events_view(out@) + Seq::<EventView>::empty());
        out
    }
}

/// Whether `e` ends a heading of an mdBook chapter's Markdown.
pub open spec fn is_book_heading_end(e: EventView) -> bool {
    e matches EventView::MarkdownHeadingEnd(Origin::Book, _)
}

/// Whether `e` starts a heading of an mdBook chapter's Markdown.
pub open spec fn is_book_heading_start(e: EventView) -> bool {
    e matches EventView::MarkdownHeadingStart(Origin::Book, _)
}

/// Whether `e` ends a Typst heading.
pub open spec fn is_heading_end(e: EventView) -> bool {
    e matches EventView::HeadingEnd(_)
}

/// What is left of `s` after its first event that is not the end of a
/// chapter's Markdown heading (that event included).
pub open spec fn after_first_non_heading_end(s: Seq<EventView>) -> Seq<EventView>
    decreases s.len(),
{
    if s.len() == 0 {
        s
    } else if is_book_heading_end(s[0]) {
        after_first_non_heading_end(s.drop_first())
    } else {
        s.drop_first()
    }
}

/// What is left of `s` after its first Typst heading end (that event included).
pub open spec fn after_first_heading_end(s: Seq<EventView>) -> Seq<EventView>
    decreases s.len(),
{
    if s.len() == 0 {
        s
    } else if is_heading_end(s[0]) {
        s.drop_first()
    } else {
        after_first_heading_end(s.drop_first())
    }
}

/// The standalone label that keeps the label of a removed heading.
pub open spec fn label_event(label: Option<Seq<char>>) -> Option<EventView> {
    match label {
        Some(l) => Some(EventView::Raw("#[] <"@ + l + ">\n"@)),
        None => None,
    }
}

pub proof fn lemma_after_non_heading_end_len(s: Seq<EventView>)
    ensures
        after_first_non_heading_end(s).len() <= s.len(),
    decreases s.len(),
{
    if s.len() > 0 && is_book_heading_end(s[0]) {
        lemma_after_non_heading_end_len(s.drop_first());
    }
}

pub proof fn lemma_after_heading_end_len(s: Seq<EventView>)
    ensures
        after_first_heading_end(s).len() <= s.len(),
    decreases s.len(),
{
    if s.len() > 0 && !is_heading_end(s[0]) {
        lemma_after_heading_end_len(s.drop_first());
    }
}

/// The text of the heading whose events start `s`: its Typst text events up
/// to the first Typst heading end.
pub open spec fn heading_text(s: Seq<EventView>) -> Seq<char>
    decreases s.len(),
{
    if s.len() == 0 || is_heading_end(s[0]) {
        Seq::empty()
    } else {
        (if s[0] is Text {
            s[0]->Text_0
        } else {
            Seq::empty()
        }) + heading_text(s.drop_first())
    }
}

/// The text of the chapter Markdown heading whose events start `s`: its
/// chapter Markdown text events up to the first chapter heading end.
pub open spec fn book_heading_text(s: Seq<EventView>) -> Seq<char>
    decreases s.len(),
{
    if s.len() == 0 || is_book_heading_end(s[0]) {
        Seq::empty()
    } else {
        (match s[0] {
            EventView::MarkdownText(Origin::Book, t) => t,
            _ => Seq::empty(),
        }) + book_heading_text(s.drop_first())
    }
}

/// The rest of a stream without heading stutter, from the given state: the
/// previous event, the texts of the last Typst heading and of the last
/// chapter Markdown heading that were kept, and a label waiting to be emitted.
pub open spec fn stutter_run(
    prev: Option<EventView>,
    title: Option<Seq<char>>,
    book_title: Option<Seq<char>>,
    pending: Option<EventView>,
    s: Seq<EventView>,
) -> Seq<EventView>
    decreases s.len(), if pending is Some {
        1int
    } else {
        0int
    },
{
    if pending is Some {
        seq![pending->0] + stutter_run(prev, title, book_title, None, s)
    } else if s.len() == 0 {
        Seq::empty()
    } else {
        let e = s[0];
        let rest = s.drop_first();
        if prev matches Some(p) && is_book_heading_end(p) && is_book_heading_start(e) && book_title
            == Some(book_heading_text(rest)) {
            let rest2 = after_first_non_heading_end(rest);
            proof {
                lemma_after_non_heading_end_len(rest);
            }
            if rest2.len() == 0 {
                Seq::empty()
            } else {
                seq![rest2[0]] + stutter_run(prev, title, book_title, None, rest2.drop_first())
            }
        } else if prev matches Some(p) && is_heading_end(p) && e is HeadingStart && title == Some(
            heading_text(rest),
        ) {
            proof {
                lemma_after_heading_end_len(rest);
            }
            stutter_run(
                prev,
                title,
                book_title,
                label_event(e->HeadingStart_0.label),
                after_first_heading_end(rest),
            )
        } else {
            let title2 = if e is HeadingStart {
                Some(heading_text(rest))
            } else {
                title
            };
            let book_title2 = if is_book_heading_start(e) {
                Some(book_heading_text(rest))
            } else {
                book_title
            };
            seq![e] + stutter_run(Some(e), title2, book_title2, None, rest)
        }
    }
}

/// A stream without the duplicate heading that mdBook emits when a chapter's
/// title and its first heading are the same: a heading that directly follows
/// the end of a heading with the same text is removed, and a removed Typst
/// heading leaves its label behind.
pub open spec fn fix_heading_stutter(s: Seq<EventView>) -> Seq<EventView> {
    stutter_run(None, None, None, None, s)
}

/// Fix heading stutter where mdBook emits duplicate headings.
/// When a chapter title and first heading have the same text, mdBook emits both.
/// This converter removes the duplicate (a heading right after a heading with
/// the same text) but preserves any labels.
pub struct FixHeadingStutter {
    events: Vec<Event>,
}

impl View for FixHeadingStutter {
    type V = Seq<EventView>;

    closed spec fn view(&self) -> Seq<EventView> {
        events_view(self.events@)
    }
}

fn stutter_kind(prev: &Option<Event>, e: &Event) -> (k: u8)
    ensures
        (k == 1) == (opt_event_view(*prev) matches Some(p) && is_book_heading_end(p)
            && is_book_heading_start(e@)),
        (k == 2) == (opt_event_view(*prev) matches Some(p) && is_heading_end(p)
            && e@ is HeadingStart),
        e@ is HeadingStart ==> (e matches Event::HeadingStart(h) && e@->HeadingStart_0 == h@),
{
    match (prev, e) {
        (
            Some(Event::MarkdownHeadingEnd(Origin::Book, _)),
            Event::MarkdownHeadingStart(Origin::Book, _),
        ) => 1,
        (Some(Event::HeadingEnd(_)), Event::HeadingStart(_)) => 2,
        _ => 0,
    }
}

fn is_book_heading_end_event(e: &Event) -> (b: bool)
    ensures
        b == is_book_heading_end(e@),
{
    match e {
        Event::MarkdownHeadingEnd(Origin::Book, _) => true,
        _ => false,
    }
}

fn is_heading_end_event(e: &Event) -> (b: bool)
    ensures
        b == is_heading_end(e@),
{
    match e {
        Event::HeadingEnd(_) => true,
        _ => false,
    }
}

/// The text of the heading whose events start at `from`.
fn heading_text_exec(events: &Vec<Event>, from: usize) -> (r: Vec<char>)
    requires
        from <= events.len(),
    ensures
        r@ == heading_text(events_view(events@).skip(from as int)),
{
    let ghost input = events_view(events@);
    let mut r: Vec<char> = Vec::new();
    let mut j = from;
    while j < events.len() && !is_heading_end_event(&events[j])
        invariant
            from <= j <= events.len(),
            input == events_view(events@),
            heading_text(input.skip(from as int)) == r@ + heading_text(input.skip(j as int)),
        decreases events.len() - j,
    {
        proof {
            lemma_skip_step(input, j as int);
            assert(input[j as int] == events@[j as int]@);
        }
        let ghost before = r@;
        match &events[j] {
            Event::Text(t) => {
                push_str(&mut r, t.as_str());
            },
            _ => {},
        }
        assert(r@ + heading_text(input.skip(j + 1)) =~= before + heading_text(input.skip(j as int)));
        j = j + 1;
    }
    if j < events.len() {
        proof {
            lemma_skip_step(input, j as int);
            assert(input[j as int] == events@[j as int]@);
        }
    } else {
        assert(input.skip(j as int) =~= Seq::<EventView>::empty());
    }
    assert(r@ =~= r@ + Seq::<char>::empty());
    r
}

/// The text of the chapter Markdown heading whose events start at `from`.
fn book_heading_text_exec(events: &Vec<Event>, from: usize) -> (r: Vec<char>)
    requires
        from <= events.len(),
    ensures
        r@ == book_heading_text(events_view(events@).skip(from as int)),
{
    let ghost input = events_view(events@);
    let mut r: Vec<char> = Vec::new();
    let mut j = from;
    while j < events.len() && !is_book_heading_end_event(&events[j])
        invariant
            from <= j <= events.len(),
            input == events_view(events@),
            book_heading_text(input.skip(from as int)) == r@ + book_heading_text(
                input.skip(j as int),
            ),
        decreases events.len() - j,
    {
        proof {
            lemma_skip_step(input, j as int);
            assert(input[j as int] == events@[j as int]@);
        }
        let ghost before = r@;
        match &events[j] {
            Event::MarkdownText(Origin::Book, t) => {
                push_str(&mut r, t.as_str());
            },
            _ => {},
        }
        assert(r@ + book_heading_text(input.skip(j + 1)) =~= before + book_heading_text(
            input.skip(j as int),
        ));
        j = j + 1;
    }
    if j < events.len() {
        proof {
            lemma_skip_step(input, j as int);
            assert(input[j as int] == events@[j as int]@);
        }
    } else {
        assert(input.skip(j as int) =~= Seq::<EventView>::empty());
    }
    assert(r@ =~= r@ + Seq::<char>::empty());
    r
}

/// Whether a kept text is present and equal to `t`.
fn same_text(kept: &Option<Vec<char>>, t: &Vec<char>) -> (b: bool)
    ensures
        b == (opt_chars_view(*kept) == Some(t@)),
{
    match kept {
        Some(k) => {
            if k.len() == t.len() && crate::text::starts_with_chars(k, t) {
                assert(k@.take(t@.len() as int) == t@);
                assert(k@ =~= t@);
                true
            } else {
                proof {
                    if k@ == t@ {
                        assert(k@.take(t@.len() as int) =~= t@);
                    }
                }
                false
            }
        },
        None => false,
    }
}

/// The value of an optional character vector.
pub open spec fn opt_chars_view(o: Option<Vec<char>>) -> Option<Seq<char>> {
    match o {
        Some(v) => Some(v@),
        None => None,
    }
}

impl FixHeadingStutter {
    pub fn new(events: Vec<Event>) -> (r: Self)
        ensures
            r@ == events_view(events@),
    {
        FixHeadingStutter { events }
    }

    /// All the events of the fixed stream.
    pub fn collect(self) -> (out: Vec<Event>)
        ensures
            events_view(out@) == fix_heading_stutter(self@),
    {
        let ghost input = events_view(self.events@);
        let n = self.events.len();
        let mut out: Vec<Event> = Vec::new();
        let mut prev: Option<Event> = None;
        let mut title: Option<Vec<char>> = None;
        let mut book_title: Option<Vec<char>> = None;
        let mut i: usize = 0;
        assert(input.skip(0) =~= input);
        while i < n
            invariant
                i <= n == self.events.len(),
                input == events_view(self.events@),
                fix_heading_stutter(input) == events_view(out@) + stutter_run(
                    opt_event_view(prev),
                    opt_chars_view(title),
                    opt_chars_view(book_title),
                    None,
                    input.skip(i as int),
                ),
            decreases n - i,
        {
            let ghost pv = opt_event_view(prev);
            let ghost tv = opt_chars_view(title);
            let ghost bv = opt_chars_view(book_title);
            proof {
                lemma_skip_step(input, i as int);
                assert(input[i as int] == self.events@[i as int]@);
            }
            let kind = stutter_kind(&prev, &self.events[i]);
            let ghost rest = input.skip(i as int).drop_first();
            assert(rest =~= input.skip(i + 1));
            let book_end_then_start = kind == 1 && {
                let t = book_heading_text_exec(&self.events, i + 1);
                same_text(&book_title, &t)
            };
            let typst_end_then_start = !book_end_then_start && kind == 2 && {
                let t = heading_text_exec(&self.events, i + 1);
                same_text(&title, &t)
            };
            if book_end_then_start {
                // Skip the repeated heading's ends and the event after them,
                // then pass on the next event unchanged.
                let mut j: usize = i + 1;
                assert(input.skip(i + 1) =~= input.skip(i as int).drop_first());
                while j < n && is_book_heading_end_event(&self.events[j])
                    invariant
                        i < j <= n == self.events.len(),
                        input == events_view(self.events@),
                        after_first_non_heading_end(input.skip(i + 1))
                            == after_first_non_heading_end(input.skip(j as int)),
                    decreases n - j,
                {
                    proof {
                        lemma_skip_step(input, j as int);
                        assert(input[j as int] == self.events@[j as int]@);
                    }
                    j = j + 1;
                }
                if j >= n {
                    assert(input.skip(j as int) =~= Seq::<EventView>::empty());
                    assert(stutter_run(pv, tv, bv, None, input.skip(i as int))
                        == Seq::<EventView>::empty());
                    assert(events_view(out@) =~= events_view(out@) + Seq::<EventView>::empty());
                    return out;
                }
                proof {
                    lemma_skip_step(input, j as int);
                    assert(input[j as int] == self.events@[j as int]@);
                }
                if j + 1 >= n {
                    assert(input.skip(j + 1) =~= Seq::<EventView>::empty());
                    assert(after_first_non_heading_end(input.skip(j as int)) == input.skip(j + 1));
                    assert(stutter_run(pv, tv, bv, None, input.skip(i as int))
                        == Seq::<EventView>::empty());
                    assert(events_view(out@) =~= events_view(out@) + Seq::<EventView>::empty());
                    return out;
                }
                proof {
                    lemma_skip_step(input, j + 1);
                    assert(input[j + 1] == self.events@[j + 1]@);
                }
                let ghost before = events_view(out@);
                assert(after_first_non_heading_end(input.skip(j as int)) == input.skip(j + 1));
                assert(stutter_run(pv, tv, bv, None, input.skip(i as int)) == seq![input[j + 1]]
                    + stutter_run(pv, tv, bv, None, input.skip(j + 2)));
                push_event(&mut out, self.events[j + 1].copy());
                assert(events_view(out@) + stutter_run(pv, tv, bv, None, input.skip(j + 2))
                    =~= before + stutter_run(pv, tv, bv, None, input.skip(i as int)));
                i = j + 2;
            } else if typst_end_then_start {
                let label = match &self.events[i] {
                    Event::HeadingStart(h) => crate::event::copy_opt(&h.label),
                    _ => None,
                };
                let mut j: usize = i + 1;
                assert(input.skip(i + 1) =~= input.skip(i as int).drop_first());
                while j < n && !is_heading_end_event(&self.events[j])
                    invariant
                        i < j <= n == self.events.len(),
                        input == events_view(self.events@),
                        after_first_heading_end(input.skip(i + 1)) == after_first_heading_end(
                            input.skip(j as int),
                        ),
                    decreases n - j,
                {
                    proof {
                        lemma_skip_step(input, j as int);
                        assert(input[j as int] == self.events@[j as int]@);
                    }
                    j = j + 1;
                }
                let next_i = if j < n {
                    proof {
                        lemma_skip_step(input, j as int);
                        assert(input[j as int] == self.events@[j as int]@);
                    }
                    j + 1
                } else {
                    assert(input.skip(j as int) =~= Seq::<EventView>::empty());
                    j
                };
                assert(after_first_heading_end(input.skip(i + 1)) == input.skip(next_i as int));
                let ghost pending = label_event(opt_view(label));
                assert(stutter_run(pv, tv, bv, None, input.skip(i as int)) == stutter_run(
                    pv,
                    tv,
                    bv,
                    pending,
                    input.skip(next_i as int),
                ));
                let ghost before = events_view(out@);
                match label {
                    Some(l) => {
                        let mut raw = str_chars("#[] <");
                        push_str(&mut raw, l.as_str());
                        push_str(&mut raw, ">\n");
                        push_event(&mut out, Event::Raw(chars_to_string(&raw)));
                    },
                    None => {},
                }
                assert(events_view(out@) + stutter_run(pv, tv, bv, None, input.skip(next_i as int))
                    =~= before + stutter_run(pv, tv, bv, pending, input.skip(next_i as int)));
                i = next_i;
            } else {
                let ghost before = events_view(out@);
                match &self.events[i] {
                    Event::HeadingStart(_) => {
                        title = Some(heading_text_exec(&self.events, i + 1));
                    },
                    Event::MarkdownHeadingStart(Origin::Book, _) => {
                        book_title = Some(book_heading_text_exec(&self.events, i + 1));
                    },
                    _ => {},
                }
                assert(stutter_run(pv, tv, bv, None, input.skip(i as int)) == seq![input[i as int]]
                    + stutter_run(
                    Some(input[i as int]),
                    opt_chars_view(title),
                    opt_chars_view(book_title),
                    None,
                    input.skip(i + 1),
                ));
                push_event(&mut out, self.events[i].copy());
                prev = Some(self.events[i].copy());
                i = i + 1;
            }
        }
        assert(input.skip(i as int) =~= Seq::<EventView>::empty());
        assert(events_view(out@) =~= events_view(out@) + Seq::<EventView>::empty());
        out
    }
}

} // verus!
