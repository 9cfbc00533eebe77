//! HTML anchors, images and caption spans in the event stream.

use std::sync::Arc;
use vstd::prelude::*;

use crate::css::{CssClassStyles, CssStyles};
use crate::event::{events_view, Event, EventView};
use crate::html::{
    caption_markup, caption_span_open, convert_html_to_typst, extract_html_from_comment,
    html_from_comment, html_to_typst, is_caption_span_open,
};
use crate::stream::push_event;
use crate::text::{chars_to_string, contains, contains_chars, push_str, str_chars, trim, trim_chars};

verus! {

/// Whether `e` is HTML that closes a span.
pub open spec fn closes_span(e: EventView) -> bool {
    e matches EventView::Html(_, _, h) && trim(h) == "</span>"@
}

/// What a raw event that holds an HTML comment becomes: the converted
/// markup, unless the conversion is itself a comment.
pub open spec fn raw_output(raw: Seq<char>, converted: Seq<char>) -> Seq<EventView> {
    if contains(converted, "/* HTML:"@) {
        seq![EventView::Raw(raw)]
    } else {
        seq![EventView::Raw(converted)]
    }
}

/// The rest of a stream with its HTML converted, from the given state:
/// whether a caption span is open, and the caption so far.
pub open spec fn anchors_run(
    in_caption: bool,
    caption: Seq<char>,
    s: Seq<EventView>,
    css: Map<Seq<char>, CssStyles>,
) -> Seq<EventView>
    decreases s.len(),
{
    if in_caption {
        if s.len() == 0 {
            if caption.len() > 0 {
                seq![EventView::Raw(caption_markup(caption))]
            } else {
                Seq::empty()
            }
        } else {
            let e = s[0];
            let rest = s.drop_first();
            if e is Text {
                anchors_run(true, caption + e->Text_0, rest, css)
            } else if e is Code {
                anchors_run(true, caption + "`"@ + e->Code_0 + "`"@, rest, css)
            } else if closes_span(e) {
                seq![EventView::Raw(caption_markup(caption))] + anchors_run(
                    false,
                    Seq::empty(),
                    rest,
                    css,
                )
            } else {
                anchors_run(true, caption, rest, css)
            }
        }
    } else {
        if s.len() == 0 {
            Seq::empty()
        } else {
            let e = s[0];
            let rest = s.drop_first();
            match e {
                EventView::Html(_, _, h) => if caption_span_open(h) {
                    anchors_run(true, Seq::empty(), rest, css)
                } else {
                    seq![EventView::Raw(html_to_typst(h, css))] + anchors_run(
                        false,
                        caption,
                        rest,
                        css,
                    )
                },
                EventView::Raw(r) => match html_from_comment(r) {
                    Some(h) => if caption_span_open(h) {
                        anchors_run(true, Seq::empty(), rest, css)
                    } else {
                        raw_output(r, html_to_typst(h, css)) + anchors_run(false, caption, rest, css)
                    },
                    None => seq![e] + anchors_run(false, caption, rest, css),
                },
                _ => seq![e] + anchors_run(false, caption, rest, css),
            }
        }
    }
}

/// A stream whose HTML anchors become labels, whose `<img>` tags become
/// images sized by CSS, and whose caption spans become centered captions
/// (other events inside a caption span are dropped).
pub open spec fn convert_html_anchors(s: Seq<EventView>, css: Map<Seq<char>, CssStyles>) -> Seq<
    EventView,
> {
    anchors_run(false, Seq::empty(), s, css)
}

/// Convert HTML anchor elements (`<a id="...">`) to Typst labels.
///
/// mdBook uses explicit HTML anchors for some cross-references that don't
/// correspond to headings. This converter extracts those IDs and emits them
/// as Typst labels. It also handles `<span class="caption">` for figure
/// captions and `<img>` tags.
pub struct ConvertHtmlAnchors {
    events: Vec<Event>,
    css_styles: Arc<CssClassStyles>,
}

impl View for ConvertHtmlAnchors {
    type V = (Seq<EventView>, Map<Seq<char>, CssStyles>);

    closed spec fn view(&self) -> (Seq<EventView>, Map<Seq<char>, CssStyles>) {
        (events_view(self.events@), self.css_styles@)
    }
}

fn closes_span_exec(e: &Event) -> (b: bool)
    ensures
        b == closes_span(e@),
{
    match e {
        Event::Html(_, _, h) => {
            let t = trim_chars(&str_chars(h.as_str()));
            let close = str_chars("</span>");
            let b = t.len() == close.len() && crate::text::starts_with_chars(&t, &close);
            proof {
                if t@ == close@ {
                    assert(t@.take(close@.len() as int) =~= t@);
                }
                if b {
                    assert(t@ =~= t@.take(close@.len() as int));
                }
            }
            b
        },
        _ => false,
    }
}

fn caption_event(caption: &Vec<char>) -> (e: Event)
    ensures
        e@ == EventView::Raw(caption_markup(caption@)),
{
    let mut out = str_chars("#align(center)[#emph[");
    crate::text::push_all(&mut out, caption);
    push_str(&mut out, "]]\n");
    Event::Raw(chars_to_string(&out))
}

impl ConvertHtmlAnchors {
    pub fn new(events: Vec<Event>, css_styles: Arc<CssClassStyles>) -> (r: Self)
        ensures
            r@ == (events_view(events@), css_styles@),
    {
        ConvertHtmlAnchors { events, css_styles }
    }

    /// All the events of the converted stream.
    pub fn collect(self) -> (out: Vec<Event>)
        ensures
            events_view(out@) == convert_html_anchors(self@.0, self@.1),
    {
        let ghost input = events_view(self.events@);
        let ghost css = self.css_styles@;
        let n = self.events.len();
        let mut out: Vec<Event> = Vec::new();
        let mut in_caption = false;
        let mut caption: Vec<char> = Vec::new();
        let mut i: usize = 0;
        assert(input.skip(0) =~= input);
        assert(events_view(out@) =~= Seq::<EventView>::empty());
        while i < n
            invariant
                i <= n == self.events.len(),
                input == events_view(self.events@),
                css == self.css_styles@,
                convert_html_anchors(input, css) == events_view(out@) + anchors_run(
                    in_caption,
                    caption@,
                    input.skip(i as int),
                    css,
                ),
            decreases n - i,
        {
            assert(input.skip(i as int)[0] == self.events@[i as int]@);
            assert(input.skip(i as int).drop_first() =~= input.skip(i + 1));
            let ghost before = events_view(out@);
            let ghost was_in_caption = in_caption;
            let ghost old_caption = caption@;
            let e = &self.events[i];
            if in_caption {
                match e {
                    Event::Text(t) => {
                        push_str(&mut caption, t.as_str());
                    },
                    Event::Code(c) => {
                        push_str(&mut caption, "`");
                        push_str(&mut caption, c.as_str());
                        push_str(&mut caption, "`");
                    },
                    _ => {
                        if closes_span_exec(e) {
                            in_caption = false;
                            push_event(&mut out, caption_event(&caption));
                            caption = Vec::new();
                        }
                    },
                }
            } else {
                match e {
                    Event::Html(_, _, h) => {
                        if is_caption_span_open(h.as_str()) {
                            in_caption = true;
                            caption = Vec::new();
                        } else {
                            match convert_html_to_typst(h.as_str(), &self.css_styles) {
                                Some(c) => push_event(&mut out, c),
                                None => {},
                            }
                        }
                    },
                    Event::Raw(r) => {
                        match extract_html_from_comment(r.as_str()) {
                            Some(h) => {
                                if is_caption_span_open(h.as_str()) {
                                    in_caption = true;
                                    caption = Vec::new();
                                } else {
                                    match convert_html_to_typst(h.as_str(), &self.css_styles) {
                                        Some(Event::Raw(c)) => {
                                            let cv = str_chars(c.as_str());
                                            if contains_chars(&cv, &str_chars("/* HTML:")) {
                                                push_event(&mut out, Event::Raw(r.clone()));
                                            } else {
                                                push_event(&mut out, Event::Raw(c));
                                            }
                                        },
                                        _ => {},
                                    }
                                }
                            },
                            None => {
                                push_event(&mut out, Event::Raw(r.clone()));
                            },
                        }
                    },
                    _ => {
                        push_event(&mut out, e.copy());
                    },
                }
            }
            assert(events_view(out@) + anchors_run(in_caption, caption@, input.skip(i + 1), css)
                =~= before + anchors_run(was_in_caption, old_caption, input.skip(i as int), css));
            i = i + 1;
        }
        assert(input.skip(i as int) =~= Seq::<EventView>::empty());
        if in_caption && caption.len() > 0 {
            push_event(&mut out, caption_event(&caption));
        }
        assert(events_view(out@) =~= convert_html_anchors(input, css));
        out
    }
}

} // verus!
