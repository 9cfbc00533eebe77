//! Event streams that are rewritten one event at a time.

use vstd::prelude::*;

use crate::event::{events_view, Event, EventView};

verus! {

/// The concatenation of `f` applied to each event of `s`, in order.
pub open spec fn concat_map(s: Seq<EventView>, f: spec_fn(EventView) -> Seq<EventView>) -> Seq<
    EventView,
>
    decreases s.len(),
{
    if s.len() == 0 {
        Seq::empty()
    } else {
        concat_map(s.drop_last(), f) + f(s.last())
    }
}

/// Extending the input by one event extends the output by that event's image.
pub proof fn lemma_concat_map_step(
    s: Seq<EventView>,
    f: spec_fn(EventView) -> Seq<EventView>,
    i: int,
)
    requires
        0 <= i < s.len(),
    ensures
        concat_map(s.take(i + 1), f) == concat_map(s.take(i), f) + f(s[i]),
{
    assert(s.take(i + 1).drop_last() =~= s.take(i));
}

/// The view of a prefix of events is the prefix of the view.
pub proof fn lemma_events_view_take(v: Seq<Event>, i: int)
    requires
        0 <= i <= v.len(),
    ensures
        events_view(v.take(i)) == events_view(v).take(i),
{
    assert(events_view(v.take(i)) =~= events_view(v).take(i));
}

/// Appends an event to a vector, extending its view.
pub fn push_event(out: &mut Vec<Event>, e: Event)
    ensures
        events_view(final(out)@) == events_view(old(out)@).push(e@),
{
    out.push(e);
    assert(events_view(out@) =~= events_view(old(out)@).push(e@));
}

/// Appends copies of the events of `es` to `out`.
pub fn push_events(out: &mut Vec<Event>, es: &Vec<Event>)
    ensures
        events_view(final(out)@) == events_view(old(out)@) + events_view(es@),
{
    let mut i: usize = 0;
    while i < es.len()
        invariant
            i <= es.len(),
            events_view(out@) == events_view(old(out)@) + events_view(es@).take(i as int),
        decreases es.len() - i,
    {
        let e = es[i].copy();
        push_event(out, e);
        i = i + 1;
        assert(events_view(es@).take(i as int) =~= events_view(es@).take(i - 1).push(es@[i - 1]@));
    }
    assert(events_view(es@).take(es.len() as int) =~= events_view(es@));
}

} // verus!
