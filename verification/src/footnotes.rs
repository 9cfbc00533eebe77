//! Structured Markdown footnote support.
//!
//! The mdBook event stream is built with footnotes enabled, and the
//! resulting structured footnote events are then turned into Typst.

use vstd::prelude::*;
use vstd::hash_map::StringHashMap;

use crate::event::{events_view, opt_view, ChapterInfo, ChapterInfoView, Event, EventView};
use crate::stream::{push_event, push_events};

verus! {

/// The position of the first footnote definition end at or after `j`, or
/// the length of `s` when there is none.
pub open spec fn definition_end(s: Seq<EventView>, j: int) -> int
    decreases s.len() - j,
{
    if j < 0 || j >= s.len() {
        s.len() as int
    } else if s[j] is FootnoteDefinitionEnd {
        j
    } else {
        definition_end(s, j + 1)
    }
}

/// Whether a complete footnote definition starts at `i`.
pub open spec fn definition_at(s: Seq<EventView>, i: int) -> bool {
    0 <= i < s.len() && s[i] is FootnoteDefinitionStart && definition_end(s, i + 1) < s.len()
}

pub proof fn lemma_definition_end_bounds(s: Seq<EventView>, j: int)
    requires
        0 <= j,
    ensures
        j <= definition_end(s, j) <= s.len() || (j > s.len() && definition_end(s, j) == s.len()),
        definition_end(s, j) < s.len() ==> s[definition_end(s, j)] is FootnoteDefinitionEnd,
        forall|k: int| j <= k < definition_end(s, j) ==> !(#[trigger] s[k] is FootnoteDefinitionEnd),
    decreases s.len() - j,
{
    if j < s.len() && !(s[j] is FootnoteDefinitionEnd) {
        lemma_definition_end_bounds(s, j + 1);
    }
}

/// The footnote definitions found scanning `s` from `i`: label to body; a
/// later definition of a label replaces an earlier one.
pub open spec fn definitions_from(s: Seq<EventView>, i: int) -> Map<Seq<char>, Seq<EventView>>
    decreases s.len() - i,
{
    if i < 0 || i >= s.len() {
        Map::empty()
    } else if definition_at(s, i) {
        let e = definition_end(s, i + 1);
        proof {
            lemma_definition_end_bounds(s, i + 1);
        }
        Map::empty().insert(s[i]->FootnoteDefinitionStart_0, s.subrange(i + 1, e)).union_prefer_right(
            definitions_from(s, e + 1),
        )
    } else {
        definitions_from(s, i + 1)
    }
}

/// What an event outside a definition becomes: a defined reference becomes
/// a `#footnote` call around the definition's body.
pub open spec fn footnote_emit(e: EventView, defs: Map<Seq<char>, Seq<EventView>>) -> Seq<
    EventView,
> {
    match e {
        EventView::FootnoteReference(label) => if defs.contains_key(label) {
            seq![EventView::Raw("#footnote["@)] + defs[label] + seq![EventView::Raw("]"@)]
        } else {
            seq![e]
        },
        _ => seq![e],
    }
}

/// The output for the events of `s` from `i`, definitions left out.
pub open spec fn footnotes_from(
    s: Seq<EventView>,
    i: int,
    defs: Map<Seq<char>, Seq<EventView>>,
) -> Seq<EventView>
    decreases s.len() - i,
{
    if i < 0 || i >= s.len() {
        Seq::empty()
    } else if definition_at(s, i) {
        proof {
            lemma_definition_end_bounds(s, i + 1);
        }
        footnotes_from(s, definition_end(s, i + 1) + 1, defs)
    } else {
        footnote_emit(s[i], defs) + footnotes_from(s, i + 1, defs)
    }
}

/// A stream without its complete footnote definitions, whose references to
/// a defined label are replaced by `#footnote[` + the definition's events + `]`.
pub open spec fn structured_footnotes(s: Seq<EventView>) -> Seq<EventView> {
    footnotes_from(s, 0, definitions_from(s, 0))
}

/// The values of a map of event vectors.
pub open spec fn bodies_view(m: Map<Seq<char>, Vec<Event>>) -> Map<Seq<char>, Seq<EventView>> {
    m.map_values(|v: Vec<Event>| events_view(v@))
}

/// The position of the first footnote definition end at or after `j`.
fn definition_end_exec(events: &Vec<Event>, j: usize) -> (r: usize)
    requires
        j <= events.len(),
    ensures
        r == definition_end(events_view(events@), j as int),
{
    let ghost s = events_view(events@);
    let mut k = j;
    while k < events.len() && !matches!(&events[k], Event::FootnoteDefinitionEnd)
        invariant
            j <= k <= events.len(),
            s == events_view(events@),
            definition_end(s, j as int) == definition_end(s, k as int),
        decreases events.len() - k,
    {
        assert(s[k as int] == events@[k as int]@);
        k = k + 1;
    }
    if k < events.len() {
        assert(s[k as int] == events@[k as int]@);
    }
    k
}

/// Copies of the events `from..to`.
fn copy_range(events: &Vec<Event>, from: usize, to: usize) -> (r: Vec<Event>)
    requires
        from <= to <= events.len(),
    ensures
        events_view(r@) == events_view(events@).subrange(from as int, to as int),
{
    let mut r: Vec<Event> = Vec::new();
    let mut k = from;
    while k < to
        invariant
            from <= k <= to <= events.len(),
            events_view(r@) == events_view(events@).subrange(from as int, k as int),
        decreases to - k,
    {
        push_event(&mut r, events[k].copy());
        k = k + 1;
        assert(events_view(r@) =~= events_view(events@).subrange(from as int, k as int));
    }
    r
}

/// Replace structured Markdown footnote references with Typst footnote calls.
/// The body remains an event sequence, so quotes, images, lists, and emphasis
/// are not flattened into a string.
pub fn process_events(events: Vec<Event>) -> (out: Vec<Event>)
    ensures
        events_view(out@) == structured_footnotes(events_view(events@)),
{
    let ghost s = events_view(events@);
    let n = events.len();
    let mut definitions: StringHashMap<Vec<Event>> = StringHashMap::new();
    let mut index: usize = 0;
    assert(bodies_view(definitions@) =~= Map::<Seq<char>, Seq<EventView>>::empty());
    assert(definitions_from(s, 0) =~= Map::<Seq<char>, Seq<EventView>>::empty().union_prefer_right(
        definitions_from(s, 0),
    ));
    while index < n
        invariant
            index <= n == events.len(),
            s == events_view(events@),
            definitions_from(s, 0) == bodies_view(definitions@).union_prefer_right(
                definitions_from(s, index as int),
            ),
        decreases n - index,
    {
        assert(s[index as int] == events@[index as int]@);
        let ghost acc = bodies_view(definitions@);
        match &events[index] {
            Event::FootnoteDefinitionStart(label) => {
                let end = definition_end_exec(&events, index + 1);
                proof {
                    lemma_definition_end_bounds(s, index + 1);
                }
                if end < n {
                    let body = copy_range(&events, index + 1, end);
                    definitions.insert(label.clone(), body);
                    let ghost single = Map::<Seq<char>, Seq<EventView>>::empty().insert(
                        label@,
                        s.subrange(index + 1, end as int),
                    );
                    assert(bodies_view(definitions@) =~= acc.union_prefer_right(single));
                    assert(acc.union_prefer_right(single.union_prefer_right(
                        definitions_from(s, end + 1),
                    )) =~= acc.union_prefer_right(single).union_prefer_right(
                        definitions_from(s, end + 1),
                    ));
                    index = end;
                }
            },
            _ => {},
        }
        index = index + 1;
    }
    assert(definitions_from(s, 0) =~= bodies_view(definitions@));
    let ghost defs = bodies_view(definitions@);
    let mut output: Vec<Event> = Vec::new();
    let mut index: usize = 0;
    assert(events_view(output@) =~= Seq::<EventView>::empty());
    while index < n
        invariant
            index <= n == events.len(),
            s == events_view(events@),
            defs == bodies_view(definitions@),
            footnotes_from(s, 0, defs) == events_view(output@) + footnotes_from(
                s,
                index as int,
                defs,
            ),
        decreases n - index,
    {
        assert(s[index as int] == events@[index as int]@);
        let ghost before = events_view(output@);
        let mut skip_to: usize = index + 1;
        match &events[index] {
            Event::FootnoteDefinitionStart(_) => {
                let end = definition_end_exec(&events, index + 1);
                proof {
                    lemma_definition_end_bounds(s, index + 1);
                }
                if end < n {
                    skip_to = end + 1;
                } else {
                    push_event(&mut output, events[index].copy());
                }
            },
            Event::FootnoteReference(label) => {
                match definitions.get(label.as_str()) {
                    Some(body) => {
                        push_event(&mut output, Event::Raw(String::from_str("#footnote[")));
                        push_events(&mut output, body);
                        push_event(&mut output, Event::Raw(String::from_str("]")));
                    },
                    None => {
                        push_event(&mut output, events[index].copy());
                    },
                }
            },
            e => {
                push_event(&mut output, e.copy());
            },
        }
        assert(events_view(output@) + footnotes_from(s, skip_to as int, defs) =~= before
            + footnotes_from(s, index as int, defs));
        index = skip_to;
    }
    assert(events_view(output@) =~= events_view(output@) + Seq::<EventView>::empty());
    output
}

/// An entry of a book's summary.
#[derive(Debug)]
pub enum BookItem {
    Chapter(Chapter),
    Separator,
    PartTitle(String),
}

/// A chapter of a book.
#[derive(Debug)]
pub struct Chapter {
    pub name: String,
    /// The chapter's Markdown source.
    pub content: String,
    /// The events of the chapter's Markdown source, as the Markdown parser
    /// gives them with tables and footnotes enabled, each wrapped as chapter
    /// content.
    pub content_events: Vec<Event>,
    /// Where the chapter is rendered; a chapter without one is a draft.
    pub path: Option<String>,
    /// Where the chapter's source is, relative to the book's source directory.
    pub source_path: Option<String>,
    pub sub_items: Vec<BookItem>,
}

/// What the backend reads of a book.
#[derive(Debug)]
pub struct Book {
    pub root: String,
    pub title: Option<String>,
    pub authors: Vec<String>,
    pub sections: Vec<BookItem>,
}

/// The metadata of a chapter's start and end events.
pub open spec fn chapter_info(c: Chapter) -> ChapterInfoView {
    ChapterInfoView { draft: c.path is None, name: c.name@, source_path: opt_view(c.source_path) }
}

/// The events of a chapter: its start, its content and the end of its
/// content when the content is not empty, its sub-items, its end.
pub open spec fn chapter_events(c: Chapter) -> Seq<EventView>
    decreases c,
{
    seq![EventView::ChapterStart(chapter_info(c))] + (if c.content@.len() > 0 {
        events_view(c.content_events@) + seq![EventView::ContentEnd]
    } else {
        Seq::empty()
    }) + items_events(c.sub_items@) + seq![EventView::ChapterEnd(chapter_info(c))]
}

/// The events of one item; part titles give none.
pub open spec fn item_events(item: BookItem) -> Seq<EventView>
    decreases item,
{
    match item {
        BookItem::Chapter(c) => chapter_events(c),
        BookItem::Separator => seq![EventView::Separator],
        BookItem::PartTitle(_) => Seq::empty(),
    }
}

/// The events of a list of items.
pub open spec fn items_events(items: Seq<BookItem>) -> Seq<EventView>
    decreases items,
{
    if items.len() == 0 {
        Seq::empty()
    } else {
        items_events(items.drop_last()) + item_events(items.last())
    }
}

/// The events of a list of items from the given part on: each part title
/// ends the part before it and starts its own; the last part ends after the
/// last item.
pub open spec fn parts_events(current: Option<Seq<char>>, items: Seq<BookItem>) -> Seq<EventView>
    decreases items.len(),
{
    if items.len() == 0 {
        match current {
            Some(p) => seq![EventView::PartEnd(Some(p), None)],
            None => Seq::empty(),
        }
    } else {
        match items[0] {
            BookItem::PartTitle(t) => (match current {
                Some(p) => seq![EventView::PartEnd(Some(p), None)],
                None => Seq::empty(),
            }) + seq![EventView::PartStart(Some(t@), None)] + parts_events(
                Some(t@),
                items.drop_first(),
            ),
            _ => item_events(items[0]) + parts_events(current, items.drop_first()),
        }
    }
}

/// Whether a list of items holds a part title.
pub open spec fn has_parts(items: Seq<BookItem>) -> bool {
    exists|i: int| 0 <= i < items.len() && #[trigger] items[i] is PartTitle
}

/// The configuration events of a book.
pub open spec fn configuration_events(book: Book) -> Seq<EventView> {
    seq![EventView::BookConfigurationStart, EventView::Root(book.root@)] + (match book.title {
        Some(t) => seq![EventView::Title(t@)],
        None => Seq::empty(),
    }) + (if book.authors@.len() > 0 {
        seq![EventView::AuthorListStart] + book.authors@.map_values(
            |a: String| EventView::Author(a@),
        ) + seq![EventView::AuthorListEnd]
    } else {
        Seq::empty()
    }) + seq![EventView::BookConfigurationEnd]
}

/// The mdBook event stream of a book: its configuration, then its content;
/// a book without part titles is one unnamed part.
pub open spec fn book_events(book: Book) -> Seq<EventView> {
    configuration_events(book) + seq![EventView::BookContentStart] + (if has_parts(
        book.sections@,
    ) {
        parts_events(None, book.sections@)
    } else {
        seq![EventView::PartStart(None, None)] + items_events(book.sections@) + seq![
            EventView::PartEnd(None, None),
        ]
    }) + seq![EventView::BookContentEnd]
}

fn chapter_info_exec(c: &Chapter) -> (r: ChapterInfo)
    ensures
        r@ == chapter_info(*c),
{
    ChapterInfo {
        draft: c.path.is_none(),
        name: c.name.clone(),
        source_path: crate::event::copy_opt(&c.source_path),
    }
}

fn push_chapter(chapter: &Chapter, events: &mut Vec<Event>)
    ensures
        events_view(final(events)@) == events_view(old(events)@) + chapter_events(*chapter),
    decreases *chapter,
{
    let ghost start = events_view(events@);
    push_event(events, Event::ChapterStart(chapter_info_exec(chapter)));
    if crate::text::str_chars(chapter.content.as_str()).len() > 0 {
        push_events(events, &chapter.content_events);
        push_event(events, Event::ContentEnd);
    }
    let ghost mid = events_view(events@);
    push_items(&chapter.sub_items, events);
    push_event(events, Event::ChapterEnd(chapter_info_exec(chapter)));
    assert(events_view(events@) =~= start + chapter_events(*chapter));
}

fn push_items(items: &Vec<BookItem>, events: &mut Vec<Event>)
    ensures
        events_view(final(events)@) == events_view(old(events)@) + items_events(items@),
    decreases items,
{
    let ghost start = events_view(events@);
    let mut i: usize = 0;
    assert(start =~= start + items_events(items@.take(0)));
    while i < items.len()
        invariant
            i <= items.len(),
            events_view(events@) == start + items_events(items@.take(i as int)),
        decreases items.len() - i,
    {
        assert(items@.take(i + 1).drop_last() =~= items@.take(i as int));
        assert(items_events(items@.take(i + 1)) == items_events(items@.take(i as int))
            + item_events(items@[i as int]));
        let ghost before = events_view(events@);
        match &items[i] {
            BookItem::Chapter(chapter) => push_chapter(chapter, events),
            BookItem::Separator => push_event(events, Event::Separator),
            BookItem::PartTitle(_) => {},
        }
        assert(events_view(events@) =~= before + item_events(items@[i as int]));
        i = i + 1;
    }
    assert(items@.take(items.len() as int) =~= items@);
}

fn push_items_with_parts(items: &Vec<BookItem>, events: &mut Vec<Event>)
    ensures
        events_view(final(events)@) == events_view(old(events)@) + parts_events(None, items@),
{
    let ghost start = events_view(events@);
    let mut current_part: Option<String> = None;
    let mut i: usize = 0;
    assert(items@.skip(0) =~= items@);
    assert(start =~= start + Seq::<EventView>::empty());
    while i < items.len()
        invariant
            i <= items.len(),
            start + parts_events(None, items@) == events_view(events@) + parts_events(
                opt_view(current_part),
                items@.skip(i as int),
            ),
        decreases items.len() - i,
    {
        assert(items@.skip(i as int)[0] == items@[i as int]);
        assert(items@.skip(i as int).drop_first() =~= items@.skip(i + 1));
        let ghost before = events_view(events@);
        let ghost cur = opt_view(current_part);
        match &items[i] {
            BookItem::PartTitle(title) => {
                match &current_part {
                    Some(previous) => {
                        push_event(events, Event::PartEnd(Some(previous.clone()), None));
                    },
                    None => {},
                }
                current_part = Some(title.clone());
                push_event(events, Event::PartStart(Some(title.clone()), None));
            },
            BookItem::Chapter(chapter) => push_chapter(chapter, events),
            BookItem::Separator => push_event(events, Event::Separator),
        }
        assert(events_view(events@) + parts_events(opt_view(current_part), items@.skip(i + 1))
            =~= before + parts_events(cur, items@.skip(i as int)));
        i = i + 1;
    }
    let ghost before = events_view(events@);
    match &current_part {
        Some(part) => {
            push_event(events, Event::PartEnd(Some(part.clone()), None));
        },
        None => {},
    }
    assert(items@.skip(i as int) =~= Seq::<BookItem>::empty());
    assert(events_view(events@) =~= start + parts_events(None, items@));
}

fn push_configuration(book: &Book, events: &mut Vec<Event>)
    ensures
        events_view(final(events)@) == events_view(old(events)@) + configuration_events(*book),
{
    let ghost start = events_view(events@);
    push_event(events, Event::BookConfigurationStart);
    push_event(events, Event::Root(book.root.clone()));
    match &book.title {
        Some(title) => push_event(events, Event::Title(title.clone())),
        None => {},
    }
    let ghost before_authors = events_view(events@);
    if book.authors.len() > 0 {
        push_event(events, Event::AuthorListStart);
        let ghost before = events_view(events@);
        let ghost f = |a: String| EventView::Author(a@);
        let mut k: usize = 0;
        while k < book.authors.len()
            invariant
                k <= book.authors.len(),
                f == (|a: String| EventView::Author(a@)),
                events_view(events@) == before + book.authors@.take(k as int).map_values(f),
            decreases book.authors.len() - k,
        {
            push_event(events, Event::Author(book.authors[k].clone()));
            k = k + 1;
            assert(events_view(events@) =~= before + book.authors@.take(k as int).map_values(f));
        }
        assert(book.authors@.take(book.authors.len() as int) =~= book.authors@);
        push_event(events, Event::AuthorListEnd);
    }
    push_event(events, Event::BookConfigurationEnd);
    assert(events_view(events@) =~= start + configuration_events(*book));
}

fn has_part_titles(items: &Vec<BookItem>) -> (b: bool)
    ensures
        b == has_parts(items@),
{
    let mut k: usize = 0;
    while k < items.len()
        invariant
            k <= items.len(),
            forall|j: int| 0 <= j < k ==> !(#[trigger] items@[j] is PartTitle),
        decreases items.len() - k,
    {
        if matches!(&items[k], BookItem::PartTitle(_)) {
            return true;
        }
        k = k + 1;
    }
    false
}

/// Build the mdBook event stream of a book. Each chapter's content events
/// are those its [`Chapter`] carries: the Markdown parser's events for its
/// source, with tables and footnotes enabled, which the caller supplies.
pub fn mdbook_events(book: &Book) -> (events: Vec<Event>)
    ensures
        events_view(events@) == book_events(*book),
{
    let mut events: Vec<Event> = Vec::new();
    push_configuration(book, &mut events);
    push_event(&mut events, Event::BookContentStart);
    let ghost mid = events_view(events@);
    if !has_part_titles(&book.sections) {
        push_event(&mut events, Event::PartStart(None, None));
        push_items(&book.sections, &mut events);
        push_event(&mut events, Event::PartEnd(None, None));
    } else {
        push_items_with_parts(&book.sections, &mut events);
    }
    push_event(&mut events, Event::BookContentEnd);
    assert(events_view(events@) =~= book_events(*book));
    events
}

} // verus!
