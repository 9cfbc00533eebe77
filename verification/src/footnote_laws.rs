//! Properties of the footnote handling that hold for every stream.

use vstd::prelude::*;

use crate::converters::{stream_defs, text_defs};
use crate::pattern::regex_captures;
use crate::event::EventView;
use crate::footnotes::{
    definition_at, definition_end, definitions_from, footnote_emit, lemma_definition_end_bounds,
};

verus! {

/// The definitions that a later event adds never take away an earlier one:
/// every label defined in `s` is still defined once `e` follows, with the
/// same content unless `e` is a text that defines the label again, in which
/// case the later definition is the one that counts.
pub proof fn law_later_text_keeps_earlier_definitions(s: Seq<EventView>, e: EventView, p: Seq<char>)
    ensures
        stream_defs(s, p).dom().subset_of(stream_defs(s.push(e), p).dom()),
        forall|l: Seq<char>|
            #![trigger stream_defs(s.push(e), p)[l]]
            stream_defs(s, p).contains_key(l) && !(e matches EventView::Text(t)
                && text_defs(regex_captures(p, t)).contains_key(l)) ==> stream_defs(s.push(e), p)[l]
                == stream_defs(s, p)[l],
        forall|l: Seq<char>|
            #![trigger stream_defs(s.push(e), p)[l]]
            (e matches EventView::Text(t) && text_defs(regex_captures(p, t)).contains_key(l))
                ==> stream_defs(s.push(e), p).contains_key(l) && stream_defs(s.push(e), p)[l]
                == text_defs(regex_captures(p, e->Text_0))[l],
{
    assert(s.push(e).drop_last() =~= s);
    assert(s.push(e).last() == e);
}

/// Every label defined in any text of a stream is defined for the whole
/// stream, so that a reference may come before its definition.
pub proof fn law_every_text_definition_counts(s: Seq<EventView>, i: int, p: Seq<char>)
    requires
        0 <= i < s.len(),
        s[i] is Text,
    ensures
        text_defs(regex_captures(p, s[i]->Text_0)).dom().subset_of(stream_defs(s, p).dom()),
    decreases s.len(),
{
    let t = s.drop_last();
    assert(s =~= t.push(s.last()));
    law_later_text_keeps_earlier_definitions(t, s.last(), p);
    if i < s.len() - 1 {
        assert(t[i] == s[i]);
        law_every_text_definition_counts(t, i, p);
    }
}

/// The label of the definition that starts at `i`.
pub open spec fn label_at(s: Seq<EventView>, i: int) -> Seq<char> {
    s[i]->FootnoteDefinitionStart_0
}

/// No footnote definition starts inside the body of a complete one.
pub open spec fn definitions_do_not_nest(s: Seq<EventView>) -> bool {
    forall|j: int, k: int|
        #![trigger definition_at(s, j), s[k]]
        definition_at(s, j) && j < k < definition_end(s, j + 1) ==> !(s[k] is FootnoteDefinitionStart)
}

proof fn lemma_defined_labels_come_from_definitions(s: Seq<EventView>, m: int, l: Seq<char>)
    requires
        0 <= m,
        definitions_from(s, m).contains_key(l),
    ensures
        exists|j: int| m <= j && #[trigger] definition_at(s, j) && label_at(s, j) == l,
    decreases s.len() - m,
{
    if m < s.len() {
        if definition_at(s, m) {
            let e = definition_end(s, m + 1);
            lemma_definition_end_bounds(s, m + 1);
            if label_at(s, m) == l {
                assert(definition_at(s, m));
            } else {
                lemma_defined_labels_come_from_definitions(s, e + 1, l);
            }
        } else {
            lemma_defined_labels_come_from_definitions(s, m + 1, l);
        }
    }
}

proof fn lemma_definition_found_from(s: Seq<EventView>, k: int, i: int)
    requires
        0 <= k <= i,
        definition_at(s, i),
        forall|j: int| i < j && #[trigger] definition_at(s, j) ==> label_at(s, j) != label_at(s, i),
        forall|j: int| k <= j < i && #[trigger] definition_at(s, j) ==> definition_end(s, j + 1) < i,
    ensures
        definitions_from(s, k).contains_key(label_at(s, i)),
        definitions_from(s, k)[label_at(s, i)] == s.subrange(i + 1, definition_end(s, i + 1)),
    decreases i - k,
{
    let l = label_at(s, i);
    if k == i {
        let e = definition_end(s, i + 1);
        lemma_definition_end_bounds(s, i + 1);
        if definitions_from(s, e + 1).contains_key(l) {
            lemma_defined_labels_come_from_definitions(s, e + 1, l);
            let j = choose|j: int| e + 1 <= j && #[trigger] definition_at(s, j) && label_at(s, j) == l;
            assert(false);
        }
    } else if definition_at(s, k) {
        let e = definition_end(s, k + 1);
        lemma_definition_end_bounds(s, k + 1);
        lemma_definition_found_from(s, e + 1, i);
    } else {
        lemma_definition_found_from(s, k + 1, i);
    }
}

/// Every complete footnote definition of a stream whose definitions do not
/// nest is collected, not only the first: the label of a definition that
/// starts at `i`, and that no later definition redefines, maps to the
/// events of its body, so each reference to it becomes a footnote with that
/// body.
pub proof fn law_every_definition_is_collected(s: Seq<EventView>, i: int)
    requires
        definition_at(s, i),
        definitions_do_not_nest(s),
        forall|j: int| i < j && #[trigger] definition_at(s, j) ==> label_at(s, j) != label_at(s, i),
    ensures
        definitions_from(s, 0).contains_key(label_at(s, i)),
        definitions_from(s, 0)[label_at(s, i)] == s.subrange(i + 1, definition_end(s, i + 1)),
        footnote_emit(EventView::FootnoteReference(label_at(s, i)), definitions_from(s, 0)) == seq![
            EventView::Raw("#footnote["@),
        ] + s.subrange(i + 1, definition_end(s, i + 1)) + seq![EventView::Raw("]"@)],
{
    assert forall|j: int| 0 <= j < i && #[trigger] definition_at(s, j) implies definition_end(
        s,
        j + 1,
    ) < i by {
        lemma_definition_end_bounds(s, j + 1);
        if definition_end(s, j + 1) >= i {
            assert(definition_end(s, j + 1) != i);
            assert(s[i] is FootnoteDefinitionStart);
        }
    }
    lemma_definition_found_from(s, 0, i);
}

} // verus!
