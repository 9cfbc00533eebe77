//! Translating an mdBook 0.5 render context, as JSON, into the shape that
//! mdBook 0.4 reads.

use vstd::prelude::*;

verus! {

/// A JSON value.
#[derive(Debug)]
pub enum Json {
    Null,
    Bool(bool),
    /// A number, as written.
    Number(String),
    String(String),
    Array(Vec<Json>),
    /// An object: its members in order, each key once.
    Object(Vec<(String, Json)>),
}

/// The value of a [`Json`].
pub enum JsonView {
    Null,
    Bool(bool),
    Number(Seq<char>),
    String(Seq<char>),
    Array(Seq<JsonView>),
    Object(Seq<(Seq<char>, JsonView)>),
}

/// The value of a JSON value.
pub open spec fn json_view(v: Json) -> JsonView
    decreases v,
{
    match v {
        Json::Null => JsonView::Null,
        Json::Bool(b) => JsonView::Bool(b),
        Json::Number(n) => JsonView::Number(n@),
        Json::String(s) => JsonView::String(s@),
        Json::Array(a) => JsonView::Array(array_view(a@)),
        Json::Object(m) => JsonView::Object(members_view(m@)),
    }
}

/// The values of the elements of an array.
pub open spec fn array_view(a: Seq<Json>) -> Seq<JsonView>
    decreases a,
{
    if a.len() == 0 {
        Seq::empty()
    } else {
        array_view(a.drop_last()).push(json_view(a.last()))
    }
}

/// The values of the members of an object.
pub open spec fn members_view(m: Seq<(String, Json)>) -> Seq<(Seq<char>, JsonView)>
    decreases m,
{
    if m.len() == 0 {
        Seq::empty()
    } else {
        members_view(m.drop_last()).push((m.last().0@, json_view(m.last().1)))
    }
}

impl View for Json {
    type V = JsonView;

    open spec fn view(&self) -> JsonView {
        json_view(*self)
    }
}

/// `v` with every object member whose value is null removed, at any depth.
/// Null elements of arrays stay.
pub open spec fn strip_nulls_view(v: JsonView) -> JsonView
    decreases v,
{
    match v {
        JsonView::Array(a) => JsonView::Array(strip_elements(a)),
        JsonView::Object(m) => JsonView::Object(strip_members(m)),
        _ => v,
    }
}

/// Each element with its nulls stripped.
pub open spec fn strip_elements(a: Seq<JsonView>) -> Seq<JsonView>
    decreases a,
{
    if a.len() == 0 {
        a
    } else {
        strip_elements(a.drop_last()).push(strip_nulls_view(a.last()))
    }
}

/// The members whose value is not null, each value with its nulls stripped.
pub open spec fn strip_members(m: Seq<(Seq<char>, JsonView)>) -> Seq<(Seq<char>, JsonView)>
    decreases m,
{
    if m.len() == 0 {
        m
    } else if m.last().1 is Null {
        strip_members(m.drop_last())
    } else {
        strip_members(m.drop_last()).push((m.last().0, strip_nulls_view(m.last().1)))
    }
}

proof fn lemma_array_view_take(a: Seq<Json>, k: int)
    requires
        0 <= k < a.len(),
    ensures
        array_view(a.take(k + 1)) == array_view(a.take(k)).push(json_view(a[k])),
        array_view(a.take(k + 1)).len() == k + 1,
{
    assert(a.take(k + 1).drop_last() =~= a.take(k));
    lemma_array_view_len(a.take(k + 1));
}

proof fn lemma_array_view_len(a: Seq<Json>)
    ensures
        array_view(a).len() == a.len(),
    decreases a.len(),
{
    if a.len() > 0 {
        lemma_array_view_len(a.drop_last());
    }
}

proof fn lemma_members_view_take(m: Seq<(String, Json)>, k: int)
    requires
        0 <= k < m.len(),
    ensures
        members_view(m.take(k + 1)) == members_view(m.take(k)).push(
            (m[k].0@, json_view(m[k].1)),
        ),
{
    assert(m.take(k + 1).drop_last() =~= m.take(k));
}

/// A copy of `v` with every object member whose value is null removed.
fn stripped(v: &Json) -> (r: Json)
    ensures
        r@ == strip_nulls_view(v@),
    decreases v,
{
    match v {
        Json::Array(a) => {
            let mut out: Vec<Json> = Vec::new();
            let mut k: usize = 0;
            while k < a.len()
                invariant
                    k <= a.len(),
                    *v == Json::Array(*a),
                    array_view(out@) == strip_elements(array_view(a@.take(k as int))),
                    out@.len() == k,
                decreases a.len() - k,
            {
                proof {
                    lemma_array_view_take(a@, k as int);
                    lemma_array_view_len(a@.take(k as int));
                    assert(array_view(a@.take(k + 1)).drop_last() =~= array_view(
                        a@.take(k as int),
                    ));
                    assert(decreases_to!(*v => v->Array_0));
                    assert(decreases_to!(*a => a@));
                    assert(decreases_to!(a@ => a@[k as int]));
                }
                let y = stripped(&a[k]);
                let ghost before = out@;
                out.push(y);
                assert(out@.drop_last() =~= before);
                k = k + 1;
            }
            assert(a@.take(a.len() as int) =~= a@);
            Json::Array(out)
        },
        Json::Object(m) => {
            let mut out: Vec<(String, Json)> = Vec::new();
            let mut k: usize = 0;
            while k < m.len()
                invariant
                    k <= m.len(),
                    *v == Json::Object(*m),
                    members_view(out@) == strip_members(members_view(m@.take(k as int))),
                decreases m.len() - k,
            {
                proof {
                    lemma_members_view_take(m@, k as int);
                    assert(members_view(m@.take(k + 1)).drop_last() =~= members_view(
                        m@.take(k as int),
                    ));
                }
                let (key, x) = &m[k];
                if !matches!(x, Json::Null) {
                    proof {
                        assert(decreases_to!(*v => v->Object_0));
                        assert(decreases_to!(*m => m@));
                        assert(decreases_to!(m@ => m@[k as int]));
                        assert(decreases_to!(m@[k as int] => m@[k as int].1));
                    }
                    let y = stripped(x);
                    let ghost before = out@;
                    out.push((key.clone(), y));
                    assert(out@.drop_last() =~= before);
                }
                k = k + 1;
            }
            assert(m@.take(m.len() as int) =~= m@);
            Json::Object(out)
        },
        Json::Null => Json::Null,
        Json::Bool(b) => Json::Bool(*b),
        Json::Number(n) => Json::Number(n.clone()),
        Json::String(s) => Json::String(s.clone()),
    }
}

/// Remove every object member whose value is null, at any depth.
pub fn strip_nulls(value: &mut Json)
    ensures
        final(value)@ == strip_nulls_view(old(value)@),
{
    *value = stripped(value);
}

/// The position of the first member named `key`.
pub open spec fn member(m: Seq<(Seq<char>, JsonView)>, key: Seq<char>) -> Option<int>
    decreases m.len(),
{
    if m.len() == 0 {
        None
    } else {
        match member(m.drop_last(), key) {
            Some(i) => Some(i),
            None => if m.last().0 == key {
                Some(m.len() - 1)
            } else {
                None
            },
        }
    }
}

/// `m` with a member `key: v` added, unless it has a member named `key`.
pub open spec fn or_insert(m: Seq<(Seq<char>, JsonView)>, key: Seq<char>, v: JsonView) -> Seq<
    (Seq<char>, JsonView),
> {
    if member(m, key) is Some {
        m
    } else {
        m.push((key, v))
    }
}

/// The `book` object in the shape of mdBook 0.4: `items` renamed to
/// `sections` (kept where `sections` is already there), and a
/// `__non_exhaustive` member.
pub open spec fn book_for_04(b: Seq<(Seq<char>, JsonView)>) -> Seq<(Seq<char>, JsonView)> {
    let b1 = match member(b, "items"@) {
        Some(i) => or_insert(b.remove(i), "sections"@, b[i].1),
        None => b,
    };
    or_insert(b1, "__non_exhaustive"@, JsonView::Null)
}

/// A render context in the shape of mdBook 0.4: its `book` object fixed by
/// [`book_for_04`], its `config` without null members.
pub open spec fn translate_view(v: JsonView) -> JsonView {
    match v {
        JsonView::Object(m) => {
            let m1 = match member(m, "book"@) {
                Some(i) => match m[i].1 {
                    JsonView::Object(b) => m.update(i, (m[i].0, JsonView::Object(book_for_04(b)))),
                    _ => m,
                },
                None => m,
            };
            let m2 = match member(m1, "config"@) {
                Some(i) => m1.update(i, (m1[i].0, strip_nulls_view(m1[i].1))),
                None => m1,
            };
            JsonView::Object(m2)
        },
        _ => v,
    }
}

proof fn lemma_members_view_len(m: Seq<(String, Json)>)
    ensures
        members_view(m).len() == m.len(),
        forall|i: int| 0 <= i < m.len() ==> #[trigger] members_view(m)[i] == (m[i].0@, json_view(m[i].1)),
    decreases m.len(),
{
    if m.len() > 0 {
        lemma_members_view_len(m.drop_last());
        assert forall|i: int| 0 <= i < m.len() implies #[trigger] members_view(m)[i] == (
            m[i].0@,
            json_view(m[i].1),
        ) by {
            if i < m.len() - 1 {
                assert(m.drop_last()[i] == m[i]);
            }
        }
    }
}

/// `members_view` of a vector is the map of its views.
proof fn lemma_members_view_ext(m1: Seq<(String, Json)>, m2: Seq<(Seq<char>, JsonView)>)
    requires
        m1.len() == m2.len(),
        forall|i: int| 0 <= i < m1.len() ==> #[trigger] m2[i] == (m1[i].0@, json_view(m1[i].1)),
    ensures
        members_view(m1) == m2,
{
    lemma_members_view_len(m1);
    assert(members_view(m1) =~= m2);
}

fn find_member(m: &Vec<(String, Json)>, key: &str) -> (r: Option<usize>)
    ensures
        match r {
            Some(i) => member(members_view(m@), key@) == Some(i as int) && i < m.len(),
            None => member(members_view(m@), key@) is None,
        },
{
    proof {
        lemma_members_view_len(m@);
    }
    let k = String::from_str(key);
    let mut i: usize = 0;
    while i < m.len()
        invariant
            i <= m.len(),
            k@ == key@,
            members_view(m@).len() == m.len(),
            forall|j: int| 0 <= j < m.len() ==> #[trigger] members_view(m@)[j] == (m@[j].0@, json_view(m@[j].1)),
            member(members_view(m@).take(i as int), key@) is None,
        decreases m.len() - i,
    {
        let ghost mv = members_view(m@);
        assert(mv.take(i + 1).drop_last() =~= mv.take(i as int));
        if m[i].0 == k {
            proof {
                lemma_member_prefix(mv, i as int + 1, key@);
            }
            return Some(i);
        }
        i = i + 1;
    }
    assert(members_view(m@).take(m.len() as int) =~= members_view(m@));
    None
}

proof fn lemma_member_prefix(m: Seq<(Seq<char>, JsonView)>, n: int, key: Seq<char>)
    requires
        0 <= n <= m.len(),
        member(m.take(n), key) is Some,
    ensures
        member(m, key) == member(m.take(n), key),
    decreases m.len() - n,
{
    if n < m.len() {
        assert(m.take(n + 1).drop_last() =~= m.take(n));
        lemma_member_prefix(m, n + 1, key);
    } else {
        assert(m.take(n) =~= m);
    }
}

fn or_insert_exec(m: &mut Vec<(String, Json)>, key: &str, v: Json)
    ensures
        members_view(final(m)@) == or_insert(members_view(old(m)@), key@, v@),
{
    match find_member(m, key) {
        Some(_) => {},
        None => {
            let ghost before = m@;
            m.push((String::from_str(key), v));
            assert(m@.drop_last() =~= before);
        },
    }
}

fn fix_book(b: &mut Vec<(String, Json)>)
    ensures
        members_view(final(b)@) == book_for_04(members_view(old(b)@)),
{
    proof {
        lemma_members_view_len(old(b)@);
    }
    match find_member(b, "items") {
        Some(i) => {
            let ghost before = b@;
            let (_, items) = b.remove(i);
            proof {
                lemma_members_view_len(b@);
                lemma_members_view_ext(b@, members_view(before).remove(i as int));
            }
            or_insert_exec(b, "sections", items);
        },
        None => {},
    }
    or_insert_exec(b, "__non_exhaustive", Json::Null);
}

/// Translate an mdBook 0.5 render context into the shape that mdBook 0.4
/// reads: `book.items` becomes `book.sections` (an existing `sections` is
/// kept), `book` gets a `__non_exhaustive` member, and the `config` subtree
/// loses its null members.
pub fn translate_render_context(value: Json) -> (r: Json)
    ensures
        r@ == translate_view(value@),
{
    match value {
        Json::Object(mut m) => {
            let ghost m0 = members_view(m@);
            proof {
                lemma_members_view_len(m@);
            }
            match find_member(&m, "book") {
                Some(i) => {
                    let ghost before = m@;
                    let (key, book) = m.remove(i);
                    match book {
                        Json::Object(mut b) => {
                            fix_book(&mut b);
                            m.insert(i, (key, Json::Object(b)));
                        },
                        other => {
                            m.insert(i, (key, other));
                        },
                    }
                    proof {
                        lemma_members_view_len(m@);
                        lemma_members_view_len(before);
                        match before[i as int].1 {
                            Json::Object(b0) => {
                                lemma_members_view_ext(
                                    m@,
                                    m0.update(i as int, (m0[i as int].0, JsonView::Object(book_for_04(members_view(b0@))))),
                                );
                            },
                            _ => {
                                lemma_members_view_ext(m@, m0);
                            },
                        }
                    }
                },
                None => {},
            }
            let ghost m1 = members_view(m@);
            proof {
                lemma_members_view_len(m@);
            }
            match find_member(&m, "config") {
                Some(i) => {
                    let ghost before = m@;
                    let (key, mut config) = m.remove(i);
                    strip_nulls(&mut config);
                    m.insert(i, (key, config));
                    proof {
                        lemma_members_view_len(before);
                        lemma_members_view_ext(
                            m@,
                            m1.update(i as int, (m1[i as int].0, strip_nulls_view(m1[i as int].1))),
                        );
                    }
                },
                None => {},
            }
            Json::Object(m)
        },
        other => other,
    }
}

/// No object in `v`, at any depth, has a member whose value is null.
pub open spec fn null_free(v: JsonView) -> bool
    decreases v,
{
    match v {
        JsonView::Array(a) => elements_null_free(a),
        JsonView::Object(m) => members_null_free(m),
        _ => true,
    }
}

/// Each element is [`null_free`].
pub open spec fn elements_null_free(a: Seq<JsonView>) -> bool
    decreases a,
{
    if a.len() == 0 {
        true
    } else {
        elements_null_free(a.drop_last()) && null_free(a.last())
    }
}

/// No member is null, and each member's value is [`null_free`].
pub open spec fn members_null_free(m: Seq<(Seq<char>, JsonView)>) -> bool
    decreases m,
{
    if m.len() == 0 {
        true
    } else {
        members_null_free(m.drop_last()) && !(m.last().1 is Null) && null_free(m.last().1)
    }
}

proof fn lemma_strip_keeps_kind(v: JsonView)
    ensures
        (strip_nulls_view(v) is Null) == (v is Null),
{
}

/// After [`strip_nulls`] no object has a null member, and stripping again
/// changes nothing.
pub proof fn law_strip_nulls(v: JsonView)
    ensures
        null_free(strip_nulls_view(v)),
        strip_nulls_view(strip_nulls_view(v)) == strip_nulls_view(v),
    decreases v,
{
    match v {
        JsonView::Array(a) => {
            lemma_strip_elements(a);
        },
        JsonView::Object(m) => {
            lemma_strip_members(m);
        },
        _ => {},
    }
}

proof fn lemma_strip_elements(a: Seq<JsonView>)
    ensures
        elements_null_free(strip_elements(a)),
        strip_elements(strip_elements(a)) == strip_elements(a),
    decreases a,
{
    if a.len() > 0 {
        lemma_strip_elements(a.drop_last());
        law_strip_nulls(a.last());
        let r = strip_elements(a);
        assert(r.drop_last() =~= strip_elements(a.drop_last()));
    }
}

proof fn lemma_strip_members(m: Seq<(Seq<char>, JsonView)>)
    ensures
        members_null_free(strip_members(m)),
        strip_members(strip_members(m)) == strip_members(m),
    decreases m,
{
    if m.len() > 0 {
        lemma_strip_members(m.drop_last());
        if !(m.last().1 is Null) {
            law_strip_nulls(m.last().1);
            lemma_strip_keeps_kind(m.last().1);
            let r = strip_members(m);
            assert(r.drop_last() =~= strip_members(m.drop_last()));
        }
    }
}

/// The keys of an object's members are distinct.
pub open spec fn keys_distinct(m: Seq<(Seq<char>, JsonView)>) -> bool {
    forall|j: int, k: int| 0 <= j < k < m.len() ==> m[j].0 != m[k].0
}

proof fn lemma_member_found(m: Seq<(Seq<char>, JsonView)>, key: Seq<char>)
    ensures
        member(m, key) matches Some(i) ==> 0 <= i < m.len() && m[i].0 == key && forall|j: int|
            0 <= j < i ==> m[j].0 != key,
        member(m, key) is None ==> forall|j: int| 0 <= j < m.len() ==> m[j].0 != key,
    decreases m.len(),
{
    if m.len() > 0 {
        lemma_member_found(m.drop_last(), key);
        assert forall|j: int| 0 <= j < m.len() - 1 implies m[j] == m.drop_last()[j] by {}
    }
}

proof fn lemma_member_absent(m: Seq<(Seq<char>, JsonView)>, key: Seq<char>)
    requires
        forall|j: int| 0 <= j < m.len() ==> m[j].0 != key,
    ensures
        member(m, key) is None,
{
    lemma_member_found(m, key);
}

/// Translating a translated render context changes nothing: the shape of
/// mdBook 0.4 is a fixed point. (The `book` object's keys are distinct, as
/// in any JSON object that a parser builds.)
pub proof fn law_translate_idempotent(v: JsonView)
    requires
        v matches JsonView::Object(m) ==> (member(m, "book"@) matches Some(i) ==> (
        m[i].1 matches JsonView::Object(b) ==> keys_distinct(b))),
    ensures
        translate_view(translate_view(v)) == translate_view(v),
{
    reveal_strlit("book");
    reveal_strlit("config");
    reveal_strlit("items");
    reveal_strlit("sections");
    reveal_strlit("__non_exhaustive");
    match v {
        JsonView::Object(m) => {
            lemma_member_found(m, "book"@);
            let m1 = match member(m, "book"@) {
                Some(i) => match m[i].1 {
                    JsonView::Object(b) => m.update(i, (m[i].0, JsonView::Object(book_for_04(b)))),
                    _ => m,
                },
                None => m,
            };
            assert(m1.len() == m.len());
            assert forall|j: int| 0 <= j < m.len() implies #[trigger] m1[j].0 == m[j].0 by {}
            lemma_member_found(m1, "config"@);
            let m2 = match member(m1, "config"@) {
                Some(i) => m1.update(i, (m1[i].0, strip_nulls_view(m1[i].1))),
                None => m1,
            };
            assert(m2.len() == m.len());
            assert forall|j: int| 0 <= j < m.len() implies #[trigger] m2[j].0 == m[j].0 by {}
            lemma_member_found(m2, "book"@);
            lemma_member_found(m2, "config"@);
            assert(member(m2, "book"@) == member(m, "book"@)) by {
                match member(m, "book"@) {
                    Some(i) => lemma_member_unique_first(m2, "book"@, i),
                    None => lemma_member_absent(m2, "book"@),
                }
            }
            assert(member(m2, "config"@) == member(m1, "config"@)) by {
                match member(m1, "config"@) {
                    Some(i) => lemma_member_unique_first(m2, "config"@, i),
                    None => lemma_member_absent(m2, "config"@),
                }
            }
            assert("book"@ != "config"@) by {
                assert("book"@.len() != "config"@.len());
            }
            // The book, fixed twice.
            match member(m, "book"@) {
                Some(i) => {
                    match m[i].1 {
                        JsonView::Object(b) => {
                            lemma_book_for_04_idempotent(b);
                            assert(m1[i] == (m[i].0, JsonView::Object(book_for_04(b))));
                            assert(m2[i].1 == JsonView::Object(book_for_04(b))) by {
                                match member(m1, "config"@) {
                                    Some(c) => {
                                        assert(m1[c].0 == "config"@);
                                        assert(c != i);
                                    },
                                    None => {},
                                }
                            }
                        },
                        _ => {
                            assert(m1 == m);
                            assert(m2[i].1 == m[i].1) by {
                                match member(m1, "config"@) {
                                    Some(c) => {
                                        assert(m1[c].0 == "config"@);
                                        assert(c != i);
                                    },
                                    None => {},
                                }
                            }
                        },
                    }
                },
                None => {},
            }
            match member(m1, "config"@) {
                Some(c) => {
                    law_strip_nulls(m1[c].1);
                },
                None => {},
            }
            let m3 = match member(m2, "book"@) {
                Some(i) => match m2[i].1 {
                    JsonView::Object(b) => m2.update(i, (m2[i].0, JsonView::Object(book_for_04(b)))),
                    _ => m2,
                },
                None => m2,
            };
            assert(m3 =~= m2);
            assert(m3.len() == m.len());
            assert forall|j: int| 0 <= j < m.len() implies #[trigger] m3[j].0 == m[j].0 by {}
            lemma_member_found(m3, "config"@);
            assert(member(m3, "config"@) == member(m1, "config"@)) by {
                match member(m1, "config"@) {
                    Some(i) => lemma_member_unique_first(m3, "config"@, i),
                    None => lemma_member_absent(m3, "config"@),
                }
            }
            let m4 = match member(m3, "config"@) {
                Some(i) => m3.update(i, (m3[i].0, strip_nulls_view(m3[i].1))),
                None => m3,
            };
            assert(m4 =~= m2);
        },
        _ => {},
    }
}

proof fn lemma_member_unique_first(m: Seq<(Seq<char>, JsonView)>, key: Seq<char>, i: int)
    requires
        0 <= i < m.len(),
        m[i].0 == key,
        forall|j: int| 0 <= j < i ==> m[j].0 != key,
    ensures
        member(m, key) == Some(i),
    decreases m.len(),
{
    if i < m.len() - 1 {
        lemma_member_unique_first(m.drop_last(), key, i);
    } else {
        lemma_member_absent(m.drop_last(), key);
    }
}

proof fn lemma_book_for_04_idempotent(b: Seq<(Seq<char>, JsonView)>)
    requires
        keys_distinct(b),
    ensures
        book_for_04(book_for_04(b)) == book_for_04(b),
        member(book_for_04(b), "items"@) is None,
{
    reveal_strlit("items");
    reveal_strlit("sections");
    reveal_strlit("__non_exhaustive");
    lemma_member_found(b, "items"@);
    let b1 = match member(b, "items"@) {
        Some(i) => or_insert(b.remove(i), "sections"@, b[i].1),
        None => b,
    };
    assert("sections"@ != "items"@) by {
        assert("sections"@.len() != "items"@.len());
    }
    assert forall|j: int| 0 <= j < b1.len() implies #[trigger] b1[j].0 != "items"@ by {
        match member(b, "items"@) {
            Some(i) => {
                let r = b.remove(i);
                lemma_member_found(r, "sections"@);
                if j < r.len() {
                    assert(b1[j] == r[j]);
                    if j < i {
                        assert(r[j] == b[j]);
                    } else {
                        assert(r[j] == b[j + 1]);
                        assert(b[i].0 != b[j + 1].0);
                    }
                } else {
                    assert(b1[j].0 == "sections"@);
                }
            },
            None => {},
        }
    }
    let b2 = or_insert(b1, "__non_exhaustive"@, JsonView::Null);
    assert("__non_exhaustive"@ != "items"@) by {
        assert("__non_exhaustive"@.len() != "items"@.len());
    }
    assert forall|j: int| 0 <= j < b2.len() implies #[trigger] b2[j].0 != "items"@ by {
        if j < b1.len() {
            assert(b2[j] == b1[j]);
        } else {
            assert(b2 == b1.push(("__non_exhaustive"@, JsonView::Null)));
            assert(j == b1.len());
            assert(b2[j].0 == "__non_exhaustive"@);
        }
    }
    lemma_member_absent(b2, "items"@);
    lemma_member_found(b2, "__non_exhaustive"@);
    lemma_member_found(b1, "__non_exhaustive"@);
    if member(b1, "__non_exhaustive"@) is None {
        assert(b2[b1.len() as int].0 == "__non_exhaustive"@);
        lemma_member_unique_first_or_earlier(b2, "__non_exhaustive"@, b1.len() as int);
    }
}

proof fn lemma_member_push(m: Seq<(Seq<char>, JsonView)>, x: (Seq<char>, JsonView), key: Seq<char>)
    ensures
        member(m.push(x), key) == (match member(m, key) {
            Some(i) => Some(i),
            None => if x.0 == key {
                Some(m.len() as int)
            } else {
                None
            },
        }),
{
    assert(m.push(x).drop_last() =~= m);
}

/// The `book` object that translation writes has the shape of mdBook 0.4: no
/// `items` member, a `__non_exhaustive` member, and a `sections` member
/// exactly where the given object had `items` or `sections`. (Its keys are
/// distinct, as in any JSON object that a parser builds.)
pub proof fn law_book_for_04_shape(b: Seq<(Seq<char>, JsonView)>)
    requires
        keys_distinct(b),
    ensures
        member(book_for_04(b), "items"@) is None,
        member(book_for_04(b), "__non_exhaustive"@) is Some,
        member(book_for_04(b), "sections"@) is Some <==> (member(b, "items"@) is Some || member(
            b,
            "sections"@,
        ) is Some),
{
    reveal_strlit("items");
    reveal_strlit("sections");
    reveal_strlit("__non_exhaustive");
    assert("sections"@ != "items"@) by {
        assert("sections"@.len() != "items"@.len());
    }
    assert("__non_exhaustive"@ != "items"@) by {
        assert("__non_exhaustive"@.len() != "items"@.len());
    }
    assert("__non_exhaustive"@ != "sections"@) by {
        assert("__non_exhaustive"@.len() != "sections"@.len());
    }
    lemma_book_for_04_idempotent(b);
    lemma_member_found(b, "items"@);
    lemma_member_found(b, "sections"@);
    let b1 = match member(b, "items"@) {
        Some(i) => or_insert(b.remove(i), "sections"@, b[i].1),
        None => b,
    };
    let sections_before = member(b, "items"@) is Some || member(b, "sections"@) is Some;
    assert(member(b1, "sections"@) is Some <==> sections_before) by {
        match member(b, "items"@) {
            Some(i) => {
                let r = b.remove(i);
                lemma_member_found(r, "sections"@);
                if member(r, "sections"@) is None {
                    lemma_member_push(r, ("sections"@, b[i].1), "sections"@);
                }
            },
            None => {},
        }
    }
    let b2 = or_insert(b1, "__non_exhaustive"@, JsonView::Null);
    assert(member(b2, "sections"@) == member(b1, "sections"@)) by {
        if member(b1, "__non_exhaustive"@) is None {
            lemma_member_push(b1, ("__non_exhaustive"@, JsonView::Null), "sections"@);
        }
    }
    assert(member(b2, "__non_exhaustive"@) is Some) by {
        if member(b1, "__non_exhaustive"@) is None {
            lemma_member_push(b1, ("__non_exhaustive"@, JsonView::Null), "__non_exhaustive"@);
        }
    }
}

proof fn lemma_member_unique_first_or_earlier(m: Seq<(Seq<char>, JsonView)>, key: Seq<char>, i: int)
    requires
        0 <= i < m.len(),
        m[i].0 == key,
    ensures
        member(m, key) is Some,
{
    lemma_member_found(m, key);
}

} // verus!
