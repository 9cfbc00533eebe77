//! Regular expressions, through the `regex` crate.

use regex::Regex;
use vstd::prelude::*;

use crate::event::strings_view;

verus! {

/// `regex::Regex`, which verified code carries without looking inside.
#[verifier::external_type_specification]
#[verifier::external_body]
pub struct ExRegex(Regex);

/// Whether `regex::Regex::new` accepts the pattern.
pub uninterp spec fn regex_compiles(pattern: Seq<char>) -> bool;

/// The pieces of a haystack between the matches of a pattern, as
/// `regex::Regex::split` yields them.
pub uninterp spec fn regex_split(pattern: Seq<char>, haystack: Seq<char>) -> Seq<Seq<char>>;

/// The capture groups (group 0 being the whole match) of each successive
/// match of a pattern in a haystack, as `regex::Regex::captures_iter` yields them.
pub uninterp spec fn regex_captures(pattern: Seq<char>, haystack: Seq<char>) -> Seq<
    Seq<Option<Seq<char>>>,
>;

/// The values of the groups of one match.
pub open spec fn groups_view(g: Seq<Option<String>>) -> Seq<Option<Seq<char>>> {
    g.map_values(|o: Option<String>| crate::event::opt_view(o))
}

/// The values of the groups of each match.
pub open spec fn captures_view(c: Seq<Vec<Option<String>>>) -> Seq<Seq<Option<Seq<char>>>> {
    c.map_values(|g: Vec<Option<String>>| groups_view(g@))
}

/// A compiled regular expression and its pattern.
pub struct Pattern {
    source: String,
    regex: Regex,
}

impl View for Pattern {
    type V = Seq<char>;

    closed spec fn view(&self) -> Seq<char> {
        self.source@
    }
}

impl Pattern {
    /// Compiles `pattern` with `regex::Regex::new`; `None` where the crate
    /// refuses the pattern. Nothing is claimed of which patterns it refuses.
    #[verifier::external_body]
    pub(crate) fn compile(pattern: &str) -> (r: Option<Pattern>)
        ensures
            r is Some <==> regex_compiles(pattern@),
            r matches Some(p) ==> p@ == pattern@,
    {
        Regex::new(pattern).ok().map(|regex| Pattern { source: pattern.to_string(), regex })
    }

    /// The pieces of `haystack` between the matches (`regex::Regex::split`),
    /// named by `regex_split` of the pattern and the haystack.
    #[verifier::external_body]
    pub(crate) fn split(&self, haystack: &str) -> (r: Vec<String>)
        ensures
            strings_view(r@) == regex_split(self@, haystack@),
    {
        self.regex.split(haystack).map(|s| s.to_string()).collect()
    }

    /// The capture groups of each match (`regex::Regex::captures_iter`),
    /// named by `regex_captures` of the pattern and the haystack.
    #[verifier::external_body]
    pub(crate) fn captures(&self, haystack: &str) -> (r: Vec<Vec<Option<String>>>)
        ensures
            captures_view(r@) == regex_captures(self@, haystack@),
    {
        self.regex.captures_iter(haystack).map(
            |c| c.iter().map(|g| g.map(|m| m.as_str().to_string())).collect(),
        ).collect()
    }
}

/// The pieces of `pieces` with `between[k]` put after piece `k`, for each
/// piece but the last (`regex::Regex::replace_all` assembles its result so).
pub open spec fn interleave(pieces: Seq<Seq<char>>, between: Seq<Seq<char>>) -> Seq<char>
    decreases pieces.len(),
{
    if pieces.len() == 0 {
        Seq::empty()
    } else {
        let k = pieces.len() - 1;
        interleave(pieces.drop_last(), between) + (if k > 0 && k - 1 < between.len() {
            between[k - 1]
        } else {
            Seq::empty()
        }) + pieces.last()
    }
}

/// The concatenation of `pieces`.
pub open spec fn concat(pieces: Seq<Seq<char>>) -> Seq<char>
    decreases pieces.len(),
{
    if pieces.len() == 0 {
        Seq::empty()
    } else {
        concat(pieces.drop_last()) + pieces.last()
    }
}

/// The concatenation of the strings of `pieces`.
pub fn concat_strings(pieces: &Vec<String>) -> (r: Vec<char>)
    ensures
        r@ == concat(strings_view(pieces@)),
{
    let ghost p = strings_view(pieces@);
    let mut r: Vec<char> = Vec::new();
    let mut i: usize = 0;
    while i < pieces.len()
        invariant
            i <= pieces.len(),
            p == strings_view(pieces@),
            r@ == concat(p.take(i as int)),
        decreases pieces.len() - i,
    {
        assert(p.take(i + 1).drop_last() =~= p.take(i as int));
        crate::text::push_str(&mut r, pieces[i].as_str());
        i = i + 1;
    }
    assert(p.take(pieces.len() as int) =~= p);
    r
}

/// `pieces` interleaved with `between`.
pub fn interleave_strings(pieces: &Vec<String>, between: &Vec<Vec<char>>) -> (r: Vec<char>)
    ensures
        r@ == interleave(strings_view(pieces@), between@.map_values(|v: Vec<char>| v@)),
{
    let ghost p = strings_view(pieces@);
    let ghost b = between@.map_values(|v: Vec<char>| v@);
    let mut r: Vec<char> = Vec::new();
    let mut i: usize = 0;
    while i < pieces.len()
        invariant
            i <= pieces.len(),
            p == strings_view(pieces@),
            b == between@.map_values(|v: Vec<char>| v@),
            r@ == interleave(p.take(i as int), b),
        decreases pieces.len() - i,
    {
        assert(p.take(i + 1).drop_last() =~= p.take(i as int));
        if i > 0 && i - 1 < between.len() {
            crate::text::push_all(&mut r, &between[i - 1]);
        }
        crate::text::push_str(&mut r, pieces[i].as_str());
        i = i + 1;
        assert(r@ =~= interleave(p.take(i as int), b));
    }
    assert(p.take(pieces.len() as int) =~= p);
    r
}

} // verus!
