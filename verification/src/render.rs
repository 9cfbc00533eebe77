//! The decisions the backend makes around the event stream: which settings
//! are in force, the document-level markup it synthesises, where a user
//! template goes, and the name of the output file.

use vstd::prelude::*;
use vstd::pervasive::cloned;
use crate::event::opt_view;
use crate::text::{
    chars_to_string, contains, contains_chars, push_all, push_str, replace, replace_str, slice,
    starts_with, starts_with_chars, str_chars, trim_start, trim_start_chars,
};

verus! {

/// `None` for the empty string, otherwise the string itself.
pub open spec fn non_empty(x: Seq<char>) -> Option<Seq<char>> {
    if x.len() == 0 {
        None
    } else {
        Some(x)
    }
}

/// An empty setting means "leave this out": `None`; any other value is kept.
pub fn none_on_empty(x: &str) -> (r: Option<String>)
    ensures
        r matches Some(s) ==> s@ == x@,
        r is None <==> x@.len() == 0,
{
    if x.is_empty() {
        None
    } else {
        Some(x.to_owned())
    }
}

/// An empty list means "leave this out": `None`; any other list is cloned.
pub fn none_on_empty_vec<T: Clone>(x: &[T]) -> (r: Option<Vec<T>>)
    ensures
        r is None <==> x@.len() == 0,
        r matches Some(v) ==> v@.len() == x@.len() && forall|i: int|
            0 <= i < x@.len() ==> cloned(x@[i], #[trigger] v@[i]),
{
    if x.is_empty() {
        None
    } else {
        let mut v: Vec<T> = Vec::new();
        let mut i: usize = 0;
        while i < x.len()
            invariant
                i <= x@.len(),
                v@.len() == i,
                forall|j: int| 0 <= j < i ==> cloned(x@[j], #[trigger] v@[j]),
            decreases x@.len() - i,
        {
            let c = x[i].clone();
            v.push(c);
            i = i + 1;
        }
        Some(v)
    }
}

/// A setting as configured, with its default where it is not configured at
/// all: `None` (absent) gives the default, the empty string gives `None`.
pub open spec fn setting(value: Option<Seq<char>>, default: Seq<char>) -> Option<Seq<char>> {
    match value {
        None => Some(default),
        Some(v) => non_empty(v),
    }
}

/// The value of a setting: its default where it is absent, nothing where it
/// is set to the empty string, and the configured value otherwise.
pub fn resolve_setting(value: Option<&str>, default: &str) -> (r: Option<String>)
    ensures
        r matches Some(s) ==> setting(str_opt_view(value), default@) == Some(s@),
        r is None <==> setting(str_opt_view(value), default@) is None,
{
    match value {
        None => Some(default.to_owned()),
        Some(v) => none_on_empty(v),
    }
}

/// `s` in double quotes, as Typst writes a string.
pub open spec fn quoted(s: Seq<char>) -> Seq<char> {
    seq!['"'] + s + seq!['"']
}

/// Puts `s` in double quotes.
pub fn quote(s: &str) -> (r: String)
    ensures
        r@ == quoted(s@),
{
    let mut v: Vec<char> = Vec::new();
    v.push('"');
    push_str(&mut v, s);
    v.push('"');
    chars_to_string(&v)
}

pub open spec fn heading_rule_prefix() -> Seq<char> {
    "\n        #show heading: it => [\n            #block("@
}

pub open spec fn heading_rule_suffix() -> Seq<char> {
    ", it)\n        ]\n"@
}

/// The show rule that spaces headings: `above` and `below` are emitted
/// together in one block, and no rule is emitted when neither is set.
pub open spec fn heading_rule(above: Option<Seq<char>>, below: Option<Seq<char>>) -> Option<
    Seq<char>,
> {
    match (above, below) {
        (None, None) => None,
        (None, Some(b)) => Some(heading_rule_prefix() + "below: "@ + b + heading_rule_suffix()),
        (Some(a), None) => Some(heading_rule_prefix() + "above: "@ + a + heading_rule_suffix()),
        (Some(a), Some(b)) => Some(
            heading_rule_prefix() + "above: "@ + a + ", below: "@ + b + heading_rule_suffix(),
        ),
    }
}

/// The value of an optional string slice.
pub open spec fn str_opt_view(o: Option<&str>) -> Option<Seq<char>> {
    match o {
        Some(s) => Some(s@),
        None => None,
    }
}

/// The raw markup of the heading-spacing show rule.
pub fn heading_spacing_rule(above: &Option<String>, below: &Option<String>) -> (r: Option<String>)
    ensures
        r matches Some(s) ==> heading_rule(opt_view(*above), opt_view(*below))
            == Some(s@),
        r is None <==> heading_rule(opt_view(*above), opt_view(*below)) is None,
{
    let mut v: Vec<char> = Vec::new();
    match (above, below) {
        (None, None) => {
            return None;
        },
        (None, Some(b)) => {
            push_str(&mut v, "\n        #show heading: it => [\n            #block(");
            push_str(&mut v, "below: ");
            push_str(&mut v, b.as_str());
        },
        (Some(a), None) => {
            push_str(&mut v, "\n        #show heading: it => [\n            #block(");
            push_str(&mut v, "above: ");
            push_str(&mut v, a.as_str());
        },
        (Some(a), Some(b)) => {
            push_str(&mut v, "\n        #show heading: it => [\n            #block(");
            push_str(&mut v, "above: ");
            push_str(&mut v, a.as_str());
            push_str(&mut v, ", below: ");
            push_str(&mut v, b.as_str());
        },
    }
    push_str(&mut v, ", it)\n        ]\n");
    Some(chars_to_string(&v))
}

/// The lines that import and apply a user template: present only where both
/// its file name and its argument are set.
pub open spec fn template_lines(name: Option<Seq<char>>, arg: Option<Seq<char>>) -> Seq<char> {
    match (name, arg) {
        (Some(n), Some(a)) => "#import \""@ + n + "\": template\n#show: template.with(\n"@ + a
            + ")\n"@,
        _ => Seq::empty(),
    }
}

/// The markup that imports and applies a user template.
pub fn template_markup(name: &Option<String>, arg: &Option<String>) -> (r: String)
    ensures
        r@ == template_lines(opt_view(*name), opt_view(*arg)),
{
    let mut v: Vec<char> = Vec::new();
    match (name, arg) {
        (Some(n), Some(a)) => {
            push_str(&mut v, "#import \"");
            push_str(&mut v, n.as_str());
            push_str(&mut v, "\": template\n#show: template.with(\n");
            push_str(&mut v, a.as_str());
            push_str(&mut v, ")\n");
        },
        _ => {},
    }
    chars_to_string(&v)
}

/// The position just after the line that starts at `i`: after its `\n`, or
/// the end of `s` for a last line without one.
pub open spec fn line_end(s: Seq<char>, i: int) -> int
    decreases s.len() - i,
{
    if i < 0 || i >= s.len() {
        s.len() as int
    } else if s[i] == '\n' {
        i + 1
    } else {
        line_end(s, i + 1)
    }
}

pub proof fn lemma_line_end_bounds(s: Seq<char>, i: int)
    requires
        0 <= i < s.len(),
    ensures
        i < line_end(s, i) <= s.len(),
    decreases s.len() - i,
{
    if s[i] != '\n' {
        if i + 1 < s.len() {
            lemma_line_end_bounds(s, i + 1);
        } else {
            assert(line_end(s, i + 1) == s.len());
        }
    }
}

/// The line of `s` that starts at `i` sets a document-level rule: it starts
/// with `#set` once its leading whitespace is trimmed.
pub open spec fn is_set_line(s: Seq<char>, i: int) -> bool {
    starts_with(trim_start(s.subrange(i, line_end(s, i))), "#set"@)
}

/// Where a template goes in `s`, looking from the line that starts at `i`:
/// at the start of the first line that is not a `#set` line, or nowhere when
/// every line is one.
pub open spec fn template_position(s: Seq<char>, i: int) -> Option<int>
    decreases s.len() - i,
{
    if i < 0 || i >= s.len() {
        None
    } else if !is_set_line(s, i) {
        Some(i)
    } else {
        proof {
            lemma_line_end_bounds(s, i);
        }
        template_position(s, line_end(s, i))
    }
}

/// `markup` with `template` inserted after the leading `#set` lines, or at
/// the end where every line is one.
pub open spec fn with_template(markup: Seq<char>, template: Seq<char>) -> Seq<char> {
    match template_position(markup, 0) {
        Some(k) => markup.take(k) + template + markup.skip(k),
        None => markup + template,
    }
}

/// Inserts a user template after the document-level `#set` lines of the
/// generated markup.
pub fn insert_template(markup: &str, template: &str) -> (r: String)
    ensures
        r@ == with_template(markup@, template@),
{
    let m = str_chars(markup);
    let set = str_chars("#set");
    let mut i: usize = 0;
    let mut pos: Option<usize> = None;
    while i < m.len()
        invariant_except_break
            i <= m@.len(),
            template_position(m@, 0) == template_position(m@, i as int),
            pos is None,
        invariant
            set@ == "#set"@,
        ensures
            match pos {
                Some(k) => template_position(m@, 0) == Some(k as int) && k <= m@.len(),
                None => template_position(m@, 0) is None,
            },
        decreases m@.len() - i,
    {
        let mut e: usize = i;
        while e < m.len() && m[e] != '\n'
            invariant
                i <= e <= m@.len(),
                i < m@.len(),
                line_end(m@, i as int) == line_end(m@, e as int),
                forall|j: int| i <= j < e ==> m@[j] != '\n',
            decreases m@.len() - e,
        {
            e = e + 1;
        }
        if e < m.len() {
            e = e + 1;
        }
        assert(e == line_end(m@, i as int));
        let line = slice(&m, i, e);
        let trimmed = trim_start_chars(&line);
        if !starts_with_chars(&trimmed, &set) {
            pos = Some(i);
            break;
        }
        proof {
            lemma_line_end_bounds(m@, i as int);
        }
        i = e;
    }
    let mut out: Vec<char> = Vec::new();
    match pos {
        Some(k) => {
            let head = slice(&m, 0, k);
            let tail = slice(&m, k, m.len());
            push_all(&mut out, &head);
            push_str(&mut out, template);
            push_all(&mut out, &tail);
            assert(head@ == m@.take(k as int));
            assert(tail@ == m@.skip(k as int));
        },
        None => {
            push_all(&mut out, &m);
            push_str(&mut out, template);
        },
    }
    chars_to_string(&out)
}

/// The final touches on the generated markup: escaped footnote calls are
/// unescaped and every `====` becomes `===`.
pub open spec fn finished(markup: Seq<char>) -> Seq<char> {
    replace(replace(markup, "\\#footnote"@, "#footnote"@), "===="@, "==="@)
}

/// Applies the final touches to the generated markup.
pub fn finish_markup(markup: &str) -> (r: String)
    ensures
        r@ == finished(markup@),
{
    proof {
        reveal_strlit("\\#footnote");
        reveal_strlit("====");
    }
    let m = str_chars(markup);
    let a = replace_str(&m, "\\#footnote", "#footnote");
    let b = replace_str(&a, "====", "===");
    chars_to_string(&b)
}

/// The formats the backend can produce.
#[derive(Clone, Copy, Debug, PartialEq, Eq, Structural)]
pub enum OutputFormat {
    Pdf,
    Svg,
    Png,
    Typst,
}

/// Why no output file name could be chosen.
#[derive(Clone, Copy, Debug, PartialEq, Eq, Structural)]
pub enum OutputNameError {
    /// An image format produces one file per page, so its name must hold `{n}`.
    MissingPageNumber,
}

/// The default output file name of each format.
pub open spec fn default_output_name(format: OutputFormat) -> Seq<char> {
    match format {
        OutputFormat::Pdf => "book.pdf"@,
        OutputFormat::Svg => "book{n}.svg"@,
        OutputFormat::Png => "book{n}.png"@,
        OutputFormat::Typst => "book.typst"@,
    }
}

/// The file name of the Typst markup the backend always writes.
pub fn markup_file_name() -> (r: String)
    ensures
        r@ == default_output_name(OutputFormat::Typst),
{
    "book.typst".to_owned()
}

/// The output file name: the configured one, which for an image format must
/// hold the page-number placeholder `{n}`, or the format's default.
pub fn output_name(name: Option<&str>, format: OutputFormat) -> (r: Result<String, OutputNameError>)
    ensures
        match name {
            Some(n) => match r {
                Ok(s) => s@ == n@ && (format == OutputFormat::Png || format == OutputFormat::Svg
                    ==> contains(n@, "{n}"@)),
                Err(_) => (format == OutputFormat::Png || format == OutputFormat::Svg) && !contains(
                    n@,
                    "{n}"@,
                ),
            },
            None => r matches Ok(s) && s@ == default_output_name(format),
        },
{
    match name {
        Some(n) => {
            let nv = str_chars(n);
            let placeholder = str_chars("{n}");
            let numbered = contains_chars(&nv, &placeholder);
            let image = match format {
                OutputFormat::Png | OutputFormat::Svg => true,
                _ => false,
            };
            if !numbered && image {
                Err(OutputNameError::MissingPageNumber)
            } else {
                Ok(n.to_owned())
            }
        },
        None => {
            let s = match format {
                OutputFormat::Pdf => "book.pdf",
                OutputFormat::Svg => "book{n}.svg",
                OutputFormat::Png => "book{n}.png",
                OutputFormat::Typst => "book.typst",
            };
            Ok(s.to_owned())
        },
    }
}

/// The `--format` argument that `typst compile` is given for a format, or
/// `None` where the markup itself is the output.
pub open spec fn compile_format(format: OutputFormat) -> Option<Seq<char>> {
    match format {
        OutputFormat::Pdf => Some("pdf"@),
        OutputFormat::Svg => Some("svg"@),
        OutputFormat::Png => Some("png"@),
        OutputFormat::Typst => None,
    }
}

/// The `--format` argument for `typst compile`, if the format needs a compile.
pub fn typst_compile_format(format: OutputFormat) -> (r: Option<&'static str>)
    ensures
        str_opt_view(r) == compile_format(format),
{
    match format {
        OutputFormat::Pdf => Some("pdf"),
        OutputFormat::Svg => Some("svg"),
        OutputFormat::Png => Some("png"),
        OutputFormat::Typst => None,
    }
}

} // verus!
