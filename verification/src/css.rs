//! CSS class styles and their translation to Typst values.

use vstd::prelude::*;
use vstd::hash_map::StringHashMap;

use crate::event::{copy_opt, opt_view};
use crate::text::{
    chars_to_string, ends_with, ends_with_chars, push_str, str_chars, trim, trim_chars,
    trim_end_matches, trim_end_matches_chars,
};

verus! {

/// CSS properties that can be translated to Typst.
#[derive(Debug)]
pub struct CssStyles {
    pub width: Option<String>,
    pub height: Option<String>,
    pub color: Option<String>,
    pub background: Option<String>,
    pub background_color: Option<String>,
    pub font_size: Option<String>,
    pub font_weight: Option<String>,
    pub text_align: Option<String>,
}

/// The value of a [`CssStyles`].
pub struct CssStylesView {
    pub width: Option<Seq<char>>,
    pub height: Option<Seq<char>>,
    pub color: Option<Seq<char>>,
    pub background: Option<Seq<char>>,
    pub background_color: Option<Seq<char>>,
    pub font_size: Option<Seq<char>>,
    pub font_weight: Option<Seq<char>>,
    pub text_align: Option<Seq<char>>,
}

impl View for CssStyles {
    type V = CssStylesView;

    open spec fn view(&self) -> CssStylesView {
        CssStylesView {
            width: opt_view(self.width),
            height: opt_view(self.height),
            color: opt_view(self.color),
            background: opt_view(self.background),
            background_color: opt_view(self.background_color),
            font_size: opt_view(self.font_size),
            font_weight: opt_view(self.font_weight),
            text_align: opt_view(self.text_align),
        }
    }
}

/// Styles with no property set.
pub open spec fn empty_styles() -> CssStylesView {
    CssStylesView {
        width: None,
        height: None,
        color: None,
        background: None,
        background_color: None,
        font_size: None,
        font_weight: None,
        text_align: None,
    }
}

/// A CSS dimension as Typst writes it: `px` becomes `pt`, anything else is
/// kept; surrounding whitespace is dropped.
pub open spec fn dimension_to_typst(value: Seq<char>) -> Seq<char> {
    let v = trim(value);
    if ends_with(v, "px"@) {
        trim_end_matches(v, "px"@) + "pt"@
    } else {
        v
    }
}

/// A CSS dimension, if present, as Typst writes it.
pub open spec fn opt_dimension(o: Option<Seq<char>>) -> Option<Seq<char>> {
    match o {
        Some(v) => Some(dimension_to_typst(v)),
        None => None,
    }
}

impl Default for CssStyles {
    fn default() -> (r: CssStyles)
        ensures
            r@ == empty_styles(),
    {
        CssStyles {
            width: None,
            height: None,
            color: None,
            background: None,
            background_color: None,
            font_size: None,
            font_weight: None,
            text_align: None,
        }
    }
}

impl CssStyles {
    /// A copy of these styles.
    pub fn copy(&self) -> (r: CssStyles)
        ensures
            r@ == self@,
    {
        CssStyles {
            width: copy_opt(&self.width),
            height: copy_opt(&self.height),
            color: copy_opt(&self.color),
            background: copy_opt(&self.background),
            background_color: copy_opt(&self.background_color),
            font_size: copy_opt(&self.font_size),
            font_weight: copy_opt(&self.font_weight),
            text_align: copy_opt(&self.text_align),
        }
    }

    /// Convert a CSS dimension value to Typst: `px` becomes `pt`; `em`, `%`,
    /// `pt` and the rest are kept as they are.
    pub fn css_dimension_to_typst(value: &str) -> (r: String)
        ensures
            r@ == dimension_to_typst(value@),
    {
        let v = str_chars(value);
        let v = trim_chars(&v);
        let px = str_chars("px");
        proof {
            reveal_strlit("px");
        }
        if ends_with_chars(&v, &px) {
            let mut num = trim_end_matches_chars(&v, &px);
            push_str(&mut num, "pt");
            chars_to_string(&num)
        } else {
            chars_to_string(&v)
        }
    }

    /// Get the width as a Typst-compatible value.
    pub fn typst_width(&self) -> (r: Option<String>)
        ensures
            opt_view(r) == opt_dimension(self@.width),
    {
        match &self.width {
            Some(w) => Some(Self::css_dimension_to_typst(w.as_str())),
            None => None,
        }
    }

    /// Get the height as a Typst-compatible value.
    pub fn typst_height(&self) -> (r: Option<String>)
        ensures
            opt_view(r) == opt_dimension(self@.height),
    {
        match &self.height {
            Some(h) => Some(Self::css_dimension_to_typst(h.as_str())),
            None => None,
        }
    }
}

/// A lookup table of CSS class names to their styles.
pub struct CssClassStyles {
    classes: StringHashMap<CssStyles>,
}

/// The Typst width that the table gives a class.
pub open spec fn class_width(m: Map<Seq<char>, CssStyles>, class: Seq<char>) -> Option<Seq<char>> {
    if m.contains_key(class) {
        opt_dimension(m[class]@.width)
    } else {
        None
    }
}

/// The Typst height that the table gives a class.
pub open spec fn class_height(m: Map<Seq<char>, CssStyles>, class: Seq<char>) -> Option<
    Seq<char>,
> {
    if m.contains_key(class) {
        opt_dimension(m[class]@.height)
    } else {
        None
    }
}

impl View for CssClassStyles {
    type V = Map<Seq<char>, CssStyles>;

    closed spec fn view(&self) -> Map<Seq<char>, CssStyles> {
        self.classes@
    }
}

impl Default for CssClassStyles {
    fn default() -> (r: CssClassStyles)
        ensures
            r@ == Map::<Seq<char>, CssStyles>::empty(),
    {
        CssClassStyles::new()
    }
}

impl CssClassStyles {
    /// Create a new empty style map.
    pub fn new() -> (r: CssClassStyles)
        ensures
            r@ == Map::<Seq<char>, CssStyles>::empty(),
    {
        CssClassStyles { classes: StringHashMap::new() }
    }

    /// Set the styles of a class, replacing those it had.
    pub fn insert(&mut self, class: String, styles: CssStyles)
        ensures
            final(self)@ == old(self)@.insert(class@, styles),
    {
        self.classes.insert(class, styles);
    }

    /// Get styles for a class name.
    pub fn get(&self, class: &str) -> (r: Option<&CssStyles>)
        ensures
            match r {
                Some(s) => self@.contains_key(class@) && *s == self@[class@],
                None => !self@.contains_key(class@),
            },
    {
        self.classes.get(class)
    }

    /// Get the Typst width for a class, if defined.
    pub fn get_width(&self, class: &str) -> (r: Option<String>)
        ensures
            opt_view(r) == class_width(self@, class@),
    {
        match self.classes.get(class) {
            Some(s) => s.typst_width(),
            None => None,
        }
    }

    /// Get the Typst height for a class, if defined.
    pub fn get_height(&self, class: &str) -> (r: Option<String>)
        ensures
            opt_view(r) == class_height(self@, class@),
    {
        match self.classes.get(class) {
            Some(s) => s.typst_height(),
            None => None,
        }
    }
}

/// A CSS token, as `cssparser::Parser::next` yields it (whitespace and
/// comments skipped). The contents of a block follow the token that opens it
/// and end with [`CssToken::BlockEnd`]; numbers are written out as the
/// backend writes them.
#[derive(Debug)]
pub enum CssToken {
    Ident(String),
    Delim(char),
    Colon,
    Semicolon,
    Comma,
    /// A hash token whose value is not an identifier, such as `#1976D2`.
    Hash(String),
    /// A dimension: its value and unit, such as `100px`.
    Dimension(String),
    /// A percentage, such as `50%`.
    Percentage(String),
    Number(String),
    /// A function: its name; its arguments follow as a block.
    Function(String),
    CurlyBlock,
    ParenBlock,
    SquareBlock,
    BlockEnd,
    Other,
}

/// The value of a [`CssToken`].
pub enum CssTokenView {
    Ident(Seq<char>),
    Delim(char),
    Colon,
    Semicolon,
    Comma,
    Hash(Seq<char>),
    Dimension(Seq<char>),
    Percentage(Seq<char>),
    Number(Seq<char>),
    Function(Seq<char>),
    CurlyBlock,
    ParenBlock,
    SquareBlock,
    BlockEnd,
    Other,
}

impl View for CssToken {
    type V = CssTokenView;

    open spec fn view(&self) -> CssTokenView {
        match self {
            CssToken::Ident(s) => CssTokenView::Ident(s@),
            CssToken::Delim(c) => CssTokenView::Delim(*c),
            CssToken::Colon => CssTokenView::Colon,
            CssToken::Semicolon => CssTokenView::Semicolon,
            CssToken::Comma => CssTokenView::Comma,
            CssToken::Hash(s) => CssTokenView::Hash(s@),
            CssToken::Dimension(s) => CssTokenView::Dimension(s@),
            CssToken::Percentage(s) => CssTokenView::Percentage(s@),
            CssToken::Number(s) => CssTokenView::Number(s@),
            CssToken::Function(s) => CssTokenView::Function(s@),
            CssToken::CurlyBlock => CssTokenView::CurlyBlock,
            CssToken::ParenBlock => CssTokenView::ParenBlock,
            CssToken::SquareBlock => CssTokenView::SquareBlock,
            CssToken::BlockEnd => CssTokenView::BlockEnd,
            CssToken::Other => CssTokenView::Other,
        }
    }
}

/// The values of a sequence of tokens.
pub open spec fn tokens_view(v: Seq<CssToken>) -> Seq<CssTokenView> {
    v.map_values(|t: CssToken| t@)
}

/// Whether a token opens a block.
pub open spec fn is_opener(t: CssTokenView) -> bool {
    t is Function || t is CurlyBlock || t is ParenBlock || t is SquareBlock
}

/// The position of the end of the block whose contents start at `i`, inside
/// `depth` more blocks; the length of `t` when it is not closed.
pub open spec fn block_end(t: Seq<CssTokenView>, i: int, depth: nat) -> int
    decreases t.len() - i,
{
    if i < 0 || i >= t.len() {
        t.len() as int
    } else if is_opener(t[i]) {
        block_end(t, i + 1, depth + 1)
    } else if t[i] is BlockEnd {
        if depth == 0 {
            i
        } else {
            block_end(t, i + 1, (depth - 1) as nat)
        }
    } else {
        block_end(t, i + 1, depth)
    }
}

/// The position after the token at `i`, the whole block it opens included.
pub open spec fn after_token(t: Seq<CssTokenView>, i: int) -> int {
    if 0 <= i < t.len() && is_opener(t[i]) {
        let e = block_end(t, i + 1, 0);
        if e < t.len() {
            e + 1
        } else {
            t.len() as int
        }
    } else {
        i + 1
    }
}

pub proof fn lemma_block_end_bounds(t: Seq<CssTokenView>, i: int, depth: nat)
    requires
        0 <= i,
    ensures
        i <= block_end(t, i, depth) <= t.len() || (i > t.len() && block_end(t, i, depth)
            == t.len()),
    decreases t.len() - i,
{
    if i < t.len() {
        if is_opener(t[i]) {
            lemma_block_end_bounds(t, i + 1, depth + 1);
        } else if t[i] is BlockEnd {
            if depth != 0 {
                lemma_block_end_bounds(t, i + 1, (depth - 1) as nat);
            }
        } else {
            lemma_block_end_bounds(t, i + 1, depth);
        }
    }
}

pub proof fn lemma_after_token(t: Seq<CssTokenView>, i: int)
    requires
        0 <= i < t.len(),
    ensures
        i < after_token(t, i) <= t.len(),
{
    lemma_block_end_bounds(t, i + 1, 0);
}

/// `acc` with `s` added when `s` is not empty.
pub open spec fn push_non_empty(acc: Seq<Seq<char>>, s: Seq<char>) -> Seq<Seq<char>> {
    if s.len() > 0 {
        acc.push(s)
    } else {
        acc
    }
}

/// The selectors before the next `{`, from `i`, with the selector being read
/// and those read so far; with the position inside the block. `None` when
/// the tokens end first.
pub open spec fn selectors_from(
    t: Seq<CssTokenView>,
    i: int,
    current: Seq<char>,
    acc: Seq<Seq<char>>,
) -> Option<(Seq<Seq<char>>, int)>
    decreases t.len() - i,
{
    if i < 0 || i >= t.len() {
        None
    } else {
        match t[i] {
            CssTokenView::CurlyBlock => Some((push_non_empty(acc, trim(current)), i + 1)),
            CssTokenView::Comma => selectors_from(
                t,
                i + 1,
                Seq::empty(),
                push_non_empty(acc, trim(current)),
            ),
            CssTokenView::Delim(c) => selectors_from(t, i + 1, current.push(c), acc),
            CssTokenView::Ident(s) => selectors_from(t, i + 1, current + s, acc),
            CssTokenView::Colon => selectors_from(t, i + 1, current.push(':'), acc),
            _ => {
                proof {
                    lemma_after_token(t, i);
                }
                selectors_from(t, after_token(t, i), current, acc)
            },
        }
    }
}

/// `v` followed by a space, unless `v` is empty.
pub open spec fn spaced(v: Seq<char>) -> Seq<char> {
    if v.len() > 0 {
        v.push(' ')
    } else {
        v
    }
}

/// The arguments of a function, from `i` to the end of its block `end`,
/// appended to `v`: identifiers, dimensions and numbers as written, commas
/// as `", "`; other tokens are left out.
pub open spec fn function_args(t: Seq<CssTokenView>, i: int, end: int, v: Seq<char>) -> Seq<char>
    decreases t.len() - i,
{
    if i < 0 || i >= end || i >= t.len() {
        v
    } else {
        match t[i] {
            CssTokenView::Ident(s) => function_args(t, i + 1, end, v + s),
            CssTokenView::Dimension(s) => function_args(t, i + 1, end, v + s),
            CssTokenView::Number(s) => function_args(t, i + 1, end, v + s),
            CssTokenView::Comma => function_args(t, i + 1, end, v + ", "@),
            _ => {
                proof {
                    lemma_after_token(t, i);
                }
                function_args(t, after_token(t, i), end, v)
            },
        }
    }
}

/// The value of a declaration, from `i` to the next `;` or the end `end` of
/// the block, appended to `v`; with the position after it.
pub open spec fn declaration_value(t: Seq<CssTokenView>, i: int, end: int, v: Seq<char>) -> (
    Seq<char>,
    int,
)
    decreases t.len() - i,
{
    if i < 0 || i >= end || i >= t.len() {
        (v, i)
    } else {
        proof {
            lemma_after_token(t, i);
        }
        match t[i] {
            CssTokenView::Semicolon => (v, i + 1),
            CssTokenView::Ident(s) => declaration_value(t, i + 1, end, spaced(v) + s),
            CssTokenView::Dimension(s) => declaration_value(t, i + 1, end, spaced(v) + s),
            CssTokenView::Percentage(s) => declaration_value(t, i + 1, end, spaced(v) + s),
            CssTokenView::Number(s) => declaration_value(t, i + 1, end, spaced(v) + s),
            CssTokenView::Hash(s) => declaration_value(t, i + 1, end, spaced(v) + "#"@ + s),
            CssTokenView::Function(name) => declaration_value(
                t,
                after_token(t, i),
                end,
                function_args(t, i + 1, block_end(t, i + 1, 0), v + name + "("@) + ")"@,
            ),
            _ => declaration_value(t, after_token(t, i), end, v),
        }
    }
}

/// One declaration `property: value` at `i`, in a block that ends at `end`:
/// the property and the trimmed value, or `None` where the tokens are not a
/// property and a colon; with the position after it.
pub open spec fn declaration(t: Seq<CssTokenView>, i: int, end: int) -> (
    Option<(Seq<char>, Seq<char>)>,
    int,
) {
    if 0 <= i < end && i < t.len() {
        match t[i] {
            CssTokenView::Ident(p) => {
                let j = i + 1;
                if j < end && j < t.len() {
                    if t[j] is Colon {
                        let (v, k) = declaration_value(t, j + 1, end, Seq::empty());
                        (Some((p, trim(v))), k)
                    } else {
                        (None, after_token(t, j))
                    }
                } else {
                    (None, j)
                }
            },
            _ => (None, after_token(t, i)),
        }
    } else {
        (None, i)
    }
}

/// Styles with one property set, when it is one the backend knows.
pub open spec fn set_property(s: CssStylesView, property: Seq<char>, value: Seq<char>) -> CssStylesView {
    if property == "width"@ {
        CssStylesView { width: Some(value), ..s }
    } else if property == "height"@ {
        CssStylesView { height: Some(value), ..s }
    } else if property == "color"@ {
        CssStylesView { color: Some(value), ..s }
    } else if property == "background"@ {
        CssStylesView { background: Some(value), ..s }
    } else if property == "background-color"@ {
        CssStylesView { background_color: Some(value), ..s }
    } else if property == "font-size"@ {
        CssStylesView { font_size: Some(value), ..s }
    } else if property == "font-weight"@ {
        CssStylesView { font_weight: Some(value), ..s }
    } else if property == "text-align"@ {
        CssStylesView { text_align: Some(value), ..s }
    } else {
        s
    }
}

/// The styles that the declarations from `i` to `end` set over `s`.
pub open spec fn declarations(t: Seq<CssTokenView>, i: int, end: int, s: CssStylesView) -> CssStylesView
    decreases t.len() - i,
{
    if i < 0 || i >= end || i >= t.len() {
        s
    } else {
        let (d, k) = declaration(t, i, end);
        if k <= i || k > t.len() {
            s
        } else {
            let s2 = match d {
                Some((p, v)) => set_property(s, p, v),
                None => s,
            };
            declarations(t, k, end, s2)
        }
    }
}

/// The class of a selector `.class` (the first class of `.a.b`).
pub open spec fn selector_class(sel: Seq<char>) -> Option<Seq<char>> {
    if sel.len() > 0 && sel[0] == '.' {
        Some(crate::text::before_char(sel.drop_first(), '.'))
    } else {
        None
    }
}

/// The values of a table of classes.
pub open spec fn classes_view(m: Map<Seq<char>, CssStyles>) -> Map<Seq<char>, CssStylesView> {
    m.map_values(|s: CssStyles| s@)
}

/// The table with the styles given to the class of each class selector.
pub open spec fn add_classes(
    m: Map<Seq<char>, CssStylesView>,
    sels: Seq<Seq<char>>,
    s: CssStylesView,
) -> Map<Seq<char>, CssStylesView>
    decreases sels.len(),
{
    if sels.len() == 0 {
        m
    } else {
        let m2 = add_classes(m, sels.drop_last(), s);
        match selector_class(sels.last()) {
            Some(c) => m2.insert(c, s),
            None => m2,
        }
    }
}

/// The table after the rules from `i` on.
pub open spec fn rules_from(t: Seq<CssTokenView>, i: int, m: Map<Seq<char>, CssStylesView>) -> Map<
    Seq<char>,
    CssStylesView,
>
    decreases t.len() - i,
{
    if i < 0 || i >= t.len() {
        m
    } else {
        match selectors_from(t, i, Seq::empty(), Seq::empty()) {
            Some((sels, j)) => {
                let e = block_end(t, j, 0);
                let next = if e < t.len() {
                    e + 1
                } else {
                    t.len() as int
                };
                if next <= i {
                    m
                } else {
                    rules_from(t, next, add_classes(m, sels, declarations(t, j, e, empty_styles())))
                }
            },
            None => m,
        }
    }
}

pub proof fn lemma_declaration_value_bounds(t: Seq<CssTokenView>, i: int, end: int, v: Seq<char>)
    requires
        0 <= i <= t.len(),
    ensures
        i <= declaration_value(t, i, end, v).1 <= t.len(),
    decreases t.len() - i,
{
    if i < end && i < t.len() {
        lemma_after_token(t, i);
        match t[i] {
            CssTokenView::Semicolon => {},
            CssTokenView::Ident(s) => lemma_declaration_value_bounds(t, i + 1, end, spaced(v) + s),
            CssTokenView::Dimension(s) => lemma_declaration_value_bounds(
                t,
                i + 1,
                end,
                spaced(v) + s,
            ),
            CssTokenView::Percentage(s) => lemma_declaration_value_bounds(
                t,
                i + 1,
                end,
                spaced(v) + s,
            ),
            CssTokenView::Number(s) => lemma_declaration_value_bounds(t, i + 1, end, spaced(v) + s),
            CssTokenView::Hash(s) => lemma_declaration_value_bounds(
                t,
                i + 1,
                end,
                spaced(v) + "#"@ + s,
            ),
            CssTokenView::Function(name) => lemma_declaration_value_bounds(
                t,
                after_token(t, i),
                end,
                function_args(t, i + 1, block_end(t, i + 1, 0), v + name + "("@) + ")"@,
            ),
            _ => lemma_declaration_value_bounds(t, after_token(t, i), end, v),
        }
    }
}

pub proof fn lemma_declaration_progress(t: Seq<CssTokenView>, i: int, end: int)
    requires
        0 <= i < end,
        i < t.len(),
    ensures
        i < declaration(t, i, end).1 <= t.len(),
{
    lemma_after_token(t, i);
    if t[i] is Ident && i + 1 < end && i + 1 < t.len() {
        lemma_after_token(t, i + 1);
        if t[i + 1] is Colon {
            lemma_declaration_value_bounds(t, i + 2, end, Seq::empty());
        }
    }
}

fn is_opener_exec(t: &CssToken) -> (b: bool)
    ensures
        b == is_opener(t@),
{
    match t {
        CssToken::Function(_) | CssToken::CurlyBlock | CssToken::ParenBlock | CssToken::SquareBlock => true,
        _ => false,
    }
}

/// The position of the end of the block whose contents start at `i`.
fn block_end_exec(t: &Vec<CssToken>, i: usize) -> (r: usize)
    requires
        i <= t.len(),
    ensures
        r == block_end(tokens_view(t@), i as int, 0),
{
    let ghost tv = tokens_view(t@);
    let mut k = i;
    let mut depth: usize = 0;
    while k < t.len()
        invariant
            i <= k <= t.len(),
            depth <= k,
            tv == tokens_view(t@),
            block_end(tv, i as int, 0) == block_end(tv, k as int, depth as nat),
        decreases t.len() - k,
    {
        assert(tv[k as int] == t@[k as int]@);
        if is_opener_exec(&t[k]) {
            depth = depth + 1;
        } else if matches!(&t[k], CssToken::BlockEnd) {
            if depth == 0 {
                return k;
            }
            depth = depth - 1;
        }
        k = k + 1;
    }
    k
}

/// The position after the token at `i`, the whole block it opens included.
fn after_token_exec(t: &Vec<CssToken>, i: usize) -> (r: usize)
    requires
        i < t.len(),
    ensures
        r == after_token(tokens_view(t@), i as int),
        i < r <= t.len(),
{
    proof {
        lemma_after_token(tokens_view(t@), i as int);
        assert(tokens_view(t@)[i as int] == t@[i as int]@);
    }
    if is_opener_exec(&t[i]) {
        let e = block_end_exec(t, i + 1);
        if e < t.len() {
            e + 1
        } else {
            t.len()
        }
    } else {
        i + 1
    }
}

fn push_non_empty_exec(acc: &mut Vec<String>, current: &Vec<char>)
    ensures
        crate::event::strings_view(final(acc)@) == push_non_empty(
            crate::event::strings_view(old(acc)@),
            trim(current@),
        ),
{
    let t = trim_chars(current);
    if t.len() > 0 {
        acc.push(chars_to_string(&t));
        assert(crate::event::strings_view(acc@) =~= crate::event::strings_view(old(acc)@).push(
            t@,
        ));
    }
}

/// Parse selectors until we hit a `{`.
fn parse_selectors(t: &Vec<CssToken>, i: usize) -> (r: Option<(Vec<String>, usize)>)
    requires
        i <= t.len(),
    ensures
        match r {
            Some((sels, j)) => selectors_from(tokens_view(t@), i as int, Seq::empty(), Seq::empty())
                == Some((crate::event::strings_view(sels@), j as int)),
            None => selectors_from(tokens_view(t@), i as int, Seq::empty(), Seq::empty()) is None,
        },
{
    let ghost tv = tokens_view(t@);
    let mut selectors: Vec<String> = Vec::new();
    let mut current: Vec<char> = Vec::new();
    let mut k = i;
    assert(crate::event::strings_view(selectors@) =~= Seq::<Seq<char>>::empty());
    while k < t.len()
        invariant
            i <= k <= t.len(),
            tv == tokens_view(t@),
            selectors_from(tv, i as int, Seq::empty(), Seq::empty()) == selectors_from(
                tv,
                k as int,
                current@,
                crate::event::strings_view(selectors@),
            ),
        decreases t.len() - k,
    {
        assert(tv[k as int] == t@[k as int]@);
        match &t[k] {
            CssToken::CurlyBlock => {
                push_non_empty_exec(&mut selectors, &current);
                return Some((selectors, k + 1));
            },
            CssToken::Comma => {
                push_non_empty_exec(&mut selectors, &current);
                current = Vec::new();
                k = k + 1;
            },
            CssToken::Delim(c) => {
                current.push(*c);
                k = k + 1;
            },
            CssToken::Ident(s) => {
                crate::text::push_str(&mut current, s.as_str());
                k = k + 1;
            },
            CssToken::Colon => {
                current.push(':');
                k = k + 1;
            },
            _ => {
                k = after_token_exec(t, k);
            },
        }
    }
    None
}

/// Appends the arguments of a function, from `i` to the end `end` of its block.
fn push_function_args(t: &Vec<CssToken>, i: usize, end: usize, value: &mut Vec<char>)
    requires
        i <= t.len(),
    ensures
        final(value)@ == function_args(tokens_view(t@), i as int, end as int, old(value)@),
{
    let ghost tv = tokens_view(t@);
    let mut k = i;
    while k < end && k < t.len()
        invariant
            i <= k <= t.len(),
            tv == tokens_view(t@),
            function_args(tv, i as int, end as int, old(value)@) == function_args(
                tv,
                k as int,
                end as int,
                value@,
            ),
        decreases t.len() - k,
    {
        assert(tv[k as int] == t@[k as int]@);
        match &t[k] {
            CssToken::Ident(s) => {
                crate::text::push_str(value, s.as_str());
                k = k + 1;
            },
            CssToken::Dimension(s) => {
                crate::text::push_str(value, s.as_str());
                k = k + 1;
            },
            CssToken::Number(s) => {
                crate::text::push_str(value, s.as_str());
                k = k + 1;
            },
            CssToken::Comma => {
                crate::text::push_str(value, ", ");
                k = k + 1;
            },
            _ => {
                k = after_token_exec(t, k);
            },
        }
    }
}

fn push_spaced(value: &mut Vec<char>, s: &str)
    ensures
        final(value)@ == spaced(old(value)@) + s@,
{
    if value.len() > 0 {
        value.push(' ');
    }
    crate::text::push_str(value, s);
}

/// Collect the value of a declaration, up to a `;` or the end of the block.
fn declaration_value_exec(t: &Vec<CssToken>, i: usize, end: usize) -> (r: (Vec<char>, usize))
    requires
        i <= t.len(),
    ensures
        (r.0@, r.1 as int) == declaration_value(tokens_view(t@), i as int, end as int, Seq::empty()),
{
    let ghost tv = tokens_view(t@);
    let mut value: Vec<char> = Vec::new();
    let mut k = i;
    loop
        invariant
            i <= k <= t.len(),
            tv == tokens_view(t@),
            declaration_value(tv, i as int, end as int, Seq::empty()) == declaration_value(
                tv,
                k as int,
                end as int,
                value@,
            ),
        decreases t.len() - k,
    {
        if k >= end || k >= t.len() {
            return (value, k);
        }
        assert(tv[k as int] == t@[k as int]@);
        proof {
            lemma_after_token(tv, k as int);
        }
        match &t[k] {
            CssToken::Semicolon => {
                return (value, k + 1);
            },
            CssToken::Ident(s) => {
                push_spaced(&mut value, s.as_str());
                k = k + 1;
            },
            CssToken::Dimension(s) => {
                push_spaced(&mut value, s.as_str());
                k = k + 1;
            },
            CssToken::Percentage(s) => {
                push_spaced(&mut value, s.as_str());
                k = k + 1;
            },
            CssToken::Number(s) => {
                push_spaced(&mut value, s.as_str());
                k = k + 1;
            },
            CssToken::Hash(s) => {
                push_spaced(&mut value, "#");
                crate::text::push_str(&mut value, s.as_str());
                k = k + 1;
            },
            CssToken::Function(name) => {
                crate::text::push_str(&mut value, name.as_str());
                crate::text::push_str(&mut value, "(");
                let fe = block_end_exec(t, k + 1);
                push_function_args(t, k + 1, fe, &mut value);
                crate::text::push_str(&mut value, ")");
                k = after_token_exec(t, k);
            },
            _ => {
                k = after_token_exec(t, k);
            },
        }
    }
}

/// Parse a single declaration `property: value`.
fn parse_declaration(t: &Vec<CssToken>, i: usize, end: usize) -> (r: (Option<(String, String)>, usize))
    requires
        i <= t.len(),
    ensures
        (match r.0 {
            Some((p, v)) => Some((p@, v@)),
            None => None,
        }, r.1 as int) == declaration(tokens_view(t@), i as int, end as int),
{
    let ghost tv = tokens_view(t@);
    if i < end && i < t.len() {
        assert(tv[i as int] == t@[i as int]@);
        match &t[i] {
            CssToken::Ident(property) => {
                let j = i + 1;
                if j < end && j < t.len() {
                    assert(tv[j as int] == t@[j as int]@);
                    if matches!(&t[j], CssToken::Colon) {
                        let (value, k) = declaration_value_exec(t, j + 1, end);
                        let v = trim_chars(&value);
                        (Some((property.clone(), chars_to_string(&v))), k)
                    } else {
                        (None, after_token_exec(t, j))
                    }
                } else {
                    (None, j)
                }
            },
            _ => (None, after_token_exec(t, i)),
        }
    } else {
        (None, i)
    }
}

fn string_is(s: &String, lit: &str) -> (b: bool)
    ensures
        b == (s@ == lit@),
{
    *s == String::from_str(lit)
}

fn set_property_exec(styles: &mut CssStyles, property: &String, value: String)
    ensures
        final(styles)@ == set_property(old(styles)@, property@, value@),
{
    if string_is(property, "width") {
        styles.width = Some(value);
    } else if string_is(property, "height") {
        styles.height = Some(value);
    } else if string_is(property, "color") {
        styles.color = Some(value);
    } else if string_is(property, "background") {
        styles.background = Some(value);
    } else if string_is(property, "background-color") {
        styles.background_color = Some(value);
    } else if string_is(property, "font-size") {
        styles.font_size = Some(value);
    } else if string_is(property, "font-weight") {
        styles.font_weight = Some(value);
    } else if string_is(property, "text-align") {
        styles.text_align = Some(value);
    }
}

pub proof fn lemma_selectors_bounds(
    t: Seq<CssTokenView>,
    i: int,
    current: Seq<char>,
    acc: Seq<Seq<char>>,
)
    ensures
        selectors_from(t, i, current, acc) matches Some((_, j)) ==> 0 < j <= t.len(),
    decreases t.len() - i,
{
    if 0 <= i < t.len() {
        match t[i] {
            CssTokenView::CurlyBlock => {},
            CssTokenView::Comma => lemma_selectors_bounds(
                t,
                i + 1,
                Seq::empty(),
                push_non_empty(acc, trim(current)),
            ),
            CssTokenView::Delim(c) => lemma_selectors_bounds(t, i + 1, current.push(c), acc),
            CssTokenView::Ident(s) => lemma_selectors_bounds(t, i + 1, current + s, acc),
            CssTokenView::Colon => lemma_selectors_bounds(t, i + 1, current.push(':'), acc),
            _ => {
                lemma_after_token(t, i);
                lemma_selectors_bounds(t, after_token(t, i), current, acc);
            },
        }
    }
}

/// Parse the declarations of a block, from `i` to its end `end`.
fn parse_declaration_block(t: &Vec<CssToken>, i: usize, end: usize) -> (r: CssStyles)
    requires
        i <= t.len(),
    ensures
        r@ == declarations(tokens_view(t@), i as int, end as int, empty_styles()),
{
    let ghost tv = tokens_view(t@);
    let mut styles = CssStyles::default();
    let mut k = i;
    while k < end && k < t.len()
        invariant
            i <= k <= t.len(),
            tv == tokens_view(t@),
            declarations(tv, i as int, end as int, empty_styles()) == declarations(
                tv,
                k as int,
                end as int,
                styles@,
            ),
        decreases t.len() - k,
    {
        proof {
            lemma_declaration_progress(tv, k as int, end as int);
        }
        let (d, next) = parse_declaration(t, k, end);
        match d {
            Some((property, value)) => set_property_exec(&mut styles, &property, value),
            None => {},
        }
        k = next;
    }
    styles
}

impl CssClassStyles {
    /// Give the styles to the class of each class selector (`.class`; the
    /// first class of `.a.b`).
    fn add_classes_exec(&mut self, selectors: &Vec<String>, styles: &CssStyles)
        ensures
            classes_view(final(self)@) == add_classes(
                classes_view(old(self)@),
                crate::event::strings_view(selectors@),
                styles@,
            ),
    {
        let ghost sels = crate::event::strings_view(selectors@);
        let mut k: usize = 0;
        while k < selectors.len()
            invariant
                k <= selectors.len(),
                sels == crate::event::strings_view(selectors@),
                classes_view(self@) == add_classes(
                    classes_view(old(self)@),
                    sels.take(k as int),
                    styles@,
                ),
            decreases selectors.len() - k,
        {
            assert(sels.take(k + 1).drop_last() =~= sels.take(k as int));
            let sel = str_chars(selectors[k].as_str());
            if sel.len() > 0 && sel[0] == '.' {
                let rest = crate::text::slice(&sel, 1, sel.len());
                assert(rest@ =~= sel@.drop_first());
                let class = crate::text::before_char_chars(&rest, '.');
                let ghost before = self@;
                self.insert(chars_to_string(&class), styles.copy());
                assert(classes_view(self@) =~= classes_view(before).insert(class@, styles@));
            }
            k = k + 1;
        }
        assert(sels.take(selectors.len() as int) =~= sels);
    }

    /// Parse the rules of a style sheet, given as its tokens, and add the
    /// styles of its class selectors to the table; a later rule for a class
    /// replaces the styles that an earlier one gave it.
    pub fn parse_css_tokens(&mut self, tokens: &Vec<CssToken>)
        ensures
            classes_view(final(self)@) == rules_from(tokens_view(tokens@), 0, classes_view(old(self)@)),
    {
        let ghost tv = tokens_view(tokens@);
        let mut k: usize = 0;
        while k < tokens.len()
            invariant
                k <= tokens.len(),
                tv == tokens_view(tokens@),
                rules_from(tv, 0, classes_view(old(self)@)) == rules_from(
                    tv,
                    k as int,
                    classes_view(self@),
                ),
            decreases tokens.len() - k,
        {
            match parse_selectors(tokens, k) {
                Some((selectors, j)) => {
                    proof {
                        lemma_selectors_bounds(tv, k as int, Seq::empty(), Seq::empty());
                        lemma_block_end_bounds(tv, j as int, 0);
                    }
                    let e = block_end_exec(tokens, j);
                    let styles = parse_declaration_block(tokens, j, e);
                    let next = if e < tokens.len() {
                        e + 1
                    } else {
                        tokens.len()
                    };
                    if next <= k {
                        return;
                    }
                    self.add_classes_exec(&selectors, &styles);
                    k = next;
                },
                None => {
                    return;
                },
            }
        }
    }
}

} // verus!
