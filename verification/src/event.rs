//! The markup events that the converters read and write.
//!
//! An [`Event`] holds, as plain values, every part of a markup event that a
//! converter inspects or rebuilds. Events of other kinds travel as
//! [`Event::Other`], identified by a key that the caller chose.

use vstd::prelude::*;

verus! {

/// Whether a heading appears in the outline.
#[derive(Clone, Copy, Debug, PartialEq, Eq, Structural)]
pub enum Outline {
    Include,
    Exclude,
}

/// Whether a heading appears in the PDF bookmarks.
#[derive(Clone, Copy, Debug, PartialEq, Eq, Structural)]
pub enum Bookmark {
    Include,
    Exclude,
}

/// How a code block is displayed.
#[derive(Clone, Copy, Debug, PartialEq, Eq, Structural)]
pub enum CodeDisplay {
    Block,
    Inline,
}

/// A block or an inline quote.
#[derive(Clone, Copy, Debug, PartialEq, Eq, Structural)]
pub enum QuoteKind {
    Block,
    Inline,
}

/// Whether a quote is wrapped in double quotes.
#[derive(Clone, Copy, Debug, PartialEq, Eq, Structural)]
pub enum QuoteMarks {
    WrapInDoubleQuotes,
    DoNotWrapInDoubleQuotes,
    Auto,
}

/// Block-level or inline HTML.
#[derive(Clone, Copy, Debug, PartialEq, Eq, Structural)]
pub enum HtmlKind {
    Block,
    Inline,
}

/// Where a Markdown event comes from: the Markdown parser itself, or the
/// content of an mdBook chapter.
#[derive(Clone, Copy, Debug, PartialEq, Eq, Structural)]
pub enum Origin {
    Markdown,
    Book,
}

/// A Typst heading tag.
#[derive(Debug)]
pub struct Heading {
    /// The level, at least 1.
    pub level: u8,
    pub outline: Outline,
    pub bookmark: Bookmark,
    pub label: Option<String>,
}

/// A Typst quote tag.
#[derive(Debug)]
pub struct Quote {
    pub kind: QuoteKind,
    pub marks: QuoteMarks,
    pub attribution: Option<String>,
}

/// A Typst image tag.
#[derive(Debug)]
pub struct Image {
    pub src: String,
    pub alt: String,
    pub class: Option<String>,
    pub width: Option<String>,
    pub height: Option<String>,
}

/// The metadata of an mdBook chapter event.
#[derive(Debug)]
pub struct ChapterInfo {
    pub draft: bool,
    pub name: String,
    pub source_path: Option<String>,
}

/// One markup event.
#[derive(Debug)]
pub enum Event {
    /// Typst text.
    Text(String),
    /// Typst inline code.
    Code(String),
    /// Raw Typst markup.
    Raw(String),
    /// A Typst function call: target, name and arguments.
    FunctionCall(Option<String>, String, Vec<String>),
    HeadingStart(Heading),
    HeadingEnd(Heading),
    /// Start of a Typst code block: the fence value and the display.
    CodeBlockStart(Option<String>, CodeDisplay),
    QuoteStart(Quote),
    QuoteEnd(Quote),
    ImageStart(Image),
    ImageEnd(Image),
    /// Markdown HTML.
    Html(Origin, HtmlKind, String),
    /// Start of a fenced Markdown code block, with its info string.
    FencedCodeStart(Origin, String),
    /// Start of a Markdown image: its destination and the caller's key.
    MarkdownImageStart(Origin, String, u64),
    /// Start of a Markdown heading, with the caller's key.
    MarkdownHeadingStart(Origin, u64),
    /// End of a Markdown heading, with the caller's key.
    MarkdownHeadingEnd(Origin, u64),
    /// Start of a Markdown footnote definition, with its label.
    FootnoteDefinitionStart(String),
    FootnoteDefinitionEnd,
    /// A Markdown footnote reference, with its label.
    FootnoteReference(String),
    /// Start of an mdBook part: its title and number.
    PartStart(Option<String>, Option<u64>),
    /// End of an mdBook part: its title and number.
    PartEnd(Option<String>, Option<u64>),
    BookConfigurationStart,
    BookConfigurationEnd,
    Root(String),
    Title(String),
    AuthorListStart,
    AuthorListEnd,
    Author(String),
    BookContentStart,
    BookContentEnd,
    ChapterStart(ChapterInfo),
    ChapterEnd(ChapterInfo),
    /// End of a chapter's Markdown content.
    ContentEnd,
    Separator,
    /// Markdown text, with where it comes from.
    MarkdownText(Origin, String),
    /// A Markdown horizontal rule.
    MarkdownRule,
    /// A Typst set rule: element, parameter and value.
    SetRule(String, String, String),
    /// Start of a Typst show rule that applies a function: its selector and
    /// the function.
    ShowStart(String, String),
    /// End of a Typst show rule that applies a function.
    ShowEnd(String, String),
    /// A Typst page break.
    PageBreak,
    /// Any other event, identified by the caller's key.
    Other(u64),
}

pub struct HeadingView {
    pub level: u8,
    pub outline: Outline,
    pub bookmark: Bookmark,
    pub label: Option<Seq<char>>,
}

pub struct QuoteView {
    pub kind: QuoteKind,
    pub marks: QuoteMarks,
    pub attribution: Option<Seq<char>>,
}

pub struct ImageView {
    pub src: Seq<char>,
    pub alt: Seq<char>,
    pub class: Option<Seq<char>>,
    pub width: Option<Seq<char>>,
    pub height: Option<Seq<char>>,
}

pub struct ChapterInfoView {
    pub draft: bool,
    pub name: Seq<char>,
    pub source_path: Option<Seq<char>>,
}

/// The value of an [`Event`].
pub enum EventView {
    Text(Seq<char>),
    Code(Seq<char>),
    Raw(Seq<char>),
    FunctionCall(Option<Seq<char>>, Seq<char>, Seq<Seq<char>>),
    HeadingStart(HeadingView),
    HeadingEnd(HeadingView),
    CodeBlockStart(Option<Seq<char>>, CodeDisplay),
    QuoteStart(QuoteView),
    QuoteEnd(QuoteView),
    ImageStart(ImageView),
    ImageEnd(ImageView),
    Html(Origin, HtmlKind, Seq<char>),
    FencedCodeStart(Origin, Seq<char>),
    MarkdownImageStart(Origin, Seq<char>, u64),
    MarkdownHeadingStart(Origin, u64),
    MarkdownHeadingEnd(Origin, u64),
    FootnoteDefinitionStart(Seq<char>),
    FootnoteDefinitionEnd,
    FootnoteReference(Seq<char>),
    PartStart(Option<Seq<char>>, Option<u64>),
    PartEnd(Option<Seq<char>>, Option<u64>),
    BookConfigurationStart,
    BookConfigurationEnd,
    Root(Seq<char>),
    Title(Seq<char>),
    AuthorListStart,
    AuthorListEnd,
    Author(Seq<char>),
    BookContentStart,
    BookContentEnd,
    ChapterStart(ChapterInfoView),
    ChapterEnd(ChapterInfoView),
    ContentEnd,
    Separator,
    MarkdownText(Origin, Seq<char>),
    MarkdownRule,
    SetRule(Seq<char>, Seq<char>, Seq<char>),
    ShowStart(Seq<char>, Seq<char>),
    ShowEnd(Seq<char>, Seq<char>),
    PageBreak,
    Other(u64),
}

/// The value of an optional string.
pub open spec fn opt_view(o: Option<String>) -> Option<Seq<char>> {
    match o {
        Some(s) => Some(s@),
        None => None,
    }
}

/// The values of a sequence of strings.
pub open spec fn strings_view(v: Seq<String>) -> Seq<Seq<char>> {
    v.map_values(|s: String| s@)
}

impl View for Heading {
    type V = HeadingView;

    open spec fn view(&self) -> HeadingView {
        HeadingView {
            level: self.level,
            outline: self.outline,
            bookmark: self.bookmark,
            label: opt_view(self.label),
        }
    }
}

impl View for Quote {
    type V = QuoteView;

    open spec fn view(&self) -> QuoteView {
        QuoteView { kind: self.kind, marks: self.marks, attribution: opt_view(self.attribution) }
    }
}

impl View for Image {
    type V = ImageView;

    open spec fn view(&self) -> ImageView {
        ImageView {
            src: self.src@,
            alt: self.alt@,
            class: opt_view(self.class),
            width: opt_view(self.width),
            height: opt_view(self.height),
        }
    }
}

impl View for ChapterInfo {
    type V = ChapterInfoView;

    open spec fn view(&self) -> ChapterInfoView {
        ChapterInfoView {
            draft: self.draft,
            name: self.name@,
            source_path: opt_view(self.source_path),
        }
    }
}

impl View for Event {
    type V = EventView;

    open spec fn view(&self) -> EventView {
        match self {
            Event::Text(s) => EventView::Text(s@),
            Event::Code(s) => EventView::Code(s@),
            Event::Raw(s) => EventView::Raw(s@),
            Event::FunctionCall(t, n, a) => EventView::FunctionCall(
                opt_view(*t),
                n@,
                strings_view(a@),
            ),
            Event::HeadingStart(h) => EventView::HeadingStart(h@),
            Event::HeadingEnd(h) => EventView::HeadingEnd(h@),
            Event::CodeBlockStart(f, d) => EventView::CodeBlockStart(opt_view(*f), *d),
            Event::QuoteStart(q) => EventView::QuoteStart(q@),
            Event::QuoteEnd(q) => EventView::QuoteEnd(q@),
            Event::ImageStart(i) => EventView::ImageStart(i@),
            Event::ImageEnd(i) => EventView::ImageEnd(i@),
            Event::Html(o, k, s) => EventView::Html(*o, *k, s@),
            Event::FencedCodeStart(o, s) => EventView::FencedCodeStart(*o, s@),
            Event::MarkdownImageStart(o, s, k) => EventView::MarkdownImageStart(*o, s@, *k),
            Event::MarkdownHeadingStart(o, k) => EventView::MarkdownHeadingStart(*o, *k),
            Event::MarkdownHeadingEnd(o, k) => EventView::MarkdownHeadingEnd(*o, *k),
            Event::FootnoteDefinitionStart(s) => EventView::FootnoteDefinitionStart(s@),
            Event::FootnoteDefinitionEnd => EventView::FootnoteDefinitionEnd,
            Event::FootnoteReference(s) => EventView::FootnoteReference(s@),
            Event::PartStart(t, n) => EventView::PartStart(opt_view(*t), *n),
            Event::PartEnd(t, n) => EventView::PartEnd(opt_view(*t), *n),
            Event::BookConfigurationStart => EventView::BookConfigurationStart,
            Event::BookConfigurationEnd => EventView::BookConfigurationEnd,
            Event::Root(s) => EventView::Root(s@),
            Event::Title(s) => EventView::Title(s@),
            Event::AuthorListStart => EventView::AuthorListStart,
            Event::AuthorListEnd => EventView::AuthorListEnd,
            Event::Author(s) => EventView::Author(s@),
            Event::BookContentStart => EventView::BookContentStart,
            Event::BookContentEnd => EventView::BookContentEnd,
            Event::ChapterStart(c) => EventView::ChapterStart(c@),
            Event::ChapterEnd(c) => EventView::ChapterEnd(c@),
            Event::ContentEnd => EventView::ContentEnd,
            Event::Separator => EventView::Separator,
            Event::MarkdownText(o, t) => EventView::MarkdownText(*o, t@),
            Event::MarkdownRule => EventView::MarkdownRule,
            Event::SetRule(e, p, v) => EventView::SetRule(e@, p@, v@),
            Event::ShowStart(s, f) => EventView::ShowStart(s@, f@),
            Event::ShowEnd(s, f) => EventView::ShowEnd(s@, f@),
            Event::PageBreak => EventView::PageBreak,
            Event::Other(k) => EventView::Other(*k),
        }
    }
}

/// The value of an optional event.
pub open spec fn opt_event_view(o: Option<Event>) -> Option<EventView> {
    match o {
        Some(e) => Some(e@),
        None => None,
    }
}

/// The values of a sequence of events.
pub open spec fn events_view(v: Seq<Event>) -> Seq<EventView> {
    v.map_values(|e: Event| e@)
}

/// A copy of an optional string.
pub fn copy_opt(o: &Option<String>) -> (r: Option<String>)
    ensures
        opt_view(r) == opt_view(*o),
{
    match o {
        Some(s) => Some(s.clone()),
        None => None,
    }
}

/// A copy of a vector of strings.
pub fn copy_strings(v: &Vec<String>) -> (r: Vec<String>)
    ensures
        strings_view(r@) == strings_view(v@),
{
    let mut r: Vec<String> = Vec::new();
    let mut i: usize = 0;
    while i < v.len()
        invariant
            i <= v.len(),
            r@.len() == i,
            forall|j: int| 0 <= j < i ==> #[trigger] r@[j]@ == v@[j]@,
        decreases v.len() - i,
    {
        r.push(v[i].clone());
        i = i + 1;
    }
    assert(strings_view(r@) =~= strings_view(v@));
    r
}

impl Heading {
    /// A copy of this heading.
    pub fn copy(&self) -> (r: Heading)
        ensures
            r@ == self@,
    {
        Heading {
            level: self.level,
            outline: self.outline,
            bookmark: self.bookmark,
            label: copy_opt(&self.label),
        }
    }
}

impl Quote {
    /// A copy of this quote tag.
    pub fn copy(&self) -> (r: Quote)
        ensures
            r@ == self@,
    {
        Quote { kind: self.kind, marks: self.marks, attribution: copy_opt(&self.attribution) }
    }
}

impl Image {
    /// A copy of this image tag.
    pub fn copy(&self) -> (r: Image)
        ensures
            r@ == self@,
    {
        Image {
            src: self.src.clone(),
            alt: self.alt.clone(),
            class: copy_opt(&self.class),
            width: copy_opt(&self.width),
            height: copy_opt(&self.height),
        }
    }
}

impl ChapterInfo {
    /// A copy of this chapter's metadata.
    pub fn copy(&self) -> (r: ChapterInfo)
        ensures
            r@ == self@,
    {
        ChapterInfo {
            draft: self.draft,
            name: self.name.clone(),
            source_path: copy_opt(&self.source_path),
        }
    }
}

impl Event {
    /// A copy of this event.
    pub fn copy(&self) -> (r: Event)
        ensures
            r@ == self@,
    {
        match self {
            Event::Text(s) => Event::Text(s.clone()),
            Event::Code(s) => Event::Code(s.clone()),
            Event::Raw(s) => Event::Raw(s.clone()),
            Event::FunctionCall(t, n, a) => Event::FunctionCall(
                copy_opt(t),
                n.clone(),
                copy_strings(a),
            ),
            Event::HeadingStart(h) => Event::HeadingStart(h.copy()),
            Event::HeadingEnd(h) => Event::HeadingEnd(h.copy()),
            Event::CodeBlockStart(f, d) => Event::CodeBlockStart(copy_opt(f), *d),
            Event::QuoteStart(q) => Event::QuoteStart(q.copy()),
            Event::QuoteEnd(q) => Event::QuoteEnd(q.copy()),
            Event::ImageStart(i) => Event::ImageStart(i.copy()),
            Event::ImageEnd(i) => Event::ImageEnd(i.copy()),
            Event::Html(o, k, s) => Event::Html(*o, *k, s.clone()),
            Event::FencedCodeStart(o, s) => Event::FencedCodeStart(*o, s.clone()),
            Event::MarkdownImageStart(o, s, k) => Event::MarkdownImageStart(*o, s.clone(), *k),
            Event::MarkdownHeadingStart(o, k) => Event::MarkdownHeadingStart(*o, *k),
            Event::MarkdownHeadingEnd(o, k) => Event::MarkdownHeadingEnd(*o, *k),
            Event::FootnoteDefinitionStart(s) => Event::FootnoteDefinitionStart(s.clone()),
            Event::FootnoteDefinitionEnd => Event::FootnoteDefinitionEnd,
            Event::FootnoteReference(s) => Event::FootnoteReference(s.clone()),
            Event::PartStart(t, n) => Event::PartStart(copy_opt(t), *n),
            Event::PartEnd(t, n) => Event::PartEnd(copy_opt(t), *n),
            Event::BookConfigurationStart => Event::BookConfigurationStart,
            Event::BookConfigurationEnd => Event::BookConfigurationEnd,
            Event::Root(s) => Event::Root(s.clone()),
            Event::Title(s) => Event::Title(s.clone()),
            Event::AuthorListStart => Event::AuthorListStart,
            Event::AuthorListEnd => Event::AuthorListEnd,
            Event::Author(s) => Event::Author(s.clone()),
            Event::BookContentStart => Event::BookContentStart,
            Event::BookContentEnd => Event::BookContentEnd,
            Event::ChapterStart(c) => Event::ChapterStart(c.copy()),
            Event::ChapterEnd(c) => Event::ChapterEnd(c.copy()),
            Event::ContentEnd => Event::ContentEnd,
            Event::Separator => Event::Separator,
            Event::MarkdownText(o, t) => Event::MarkdownText(*o, t.clone()),
            Event::MarkdownRule => Event::MarkdownRule,
            Event::SetRule(e, p, v) => Event::SetRule(e.clone(), p.clone(), v.clone()),
            Event::ShowStart(s, f) => Event::ShowStart(s.clone(), f.clone()),
            Event::ShowEnd(s, f) => Event::ShowEnd(s.clone(), f.clone()),
            Event::PageBreak => Event::PageBreak,
            Event::Other(k) => Event::Other(*k),
        }
    }
}

} // verus!
