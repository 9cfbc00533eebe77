//! The document-level events the backend puts before the book: the style
//! rules, the table of contents, and the replacement of horizontal rules.

use vstd::prelude::*;

use crate::event::{events_view, opt_view, Event, EventView};
use crate::render::{heading_rule, heading_spacing_rule, non_empty, none_on_empty, quote, quoted, resolve_setting, setting, str_opt_view};
use crate::stream::{push_event, push_events};
use crate::text::{chars_to_string, push_str, str_chars};

verus! {

/// The style settings of `[output.typst.style]`; an absent setting takes its
/// default, a string setting set to the empty string is left out.
pub struct StyleSettings {
    pub enable: Option<bool>,
    pub paper: Option<String>,
    pub text_size: Option<String>,
    pub text_font: Option<String>,
    pub paragraph_spacing: Option<String>,
    pub paragraph_leading: Option<String>,
    pub heading_numbering: Option<String>,
    pub heading_above: Option<String>,
    pub heading_below: Option<String>,
    pub link_underline: Option<bool>,
    pub link_color: Option<String>,
}

/// How the outline shows the entries of one level.
pub struct TocShowRule {
    pub level: u8,
    pub strong: bool,
    pub text_size: String,
}

/// The table-of-contents settings of `[output.typst.toc]`.
pub struct TocSettings {
    pub enable: Option<bool>,
    pub entry_show_rules: Option<Vec<TocShowRule>>,
    pub depth: Option<u8>,
    pub indent: Option<String>,
}

/// The value of a [`TocShowRule`].
pub struct TocShowRuleView {
    pub level: u8,
    pub strong: bool,
    pub text_size: Seq<char>,
}

impl View for TocShowRule {
    type V = TocShowRuleView;

    open spec fn view(&self) -> TocShowRuleView {
        TocShowRuleView { level: self.level, strong: self.strong, text_size: self.text_size@ }
    }
}

pub open spec fn default_paper() -> Seq<char> {
    "a4"@
}

pub open spec fn default_text_size() -> Seq<char> {
    "11pt"@
}

pub open spec fn default_text_font() -> Seq<char> {
    "Linux Libertine"@
}

pub open spec fn default_paragraph_spacing() -> Seq<char> {
    "1.2em"@
}

pub open spec fn default_paragraph_leading() -> Seq<char> {
    "0.65em"@
}

pub open spec fn default_heading_above() -> Seq<char> {
    "1.4em"@
}

pub open spec fn default_heading_below() -> Seq<char> {
    "1em"@
}

pub open spec fn default_link_color() -> Seq<char> {
    "blue"@
}

pub open spec fn default_toc_indent() -> Seq<char> {
    "auto"@
}

pub open spec fn default_toc_depth() -> u8 {
    3
}

/// The outline entry rules used when none are configured.
pub open spec fn default_show_rules() -> Seq<TocShowRuleView> {
    seq![TocShowRuleView { level: 1, strong: true, text_size: "1.5em"@ }]
}

/// The default horizontal-rule replacement.
pub open spec fn default_horizontal_rule() -> Seq<char> {
    "#align(center, line(length: 60%))\n"@
}

/// The default horizontal-rule replacement.
pub fn horizontal_rule_default() -> (r: &'static str)
    ensures
        r@ == default_horizontal_rule(),
{
    "#align(center, line(length: 60%))\n"
}

/// A flag, or its default when absent.
pub open spec fn flag(o: Option<bool>, default: bool) -> bool {
    match o {
        Some(b) => b,
        None => default,
    }
}

/// The one event `f` makes of a present value, or none.
pub open spec fn event_if(o: Option<Seq<char>>, f: spec_fn(Seq<char>) -> EventView) -> Seq<
    EventView,
> {
    match o {
        Some(v) => seq![f(v)],
        None => Seq::empty(),
    }
}

/// The decimal digit `d`.
pub open spec fn digit(d: int) -> char {
    if d == 0 {
        '0'
    } else if d == 1 {
        '1'
    } else if d == 2 {
        '2'
    } else if d == 3 {
        '3'
    } else if d == 4 {
        '4'
    } else if d == 5 {
        '5'
    } else if d == 6 {
        '6'
    } else if d == 7 {
        '7'
    } else if d == 8 {
        '8'
    } else {
        '9'
    }
}

/// `n` written in decimal.
pub open spec fn decimal(n: nat) -> Seq<char>
    decreases n,
{
    if n < 10 {
        seq![digit(n as int)]
    } else {
        decimal(n / 10) + seq![digit((n % 10) as int)]
    }
}

fn digit_char(d: u8) -> (c: char)
    requires
        d < 10,
    ensures
        c == digit(d as int),
{
    if d == 0 {
        '0'
    } else if d == 1 {
        '1'
    } else if d == 2 {
        '2'
    } else if d == 3 {
        '3'
    } else if d == 4 {
        '4'
    } else if d == 5 {
        '5'
    } else if d == 6 {
        '6'
    } else if d == 7 {
        '7'
    } else if d == 8 {
        '8'
    } else {
        '9'
    }
}

/// Appends `n` in decimal.
fn push_decimal(out: &mut Vec<char>, n: u8)
    ensures
        final(out)@ == old(out)@ + decimal(n as nat),
{
    if n >= 100 {
        out.push(digit_char(n / 100));
        out.push(digit_char((n / 10) % 10));
        out.push(digit_char(n % 10));
        assert(decimal((n / 10) as nat) == decimal((n / 100) as nat) + seq![digit(((n / 10) % 10) as int)]);
        assert(decimal((n / 100) as nat) == seq![digit((n / 100) as int)]);
    } else if n >= 10 {
        out.push(digit_char(n / 10));
        out.push(digit_char(n % 10));
        assert(decimal((n / 10) as nat) == seq![digit((n / 10) as int)]);
    } else {
        out.push(digit_char(n));
    }
}

/// The set rule for a setting, when it is in force: `element.property` set
/// to its value, in quotes where `quote` asks for them.
pub open spec fn set_part(
    value: Option<Seq<char>>,
    element: Seq<char>,
    property: Seq<char>,
    quote: bool,
) -> Seq<EventView> {
    match value {
        Some(v) => seq![EventView::SetRule(element, property, if quote {
            quoted(v)
        } else {
            v
        })],
        None => Seq::empty(),
    }
}

/// The raw markup of a value, when present.
pub open spec fn raw_part(value: Option<Seq<char>>) -> Seq<EventView> {
    match value {
        Some(v) => seq![EventView::Raw(v)],
        None => Seq::empty(),
    }
}

/// The heading numbering in force: it has no default.
pub open spec fn numbering(value: Option<Seq<char>>) -> Option<Seq<char>> {
    match value {
        Some(v) => non_empty(v),
        None => None,
    }
}

/// The show rule that colours links, when a colour is in force.
pub open spec fn link_color_rule(color: Option<Seq<char>>) -> Option<Seq<char>> {
    match color {
        Some(c) => Some("#show link: set text("@ + c + ")\n"@),
        None => None,
    }
}

/// The show rule that underlines links, when asked for.
pub open spec fn underline_rule(underline: bool) -> Option<Seq<char>> {
    if underline {
        Some("#show link: underline\n"@)
    } else {
        None
    }
}

/// The style rules: paper, text size and font, paragraph spacing and
/// leading, heading numbering and spacing, link underline and colour, in that
/// order; none at all when styling is disabled.
pub open spec fn style_view(st: StyleSettings) -> Seq<EventView> {
    if !flag(st.enable, true) {
        Seq::empty()
    } else {
        set_part(setting(opt_view(st.paper), default_paper()), "page"@, "paper"@, true) + set_part(
            setting(opt_view(st.text_size), default_text_size()),
            "text"@,
            "size"@,
            false,
        ) + set_part(setting(opt_view(st.text_font), default_text_font()), "text"@, "font"@, true)
            + set_part(
            setting(opt_view(st.paragraph_spacing), default_paragraph_spacing()),
            "par"@,
            "spacing"@,
            false,
        ) + set_part(
            setting(opt_view(st.paragraph_leading), default_paragraph_leading()),
            "par"@,
            "leading"@,
            false,
        ) + set_part(numbering(opt_view(st.heading_numbering)), "heading"@, "numbering"@, true)
            + raw_part(
            heading_rule(
                setting(opt_view(st.heading_above), default_heading_above()),
                setting(opt_view(st.heading_below), default_heading_below()),
            ),
        ) + raw_part(underline_rule(flag(st.link_underline, true))) + raw_part(
            link_color_rule(setting(opt_view(st.link_color), default_link_color())),
        )
    }
}

/// The selector of an outline entry rule.
pub open spec fn rule_selector(r: TocShowRuleView) -> Seq<char> {
    "outline.entry.where(level: "@ + decimal(r.level as nat) + ")"@
}

/// The function of an outline entry rule.
pub open spec fn rule_function(r: TocShowRuleView) -> Seq<char> {
    "it => block(above: "@ + r.text_size + ")[#"@ + (if r.strong {
        "strong(it)"@
    } else {
        "it"@
    }) + "]"@
}

/// The show rules for the outline entries, a start and an end for each.
pub open spec fn show_rules_view(rules: Seq<TocShowRuleView>) -> Seq<EventView>
    decreases rules.len(),
{
    if rules.len() == 0 {
        Seq::empty()
    } else {
        let r = rules.last();
        show_rules_view(rules.drop_last()) + seq![
            EventView::ShowStart(rule_selector(r), rule_function(r)),
            EventView::ShowEnd(rule_selector(r), rule_function(r)),
        ]
    }
}

/// The values of a list of outline entry rules.
pub open spec fn rules_view(v: Seq<TocShowRule>) -> Seq<TocShowRuleView> {
    v.map_values(|r: TocShowRule| r@)
}

/// The outline entry rules in force: the default ones when none are
/// configured, none when an empty list is.
pub open spec fn entry_rules(toc: TocSettings) -> Seq<TocShowRuleView> {
    match toc.entry_show_rules {
        None => default_show_rules(),
        Some(v) => rules_view(v@),
    }
}

/// The arguments of the `outline` call: its depth, and its indent unless
/// that is set to the empty string.
pub open spec fn outline_args(toc: TocSettings) -> Seq<Seq<char>> {
    seq!["depth: "@ + decimal(
        match toc.depth {
            Some(d) => d as nat,
            None => default_toc_depth() as nat,
        },
    )] + match setting(opt_view(toc.indent), default_toc_indent()) {
        Some(i) => seq!["indent: "@ + i],
        None => Seq::empty(),
    }
}

/// The table of contents: the entry show rules, the `outline` call and a
/// page break; nothing when the table of contents is disabled.
pub open spec fn toc_view(toc: TocSettings) -> Seq<EventView> {
    if !flag(toc.enable, true) {
        Seq::empty()
    } else {
        show_rules_view(entry_rules(toc)) + seq![
            EventView::FunctionCall(None, "outline"@, outline_args(toc)),
            EventView::PageBreak,
        ]
    }
}

/// What goes before the book: the style rules, then the table of contents.
pub open spec fn preamble_view(style: StyleSettings, toc: TocSettings) -> Seq<EventView> {
    style_view(style) + toc_view(toc)
}

/// `style.enable = false` removes all styling: only the table of contents
/// is left before the book.
pub proof fn law_disabled_style_removes_all_styling(style: StyleSettings, toc: TocSettings)
    requires
        style.enable == Some(false),
    ensures
        preamble_view(style, toc) == toc_view(toc),
{
    assert(Seq::<EventView>::empty() + toc_view(toc) =~= toc_view(toc));
}

/// `toc.enable = false` removes the table of contents: only the style rules
/// are left before the book.
pub proof fn law_disabled_toc_removes_the_outline(style: StyleSettings, toc: TocSettings)
    requires
        toc.enable == Some(false),
    ensures
        preamble_view(style, toc) == style_view(style),
{
    assert(style_view(style) + Seq::<EventView>::empty() =~= style_view(style));
}

fn push_if_some(out: &mut Vec<Event>, o: Option<Event>)
    ensures
        events_view(final(out)@) == events_view(old(out)@) + match o {
            Some(e) => seq![e@],
            None => Seq::<EventView>::empty(),
        },
{
    match o {
        Some(e) => push_event(out, e),
        None => {
            assert(events_view(out@) =~= events_view(out@) + Seq::<EventView>::empty());
        },
    }
}

fn as_str_opt(o: &Option<String>) -> (r: Option<&str>)
    ensures
        str_opt_view(r) == opt_view(*o),
{
    match o {
        Some(s) => Some(s.as_str()),
        None => None,
    }
}

fn set_event(element: &str, property: &str, value: String) -> (e: Event)
    ensures
        e@ == EventView::SetRule(element@, property@, value@),
{
    Event::SetRule(element.to_owned(), property.to_owned(), value)
}

fn set_part_events(value: Option<String>, element: &str, property: &str, quote_it: bool) -> (r: Vec<
    Event,
>)
    ensures
        events_view(r@) == set_part(opt_view(value), element@, property@, quote_it),
{
    let mut out: Vec<Event> = Vec::new();
    match value {
        Some(v) => {
            let v2 = if quote_it {
                quote(v.as_str())
            } else {
                v
            };
            push_event(&mut out, set_event(element, property, v2));
        },
        None => {},
    }
    assert(events_view(out@) =~= set_part(opt_view(value), element@, property@, quote_it));
    out
}

fn raw_part_events(value: Option<String>) -> (r: Vec<Event>)
    ensures
        events_view(r@) == raw_part(opt_view(value)),
{
    let mut out: Vec<Event> = Vec::new();
    match value {
        Some(v) => push_event(&mut out, Event::Raw(v)),
        None => {},
    }
    assert(events_view(out@) =~= raw_part(opt_view(value)));
    out
}

/// The style rules.
fn style_events(st: &StyleSettings) -> (r: Vec<Event>)
    ensures
        events_view(r@) == style_view(*st),
{
    let enabled = match st.enable {
        Some(b) => b,
        None => true,
    };
    if !enabled {
        let out: Vec<Event> = Vec::new();
        assert(events_view(out@) =~= Seq::<EventView>::empty());
        return out;
    }
    let mut out = set_part_events(resolve_setting(as_str_opt(&st.paper), "a4"), "page", "paper", true);
    let e = set_part_events(resolve_setting(as_str_opt(&st.text_size), "11pt"), "text", "size", false);
    push_events(&mut out, &e);
    let e = set_part_events(
        resolve_setting(as_str_opt(&st.text_font), "Linux Libertine"),
        "text",
        "font",
        true,
    );
    push_events(&mut out, &e);
    let e = set_part_events(
        resolve_setting(as_str_opt(&st.paragraph_spacing), "1.2em"),
        "par",
        "spacing",
        false,
    );
    push_events(&mut out, &e);
    let e = set_part_events(
        resolve_setting(as_str_opt(&st.paragraph_leading), "0.65em"),
        "par",
        "leading",
        false,
    );
    push_events(&mut out, &e);
    let numbering_value = match &st.heading_numbering {
        Some(v) => none_on_empty(v.as_str()),
        None => None,
    };
    let e = set_part_events(numbering_value, "heading", "numbering", true);
    push_events(&mut out, &e);
    let above = resolve_setting(as_str_opt(&st.heading_above), "1.4em");
    let below = resolve_setting(as_str_opt(&st.heading_below), "1em");
    let e = raw_part_events(heading_spacing_rule(&above, &below));
    push_events(&mut out, &e);
    let underline = match st.link_underline {
        Some(b) => b,
        None => true,
    };
    let e = raw_part_events(
        if underline {
            Some("#show link: underline\n".to_owned())
        } else {
            None
        },
    );
    push_events(&mut out, &e);
    let color_rule = match resolve_setting(as_str_opt(&st.link_color), "blue") {
        Some(c) => {
            let mut v = str_chars("#show link: set text(");
            push_str(&mut v, c.as_str());
            push_str(&mut v, ")\n");
            Some(chars_to_string(&v))
        },
        None => None,
    };
    let e = raw_part_events(color_rule);
    push_events(&mut out, &e);
    out
}

/// The show rules for a list of outline entry rules.
fn show_rule_events(rules: &Vec<TocShowRule>) -> (r: Vec<Event>)
    ensures
        events_view(r@) == show_rules_view(rules_view(rules@)),
{
    let ghost rv = rules_view(rules@);
    let mut out: Vec<Event> = Vec::new();
    let mut k: usize = 0;
    assert(rv.take(0) =~= Seq::<TocShowRuleView>::empty());
    while k < rules.len()
        invariant
            k <= rules.len(),
            rv == rules_view(rules@),
            events_view(out@) == show_rules_view(rv.take(k as int)),
        decreases rules.len() - k,
    {
        let r = &rules[k];
        assert(rv[k as int] == r@);
        let mut sel = str_chars("outline.entry.where(level: ");
        push_decimal(&mut sel, r.level);
        push_str(&mut sel, ")");
        let mut fun = str_chars("it => block(above: ");
        push_str(&mut fun, r.text_size.as_str());
        push_str(&mut fun, ")[#");
        if r.strong {
            push_str(&mut fun, "strong(it)");
        } else {
            push_str(&mut fun, "it");
        }
        push_str(&mut fun, "]");
        assert(sel@ == rule_selector(r@));
        assert(fun@ == rule_function(r@));
        push_event(&mut out, Event::ShowStart(chars_to_string(&sel), chars_to_string(&fun)));
        push_event(&mut out, Event::ShowEnd(chars_to_string(&sel), chars_to_string(&fun)));
        assert(rv.take(k + 1).drop_last() =~= rv.take(k as int));
        k = k + 1;
    }
    assert(rv.take(rules.len() as int) =~= rv);
    out
}

/// The table of contents.
fn toc_events(toc: &TocSettings) -> (r: Vec<Event>)
    ensures
        events_view(r@) == toc_view(*toc),
{
    let enabled = match toc.enable {
        Some(b) => b,
        None => true,
    };
    if !enabled {
        let out: Vec<Event> = Vec::new();
        assert(events_view(out@) =~= Seq::<EventView>::empty());
        return out;
    }
    let mut out = match &toc.entry_show_rules {
        None => {
            let defaults = vec![TocShowRule { level: 1, strong: true, text_size: "1.5em".to_owned() }];
            assert(rules_view(defaults@) =~= default_show_rules());
            show_rule_events(&defaults)
        },
        Some(v) => show_rule_events(v),
    };
    let depth: u8 = match toc.depth {
        Some(d) => d,
        None => 3,
    };
    let mut d = str_chars("depth: ");
    push_decimal(&mut d, depth);
    let mut args: Vec<String> = Vec::new();
    args.push(chars_to_string(&d));
    let indent = resolve_setting(as_str_opt(&toc.indent), "auto");
    match indent {
        Some(i) => {
            let mut v = str_chars("indent: ");
            push_str(&mut v, i.as_str());
            args.push(chars_to_string(&v));
        },
        None => {},
    }
    assert(crate::event::strings_view(args@) =~= outline_args(*toc));
    push_event(&mut out, Event::FunctionCall(None, "outline".to_owned(), args));
    push_event(&mut out, Event::PageBreak);
    out
}

/// The events that go before the book: the style rules (none when styling
/// is disabled), then the table of contents (none when it is disabled).
pub fn preamble(style: &StyleSettings, toc: &TocSettings) -> (r: Vec<Event>)
    ensures
        events_view(r@) == preamble_view(*style, *toc),
{
    let mut out = style_events(style);
    let t = toc_events(toc);
    push_events(&mut out, &t);
    out
}

/// A stream whose Markdown horizontal rules become the raw markup `rule`;
/// without a replacement the stream is left as it is.
pub open spec fn rules_replaced(s: Seq<EventView>, rule: Option<Seq<char>>) -> Seq<EventView> {
    s.map_values(
        |e: EventView|
            match rule {
                Some(r) => if e is MarkdownRule {
                    EventView::Raw(r)
                } else {
                    e
                },
                None => e,
            },
    )
}

/// Replace the Markdown horizontal rules, which Typst has no notion of, with
/// the configured markup.
pub fn replace_rules(events: Vec<Event>, rule: Option<String>) -> (out: Vec<Event>)
    ensures
        events_view(out@) == rules_replaced(events_view(events@), opt_view(rule)),
{
    let ghost input = events_view(events@);
    let ghost target = rules_replaced(input, opt_view(rule));
    let mut out: Vec<Event> = Vec::new();
    let mut i: usize = 0;
    while i < events.len()
        invariant
            i <= events.len(),
            input == events_view(events@),
            target == rules_replaced(input, opt_view(rule)),
            events_view(out@) == target.take(i as int),
        decreases events.len() - i,
    {
        assert(input[i as int] == events@[i as int]@);
        let e = match (&events[i], &rule) {
            (Event::MarkdownRule, Some(r)) => Event::Raw(r.clone()),
            (e, _) => e.copy(),
        };
        push_event(&mut out, e);
        assert(target.take(i + 1) =~= target.take(i as int).push(target[i as int]));
        i = i + 1;
    }
    assert(target.take(events.len() as int) =~= target);
    out
}

/// The whole document: the raw header, the preamble, the book's events and
/// the raw footer, in that order.
pub open spec fn document_view(
    header: Option<Seq<char>>,
    preamble: Seq<EventView>,
    book: Seq<EventView>,
    footer: Option<Seq<char>>,
) -> Seq<EventView> {
    event_if(header, |h: Seq<char>| EventView::Raw(h)) + preamble + book + event_if(
        footer,
        |f: Seq<char>| EventView::Raw(f),
    )
}

/// Put the document together: the raw header, the preamble, the book's
/// events and the raw footer.
pub fn assemble(
    header: Option<String>,
    preamble: Vec<Event>,
    book: Vec<Event>,
    footer: Option<String>,
) -> (r: Vec<Event>)
    ensures
        events_view(r@) == document_view(
            opt_view(header),
            events_view(preamble@),
            events_view(book@),
            opt_view(footer),
        ),
{
    let mut out: Vec<Event> = Vec::new();
    let ghost h = opt_view(header);
    let ghost f = opt_view(footer);
    push_if_some(&mut out, match header { Some(x) => Some(Event::Raw(x)), None => None });
    push_events(&mut out, &preamble);
    push_events(&mut out, &book);
    push_if_some(&mut out, match footer { Some(x) => Some(Event::Raw(x)), None => None });
    assert(events_view(out@) =~= document_view(h, events_view(preamble@), events_view(book@), f));
    out
}

} // verus!
