# mdbook-typst

An [mdBook] backend that converts a book to [Typst] markup and, where asked,
compiles it to PDF, PNG or SVG with the `typst` command.

The conversion logic is a library verified with Verus: every converter of the
event stream, the HTML and CSS handling, the footnote handling, the JSON
translation of the render context, the style and outline preamble and the
decisions about settings, template and output name carry contracts. Properties
that hold across calls are proved as lemmas: what each converter leaves alone,
what is idempotent, and that HTML kept in a Typst comment (not blank, without
a `* /` of its own) is read back out of it without its surrounding
whitespace.

- `src/` — the verified library.
  - `text.rs` — string operations over `Seq<char>`.
  - `event.rs` — the library's event model.
  - `css.rs` — CSS class styles and the parser of a style sheet's tokens.
  - `html.rs` — reading HTML fragments and writing their Typst equivalents.
  - `code_blocks.rs`, `headings.rs`, `callouts.rs`, `anchors.rs`,
    `images.rs` — the event converters.
  - `pattern.rs`, `converters.rs` — footnotes written as plain text and HTML
    comments in the final markup, through the `regex` crate.
  - `footnotes.rs` — structured footnotes and the events of a book.
  - `json.rs` — the mdBook 0.5 to 0.4 render-context translation.
  - `render.rs` — settings, synthesised markup, template and output name.
  - `preamble.rs` — the style rules, the table of contents, horizontal rules
    and the order of the document's parts.
  - `laws.rs`, `markup_laws.rs` — properties that span calls.
- `tests/` — tests of the library.
- `app/` — the program: standard input, files, `cssparser` tokens, the
  `pullup` event pipeline and the `typst` command. The defaults of the style
  and outline settings are those in `src/preamble.rs`.

[mdBook]: https://github.com/rust-lang/mdBook
[Typst]: https://typst.app/docs/
