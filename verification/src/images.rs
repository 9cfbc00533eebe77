//! Images: sizes from CSS classes, and the assets they reference.

use std::sync::Arc;
use vstd::prelude::*;

use crate::css::{class_height, class_width, CssClassStyles, CssStyles};
use crate::event::{copy_opt, events_view, opt_view, Event, EventView, Image, ImageView};
use crate::html::{extract_html_from_comment, extract_img_src, html_from_comment, img_src};
use crate::stream::{concat_map, lemma_concat_map_step, push_event};
use crate::code_blocks::{char_vecs_view, split_char, split_char_chars};
use crate::text::{
    chars_to_string, push_all, starts_with, starts_with_chars, str_chars, trim_start_matches,
    trim_start_matches_chars,
};

verus! {

/// `a`, or `b` when `a` is absent.
pub open spec fn or_else(a: Option<Seq<char>>, b: Option<Seq<char>>) -> Option<Seq<char>> {
    match a {
        Some(x) => Some(x),
        None => b,
    }
}

/// An image whose class is set gets the CSS width and height of that class
/// where it has none of its own, and loses its alt text.
pub open spec fn resolve_image(img: ImageView, css: Map<Seq<char>, CssStyles>) -> ImageView {
    match img.class {
        Some(c) => ImageView {
            src: img.src,
            alt: Seq::empty(),
            class: img.class,
            width: or_else(img.width, class_width(css, c)),
            height: or_else(img.height, class_height(css, c)),
        },
        None => img,
    }
}

/// What one event becomes.
pub open spec fn resolve_step(e: EventView, css: Map<Seq<char>, CssStyles>) -> Seq<EventView> {
    match e {
        EventView::ImageStart(i) => seq![EventView::ImageStart(resolve_image(i, css))],
        EventView::ImageEnd(i) => seq![EventView::ImageEnd(resolve_image(i, css))],
        _ => seq![e],
    }
}

/// A stream with its image sizes resolved from CSS classes.
pub open spec fn resolve_css_image_styles(
    s: Seq<EventView>,
    css: Map<Seq<char>, CssStyles>,
) -> Seq<EventView> {
    concat_map(s, |e: EventView| resolve_step(e, css))
}

/// Resolve CSS classes on Image events to actual width/height values.
///
/// When pullup converts HTML img tags to Typst Image events, it preserves the
/// CSS class but not the resolved dimensions. This converter looks up the class
/// in the parsed CSS and substitutes the width/height values.
pub struct ResolveCssImageStyles {
    events: Vec<Event>,
    css_styles: Arc<CssClassStyles>,
}

impl View for ResolveCssImageStyles {
    type V = (Seq<EventView>, Map<Seq<char>, CssStyles>);

    closed spec fn view(&self) -> (Seq<EventView>, Map<Seq<char>, CssStyles>) {
        (events_view(self.events@), self.css_styles@)
    }
}

fn or_else_exec(a: &Option<String>, b: Option<String>) -> (r: Option<String>)
    ensures
        opt_view(r) == or_else(opt_view(*a), opt_view(b)),
{
    match a {
        Some(x) => Some(x.clone()),
        None => b,
    }
}

fn resolve_image_exec(img: &Image, css: &CssClassStyles) -> (r: Image)
    ensures
        r@ == resolve_image(img@, css@),
{
    match &img.class {
        Some(c) => Image {
            src: img.src.clone(),
            alt: String::new(),
            class: copy_opt(&img.class),
            width: or_else_exec(&img.width, css.get_width(c.as_str())),
            height: or_else_exec(&img.height, css.get_height(c.as_str())),
        },
        None => img.copy(),
    }
}

impl ResolveCssImageStyles {
    pub fn new(events: Vec<Event>, css_styles: Arc<CssClassStyles>) -> (r: Self)
        ensures
            r@ == (events_view(events@), css_styles@),
    {
        ResolveCssImageStyles { events, css_styles }
    }

    /// All the events of the resolved stream.
    pub fn collect(self) -> (out: Vec<Event>)
        ensures
            events_view(out@) == resolve_css_image_styles(self@.0, self@.1),
    {
        let ghost input = events_view(self.events@);
        let ghost css = self.css_styles@;
        let ghost f = |e: EventView| resolve_step(e, css);
        let mut out: Vec<Event> = Vec::new();
        let mut i: usize = 0;
        while i < self.events.len()
            invariant
                i <= self.events.len(),
                input == events_view(self.events@),
                css == self.css_styles@,
                f == (|e: EventView| resolve_step(e, css)),
                events_view(out@) == concat_map(input.take(i as int), f),
            decreases self.events.len() - i,
        {
            proof {
                lemma_concat_map_step(input, f, i as int);
                assert(input[i as int] == self.events@[i as int]@);
            }
            match &self.events[i] {
                Event::ImageStart(img) => {
                    push_event(&mut out, Event::ImageStart(resolve_image_exec(img, &self.css_styles)));
                },
                Event::ImageEnd(img) => {
                    push_event(&mut out, Event::ImageEnd(resolve_image_exec(img, &self.css_styles)));
                },
                e => {
                    push_event(&mut out, e.copy());
                },
            }
            i = i + 1;
        }
        assert(input.take(input.len() as int) =~= input);
        out
    }
}

/// `dir` joined with `path`, as `std::path::Path::join` does on Unix: an
/// absolute `path` replaces `dir`; otherwise a `/` separates them unless
/// `dir` is empty or already ends with one.
pub open spec fn path_join(dir: Seq<char>, path: Seq<char>) -> Seq<char> {
    if path.len() > 0 && path[0] == '/' {
        path
    } else if dir.len() == 0 || dir.last() == '/' {
        dir + path
    } else {
        dir + "/"@ + path
    }
}

/// The path of the asset that an event references: the source of an
/// image, or of an `<img>` tag in HTML or in an HTML comment.
pub open spec fn referenced_asset_view(e: EventView) -> Option<Seq<char>> {
    match e {
        EventView::ImageStart(img) => Some(img.src),
        EventView::MarkdownImageStart(_, url, _) => Some(url),
        EventView::Html(_, _, h) => img_src(h),
        EventView::Raw(r) => match html_from_comment(r) {
            Some(h) => img_src(h),
            None => None,
        },
        _ => None,
    }
}

/// A path that names no local asset: a URL or an absolute path.
pub open spec fn is_remote_or_absolute(path: Seq<char>) -> bool {
    starts_with(path, "http://"@) || starts_with(path, "https://"@) || starts_with(path, "/"@)
}

/// A planned copy of an asset: the source and destination, and those to
/// use when the source does not exist (the path without leading `./`).
#[derive(Debug)]
pub struct AssetCopy {
    pub source: String,
    pub dest: String,
    pub fallback_source: String,
    pub fallback_dest: String,
}

/// The strings of an [`AssetCopy`].
pub struct AssetCopyView {
    pub source: Seq<char>,
    pub dest: Seq<char>,
    pub fallback_source: Seq<char>,
    pub fallback_dest: Seq<char>,
}

impl View for AssetCopy {
    type V = AssetCopyView;

    open spec fn view(&self) -> AssetCopyView {
        AssetCopyView {
            source: self.source@,
            dest: self.dest@,
            fallback_source: self.fallback_source@,
            fallback_dest: self.fallback_dest@,
        }
    }
}

/// Whether the `i`-th piece of a path split at `/` names a component: empty
/// pieces (repeated or trailing separators) do not, nor does `.` except at
/// the very start of a relative path.
pub open spec fn keeps_piece(q: Seq<char>, i: int) -> bool {
    q.len() > 0 && (q != "."@ || i == 0)
}

/// The component pieces among the first `n` pieces.
pub open spec fn kept_pieces(ps: Seq<Seq<char>>, n: int) -> Seq<Seq<char>>
    decreases n,
{
    if n <= 0 {
        Seq::empty()
    } else {
        let k = kept_pieces(ps, n - 1);
        if keeps_piece(ps[n - 1], n - 1) {
            k.push(ps[n - 1])
        } else {
            k
        }
    }
}

/// The pieces joined with `/`.
pub open spec fn join_pieces(ps: Seq<Seq<char>>) -> Seq<char>
    decreases ps.len(),
{
    if ps.len() == 0 {
        Seq::empty()
    } else if ps.len() == 1 {
        ps[0]
    } else {
        join_pieces(ps.drop_last()) + "/"@ + ps.last()
    }
}

/// A path in normal form, as `std::path::Path` compares paths: by their
/// components, so that `a//b`, `a/./b` and `a/b/` are all `a/b`.
pub open spec fn normal_path(p: Seq<char>) -> Seq<char> {
    let ps = split_char(p, '/');
    (if p.len() > 0 && p[0] == '/' {
        "/"@
    } else {
        Seq::empty()
    }) + join_pieces(kept_pieces(ps, ps.len() as int))
}

/// The normal form of a path.
fn normalize_path(p: &Vec<char>) -> (r: Vec<char>)
    ensures
        r@ == normal_path(p@),
{
    proof {
        reveal_strlit(".");
        reveal_strlit("/");
    }
    let pieces = split_char_chars(p, '/');
    let ghost ps = split_char(p@, '/');
    let mut body: Vec<char> = Vec::new();
    let mut count: usize = 0;
    let mut i: usize = 0;
    while i < pieces.len()
        invariant
            i <= pieces.len(),
            ps == char_vecs_view(pieces@),
            body@ == join_pieces(kept_pieces(ps, i as int)),
            count == kept_pieces(ps, i as int).len(),
            count <= i,
        decreases pieces.len() - i,
    {
        let q = &pieces[i];
        proof {
            reveal_strlit(".");
            reveal_strlit("/");
        }
        assert(ps[i as int] == q@);
        let is_dot = q.len() == 1 && q[0] == '.';
        assert(is_dot == (q@ == "."@)) by {
            if q@ == "."@ {
                assert(q@.len() == 1 && q@[0] == '.');
            }
            if is_dot {
                assert(q@ =~= "."@);
            }
        }
        if q.len() > 0 && (!is_dot || i == 0) {
            let ghost k = kept_pieces(ps, i as int);
            if count > 0 {
                body.push('/');
            }
            push_all(&mut body, q);
            assert(k.push(q@).drop_last() =~= k);
            assert(body@ =~= join_pieces(k.push(q@)));
            count = count + 1;
        }
        i = i + 1;
    }
    assert(ps.len() == pieces.len());
    let mut r: Vec<char> = Vec::new();
    if p.len() > 0 && p[0] == '/' {
        r.push('/');
    }
    push_all(&mut r, &body);
    assert(r@ =~= normal_path(p@));
    r
}

/// The copy planned for the asset at `path`: none for a URL or an absolute
/// path, none where its source was copied already; otherwise from the source
/// directory to the destination directory, with the path stripped of leading
/// `./` as the fallback.
pub open spec fn planned_copy(a: CopyReferencedAssetsView, path: Seq<char>) -> Option<AssetCopyView> {
    let source = path_join(a.source_dir, path);
    if is_remote_or_absolute(path) || a.copied.contains(normal_path(source)) {
        None
    } else {
        let cleaned = trim_start_matches(path, "./"@);
        Some(
            AssetCopyView {
                source,
                dest: path_join(a.dest_dir, path),
                fallback_source: path_join(a.source_dir, cleaned),
                fallback_dest: path_join(a.dest_dir, cleaned),
            },
        )
    }
}

/// Copy referenced assets (images) from source to destination as they are encountered.
///
/// This converter watches for image events and plans copies of the
/// referenced files to the destination directory, preserving the directory
/// structure. The caller makes the copies and reports those that succeed.
pub struct CopyReferencedAssets {
    source_dir: String,
    dest_dir: String,
    copied: Vec<String>,
}

/// The state of a [`CopyReferencedAssets`]: its directories and the sources
/// copied so far, each in normal form.
pub struct CopyReferencedAssetsView {
    pub source_dir: Seq<char>,
    pub dest_dir: Seq<char>,
    pub copied: Set<Seq<char>>,
}

impl View for CopyReferencedAssets {
    type V = CopyReferencedAssetsView;

    closed spec fn view(&self) -> CopyReferencedAssetsView {
        CopyReferencedAssetsView {
            source_dir: self.source_dir@,
            dest_dir: self.dest_dir@,
            copied: crate::event::strings_view(self.copied@).to_set(),
        }
    }
}

fn path_join_exec(dir: &str, path: &Vec<char>) -> (r: String)
    ensures
        r@ == path_join(dir@, path@),
{
    let d = str_chars(dir);
    proof {
        reveal_strlit("/");
    }
    if path.len() > 0 && path[0] == '/' {
        return chars_to_string(path);
    }
    let mut out = d;
    if out.len() > 0 && out[out.len() - 1] != '/' {
        out.push('/');
    }
    push_all(&mut out, path);
    assert(out@ =~= path_join(dir@, path@));
    chars_to_string(&out)
}

impl CopyReferencedAssets {
    pub fn new(source_dir: String, dest_dir: String) -> (r: Self)
        ensures
            r@.source_dir == source_dir@,
            r@.dest_dir == dest_dir@,
            r@.copied == Set::<Seq<char>>::empty(),
    {
        let r = CopyReferencedAssets { source_dir, dest_dir, copied: Vec::new() };
        assert(crate::event::strings_view(r.copied@).to_set() =~= Set::<Seq<char>>::empty());
        r
    }

    /// The path of the asset that an event references, if any.
    pub fn referenced_asset(event: &Event) -> (r: Option<String>)
        ensures
            opt_view(r) == referenced_asset_view(event@),
    {
        match event {
            Event::ImageStart(img) => Some(img.src.clone()),
            Event::MarkdownImageStart(_, url, _) => Some(url.clone()),
            Event::Html(_, _, h) => extract_img_src(h.as_str()),
            Event::Raw(r) => match extract_html_from_comment(r.as_str()) {
                Some(h) => extract_img_src(h.as_str()),
                None => None,
            },
            _ => None,
        }
    }

    /// The copy to make for an asset path: none for URLs, absolute paths and
    /// sources already copied.
    pub fn copy_asset(&self, path: &str) -> (r: Option<AssetCopy>)
        ensures
            match planned_copy(self@, path@) {
                Some(c) => r matches Some(x) && x@ == c,
                None => r is None,
            },
    {
        let p = str_chars(path);
        if starts_with_chars(&p, &str_chars("http://")) || starts_with_chars(
            &p,
            &str_chars("https://"),
        ) || starts_with_chars(&p, &str_chars("/")) {
            return None;
        }
        let source = path_join_exec(self.source_dir.as_str(), &p);
        let key = chars_to_string(&normalize_path(&str_chars(source.as_str())));
        let mut k: usize = 0;
        let ghost copied = crate::event::strings_view(self.copied@);
        while k < self.copied.len()
            invariant
                k <= self.copied.len(),
                copied == crate::event::strings_view(self.copied@),
                source@ == path_join(self@.source_dir, path@),
                key@ == normal_path(source@),
                forall|j: int| 0 <= j < k ==> copied[j] != key@,
            decreases self.copied.len() - k,
        {
            if self.copied[k] == key {
                assert(copied[k as int] == key@);
                assert(copied.contains(key@));
                assert(copied.to_set().contains(key@));
                assert(source@ == path_join(self@.source_dir, path@));
                assert(self@.copied == copied.to_set());
                return None;
            }
            k = k + 1;
        }
        assert(!copied.to_set().contains(key@)) by {
            if copied.to_set().contains(key@) {
                let j = choose|j: int| 0 <= j < copied.len() && copied[j] == key@;
                assert(copied[j] == key@);
            }
        }
        let dest = path_join_exec(self.dest_dir.as_str(), &p);
        proof {
            reveal_strlit("./");
        }
        let cleaned = trim_start_matches_chars(&p, &str_chars("./"));
        let fallback_source = path_join_exec(self.source_dir.as_str(), &cleaned);
        let fallback_dest = path_join_exec(self.dest_dir.as_str(), &cleaned);
        Some(AssetCopy { source, dest, fallback_source, fallback_dest })
    }

    /// Note that `source` was copied.
    pub fn record_copy(&mut self, source: String)
        ensures
            final(self)@.copied == old(self)@.copied.insert(normal_path(source@)),
            final(self)@.source_dir == old(self)@.source_dir,
            final(self)@.dest_dir == old(self)@.dest_dir,
    {
        let ghost before = crate::event::strings_view(self.copied@);
        let key = chars_to_string(&normalize_path(&str_chars(source.as_str())));
        let ghost sv = key@;
        self.copied.push(key);
        let ghost after = crate::event::strings_view(self.copied@);
        assert(after =~= before.push(sv));
        assert forall|x: Seq<char>| after.contains(x) <==> (before.contains(x) || x == sv) by {
            if after.contains(x) {
                let j = choose|j: int| 0 <= j < after.len() && after[j] == x;
                if j < before.len() {
                    assert(before[j] == x);
                }
            }
            if before.contains(x) {
                let j = choose|j: int| 0 <= j < before.len() && before[j] == x;
                assert(after[j] == x);
            }
            if x == sv {
                assert(after[before.len() as int] == sv);
            }
        }
        assert(after.to_set() =~= before.to_set().insert(sv));
    }
}

impl AssetCopy {
    /// The copy to make, given whether the source exists and, when it does
    /// not, whether the fallback source exists.
    pub fn pick(&self, source_exists: bool, fallback_exists: bool) -> (r: Option<(String, String)>)
        ensures
            source_exists ==> (r matches Some((s, d)) && s@ == self.source@ && d@ == self.dest@),
            !source_exists && fallback_exists ==> (r matches Some((s, d)) && s@
                == self.fallback_source@ && d@ == self.fallback_dest@),
            !source_exists && !fallback_exists ==> r is None,
    {
        if source_exists {
            Some((self.source.clone(), self.dest.clone()))
        } else if fallback_exists {
            Some((self.fallback_source.clone(), self.fallback_dest.clone()))
        } else {
            None
        }
    }
}

} // verus!
