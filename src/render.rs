//! Rendering of a parsed Gemini document to HTML, with consecutive links
//! condensed into one paragraph.
use vstd::prelude::*;
use germ::ast::Node as GemNode;
use crate::configuration::Configuration;
use crate::environment::Environment;
use crate::link::{is_dot_relative, is_surface, link_href, opt_view, resolve_link, Location};
use crate::text::{
    append, append_str, chars_of, ends_with, has_suffix, listed, listed_exec, replace_all,
    replace_all_exec, slice, string_of, trim, trim_exec,
};

verus! {

/// One line, or block of lines, of a Gemini document.
pub enum Node {
    Text(String),
    Link { to: String, text: Option<String> },
    Heading { level: usize, text: String },
    List(Vec<String>),
    Blockquote(String),
    PreformattedText { alt_text: Option<String>, text: String },
    Whitespace,
}

/// Whether links to images are shown as images.
#[derive(Clone, Copy, Debug, PartialEq, Eq, Structural)]
pub enum ImageEmbedding {
    Off,
    /// A link to the image, then the image.
    LinkAndImage,
    /// The image alone.
    ImageOnly,
}

/// The embedding that the setting `e` asks for: none where it is absent, a
/// link and the image where it is `1`, the image alone otherwise.
pub open spec fn embedding_of(e: Option<String>) -> ImageEmbedding {
    match e {
        None => ImageEmbedding::Off,
        Some(s) => if s@ == "1"@ {
            ImageEmbedding::LinkAndImage
        } else {
            ImageEmbedding::ImageOnly
        },
    }
}

/// The image embedding that `env` asks for (see `embedding_of`).
pub fn image_embedding(env: &Environment) -> (r: ImageEmbedding)
    ensures
        r == embedding_of(env.embed_images),
{
    match &env.embed_images {
        None => ImageEmbedding::Off,
        Some(s) => {
            let one = chars_of("1");
            if crate::text::same_chars(&chars_of(s.as_str()), &one) {
                ImageEmbedding::LinkAndImage
            } else {
                ImageEmbedding::ImageOnly
            }
        },
    }
}

/// What `comrak::markdown_to_html` makes of `s` with its default options.
pub uninterp spec fn markdown_html(s: Seq<char>) -> Seq<char>;

/// Relies on `comrak::markdown_to_html` with default options: the HTML of a
/// Markdown text depends on the text alone.
#[verifier::external_body]
fn markdown_to_html(s: &str) -> (r: String)
    ensures
        r@ == markdown_html(s@),
{
    comrak::markdown_to_html(s, &comrak::Options::default())
}

/// Rendered HTML `html` as inline markup: without paragraph tags and without
/// surrounding whitespace.
pub open spec fn unwrap_inline(html: Seq<char>) -> Seq<char> {
    trim(replace_all(replace_all(html, "<p>"@, Seq::empty()), "</p>"@, Seq::empty()))
}

/// The inline markup of text `s`.
pub open spec fn inline(s: Seq<char>) -> Seq<char> {
    unwrap_inline(markdown_html(s))
}

/// Rendered HTML as inline markup (see `unwrap_inline`).
pub fn strip_paragraph(html: &str) -> (r: String)
    ensures
        r@ == unwrap_inline(html@),
{
    string_of(&unwrap_inline_exec(&chars_of(html)))
}

fn unwrap_inline_exec(h: &Vec<char>) -> (r: Vec<char>)
    ensures
        r@ == unwrap_inline(h@),
{
    let empty: Vec<char> = Vec::new();
    let a = replace_all_exec(h, &chars_of("<p>"), &empty);
    let b = replace_all_exec(&a, &chars_of("</p>"), &empty);
    trim_exec(&b)
}

fn inline_exec(s: &str) -> (r: Vec<char>)
    ensures
        r@ == inline(s@),
{
    let html = markdown_to_html(s);
    unwrap_inline_exec(&chars_of(html.as_str()))
}

/// `n` times `#`.
pub open spec fn hashes(n: nat) -> Seq<char>
    decreases n,
{
    if n == 0 {
        Seq::empty()
    } else {
        hashes((n - 1) as nat).push('#')
    }
}

/// A heading as a line of Gemini text: `#` for each level, then a space and
/// the text where there is text.
pub open spec fn heading_line(level: nat, text: Seq<char>) -> Seq<char> {
    hashes(level) + (if text.len() == 0 { Seq::empty() } else { " "@ + text })
}

/// The element name of a heading of `level`.
pub open spec fn heading_tag(level: nat) -> Seq<char> {
    if level == 1 {
        "h1"@
    } else if level == 2 {
        "h2"@
    } else if level == 3 {
        "h3"@
    } else {
        "p"@
    }
}

/// The part of `s` after its last `/`.
pub open spec fn last_segment(s: Seq<char>) -> Seq<char>
    decreases s.len(),
{
    if s.len() == 0 || s.last() == '/' {
        Seq::empty()
    } else {
        last_segment(s.drop_last()).push(s.last())
    }
}

/// File name `seg` has extension `ext` after a non-empty stem.
pub open spec fn has_extension(seg: Seq<char>, ext: Seq<char>) -> bool {
    ends_with(seg, "."@ + ext) && seg.len() > ext.len() + 1
}

/// `h` names a PNG, JPEG, GIF, WebP or SVG file.
pub open spec fn is_image(h: Seq<char>) -> bool {
    let seg = last_segment(h);
    has_extension(seg, "png"@) || has_extension(seg, "jpg"@) || has_extension(seg, "jpeg"@)
        || has_extension(seg, "gif"@) || has_extension(seg, "webp"@) || has_extension(seg, "svg"@)
}

/// A link node that takes part in a run of links: one that is not shown as
/// an embedded image.
pub open spec fn is_run_link(n: Node, href: Seq<char>, mode: ImageEmbedding) -> bool {
    n is Link && !(mode != ImageEmbedding::Off && is_image(href))
}

/// The marker between two condensed links.
pub open spec fn separator() -> Seq<char> {
    " <span class=\"gemini-fragment\">|</span> "@
}

/// The arrow in front of a link that is not condensed.
pub open spec fn fragment() -> Seq<char> {
    "<span class=\"gemini-fragment\">=&#62; </span>"@
}

/// What comes before a node: inside a run of links, a separator where a link
/// continues a condensed run, else the end of the run's paragraph; a new
/// paragraph where a link starts a run.
pub open spec fn opening(in_run: bool, link: bool, condensing: bool) -> Seq<char> {
    if in_run {
        if link && condensing {
            separator()
        } else if link {
            "</p><p>"@
        } else {
            "</p>"@
        }
    } else if link {
        "<p>"@
    } else {
        Seq::empty()
    }
}

/// The label of a link: its text, or its target where it has none.
pub open spec fn label_of(to: Seq<char>, text: Option<String>) -> Seq<char> {
    match text {
        Some(t) => inline(t@),
        None => inline(to),
    }
}

/// The anchor of a link.
pub open spec fn anchor(href: Seq<char>, label: Seq<char>) -> Seq<char> {
    "<a href=\""@ + href + "\">"@ + label + "</a>"@
}

/// The items of a list, one element each, on lines of their own.
pub open spec fn list_items(items: Seq<String>) -> Seq<char>
    decreases items.len(),
{
    if items.len() == 0 {
        Seq::empty()
    } else if items.len() == 1 {
        "<li>"@ + inline(items[0]@) + "</li>"@
    } else {
        list_items(items.drop_last()) + "\n"@ + "<li>"@ + inline(items.last()@) + "</li>"@
    }
}

/// `t` without one final line feed.
pub open spec fn drop_newline(t: Seq<char>) -> Seq<char> {
    if t.len() > 0 && t.last() == '\n' {
        t.drop_last()
    } else {
        t
    }
}

/// The HTML of node `n`, whose link (if it is one) has `href`; `bare` leaves
/// out the arrow in front of the link.
pub open spec fn node_markup(n: Node, href: Seq<char>, bare: bool, mode: ImageEmbedding) -> Seq<char> {
    match n {
        Node::Text(t) => "<p>"@ + inline(t@) + "</p>"@,
        Node::Link { to, text } => {
            let label = label_of(to@, text);
            if mode != ImageEmbedding::Off && is_image(href) {
                (if mode == ImageEmbedding::LinkAndImage {
                    "<p>"@ + anchor(href, label) + " <i>Embedded below</i></p>\n"@
                } else {
                    Seq::empty()
                }) + "<p><img src=\""@ + href + "\" alt=\""@ + label + "\" /></p>\n"@
            } else {
                (if bare { Seq::empty() } else { fragment() }) + anchor(href, label)
            }
        },
        Node::Heading { level, text } => "<"@ + heading_tag(level as nat) + ">"@ + inline(text@) + "</"@
            + heading_tag(level as nat) + ">"@,
        Node::List(items) => "<ul>"@ + list_items(items@) + "</ul>"@,
        Node::Blockquote(t) => "<blockquote>"@ + inline(t@) + "</blockquote>"@,
        Node::PreformattedText { alt_text, text } => "<pre>"@ + drop_newline(text@) + "</pre>"@,
        Node::Whitespace => Seq::empty(),
    }
}

/// The state and output after the first `k` nodes: whether a run of links is
/// open, whether the heading trap is active (it starts active; a heading listed
/// in `triggers` activates it and any other heading ends it), and the HTML so far.
/// A link has an arrow in front of it unless every run is condensed or it
/// continues a run that the trap condenses.
pub open spec fn flow(
    nodes: Seq<Node>,
    hrefs: Seq<Seq<char>>,
    k: nat,
    triggers: Seq<String>,
    condense_all: bool,
    mode: ImageEmbedding,
) -> (bool, bool, Seq<char>)
    decreases k,
{
    if k == 0 {
        (false, true, Seq::empty())
    } else {
        let (in_run, trap, out) = flow(nodes, hrefs, (k - 1) as nat, triggers, condense_all, mode);
        let n = nodes[k - 1];
        let h = hrefs[k - 1];
        let link = is_run_link(n, h, mode);
        let out2 = out + opening(in_run, link, condense_all || trap) + node_markup(
            n,
            h,
            condense_all || (in_run && trap),
            mode,
        );
        let trap2 = match n {
            Node::Heading { level, text } => listed(triggers, heading_line(level as nat, text@)),
            _ => trap,
        };
        (link, trap2, out2)
    }
}

/// The HTML body of `nodes`, each link with its href in `hrefs`.
pub open spec fn rendered_body(
    nodes: Seq<Node>,
    hrefs: Seq<Seq<char>>,
    triggers: Seq<String>,
    condense_all: bool,
    mode: ImageEmbedding,
) -> Seq<char> {
    let (in_run, trap, out) = flow(nodes, hrefs, nodes.len(), triggers, condense_all, mode);
    out + (if in_run { "</p>"@ } else { Seq::empty() })
}

/// The title of a document: the inline markup of its first level-1 heading,
/// or nothing.
pub open spec fn first_title(nodes: Seq<Node>) -> Seq<char>
    decreases nodes.len(),
{
    if nodes.len() == 0 {
        Seq::empty()
    } else {
        match nodes[0] {
            Node::Heading { level, text } => if level == 1 {
                inline(text@)
            } else {
                first_title(nodes.drop_first())
            },
            _ => first_title(nodes.drop_first()),
        }
    }
}

/// The characters of the first `n` strings of `v`, with nothing for those
/// beyond its end.
pub open spec fn href_views(v: Seq<String>, n: nat) -> Seq<Seq<char>> {
    Seq::new(n, |i: int| if i < v.len() { v[i]@ } else { Seq::empty() })
}

fn last_segment_exec(s: &Vec<char>) -> (r: Vec<char>)
    ensures
        r@ == last_segment(s@),
{
    let mut i: usize = s.len();
    assert(s@.subrange(0, s.len() as int) =~= s@);
    assert(s@.subrange(s.len() as int, s.len() as int) =~= Seq::<char>::empty());
    assert(last_segment(s@) =~= last_segment(s@) + Seq::<char>::empty());
    while i > 0 && s[i - 1] != '/'
        invariant
            i <= s.len(),
            last_segment(s@) == last_segment(s@.subrange(0, i as int)) + s@.subrange(i as int, s.len() as int),
        decreases i,
    {
        let ghost pre = s@.subrange(0, i as int);
        assert(pre.drop_last() =~= s@.subrange(0, i - 1));
        assert(s@.subrange(i - 1, s.len() as int) =~= seq![pre.last()] + s@.subrange(i as int, s.len() as int));
        assert(last_segment(pre) == last_segment(pre.drop_last()).push(pre.last()));
        assert(last_segment(pre.drop_last()).push(pre.last()) + s@.subrange(i as int, s.len() as int)
            =~= last_segment(pre.drop_last()) + s@.subrange(i - 1, s.len() as int));
        i = i - 1;
    }
    assert(last_segment(s@.subrange(0, i as int)) =~= Seq::<char>::empty());
    slice(s, i, s.len())
}

fn has_extension_exec(seg: &Vec<char>, ext: &str) -> (r: bool)
    ensures
        r == has_extension(seg@, ext@),
{
    let mut dotted = chars_of(".");
    let e = chars_of(ext);
    append(&mut dotted, &e);
    has_suffix(seg, &dotted) && seg.len() > e.len() && seg.len() - e.len() > 1
}

fn is_image_exec(h: &Vec<char>) -> (r: bool)
    ensures
        r == is_image(h@),
{
    let seg = last_segment_exec(h);
    has_extension_exec(&seg, "png") || has_extension_exec(&seg, "jpg") || has_extension_exec(&seg, "jpeg")
        || has_extension_exec(&seg, "gif") || has_extension_exec(&seg, "webp") || has_extension_exec(&seg, "svg")
}

fn is_run_link_exec(n: &Node, href: &Vec<char>, mode: ImageEmbedding) -> (r: bool)
    ensures
        r == is_run_link(*n, href@, mode),
{
    match n {
        Node::Link { .. } => !(mode != ImageEmbedding::Off && is_image_exec(href)),
        _ => false,
    }
}

/// The length, in characters, of the longest string of `v`.
fn longest(v: &Vec<String>) -> (r: usize)
    ensures
        forall|i: int| 0 <= i < v.len() ==> #[trigger] v@[i]@.len() <= r,
{
    let mut m: usize = 0;
    let mut i: usize = 0;
    while i < v.len()
        invariant
            i <= v.len(),
            forall|j: int| 0 <= j < i ==> #[trigger] v@[j]@.len() <= m,
        decreases v.len() - i,
    {
        let c = chars_of(v[i].as_str());
        if c.len() > m {
            m = c.len();
        }
        i = i + 1;
    }
    m
}

/// A line longer than every string of `v` is not listed in it.
proof fn lemma_too_long_unlisted(v: Seq<String>, x: Seq<char>, bound: nat)
    requires
        forall|i: int| 0 <= i < v.len() ==> #[trigger] v[i]@.len() <= bound,
        x.len() > bound,
    ensures
        !listed(v, x),
{
    if listed(v, x) {
        let i = choose|i: int| 0 <= i < v.len() && #[trigger] v[i]@ == x;
        assert(v[i]@.len() <= bound);
    }
}

proof fn lemma_hashes_len(n: nat)
    ensures
        hashes(n).len() == n,
    decreases n,
{
    if n > 0 {
        lemma_hashes_len((n - 1) as nat);
    }
}

/// Whether the heading of `level` and `text` is listed among `triggers`.
fn heading_listed(triggers: &Vec<String>, level: usize, text: &String) -> (r: bool)
    ensures
        r == listed(triggers@, heading_line(level as nat, text@)),
{
    let bound = longest(triggers);
    proof {
        lemma_hashes_len(level as nat);
    }
    if level > bound {
        proof {
            lemma_too_long_unlisted(triggers@, heading_line(level as nat, text@), bound as nat);
        }
        return false;
    }
    let mut line: Vec<char> = Vec::new();
    let mut k: usize = 0;
    while k < level
        invariant
            k <= level,
            line@ == hashes(k as nat),
        decreases level - k,
    {
        line.push('#');
        k = k + 1;
    }
    let t = chars_of(text.as_str());
    if t.len() > 0 {
        append_str(&mut line, " ");
        append(&mut line, &t);
    } else {
        assert(line@ =~= line@ + Seq::<char>::empty());
    }
    assert(line@ =~= heading_line(level as nat, text@));
    listed_exec(triggers, &line)
}

fn heading_tag_exec(level: usize) -> (r: &'static str)
    ensures
        r@ == heading_tag(level as nat),
{
    if level == 1 {
        "h1"
    } else if level == 2 {
        "h2"
    } else if level == 3 {
        "h3"
    } else {
        "p"
    }
}

fn push_anchor(out: &mut Vec<char>, href: &Vec<char>, label: &Vec<char>)
    ensures
        final(out)@ == old(out)@ + anchor(href@, label@),
{
    append_str(out, "<a href=\"");
    append(out, href);
    append_str(out, "\">");
    append(out, label);
    append_str(out, "</a>");
    assert(final(out)@ =~= old(out)@ + anchor(href@, label@));
}

fn push_list(out: &mut Vec<char>, items: &Vec<String>)
    ensures
        final(out)@ == old(out)@ + list_items(items@),
{
    let mut i: usize = 0;
    assert(items@.subrange(0, 0) =~= Seq::<String>::empty());
    assert(old(out)@ =~= old(out)@ + Seq::<char>::empty());
    while i < items.len()
        invariant
            i <= items.len(),
            out@ == old(out)@ + list_items(items@.subrange(0, i as int)),
        decreases items.len() - i,
    {
        let ghost before = out@;
        let ghost pre = items@.subrange(0, i + 1);
        assert(pre.drop_last() =~= items@.subrange(0, i as int));
        assert(pre.last() == items@[i as int]);
        if i > 0 {
            append_str(out, "\n");
        }
        append_str(out, "<li>");
        let item = inline_exec(items[i].as_str());
        append(out, &item);
        append_str(out, "</li>");
        if i == 0 {
            assert(pre.len() == 1 && pre[0] == items@[0]);
        }
        assert(out@ =~= old(out)@ + list_items(pre));
        i = i + 1;
    }
    assert(items@.subrange(0, items.len() as int) =~= items@);
}

fn push_node(out: &mut Vec<char>, n: &Node, href: &Vec<char>, bare: bool, mode: ImageEmbedding)
    ensures
        final(out)@ == old(out)@ + node_markup(*n, href@, bare, mode),
{
    match n {
        Node::Text(t) => {
            append_str(out, "<p>");
            let x = inline_exec(t.as_str());
            append(out, &x);
            append_str(out, "</p>");
        },
        Node::Link { to, text } => {
            let label = match text {
                Some(t) => inline_exec(t.as_str()),
                None => inline_exec(to.as_str()),
            };
            if mode != ImageEmbedding::Off && is_image_exec(href) {
                if mode == ImageEmbedding::LinkAndImage {
                    append_str(out, "<p>");
                    push_anchor(out, href, &label);
                    append_str(out, " <i>Embedded below</i></p>\n");
                }
                append_str(out, "<p><img src=\"");
                append(out, href);
                append_str(out, "\" alt=\"");
                append(out, &label);
                append_str(out, "\" /></p>\n");
            } else {
                if !bare {
                    append_str(out, "<span class=\"gemini-fragment\">=&#62; </span>");
                }
                push_anchor(out, href, &label);
            }
        },
        Node::Heading { level, text } => {
            let tag = heading_tag_exec(*level);
            append_str(out, "<");
            append_str(out, tag);
            append_str(out, ">");
            let x = inline_exec(text.as_str());
            append(out, &x);
            append_str(out, "</");
            append_str(out, tag);
            append_str(out, ">");
        },
        Node::List(items) => {
            append_str(out, "<ul>");
            push_list(out, items);
            append_str(out, "</ul>");
        },
        Node::Blockquote(t) => {
            append_str(out, "<blockquote>");
            let x = inline_exec(t.as_str());
            append(out, &x);
            append_str(out, "</blockquote>");
        },
        Node::PreformattedText { text, .. } => {
            append_str(out, "<pre>");
            let t = chars_of(text.as_str());
            if t.len() > 0 && t[t.len() - 1] == '\n' {
                let u = slice(&t, 0, t.len() - 1);
                assert(u@ =~= t@.drop_last());
                append(out, &u);
            } else {
                append(out, &t);
            }
            append_str(out, "</pre>");
        },
        Node::Whitespace => {
            assert(old(out)@ =~= old(out)@ + Seq::<char>::empty());
        },
    }
    assert(final(out)@ =~= old(out)@ + node_markup(*n, href@, bare, mode));
}

fn push_opening(out: &mut Vec<char>, in_run: bool, link: bool, condensing: bool)
    ensures
        final(out)@ == old(out)@ + opening(in_run, link, condensing),
{
    if in_run {
        if link && condensing {
            append_str(out, " <span class=\"gemini-fragment\">|</span> ");
        } else if link {
            append_str(out, "</p><p>");
        } else {
            append_str(out, "</p>");
        }
    } else if link {
        append_str(out, "<p>");
    } else {
        assert(old(out)@ =~= old(out)@ + Seq::<char>::empty());
    }
}

/// The title and the HTML body of `document`, whose link at index `i` has the
/// href `hrefs[i]` (other entries are not read; a missing one is empty). Runs of consecutive links
/// share one paragraph where `condense_all` is set or the heading trap is
/// active; otherwise each link has its own.
pub fn render_resolved(
    document: &Vec<Node>,
    hrefs: &Vec<String>,
    env: &Environment,
    condense_all: bool,
) -> (r: (String, String))
    ensures
        r.0@ == first_title(document@),
        r.1@ == rendered_body(
            document@,
            href_views(hrefs@, document.len() as nat),
            env.condense_links_at_headings@,
            condense_all,
            embedding_of(env.embed_images),
        ),
{
    let mode = image_embedding(env);
    let triggers = &env.condense_links_at_headings;
    let ghost hv = href_views(hrefs@, document.len() as nat);
    let mut out: Vec<char> = Vec::new();
    let mut title: Vec<char> = Vec::new();
    let mut titled = false;
    let mut in_run = false;
    let mut trap = true;
    let mut i: usize = 0;
    assert(document@.subrange(0, document.len() as int) =~= document@);
    while i < document.len()
        invariant
            i <= document.len(),
            hv == href_views(hrefs@, document.len() as nat),
            mode == embedding_of(env.embed_images),
            *triggers == env.condense_links_at_headings,
            (in_run, trap, out@) == flow(document@, hv, i as nat, triggers@, condense_all, mode),
            titled ==> title@ == first_title(document@),
            !titled ==> title@.len() == 0,
            !titled ==> first_title(document@) == first_title(document@.subrange(i as int, document.len() as int)),
        decreases document.len() - i,
    {
        let ghost rest = document@.subrange(i as int, document.len() as int);
        assert(rest.drop_first() =~= document@.subrange(i + 1, document.len() as int));
        assert(rest[0] == document@[i as int]);
        let node = &document[i];
        let href = if i < hrefs.len() {
            chars_of(hrefs[i].as_str())
        } else {
            Vec::new()
        };
        assert(href@ == hv[i as int]);
        let link = is_run_link_exec(node, &href, mode);
        push_opening(&mut out, in_run, link, condense_all || trap);
        push_node(&mut out, node, &href, condense_all || (in_run && trap), mode);
        match node {
            Node::Heading { level, text } => {
                if !titled && *level == 1 {
                    title = inline_exec(text.as_str());
                    titled = true;
                }
                trap = heading_listed(triggers, *level, text);
            },
            _ => {},
        }
        in_run = link;
        i = i + 1;
    }
    if in_run {
        append_str(&mut out, "</p>");
    } else {
        assert(out@ =~= out@ + Seq::<char>::empty());
    }
    if !titled {
        assert(document@.subrange(i as int, document.len() as int).len() == 0);
        assert(title@ =~= Seq::<char>::empty());
    }
    (string_of(&title), string_of(&out))
}

/// Whether document paths `listed` in `routes` (or `*` there) condense every run of links.
pub open spec fn condenses_all(routes: Seq<String>, path: Seq<char>) -> bool {
    listed(routes, path) || listed(routes, "*"@)
}

/// `href` is what `node` gets in the document at `base`, where the node is a
/// link (see `link_href`).
pub open spec fn href_fits(
    node: Node,
    href: Seq<char>,
    base: Location,
    env: Environment,
    c: Configuration,
) -> bool {
    match node {
        Node::Link { to, text } => Some(href) == link_href(to@, base, env, c),
        _ => true,
    }
}

/// The title and HTML body of `document`, a document at `base`: each link
/// resolved as `resolve_link` does, then all rendered as `render_resolved` does,
/// with every run condensed where the document's path is listed in
/// `condense_links`. None only where the document has no host.
pub fn from_gemini(
    document: &Vec<Node>,
    base: &Location,
    env: &Environment,
    configuration: &Configuration,
) -> (r: Option<(String, String)>)
    ensures
        opt_view(base.host) is Some ==> r is Some,
        r matches Some(p) ==> p.0@ == first_title(document@),
        r matches Some(p) ==> exists|hs: Seq<Seq<char>>|
            {
                &&& hs.len() == document.len()
                &&& forall|i: int| 0 <= i < hs.len() ==> href_fits(document@[i], #[trigger] hs[i], *base, *env, *configuration)
                &&& p.1@ == rendered_body(
                    document@,
                    hs,
                    env.condense_links_at_headings@,
                    condenses_all(env.condense_links@, base.path@),
                    embedding_of(env.embed_images),
                )
            },
{
    let path = chars_of(base.path.as_str());
    let condense_all = listed_exec(&env.condense_links, &path) || listed_exec(&env.condense_links, &chars_of("*"));
    let mut hrefs: Vec<String> = Vec::new();
    let mut i: usize = 0;
    while i < document.len()
        invariant
            i <= document.len(),
            hrefs.len() == i,
            forall|j: int| 0 <= j < i ==> href_fits(document@[j], #[trigger] hrefs@[j]@, *base, *env, *configuration),
        decreases document.len() - i,
    {
        let ghost old_hrefs = hrefs@;
        match &document[i] {
            Node::Link { to, .. } => {
                match resolve_link(to.as_str(), base, env, configuration) {
                    Some(h) => {
                        hrefs.push(h);
                    },
                    None => {
                        assert(opt_view(base.host) is None);
                        return None;
                    },
                }
            },
            _ => {
                hrefs.push(String::new());
            },
        }
        assert forall|j: int| 0 <= j < i + 1 implies href_fits(document@[j], #[trigger] hrefs@[j]@, *base, *env, *configuration) by {
            if j < i {
                assert(hrefs@[j] == old_hrefs[j]);
            }
        }
        i = i + 1;
    }
    let r = render_resolved(document, &hrefs, env, condense_all);
    let ghost hs = href_views(hrefs@, document.len() as nat);
    assert forall|j: int| 0 <= j < hs.len() implies href_fits(document@[j], #[trigger] hs[j], *base, *env, *configuration) by {
        assert(hs[j] == hrefs@[j]@);
    }
    Some(r)
}

/// The title is the text of the first level-1 heading: no heading before it
/// is of level 1, and whatever follows it, a later level-1 heading included,
/// does not change it.
pub proof fn lemma_first_heading_is_title(nodes: Seq<Node>, k: int, text: String)
    requires
        0 <= k < nodes.len(),
        nodes[k] == (Node::Heading { level: 1, text }),
        forall|j: int| 0 <= j < k ==> !(#[trigger] nodes[j] matches Node::Heading { level, .. } && level == 1),
    ensures
        first_title(nodes) == inline(text@),
    decreases k,
{
    if k > 0 {
        let rest = nodes.drop_first();
        assert forall|j: int| 0 <= j < k - 1 implies !(#[trigger] rest[j] matches Node::Heading { level, .. } && level == 1) by {
            assert(rest[j] == nodes[j + 1]);
        }
        lemma_first_heading_is_title(rest, k - 1, text);
        assert(!(nodes[0] matches Node::Heading { level, .. } && level == 1));
    }
}

/// Where every run is condensed, two consecutive links that are not shown as
/// images make one paragraph, with one separator between them.
pub proof fn lemma_condensed_pair(
    a: Node,
    b: Node,
    ha: Seq<char>,
    hb: Seq<char>,
    triggers: Seq<String>,
    mode: ImageEmbedding,
)
    requires
        is_run_link(a, ha, mode),
        is_run_link(b, hb, mode),
    ensures
        rendered_body(seq![a, b], seq![ha, hb], triggers, true, mode) == "<p>"@ + node_markup(a, ha, true, mode)
            + separator() + node_markup(b, hb, true, mode) + "</p>"@,
{
    let nodes = seq![a, b];
    let hrefs = seq![ha, hb];
    let f0 = flow(nodes, hrefs, 0, triggers, true, mode);
    let f1 = flow(nodes, hrefs, 1, triggers, true, mode);
    let f2 = flow(nodes, hrefs, 2, triggers, true, mode);
    assert(f1.0);
    assert(f1.2 =~= Seq::<char>::empty() + "<p>"@ + node_markup(a, ha, true, mode));
    assert(f2.0);
    assert(f2.2 =~= "<p>"@ + node_markup(a, ha, true, mode) + separator() + node_markup(b, hb, true, mode));
}

/// In a rendered document, a surface link keeps its target as its href,
/// whatever the settings and serving flags: `from_gemini` renders each link
/// with an href that fits it, and a surface link's anchor then points at the
/// target itself.
pub proof fn lemma_surface_link_rendered(
    to: String,
    text: Option<String>,
    href: Seq<char>,
    base: Location,
    env: Environment,
    c: Configuration,
    bare: bool,
    mode: ImageEmbedding,
)
    requires
        is_surface(to@),
        !is_dot_relative(to@),
        href_fits(Node::Link { to, text }, href, base, env, c),
    ensures
        href == to@,
        !(mode != ImageEmbedding::Off && is_image(to@)) ==> node_markup(Node::Link { to, text }, href, bare, mode)
            == (if bare { Seq::empty() } else { fragment() }) + anchor(to@, label_of(to@, text)),
{
    crate::link::lemma_surface_link_unchanged(to@, opt_view(base.host), base.path@, env, c);
}

/// The nodes that germ's parser reads from Gemini text.
pub uninterp spec fn gemtext_nodes(s: Seq<char>) -> Seq<Node>;

/// Relies on `germ::ast::Ast::from_string` and `Ast::inner`: the nodes of
/// Gemini text, in order, depend on the text alone. Each node is carried over
/// to the variant of the same name.
#[verifier::external_body]
fn parse_gemtext(content: &str) -> (r: Vec<Node>)
    ensures
        r@ == gemtext_nodes(content@),
{
    germ::ast::Ast::from_string(content).inner().iter().map(|n| match n {
        GemNode::Text(t) => Node::Text(t.clone()),
        GemNode::Link { to, text } => Node::Link { to: to.clone(), text: text.clone() },
        GemNode::Heading { level, text } => Node::Heading { level: *level, text: text.clone() },
        GemNode::List(items) => Node::List(items.clone()),
        GemNode::Blockquote(t) => Node::Blockquote(t.clone()),
        GemNode::PreformattedText { alt_text, text } => Node::PreformattedText { alt_text: alt_text.clone(), text: text.clone() },
        GemNode::Whitespace => Node::Whitespace,
    }).collect()
}

/// The title and HTML body of the Gemini text `content`, a document at `base`:
/// its nodes rendered as `from_gemini` renders them.
pub fn from_gemtext(
    content: &str,
    base: &Location,
    env: &Environment,
    configuration: &Configuration,
) -> (r: Option<(String, String)>)
    ensures
        opt_view(base.host) is Some ==> r is Some,
        r matches Some(p) ==> p.0@ == first_title(gemtext_nodes(content@)),
        r matches Some(p) ==> exists|hs: Seq<Seq<char>>|
            {
                &&& hs.len() == gemtext_nodes(content@).len()
                &&& forall|i: int| 0 <= i < hs.len() ==> href_fits(gemtext_nodes(content@)[i], #[trigger] hs[i], *base, *env, *configuration)
                &&& p.1@ == rendered_body(
                    gemtext_nodes(content@),
                    hs,
                    env.condense_links_at_headings@,
                    condenses_all(env.condense_links@, base.path@),
                    embedding_of(env.embed_images),
                )
            },
{
    let document = parse_gemtext(content);
    from_gemini(&document, base, env, configuration)
}

} // verus!
