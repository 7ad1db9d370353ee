//! The page around a rendered document: its head, the optional header, and
//! the section that shows the document or the capsule's status.
use vstd::prelude::*;
use crate::environment::Environment;
use crate::text::{append, append_str, chars_of, has_prefix, split, split_exec, starts_with, string_of};

verus! {

/// The start of a page, up to the viewport tag, with the document's language
/// where it has one.
pub open spec fn page_start(language: Seq<char>) -> Seq<char> {
    "<!DOCTYPE html><html"@ + (if language.len() == 0 { Seq::empty() } else { " lang=\""@ + language + "\""@ })
        + "><head><meta name=\"viewport\" content=\"width=device-width, initial-scale=1.0\">"@
}

/// A stylesheet link for each non-empty item.
pub open spec fn stylesheet_links(items: Seq<Seq<char>>) -> Seq<char>
    decreases items.len(),
{
    if items.len() == 0 {
        Seq::empty()
    } else {
        stylesheet_links(items.drop_last()) + (if items.last().len() == 0 {
            Seq::empty()
        } else {
            "<link rel=\"stylesheet\" type=\"text/css\" href=\""@ + items.last() + "\">"@
        })
    }
}

/// The styles of a page: the external stylesheets where some are set, else
/// the default stylesheet with the primary colour.
pub open spec fn styles(css: Option<String>, primary: Option<String>) -> Seq<char> {
    match css {
        Some(c) => stylesheet_links(split(c@, ',')),
        None => "<link rel=\"stylesheet\" href=\"https://latex.vercel.app/style.css\">"@ + match primary {
            Some(p) => "<style>:root { --primary: "@ + p@ + " }</style>"@,
            None => "<style>:root { --primary: var(--base0D); }</style>"@,
        },
    }
}

/// The favicon link, where one is set.
pub open spec fn favicon(f: Option<String>) -> Seq<char> {
    match f {
        Some(u) => "<link rel=\"icon\" type=\"image/x-icon\" href=\""@ + u@ + "\">"@,
        None => Seq::empty(),
    }
}

/// The script that renders mathematics.
pub open spec fn mathjax_script() -> Seq<char> {
    "<script type=\"text/javascript\" id=\"MathJax-script\" async src=\"https://cdn.jsdelivr.net/npm/mathjax@3/es5/tex-mml-chtml.js\"></script>"@
}

/// The optional text of `o`.
pub open spec fn or_empty(o: Option<String>) -> Seq<char> {
    match o {
        Some(s) => s@,
        None => Seq::empty(),
    }
}

/// The header of a page: shown on every path but those under `/proxy`.
pub open spec fn header_of(header: Option<String>, path: Seq<char>) -> Seq<char> {
    match header {
        Some(h) => if starts_with(path, "/proxy"@) {
            Seq::empty()
        } else {
            "<big><blockquote>"@ + h@ + "</blockquote></big>"@
        },
        None => Seq::empty(),
    }
}

/// Everything of a styled page before its content.
pub open spec fn head_of(env: Environment, language: Seq<char>, title: Seq<char>, path: Seq<char>) -> Seq<char> {
    page_start(language) + styles(env.css_external, env.primary_colour) + favicon(env.favicon_external)
        + (if env.mathjax { mathjax_script() } else { Seq::empty() }) + or_empty(env.head) + "<title>"@ + title
        + "</title></head><body>"@ + header_of(env.header, path)
}

/// The start of a page (see `page_start`).
pub fn page_opening(language: &str) -> (r: String)
    ensures
        r@ == page_start(language@),
{
    string_of(&page_start_exec(language))
}

fn page_start_exec(language: &str) -> (r: Vec<char>)
    ensures
        r@ == page_start(language@),
{
    let mut out = chars_of("<!DOCTYPE html><html");
    let l = chars_of(language);
    if l.len() > 0 {
        append_str(&mut out, " lang=\"");
        append(&mut out, &l);
        append_str(&mut out, "\"");
    }
    append_str(&mut out, "><head><meta name=\"viewport\" content=\"width=device-width, initial-scale=1.0\">");
    assert(out@ =~= page_start(language@));
    out
}

fn push_stylesheets(out: &mut Vec<char>, css: &str)
    ensures
        final(out)@ == old(out)@ + stylesheet_links(split(css@, ',')),
{
    let parts = split_exec(&chars_of(css), ',');
    let ghost items = split(css@, ',');
    let mut i: usize = 0;
    assert(items.subrange(0, 0) =~= Seq::<Seq<char>>::empty());
    assert(old(out)@ =~= old(out)@ + Seq::<char>::empty());
    while i < parts.len()
        invariant
            i <= parts.len(),
            parts.len() == items.len(),
            forall|j: int| 0 <= j < parts.len() ==> #[trigger] parts@[j]@ == items[j],
            out@ == old(out)@ + stylesheet_links(items.subrange(0, i as int)),
        decreases parts.len() - i,
    {
        let ghost pre = items.subrange(0, i + 1);
        assert(pre.drop_last() =~= items.subrange(0, i as int));
        assert(pre.last() == parts@[i as int]@);
        if parts[i].len() > 0 {
            append_str(out, "<link rel=\"stylesheet\" type=\"text/css\" href=\"");
            append(out, &parts[i]);
            append_str(out, "\">");
        }
        assert(out@ =~= old(out)@ + stylesheet_links(pre));
        i = i + 1;
    }
    assert(items.subrange(0, parts.len() as int) =~= items);
}

/// Everything of a styled page before its content (see `head_of`): the start,
/// the styles, the favicon, the mathematics script where it is on, the extra
/// head markup, the title, and the header.
pub fn page_head(env: &Environment, language: &str, title: &str, path: &str) -> (r: String)
    ensures
        r@ == head_of(*env, language@, title@, path@),
{
    let mut out = page_start_exec(language);
    let ghost start = out@;
    match &env.css_external {
        Some(css) => {
            push_stylesheets(&mut out, css.as_str());
        },
        None => {
            append_str(&mut out, "<link rel=\"stylesheet\" href=\"https://latex.vercel.app/style.css\">");
            match &env.primary_colour {
                Some(p) => {
                    append_str(&mut out, "<style>:root { --primary: ");
                    append_str(&mut out, p.as_str());
                    append_str(&mut out, " }</style>");
                },
                None => {
                    append_str(&mut out, "<style>:root { --primary: var(--base0D); }</style>");
                },
            }
        },
    }
    assert(out@ =~= start + styles(env.css_external, env.primary_colour));
    let ghost styled = out@;
    match &env.favicon_external {
        Some(f) => {
            append_str(&mut out, "<link rel=\"icon\" type=\"image/x-icon\" href=\"");
            append_str(&mut out, f.as_str());
            append_str(&mut out, "\">");
        },
        None => {},
    }
    assert(out@ =~= styled + favicon(env.favicon_external));
    let ghost with_icon = out@;
    if env.mathjax {
        append_str(
            &mut out,
            "<script type=\"text/javascript\" id=\"MathJax-script\" async src=\"https://cdn.jsdelivr.net/npm/mathjax@3/es5/tex-mml-chtml.js\"></script>",
        );
    }
    assert(out@ =~= with_icon + (if env.mathjax { mathjax_script() } else { Seq::empty() }));
    let ghost scripted = out@;
    match &env.head {
        Some(h) => {
            append_str(&mut out, h.as_str());
        },
        None => {},
    }
    assert(out@ =~= scripted + or_empty(env.head));
    append_str(&mut out, "<title>");
    append_str(&mut out, title);
    append_str(&mut out, "</title></head><body>");
    let ghost titled = out@;
    match &env.header {
        Some(h) => {
            if !has_prefix(&chars_of(path), &chars_of("/proxy")) {
                append_str(&mut out, "<big><blockquote>");
                append_str(&mut out, h.as_str());
                append_str(&mut out, "</blockquote></big>");
            }
        },
        None => {},
    }
    assert(out@ =~= titled + header_of(env.header, path@));
    assert(out@ =~= head_of(*env, language@, title@, path@));
    string_of(&out)
}

/// The content section of a page: for a successful response, a note on the
/// redirect that led to it (if any) and then the document; for any other
/// response, its meta text.
pub open spec fn content_of(
    success: bool,
    redirect: Option<bool>,
    target: Seq<char>,
    meta: Seq<char>,
    body: Seq<char>,
) -> Seq<char> {
    if success {
        match redirect {
            Some(permanent) => "<blockquote>This page "@ + (if permanent { "permanently"@ } else { "temporarily"@ })
                + " redirects to <a href=\""@ + target + "\">"@ + target + "</a>.</blockquote>"@ + body,
            None => body,
        }
    } else {
        "<p>"@ + meta + "</p>"@
    }
}

/// The content section of a page (see `content_of`); `redirect` tells whether
/// a permanent or a temporary redirect led to `target`.
pub fn page_content(success: bool, redirect: Option<bool>, target: &str, meta: &str, body: &str) -> (r: String)
    ensures
        r@ == content_of(success, redirect, target@, meta@, body@),
{
    let mut out: Vec<char> = Vec::new();
    if success {
        match redirect {
            Some(permanent) => {
                append_str(&mut out, "<blockquote>This page ");
                if permanent {
                    append_str(&mut out, "permanently");
                } else {
                    append_str(&mut out, "temporarily");
                }
                append_str(&mut out, " redirects to <a href=\"");
                append_str(&mut out, target);
                append_str(&mut out, "\">");
                append_str(&mut out, target);
                append_str(&mut out, "</a>.</blockquote>");
                append_str(&mut out, body);
            },
            None => {
                append_str(&mut out, body);
            },
        }
    } else {
        append_str(&mut out, "<p>");
        append_str(&mut out, meta);
        append_str(&mut out, "</p>");
    }
    assert(out@ =~= content_of(success, redirect, target@, meta@, body@));
    string_of(&out)
}

} // verus!
