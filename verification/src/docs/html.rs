//! HTML export: the Markdown documentation converted into a self-contained
//! page with a readable style.

use vstd::prelude::*;
use crate::model::{Project, ProjectV};
use crate::text::{owned, replace, replace_char};

verus! {

/// The minimal style sheet embedded in the page.
pub const CSS: &'static str = r#"
:root { color-scheme: light dark; }
body { font-family: system-ui, -apple-system, "Segoe UI", Roboto, sans-serif;
  max-width: 920px; margin: 40px auto; padding: 0 20px; line-height: 1.6; }
h1 { border-bottom: 2px solid #6d8cff; padding-bottom: .3em; }
h2 { color: #4a5680; margin-top: 2em; }
code { font-family: ui-monospace, monospace; background: #00000010; padding: 1px 4px; border-radius: 4px; }
table { border-collapse: collapse; width: 100%; margin: 1em 0; }
th, td { border: 1px solid #88888855; padding: 6px 10px; text-align: left; }
th { background: #6d8cff22; }
"#;

/// What `pulldown_cmark` renders of a Markdown text as HTML, with tables
/// and strikethrough enabled.
pub uninterp spec fn cmark_html_of(md: Seq<char>) -> Seq<char>;

/// Renders Markdown with `pulldown_cmark::Parser::new_ext` (tables and
/// strikethrough enabled) and `pulldown_cmark::html::push_html`. The result
/// is named `cmark_html_of`; nothing more is stated of it.
#[verifier::external_body]
fn markdown_to_html(md: &str) -> (r: String)
    ensures
        r@ == cmark_html_of(md@),
{
    let mut opts = pulldown_cmark::Options::empty();
    opts.insert(pulldown_cmark::Options::ENABLE_TABLES);
    opts.insert(pulldown_cmark::Options::ENABLE_STRIKETHROUGH);
    let parser = pulldown_cmark::Parser::new_ext(md, opts);
    let mut body = String::new();
    pulldown_cmark::html::push_html(&mut body, parser);
    body
}

/// Minimal escape for the `<title>`: `&`, `<`, `>`.
pub open spec fn escape_spec(s: Seq<char>) -> Seq<char> {
    replace_char(replace_char(replace_char(s, '&', "&amp;"@), '<', "&lt;"@), '>', "&gt;"@)
}

pub fn escape(s: &str) -> (r: String)
    ensures
        r@ == escape_spec(s@),
{
    let a = replace(s, '&', "&amp;");
    let b = replace(a.as_str(), '<', "&lt;");
    replace(b.as_str(), '>', "&gt;")
}

/// The page around a rendered body.
pub open spec fn page_spec(title: Seq<char>, body: Seq<char>) -> Seq<char> {
    "<!DOCTYPE html>\n<html lang=\"it\">\n<head>\n<meta charset=\"UTF-8\">\n"@
        + "<meta name=\"viewport\" content=\"width=device-width, initial-scale=1.0\">\n"@ + "<title>"@
        + escape_spec(title) + " — ArchMind</title>\n<style>"@ + CSS@ + "</style>\n</head>\n<body>\n"@
        + body + "\n</body>\n</html>\n"@
}

/// Wraps a rendered HTML body into the complete page of a project titled
/// `title` (see [`page_spec`]).
pub fn page(title: &str, body: &str) -> (r: String)
    ensures
        r@ == page_spec(title@, body@),
{
    let mut s = owned("<!DOCTYPE html>\n<html lang=\"it\">\n<head>\n<meta charset=\"UTF-8\">\n");
    s.append("<meta name=\"viewport\" content=\"width=device-width, initial-scale=1.0\">\n");
    s.append("<title>");
    s.append(escape(title).as_str());
    s.append(" — ArchMind</title>\n<style>");
    s.append(CSS);
    s.append("</style>\n</head>\n<body>\n");
    s.append(body);
    s.append("\n</body>\n</html>\n");
    s
}

/// Produces the complete HTML page of a project: its Markdown rendered by
/// `pulldown_cmark`, in the page of [`page_spec`].
pub fn render(p: &Project) -> (r: String)
    ensures
        r@ == page_spec(p@.name, cmark_html_of(super::markdown::markdown_spec(p@))),
{
    let md = super::markdown::render(p);
    let body = markdown_to_html(md.as_str());
    page(p.name.as_str(), body.as_str())
}

} // verus!
