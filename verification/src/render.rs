//! Markdown conversion, display-name formatting, and the two template
//! substitutions that produce a finished page.

use vstd::prelude::*;

use crate::appconfig::Page;
use crate::error::{err_model, ErrModel, GhError};
use crate::template::{
    bindings_view, entries_view, lists_view, render_full, render_template, Binding, ListBinding,
    ListEntry, ScalarCtx,
};

verus! {

/// The HTML fragment that markdown conversion yields for a given markdown
/// text. The conversion is delegated to an outside implementation, so the
/// fragment is named rather than written out; it depends on the text alone.
pub uninterp spec fn html_of(markdown: Seq<char>) -> Seq<char>;

/// Relies on pulldown_cmark (`Parser::new_ext` and `html::push_html`), with
/// the strikethrough and table extensions enabled: the conversion performs no
/// I/O and its result is a function of the markdown text alone.
#[verifier::external_body]
pub(crate) fn markdown_to_html(input: &str) -> (r: String)
    ensures
        r@ == html_of(input@),
{
    let mut options = pulldown_cmark::Options::empty();
    options.insert(pulldown_cmark::Options::ENABLE_STRIKETHROUGH);
    options.insert(pulldown_cmark::Options::ENABLE_TABLES);
    let parser = pulldown_cmark::Parser::new_ext(input, options);
    let mut html_output = String::new();
    pulldown_cmark::html::push_html(&mut html_output, parser);
    html_output
}

/// The display label of a file name, from position `i` on: underscores become
/// spaces, and everything from the first `.` on is dropped.
pub open spec fn display_label(s: Seq<char>, i: int) -> Seq<char>
    decreases s.len() - i,
{
    if i < 0 || i >= s.len() {
        Seq::empty()
    } else if s[i] == '.' {
        Seq::empty()
    } else {
        seq![if s[i] == '_' { ' ' } else { s[i] }] + display_label(s, i + 1)
    }
}

/// Turns a file name into a display label: replaces every `_` by a space and
/// truncates at the first `.`, removing the extension.
pub fn format_page_name(page: &str) -> (r: String)
    ensures
        r@ == display_label(page@, 0),
{
    format_page_name_from(page, 0)
}

fn format_page_name_from(page: &str, i: usize) -> (r: String)
    requires
        i <= page@.len(),
    ensures
        r@ == display_label(page@, i as int),
    decreases page@.len() - i,
{
    let len = page.unicode_len();
    if i >= len {
        String::new()
    } else {
        let c = page.get_char(i);
        if c == '.' {
            String::new()
        } else {
            let piece: &str = if c == '_' { " " } else { page.substring_char(i, i + 1) };
            proof {
                reveal_strlit(" ");
                assert(piece@ =~= seq![if c == '_' { ' ' } else { c }]);
            }
            let rest = format_page_name_from(page, i + 1);
            let mut out = String::from_str(piece);
            out.append(rest.as_str());
            out
        }
    }
}

/// The scalar bindings a page template sees: its title, the stylesheet text,
/// and the body fragment to embed.
pub open spec fn page_ctx(title: Seq<char>, css: Seq<char>, body: Seq<char>) -> ScalarCtx {
    seq![("title"@, title), ("css"@, css), ("body"@, body)]
}

/// What rendering a single page yields: the page template with the title, the
/// stylesheet and the converted markdown substituted in. `Err` carries the
/// field at fault.
pub open spec fn spec_render_page(
    title: Seq<char>,
    html_template: Seq<char>,
    css: Seq<char>,
    markdown: Seq<char>,
) -> Result<Seq<char>, Seq<char>> {
    render_full(html_template, 0, page_ctx(title, css, html_of(markdown)), Seq::empty())
}

/// Renders one markdown text as a full page: converts it to HTML and
/// substitutes it, with the page's name as title and the stylesheet text,
/// into the page template.
pub fn render_page(page: &Page, html_template: &str, css: &str, markdown: &str) -> (r: Result<
    String,
    GhError,
>)
    ensures
        match r {
            Ok(o) => spec_render_page(page.name@, html_template@, css@, markdown@) == Ok::<
                _,
                Seq<char>,
            >(o@),
            Err(e) => err_model(e) matches ErrModel::Template(t, f) && t == "normal_page"@
                && spec_render_page(page.name@, html_template@, css@, markdown@) == Err::<
                Seq<char>,
                _,
            >(f),
        },
{
    let body_html = markdown_to_html(markdown);
    let mut scalars: Vec<Binding> = Vec::new();
    scalars.push(Binding { name: String::from_str("title"), value: page.name.clone() });
    scalars.push(Binding { name: String::from_str("css"), value: String::from_str(css) });
    scalars.push(Binding { name: String::from_str("body"), value: body_html });
    let lists: Vec<ListBinding> = Vec::new();
    proof {
        assert(bindings_view(scalars@) =~= page_ctx(page.name@, css@, html_of(markdown@)));
        assert(lists_view(lists@) =~= Seq::<(Seq<char>, Seq<(Seq<char>, Seq<char>)>)>::empty());
    }
    match render_template(html_template, &scalars, &lists) {
        Ok(o) => Ok(o),
        Err(f) => Err(
            GhError::TemplateError { template: String::from_str("normal_page"), field: f },
        ),
    }
}

/// The views of a sequence of strings.
pub open spec fn texts_view(paths: Seq<String>) -> Seq<Seq<char>> {
    paths.map_values(|p: String| p@)
}

/// One list row per file name: the name itself as the link, its display
/// label beside it.
pub open spec fn list_rows(paths: Seq<Seq<char>>) -> Seq<(Seq<char>, Seq<char>)> {
    paths.map_values(|p: Seq<char>| (p, display_label(p, 0)))
}

/// What rendering a list page yields: the list template rendered once over
/// the rows, and that fragment wrapped in the page template. `Err` carries
/// the identifier of the template at fault and the field within it.
pub open spec fn spec_render_list(
    title: Seq<char>,
    paths: Seq<Seq<char>>,
    list_template: Seq<char>,
    html_template: Seq<char>,
    css: Seq<char>,
) -> Result<Seq<char>, (Seq<char>, Seq<char>)> {
    match render_full(list_template, 0, Seq::empty(), seq![("list"@, list_rows(paths))]) {
        Err(f) => Err(("list"@, f)),
        Ok(frag) => match render_full(html_template, 0, page_ctx(title, css, frag), Seq::empty()) {
            Err(f) => Err(("list_page"@, f)),
            Ok(out) => Ok(out),
        },
    }
}

/// Renders a directory listing as a full page: one list entry per file name
/// (link and display label), the rendered list wrapped in the page template
/// under the page's name.
pub fn render_list(
    page: &Page,
    paths: &Vec<String>,
    list_template: &str,
    html_template: &str,
    css: &str,
) -> (r: Result<String, GhError>)
    ensures
        match r {
            Ok(o) => spec_render_list(
                page.name@,
                texts_view(paths@),
                list_template@,
                html_template@,
                css@,
            ) == Ok::<_, (Seq<char>, Seq<char>)>(o@),
            Err(e) => err_model(e) matches ErrModel::Template(t, f) && spec_render_list(
                page.name@,
                texts_view(paths@),
                list_template@,
                html_template@,
                css@,
            ) == Err::<Seq<char>, _>((t, f)),
        },
{
    let mut entries: Vec<ListEntry> = Vec::new();
    let mut q: usize = 0;
    while q < paths.len()
        invariant
            q <= paths.len(),
            entries@.len() == q,
            forall|p: int|
                0 <= p < q ==> entries@[p].link@ == paths@[p]@ && entries@[p].display@
                    == display_label(paths@[p]@, 0),
        decreases paths.len() - q,
    {
        entries.push(
            ListEntry { link: paths[q].clone(), display: format_page_name(paths[q].as_str()) },
        );
        q += 1;
    }
    let mut lists: Vec<ListBinding> = Vec::new();
    lists.push(ListBinding { name: String::from_str("list"), entries });
    let scalars: Vec<Binding> = Vec::new();
    proof {
        assert(entries_view(lists@[0].entries@) =~= list_rows(texts_view(paths@)));
        assert(lists_view(lists@) =~= seq![("list"@, list_rows(texts_view(paths@)))]);
        assert(bindings_view(scalars@) =~= Seq::<(Seq<char>, Seq<char>)>::empty());
    }
    let frag = match render_template(list_template, &scalars, &lists) {
        Err(f) => {
            return Err(GhError::TemplateError { template: String::from_str("list"), field: f });
        },
        Ok(frag) => frag,
    };
    let mut wrap: Vec<Binding> = Vec::new();
    wrap.push(Binding { name: String::from_str("title"), value: page.name.clone() });
    wrap.push(Binding { name: String::from_str("css"), value: String::from_str(css) });
    wrap.push(Binding { name: String::from_str("body"), value: frag });
    let no_lists: Vec<ListBinding> = Vec::new();
    proof {
        assert(bindings_view(wrap@) =~= page_ctx(
            page.name@,
            css@,
            render_full(
                list_template@,
                0,
                Seq::empty(),
                seq![("list"@, list_rows(texts_view(paths@)))],
            )->Ok_0,
        ));
        assert(lists_view(no_lists@) =~= Seq::<(Seq<char>, Seq<(Seq<char>, Seq<char>)>)>::empty());
    }
    match render_template(html_template, &wrap, &no_lists) {
        Err(f) => Err(GhError::TemplateError { template: String::from_str("list_page"), field: f }),
        Ok(out) => Ok(out),
    }
}

} // verus!
