//! The page registry: the site configuration, the filesystem snapshot a
//! render works on, and the three render operations.

use vstd::prelude::*;

use crate::error::{err_model, ErrModel, GhError};
use crate::render::{
    render_list, render_page, spec_render_list, spec_render_page, texts_view,
};

verus! {

/// Whether a page is backed by one markdown file or by a directory of them.
#[derive(Clone, Copy)]
pub enum PageKind {
    Single,
    List,
}

/// One page definition: its unique name (lookup key and URL segment), its
/// kind, and the path of its markdown source (a file for `Single`, a
/// directory for `List`).
pub struct Page {
    pub name: String,
    pub kind: PageKind,
    pub source: String,
}

/// The site configuration: the homepage's page name, the paths of the two
/// templates and the stylesheet, and the page definitions. Built once at
/// startup and only read afterwards.
pub struct AppConfig {
    pub homepage: String,
    pub html_template: String,
    pub list_template: String,
    pub css: String,
    pub pages: Vec<Page>,
}

/// One text as read from a path.
pub struct SourceFile {
    pub path: String,
    pub text: String,
}

/// One directory listing: the file names found under a path. Sub-directories
/// are not among them; the caller that takes the snapshot filters them out.
pub struct SourceDir {
    pub path: String,
    pub entries: Vec<String>,
}

/// A snapshot of the texts and directory listings a render works on. Every
/// render is a function of the configuration, the snapshot and the page name
/// alone, so two renders over the same snapshot agree byte for byte.
pub struct Sources {
    pub files: Vec<SourceFile>,
    pub dirs: Vec<SourceDir>,
}

/// The position of the first page named `name`, from `i` on.
pub open spec fn page_index(pages: Seq<Page>, i: int, name: Seq<char>) -> Option<int>
    decreases pages.len() - i,
{
    if i < 0 || i >= pages.len() {
        None
    } else if pages[i].name@ == name {
        Some(i)
    } else {
        page_index(pages, i + 1, name)
    }
}

/// The text recorded for `path`, first match winning, from `i` on.
pub open spec fn file_text(files: Seq<SourceFile>, i: int, path: Seq<char>) -> Option<Seq<char>>
    decreases files.len() - i,
{
    if i < 0 || i >= files.len() {
        None
    } else if files[i].path@ == path {
        Some(files[i].text@)
    } else {
        file_text(files, i + 1, path)
    }
}

/// The listing recorded for `path`, first match winning, from `i` on.
pub open spec fn dir_entries(dirs: Seq<SourceDir>, i: int, path: Seq<char>) -> Option<
    Seq<Seq<char>>,
>
    decreases dirs.len() - i,
{
    if i < 0 || i >= dirs.len() {
        None
    } else if dirs[i].path@ == path {
        Some(texts_view(dirs[i].entries@))
    } else {
        dir_entries(dirs, i + 1, path)
    }
}

/// A list item's concrete source path: the list's directory with the item's
/// file name appended after a separator.
pub open spec fn joined_path(dir: Seq<char>, item: Seq<char>) -> Seq<char> {
    dir + "/"@ + item
}

impl Sources {
    /// The text recorded for `path`, if any.
    pub fn file(&self, path: &str) -> (r: Option<&String>)
        ensures
            match r {
                Some(t) => file_text(self.files@, 0, path@) == Some(t@),
                None => file_text(self.files@, 0, path@) is None,
            },
    {
        file_from(&self.files, 0, path)
    }

    /// The directory listing recorded for `path`, if any.
    pub fn dir(&self, path: &str) -> (r: Option<&Vec<String>>)
        ensures
            match r {
                Some(d) => dir_entries(self.dirs@, 0, path@) == Some(texts_view(d@)),
                None => dir_entries(self.dirs@, 0, path@) is None,
            },
    {
        dir_from(&self.dirs, 0, path)
    }
}

fn file_from<'a>(files: &'a Vec<SourceFile>, k: usize, path: &str) -> (r: Option<&'a String>)
    ensures
        match r {
            Some(t) => file_text(files@, k as int, path@) == Some(t@),
            None => file_text(files@, k as int, path@) is None,
        },
    decreases files@.len() - k,
{
    if k >= files.len() {
        None
    } else if crate::template::str_eq(files[k].path.as_str(), path) {
        Some(&files[k].text)
    } else {
        file_from(files, k + 1, path)
    }
}

fn dir_from<'a>(dirs: &'a Vec<SourceDir>, k: usize, path: &str) -> (r: Option<&'a Vec<String>>)
    ensures
        match r {
            Some(d) => dir_entries(dirs@, k as int, path@) == Some(texts_view(d@)),
            None => dir_entries(dirs@, k as int, path@) is None,
        },
    decreases dirs@.len() - k,
{
    if k >= dirs.len() {
        None
    } else if crate::template::str_eq(dirs[k].path.as_str(), path) {
        Some(&dirs[k].entries)
    } else {
        dir_from(dirs, k + 1, path)
    }
}

/// What rendering one markdown source as a full page yields: the three texts
/// are taken from the snapshot (page template, stylesheet, markdown source,
/// in that order of failure), then substituted.
pub open spec fn spec_render_single(
    cfg: AppConfig,
    fs: Sources,
    title: Seq<char>,
    source: Seq<char>,
) -> Result<Seq<char>, ErrModel> {
    match file_text(fs.files@, 0, cfg.html_template@) {
        None => Err(ErrModel::Unreadable(cfg.html_template@)),
        Some(ht) => match file_text(fs.files@, 0, cfg.css@) {
            None => Err(ErrModel::Unreadable(cfg.css@)),
            Some(css) => match file_text(fs.files@, 0, source) {
                None => Err(ErrModel::Unreadable(source)),
                Some(md) => match spec_render_page(title, ht, css, md) {
                    Err(f) => Err(ErrModel::Template("normal_page"@, f)),
                    Ok(o) => Ok(o),
                },
            },
        },
    }
}

/// What `generate_page` yields for a page name: resolution through the
/// registry, then the single-page or the list path by the page's kind.
pub open spec fn spec_generate_page(cfg: AppConfig, fs: Sources, name: Seq<char>) -> Result<
    Seq<char>,
    ErrModel,
> {
    match page_index(cfg.pages@, 0, name) {
        None => Err(ErrModel::NotFound),
        Some(i) => {
            let p = cfg.pages@[i];
            match p.kind {
                PageKind::Single => spec_render_single(cfg, fs, p.name@, p.source@),
                PageKind::List => match dir_entries(fs.dirs@, 0, p.source@) {
                    None => Err(ErrModel::Unreadable(p.source@)),
                    Some(paths) => match file_text(fs.files@, 0, cfg.list_template@) {
                        None => Err(ErrModel::Unreadable(cfg.list_template@)),
                        Some(lt) => match file_text(fs.files@, 0, cfg.html_template@) {
                            None => Err(ErrModel::Unreadable(cfg.html_template@)),
                            Some(ht) => match file_text(fs.files@, 0, cfg.css@) {
                                None => Err(ErrModel::Unreadable(cfg.css@)),
                                Some(css) => match spec_render_list(p.name@, paths, lt, ht, css) {
                                    Err(tf) => Err(ErrModel::Template(tf.0, tf.1)),
                                    Ok(o) => Ok(o),
                                },
                            },
                        },
                    },
                },
            }
        },
    }
}

/// What `generate_homepage` yields: exactly `generate_page` on the configured
/// homepage name.
pub open spec fn spec_generate_homepage(cfg: AppConfig, fs: Sources) -> Result<
    Seq<char>,
    ErrModel,
> {
    spec_generate_page(cfg, fs, cfg.homepage@)
}

/// What `generate_list_page` yields: the named page's source path with the
/// item appended, rendered through the same single-page path — whatever the
/// page's kind, as resolution does not check it.
pub open spec fn spec_generate_list_page(
    cfg: AppConfig,
    fs: Sources,
    list_name: Seq<char>,
    item: Seq<char>,
) -> Result<Seq<char>, ErrModel> {
    match page_index(cfg.pages@, 0, list_name) {
        None => Err(ErrModel::NotFound),
        Some(i) => spec_render_single(
            cfg,
            fs,
            cfg.pages@[i].name@,
            joined_path(cfg.pages@[i].source@, item),
        ),
    }
}

/// Whether the configured homepage is among the registered page names.
pub open spec fn spec_homepage_registered(cfg: AppConfig) -> bool {
    page_index(cfg.pages@, 0, cfg.homepage@) is Some
}

/// What `generate_page` promises of its result: the output, or the error, is
/// exactly what [`spec_generate_page`] gives for the same inputs.
pub open spec fn generate_page_post(
    cfg: AppConfig,
    fs: Sources,
    name: Seq<char>,
    r: Result<String, GhError>,
) -> bool {
    match r {
        Ok(o) => spec_generate_page(cfg, fs, name) == Ok::<_, ErrModel>(o@),
        Err(e) => spec_generate_page(cfg, fs, name) == Err::<Seq<char>, _>(err_model(e)),
    }
}

/// What `generate_list_page` promises of its result, as
/// [`generate_page_post`] does for `generate_page`.
pub open spec fn generate_list_page_post(
    cfg: AppConfig,
    fs: Sources,
    list_name: Seq<char>,
    item: Seq<char>,
    r: Result<String, GhError>,
) -> bool {
    match r {
        Ok(o) => spec_generate_list_page(cfg, fs, list_name, item) == Ok::<_, ErrModel>(o@),
        Err(e) => spec_generate_list_page(cfg, fs, list_name, item) == Err::<Seq<char>, _>(
            err_model(e),
        ),
    }
}

impl AppConfig {
    /// Looks a page up by exact name equality; first match wins.
    pub fn find_page(&self, name: &str) -> (r: Option<usize>)
        ensures
            match r {
                Some(i) => page_index(self.pages@, 0, name@) == Some(i as int) && i
                    < self.pages@.len(),
                None => page_index(self.pages@, 0, name@) is None,
            },
    {
        find_page_from(&self.pages, 0, name)
    }

    /// Whether the configured homepage names a registered page. A
    /// configuration is only served once this holds; it is checked at
    /// startup, not per request.
    pub fn homepage_registered(&self) -> (r: bool)
        ensures
            r == spec_homepage_registered(*self),
    {
        match self.find_page(self.homepage.as_str()) {
            Some(_) => true,
            None => false,
        }
    }

    /// Renders the page registered under `name` out of the snapshot: the
    /// single-page path for `Single` pages, the listing path for `List`
    /// pages. An unregistered name fails with `PageNotFound`; a text missing
    /// from the snapshot fails with `ConfigurationError`.
    pub fn generate_page(&self, fs: &Sources, name: &str) -> (r: Result<String, GhError>)
        ensures
            generate_page_post(*self, *fs, name@, r),
    {
        let idx = match self.find_page(name) {
            None => {
                return Err(GhError::PageNotFound());
            },
            Some(i) => i,
        };
        let page = &self.pages[idx];
        match page.kind {
            PageKind::Single => self.generate_single(fs, page),
            PageKind::List => {
                let entries = match fs.dir(page.source.as_str()) {
                    None => {
                        return Err(GhError::ConfigurationError(page.source.clone()));
                    },
                    Some(d) => d,
                };
                let lt = match fs.file(self.list_template.as_str()) {
                    None => {
                        return Err(GhError::ConfigurationError(self.list_template.clone()));
                    },
                    Some(t) => t,
                };
                let ht = match fs.file(self.html_template.as_str()) {
                    None => {
                        return Err(GhError::ConfigurationError(self.html_template.clone()));
                    },
                    Some(t) => t,
                };
                let css = match fs.file(self.css.as_str()) {
                    None => {
                        return Err(GhError::ConfigurationError(self.css.clone()));
                    },
                    Some(t) => t,
                };
                render_list(page, entries, lt.as_str(), ht.as_str(), css.as_str())
            },
        }
    }

    /// Renders the configured homepage: exactly `generate_page` on it.
    pub fn generate_homepage(&self, fs: &Sources) -> (r: Result<String, GhError>)
        ensures
            match r {
                Ok(o) => spec_generate_homepage(*self, *fs) == Ok::<_, ErrModel>(o@),
                Err(e) => spec_generate_homepage(*self, *fs) == Err::<Seq<char>, _>(err_model(e)),
            },
    {
        self.generate_page(fs, self.homepage.as_str())
    }

    /// Renders one item of the page registered under `list_name`: appends the
    /// item's file name to the page's source path and renders that file
    /// through the same single-page path as `Single` pages, under the list's
    /// own name as title.
    pub fn generate_list_page(&self, fs: &Sources, list_name: &str, page_name: &str) -> (r: Result<
        String,
        GhError,
    >)
        ensures
            generate_list_page_post(*self, *fs, list_name@, page_name@, r),
    {
        let idx = match self.find_page(list_name) {
            None => {
                return Err(GhError::PageNotFound());
            },
            Some(i) => i,
        };
        let p = &self.pages[idx];
        let mut src = p.source.clone();
        src.append("/");
        src.append(page_name);
        let item_page = Page { name: p.name.clone(), kind: p.kind, source: src };
        self.generate_single(fs, &item_page)
    }

    /// The single-page path shared by `Single` pages and list items: reads
    /// the page template, the stylesheet and the markdown source out of the
    /// snapshot, then renders.
    fn generate_single(&self, fs: &Sources, page: &Page) -> (r: Result<String, GhError>)
        ensures
            match r {
                Ok(o) => spec_render_single(*self, *fs, page.name@, page.source@) == Ok::<
                    _,
                    ErrModel,
                >(o@),
                Err(e) => spec_render_single(*self, *fs, page.name@, page.source@) == Err::<
                    Seq<char>,
                    _,
                >(err_model(e)),
            },
    {
        let ht = match fs.file(self.html_template.as_str()) {
            None => {
                return Err(GhError::ConfigurationError(self.html_template.clone()));
            },
            Some(t) => t,
        };
        let css = match fs.file(self.css.as_str()) {
            None => {
                return Err(GhError::ConfigurationError(self.css.clone()));
            },
            Some(t) => t,
        };
        let md = match fs.file(page.source.as_str()) {
            None => {
                return Err(GhError::ConfigurationError(page.source.clone()));
            },
            Some(t) => t,
        };
        render_page(page, ht.as_str(), css.as_str(), md.as_str())
    }
}

/// An unregistered page name fails with exactly `PageNotFound`; nothing is
/// rendered partially, as the result is the error alone.
pub proof fn lemma_unknown_page_not_found(cfg: AppConfig, fs: Sources, name: Seq<char>)
    requires
        page_index(cfg.pages@, 0, name) is None,
    ensures
        spec_generate_page(cfg, fs, name) == Err::<Seq<char>, ErrModel>(ErrModel::NotFound),
{
}

/// The homepage render equals the page render of the configured homepage
/// name, for every configuration and snapshot.
pub proof fn lemma_homepage_equals_page(cfg: AppConfig, fs: Sources)
    ensures
        spec_generate_homepage(cfg, fs) == spec_generate_page(cfg, fs, cfg.homepage@),
{
}

/// A list item renders through the very single-page path used for `Single`
/// pages, applied to the item's joined source path under the list's own name;
/// an unregistered list name fails with `PageNotFound`.
pub proof fn lemma_list_item_single_path(
    cfg: AppConfig,
    fs: Sources,
    list_name: Seq<char>,
    item: Seq<char>,
)
    ensures
        match page_index(cfg.pages@, 0, list_name) {
            Some(i) => spec_generate_list_page(cfg, fs, list_name, item) == spec_render_single(
                cfg,
                fs,
                cfg.pages@[i].name@,
                joined_path(cfg.pages@[i].source@, item),
            ),
            None => spec_generate_list_page(cfg, fs, list_name, item) == Err::<
                Seq<char>,
                ErrModel,
            >(ErrModel::NotFound),
        },
{
}

/// Rendering is repeatable: two results that `generate_page` may return for
/// the same configuration, snapshot and name are identical, character for
/// character on success and in their error model on failure.
pub proof fn lemma_generate_page_deterministic(
    cfg: AppConfig,
    fs: Sources,
    name: Seq<char>,
    r1: Result<String, GhError>,
    r2: Result<String, GhError>,
)
    requires
        generate_page_post(cfg, fs, name, r1),
        generate_page_post(cfg, fs, name, r2),
    ensures
        match (r1, r2) {
            (Ok(a), Ok(b)) => a@ == b@,
            (Err(a), Err(b)) => err_model(a) == err_model(b),
            _ => false,
        },
{
}

/// The same repeatability for list items: two results that
/// `generate_list_page` may return for the same inputs are identical.
pub proof fn lemma_generate_list_page_deterministic(
    cfg: AppConfig,
    fs: Sources,
    list_name: Seq<char>,
    item: Seq<char>,
    r1: Result<String, GhError>,
    r2: Result<String, GhError>,
)
    requires
        generate_list_page_post(cfg, fs, list_name, item, r1),
        generate_list_page_post(cfg, fs, list_name, item, r2),
    ensures
        match (r1, r2) {
            (Ok(a), Ok(b)) => a@ == b@,
            (Err(a), Err(b)) => err_model(a) == err_model(b),
            _ => false,
        },
{
}

fn find_page_from(pages: &Vec<Page>, k: usize, name: &str) -> (r: Option<usize>)
    ensures
        match r {
            Some(i) => page_index(pages@, k as int, name@) == Some(i as int) && i < pages@.len(),
            None => page_index(pages@, k as int, name@) is None,
        },
    decreases pages@.len() - k,
{
    if k >= pages.len() {
        None
    } else if crate::template::str_eq(pages[k].name.as_str(), name) {
        Some(k)
    } else {
        find_page_from(pages, k + 1, name)
    }
}

} // verus!
