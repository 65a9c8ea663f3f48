use greenhorn::appconfig::{AppConfig, Page, PageKind, SourceDir, SourceFile, Sources};
use greenhorn::error::GhError;
use greenhorn::render::format_page_name;

const HTML_TPL: &str = "<!DOCTYPE html>\n<html>\n\n<head>\n    <title>{title}</title>\n    <style>\n{css}    </style>\n    <base href=\"/{title}/\" />\n</head>\n\n<body>\n    <header>\n        <h1>A heading here</h1>\n    </header>\n    <article>\n{body}\n    </article>\n    <footer>This is a footer</footer>\n</body>\n\n</html>";

const LIST_TPL: &str = "<ul>\n{{for page in list}}    <li>\n        <a href=\"{page.link}\">{page.display}</a>\n    </li>\n{{endfor}}</ul>\n";

const CSS: &str = "h1   {color: blue;}\n";

const MD_A: &str = "# Single page test\n\nhello from the normal page";

const MD_L1: &str = "# List item 1\n";

fn test_config() -> AppConfig {
    AppConfig {
        homepage: String::from("a"),
        html_template: String::from("tpl/page.html"),
        list_template: String::from("tpl/list.html"),
        css: String::from("static/style.css"),
        pages: vec![
            Page {
                name: String::from("a"),
                kind: PageKind::Single,
                source: String::from("data/a.md"),
            },
            Page {
                name: String::from("b"),
                kind: PageKind::List,
                source: String::from("data/b"),
            },
        ],
    }
}

fn file(path: &str, text: &str) -> SourceFile {
    SourceFile { path: String::from(path), text: String::from(text) }
}

fn test_sources() -> Sources {
    Sources {
        files: vec![
            file("tpl/page.html", HTML_TPL),
            file("tpl/list.html", LIST_TPL),
            file("static/style.css", CSS),
            file("data/a.md", MD_A),
            file("data/b/l1.md", MD_L1),
        ],
        dirs: vec![SourceDir {
            path: String::from("data/b"),
            entries: vec![String::from("l1.md"), String::from("l2.md")],
        }],
    }
}

fn expected_page(title: &str, body: &str) -> String {
    let mut out = String::new();
    out.push_str("<!DOCTYPE html>\n<html>\n\n<head>\n    <title>");
    out.push_str(title);
    out.push_str("</title>\n    <style>\n");
    out.push_str(CSS);
    out.push_str("    </style>\n    <base href=\"/");
    out.push_str(title);
    out.push_str("/\" />\n</head>\n\n<body>\n    <header>\n        <h1>A heading here</h1>\n    </header>\n    <article>\n");
    out.push_str(body);
    out.push_str("\n    </article>\n    <footer>This is a footer</footer>\n</body>\n\n</html>");
    out
}

#[test]
fn render_page_simple() {
    let cfg = test_config();
    let fs = test_sources();
    let rendered = cfg.generate_page(&fs, "a").unwrap();
    let expected = expected_page(
        "a",
        "<h1>Single page test</h1>\n<p>hello from the normal page</p>\n",
    );
    assert_eq!(rendered, expected);
}

#[test]
fn render_homepage() {
    let cfg = test_config();
    let fs = test_sources();
    let rendered = cfg.generate_homepage(&fs).unwrap();
    let expected = expected_page(
        "a",
        "<h1>Single page test</h1>\n<p>hello from the normal page</p>\n",
    );
    assert_eq!(rendered, expected);
}

#[test]
fn render_list() {
    let cfg = test_config();
    let fs = test_sources();
    let rendered = cfg.generate_page(&fs, "b").unwrap();
    let body = "<ul>\n    <li>\n        <a href=\"l1.md\">l1</a>\n    </li>\n    <li>\n        <a href=\"l2.md\">l2</a>\n    </li>\n</ul>\n";
    let expected = expected_page("b", body);
    assert_eq!(rendered, expected);
}

#[test]
fn render_list_page() {
    let cfg = test_config();
    let fs = test_sources();
    let rendered = cfg.generate_list_page(&fs, "b", "l1.md").unwrap();
    let expected = expected_page("b", "<h1>List item 1</h1>\n");
    assert_eq!(rendered, expected);
}

#[test]
fn homepage_equals_named_page() {
    let cfg = test_config();
    let fs = test_sources();
    let home = cfg.generate_homepage(&fs).unwrap();
    let named = cfg.generate_page(&fs, "a").unwrap();
    assert_eq!(home, named);
}

#[test]
fn rendering_is_repeatable() {
    let cfg = test_config();
    let fs = test_sources();
    let first = cfg.generate_page(&fs, "b").unwrap();
    let second = cfg.generate_page(&fs, "b").unwrap();
    assert_eq!(first, second);
}

#[test]
fn unknown_page_not_found() {
    let cfg = test_config();
    let fs = test_sources();
    let r = cfg.generate_page(&fs, "nope");
    assert!(matches!(r, Err(GhError::PageNotFound())));
}

#[test]
fn unknown_list_not_found() {
    let cfg = test_config();
    let fs = test_sources();
    let r = cfg.generate_list_page(&fs, "nope", "l1.md");
    assert!(matches!(r, Err(GhError::PageNotFound())));
}

#[test]
fn missing_source_reports_path() {
    let cfg = test_config();
    let mut fs = test_sources();
    fs.files.remove(3);
    let r = cfg.generate_page(&fs, "a");
    match r {
        Err(GhError::ConfigurationError(path)) => assert_eq!(path, "data/a.md"),
        other => panic!("expected a configuration error, got {:?}", other.is_ok()),
    }
}

#[test]
fn missing_list_dir_reports_path() {
    let cfg = test_config();
    let mut fs = test_sources();
    fs.dirs.clear();
    let r = cfg.generate_page(&fs, "b");
    match r {
        Err(GhError::ConfigurationError(path)) => assert_eq!(path, "data/b"),
        other => panic!("expected a configuration error, got {:?}", other.is_ok()),
    }
}

#[test]
fn unknown_variable_is_template_error() {
    let cfg = test_config();
    let mut fs = test_sources();
    fs.files[0] = file("tpl/page.html", "<p>{nonsense}</p>");
    let r = cfg.generate_page(&fs, "a");
    match r {
        Err(GhError::TemplateError { template, field }) => {
            assert_eq!(template, "normal_page");
            assert_eq!(field, "nonsense");
        },
        other => panic!("expected a template error, got {:?}", other.is_ok()),
    }
}

#[test]
fn list_template_error_names_list() {
    let cfg = test_config();
    let mut fs = test_sources();
    fs.files[1] = file("tpl/list.html", "{{for page in pages}}x{{endfor}}");
    let r = cfg.generate_page(&fs, "b");
    match r {
        Err(GhError::TemplateError { template, field }) => {
            assert_eq!(template, "list");
            assert_eq!(field, "pages");
        },
        other => panic!("expected a template error, got {:?}", other.is_ok()),
    }
}

#[test]
fn find_page_by_exact_name() {
    let cfg = test_config();
    assert_eq!(cfg.find_page("a"), Some(0));
    assert_eq!(cfg.find_page("b"), Some(1));
    assert_eq!(cfg.find_page("A"), None);
    assert_eq!(cfg.find_page("ab"), None);
}

#[test]
fn homepage_must_be_registered() {
    let mut cfg = test_config();
    assert!(cfg.homepage_registered());
    cfg.homepage = String::from("zzz");
    assert!(!cfg.homepage_registered());
}

#[test]
fn format_page_name_cases() {
    assert_eq!(format_page_name("l1.md"), "l1");
    assert_eq!(format_page_name("my_page_name.md"), "my page name");
    assert_eq!(format_page_name("no_extension"), "no extension");
    assert_eq!(format_page_name("a.b.c"), "a");
    assert_eq!(format_page_name(""), "");
    assert_eq!(format_page_name("_._"), " ");
}

#[test]
fn markdown_extensions_enabled() {
    let cfg = AppConfig {
        homepage: String::from("c"),
        html_template: String::from("t.html"),
        list_template: String::from("l.html"),
        css: String::from("s.css"),
        pages: vec![Page {
            name: String::from("c"),
            kind: PageKind::Single,
            source: String::from("c.md"),
        }],
    };
    let fs = Sources {
        files: vec![
            file("t.html", "{body}"),
            file("s.css", ""),
            file("c.md", "~~gone~~\n\n| a | b |\n| - | - |\n| 1 | 2 |\n"),
        ],
        dirs: Vec::new(),
    };
    let rendered = cfg.generate_page(&fs, "c").unwrap();
    assert!(rendered.contains("<del>gone</del>"));
    assert!(rendered.contains("<table>"));
    assert!(rendered.contains("<td>1</td>"));
}

#[test]
fn error_messages() {
    assert_eq!(GhError::PageNotFound().message(), "Page not found!");
    assert_eq!(
        GhError::ConfigurationError(String::from("x")).message(),
        "Configuration error"
    );
    assert_eq!(
        GhError::TemplateError { template: String::from("t"), field: String::from("f") }.message(),
        "Template error"
    );
}
