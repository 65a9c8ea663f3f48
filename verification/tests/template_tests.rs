use greenhorn::template::{render_template, Binding, ListBinding, ListEntry};

fn bind(name: &str, value: &str) -> Binding {
    Binding { name: String::from(name), value: String::from(value) }
}

fn entry(link: &str, display: &str) -> ListEntry {
    ListEntry { link: String::from(link), display: String::from(display) }
}

#[test]
fn substitutes_scalars() {
    let scalars = vec![bind("x", "1"), bind("y", "two")];
    let lists: Vec<ListBinding> = Vec::new();
    let out = render_template("a {x} b {y} c {x}", &scalars, &lists).unwrap();
    assert_eq!(out, "a 1 b two c 1");
}

#[test]
fn copies_text_without_tags() {
    let scalars: Vec<Binding> = Vec::new();
    let lists: Vec<ListBinding> = Vec::new();
    let out = render_template("plain text, even with } alone", &scalars, &lists).unwrap();
    assert_eq!(out, "plain text, even with } alone");
}

#[test]
fn values_are_not_rescanned() {
    let scalars = vec![bind("x", "{y}"), bind("y", "boom")];
    let lists: Vec<ListBinding> = Vec::new();
    let out = render_template("{x}", &scalars, &lists).unwrap();
    assert_eq!(out, "{y}");
}

#[test]
fn first_binding_wins() {
    let scalars = vec![bind("x", "first"), bind("x", "second")];
    let lists: Vec<ListBinding> = Vec::new();
    let out = render_template("{x}", &scalars, &lists).unwrap();
    assert_eq!(out, "first");
}

#[test]
fn unknown_variable_fails_with_its_name() {
    let scalars = vec![bind("x", "1")];
    let lists: Vec<ListBinding> = Vec::new();
    let err = render_template("{missing}", &scalars, &lists).unwrap_err();
    assert_eq!(err, "missing");
}

#[test]
fn unclosed_variable_fails() {
    let scalars = vec![bind("x", "1")];
    let lists: Vec<ListBinding> = Vec::new();
    let err = render_template("oops {x", &scalars, &lists).unwrap_err();
    assert_eq!(err, "unclosed variable");
}

#[test]
fn unclosed_block_fails() {
    let scalars: Vec<Binding> = Vec::new();
    let lists: Vec<ListBinding> = Vec::new();
    let err = render_template("{{for page in list", &scalars, &lists).unwrap_err();
    assert_eq!(err, "unclosed block");
}

#[test]
fn missing_endfor_fails() {
    let scalars: Vec<Binding> = Vec::new();
    let lists = vec![ListBinding { name: String::from("list"), entries: vec![] }];
    let err = render_template("{{for page in list}} x ", &scalars, &lists).unwrap_err();
    assert_eq!(err, "missing endfor");
}

#[test]
fn block_that_is_not_an_iteration_fails() {
    let scalars: Vec<Binding> = Vec::new();
    let lists: Vec<ListBinding> = Vec::new();
    let err = render_template("{{if thing}}", &scalars, &lists).unwrap_err();
    assert_eq!(err, "if thing");
}

#[test]
fn unknown_collection_fails_with_its_name() {
    let scalars: Vec<Binding> = Vec::new();
    let lists = vec![ListBinding { name: String::from("list"), entries: vec![] }];
    let err = render_template("{{for p in pages}}{{endfor}}", &scalars, &lists).unwrap_err();
    assert_eq!(err, "pages");
}

#[test]
fn iterates_once_per_entry() {
    let scalars: Vec<Binding> = Vec::new();
    let lists = vec![ListBinding {
        name: String::from("list"),
        entries: vec![entry("l1.md", "l1"), entry("l2.md", "l2")],
    }];
    let out = render_template(
        "<ul>{{for page in list}}<li><a href=\"{page.link}\">{page.display}</a></li>{{endfor}}</ul>",
        &scalars,
        &lists,
    )
    .unwrap();
    assert_eq!(
        out,
        "<ul><li><a href=\"l1.md\">l1</a></li><li><a href=\"l2.md\">l2</a></li></ul>"
    );
}

#[test]
fn empty_collection_renders_no_body() {
    let scalars: Vec<Binding> = Vec::new();
    let lists = vec![ListBinding { name: String::from("list"), entries: vec![] }];
    let out = render_template("a{{for p in list}}x{p.link}y{{endfor}}b", &scalars, &lists).unwrap();
    assert_eq!(out, "ab");
}

#[test]
fn outer_scalars_visible_inside_iteration() {
    let scalars = vec![bind("sep", "-")];
    let lists = vec![ListBinding {
        name: String::from("list"),
        entries: vec![entry("a", "A"), entry("b", "B")],
    }];
    let out = render_template("{{for p in list}}{p.link}{sep}{{endfor}}", &scalars, &lists).unwrap();
    assert_eq!(out, "a-b-");
}

#[test]
fn unknown_field_inside_iteration_fails() {
    let scalars: Vec<Binding> = Vec::new();
    let lists = vec![ListBinding {
        name: String::from("list"),
        entries: vec![entry("a", "A")],
    }];
    let err =
        render_template("{{for p in list}}{p.title}{{endfor}}", &scalars, &lists).unwrap_err();
    assert_eq!(err, "p.title");
}

#[test]
fn text_after_iteration_is_kept() {
    let scalars = vec![bind("x", "X")];
    let lists = vec![ListBinding {
        name: String::from("list"),
        entries: vec![entry("1", "one")],
    }];
    let out =
        render_template("pre {{for p in list}}[{p.display}]{{endfor}} post {x}", &scalars, &lists)
            .unwrap();
    assert_eq!(out, "pre [one] post X");
}
