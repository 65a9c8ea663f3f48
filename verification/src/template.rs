//! A minimal template engine.
//!
//! The grammar is fixed and small:
//!
//! - `{name}` is replaced by the value bound to `name`; every other character
//!   is copied through unchanged (values are substituted verbatim, never
//!   re-scanned).
//! - `{{for item in coll}} ... {{endfor}}` renders its body once per entry of
//!   the collection bound to `coll`; inside the body, `{item.link}` and
//!   `{item.display}` name the entry's fields, and the surrounding scalar
//!   bindings stay visible. The body ends at the first `{{endfor}}` and may
//!   not contain another iteration block.
//!
//! An unknown name, an unknown collection, or malformed syntax (an unclosed
//! tag, a block that is not an iteration, a missing `{{endfor}}`) fails the
//! whole render: no partial output is returned. The error value names the
//! field or construct at fault.
//!
//! The semantics is given by the spec functions [`render_full`],
//! [`render_flat`] and [`render_rows`]; [`render_template`] is proved to
//! return exactly what they describe.

use vstd::prelude::*;

verus! {

/// Scalar bindings as a template sees them: name/value pairs, first match
/// winning on lookup.
pub type ScalarCtx = Seq<(Seq<char>, Seq<char>)>;

/// Collection bindings: each name is bound to a sequence of
/// (link, display) rows.
pub type ListCtx = Seq<(Seq<char>, Seq<(Seq<char>, Seq<char>)>)>;

/// A scalar binding handed to the engine.
pub struct Binding {
    pub name: String,
    pub value: String,
}

/// One entry of a rendered list: the raw file name used as the link target,
/// and the display label shown for it.
pub struct ListEntry {
    pub link: String,
    pub display: String,
}

/// A collection binding handed to the engine.
pub struct ListBinding {
    pub name: String,
    pub entries: Vec<ListEntry>,
}

pub open spec fn bindings_view(bs: Seq<Binding>) -> ScalarCtx {
    bs.map_values(|b: Binding| (b.name@, b.value@))
}

pub open spec fn entries_view(es: Seq<ListEntry>) -> Seq<(Seq<char>, Seq<char>)> {
    es.map_values(|e: ListEntry| (e.link@, e.display@))
}

pub open spec fn lists_view(ls: Seq<ListBinding>) -> ListCtx {
    ls.map_values(|l: ListBinding| (l.name@, entries_view(l.entries@)))
}

/// The position of the first occurrence of `c` in `s` at or after `i`.
pub open spec fn find_from(s: Seq<char>, i: int, c: char) -> Option<int>
    decreases s.len() - i,
{
    if i < 0 || i >= s.len() {
        None
    } else if s[i] == c {
        Some(i)
    } else {
        find_from(s, i + 1, c)
    }
}

/// The position of the first `}}` pair in `s` at or after `i`.
pub open spec fn find_close2(s: Seq<char>, i: int) -> Option<int>
    decreases s.len() - i,
{
    if i < 0 || i + 1 >= s.len() {
        None
    } else if s[i] == '}' && s[i + 1] == '}' {
        Some(i)
    } else {
        find_close2(s, i + 1)
    }
}

/// Whether the ten characters of `{{endfor}}` stand at position `j` of `s`.
pub open spec fn endfor_at(s: Seq<char>, j: int) -> bool {
    &&& 0 <= j
    &&& j + 10 <= s.len()
    &&& s[j] == '{'
    &&& s[j + 1] == '{'
    &&& s[j + 2] == 'e'
    &&& s[j + 3] == 'n'
    &&& s[j + 4] == 'd'
    &&& s[j + 5] == 'f'
    &&& s[j + 6] == 'o'
    &&& s[j + 7] == 'r'
    &&& s[j + 8] == '}'
    &&& s[j + 9] == '}'
}

/// The position of the first `{{endfor}}` in `s` at or after `i`.
pub open spec fn find_endfor(s: Seq<char>, i: int) -> Option<int>
    decreases s.len() - i,
{
    if i < 0 || i + 10 > s.len() {
        None
    } else if endfor_at(s, i) {
        Some(i)
    } else {
        find_endfor(s, i + 1)
    }
}

/// Reads a block head of the form `for item in coll`, with `item` and `coll`
/// nonempty and free of spaces. Anything else is not an iteration head.
pub open spec fn parse_for(c: Seq<char>) -> Option<(Seq<char>, Seq<char>)> {
    if c.len() >= 4 && c[0] == 'f' && c[1] == 'o' && c[2] == 'r' && c[3] == ' ' {
        match find_from(c, 4, ' ') {
            None => None,
            Some(k) => {
                if 4 < k && k + 4 <= c.len() && c[k + 1] == 'i' && c[k + 2] == 'n' && c[k + 3]
                    == ' ' && k + 4 < c.len() {
                    if find_from(c, k + 4, ' ') is None {
                        Some((c.subrange(4, k), c.subrange(k + 4, c.len() as int)))
                    } else {
                        None
                    }
                } else {
                    None
                }
            },
        }
    } else {
        None
    }
}

/// First-match scalar lookup, from position `i` on.
pub open spec fn lookup_scalar(ctx: ScalarCtx, i: int, name: Seq<char>) -> Option<Seq<char>>
    decreases ctx.len() - i,
{
    if i < 0 || i >= ctx.len() {
        None
    } else if ctx[i].0 == name {
        Some(ctx[i].1)
    } else {
        lookup_scalar(ctx, i + 1, name)
    }
}

/// First-match collection lookup, from position `i` on.
pub open spec fn lookup_list(ctx: ListCtx, i: int, name: Seq<char>) -> Option<
    Seq<(Seq<char>, Seq<char>)>,
>
    decreases ctx.len() - i,
{
    if i < 0 || i >= ctx.len() {
        None
    } else if ctx[i].0 == name {
        Some(ctx[i].1)
    } else {
        lookup_list(ctx, i + 1, name)
    }
}

/// The scalar bindings visible inside an iteration body: the entry's two
/// fields under `item.link` and `item.display`, then the outer bindings.
pub open spec fn row_ctx(item: Seq<char>, row: (Seq<char>, Seq<char>), outer: ScalarCtx) -> ScalarCtx {
    seq![(item + ".link"@, row.0), (item + ".display"@, row.1)] + outer
}

/// Substitution without iteration blocks, from position `i` on: the meaning
/// of an iteration body for one row. A `{` opens a variable tag that runs to
/// the first `}`; an unknown name fails with that name.
pub open spec fn render_flat(tpl: Seq<char>, i: int, sc: ScalarCtx) -> Result<Seq<char>, Seq<char>>
    decreases tpl.len() - i,
{
    if i < 0 || i >= tpl.len() {
        Ok(Seq::empty())
    } else if tpl[i] != '{' {
        match render_flat(tpl, i + 1, sc) {
            Ok(rest) => Ok(seq![tpl[i]] + rest),
            Err(e) => Err(e),
        }
    } else {
        match find_from(tpl, i + 1, '}') {
            None => Err("unclosed variable"@),
            Some(j) => {
                if j < i + 1 || j >= tpl.len() {
                    Err("unclosed variable"@)
                } else {
                    let name = tpl.subrange(i + 1, j);
                    match lookup_scalar(sc, 0, name) {
                        None => Err(name),
                        Some(v) => match render_flat(tpl, j + 1, sc) {
                            Ok(rest) => Ok(v + rest),
                            Err(e) => Err(e),
                        },
                    }
                }
            },
        }
    }
}

/// One body instantiation per row, from row `k` on, concatenated in order.
pub open spec fn render_rows(
    body: Seq<char>,
    item: Seq<char>,
    rows: Seq<(Seq<char>, Seq<char>)>,
    k: int,
    outer: ScalarCtx,
) -> Result<Seq<char>, Seq<char>>
    decreases rows.len() - k,
{
    if k < 0 || k >= rows.len() {
        Ok(Seq::empty())
    } else {
        match render_flat(body, 0, row_ctx(item, rows[k], outer)) {
            Err(e) => Err(e),
            Ok(first) => match render_rows(body, item, rows, k + 1, outer) {
                Err(e) => Err(e),
                Ok(rest) => Ok(first + rest),
            },
        }
    }
}

/// Full substitution from position `i` on: literal text, variable tags, and
/// iteration blocks.
pub open spec fn render_full(tpl: Seq<char>, i: int, sc: ScalarCtx, lc: ListCtx) -> Result<
    Seq<char>,
    Seq<char>,
>
    decreases tpl.len() - i,
{
    if i < 0 || i >= tpl.len() {
        Ok(Seq::empty())
    } else if tpl[i] != '{' {
        match render_full(tpl, i + 1, sc, lc) {
            Ok(rest) => Ok(seq![tpl[i]] + rest),
            Err(e) => Err(e),
        }
    } else if i + 1 < tpl.len() && tpl[i + 1] == '{' {
        match find_close2(tpl, i + 2) {
            None => Err("unclosed block"@),
            Some(j) => {
                if j < i + 2 || j + 2 > tpl.len() {
                    Err("unclosed block"@)
                } else {
                    let content = tpl.subrange(i + 2, j);
                    match parse_for(content) {
                        None => Err(content),
                        Some((item, coll)) => match lookup_list(lc, 0, coll) {
                            None => Err(coll),
                            Some(rows) => match find_endfor(tpl, j + 2) {
                                None => Err("missing endfor"@),
                                Some(k) => {
                                    if k < j + 2 || k + 10 > tpl.len() {
                                        Err("missing endfor"@)
                                    } else {
                                        let body = tpl.subrange(j + 2, k);
                                        match render_rows(body, item, rows, 0, sc) {
                                            Err(e) => Err(e),
                                            Ok(frag) => match render_full(tpl, k + 10, sc, lc) {
                                                Err(e) => Err(e),
                                                Ok(rest) => Ok(frag + rest),
                                            },
                                        }
                                    }
                                },
                            },
                        },
                    }
                }
            },
        }
    } else {
        match find_from(tpl, i + 1, '}') {
            None => Err("unclosed variable"@),
            Some(j) => {
                if j < i + 1 || j >= tpl.len() {
                    Err("unclosed variable"@)
                } else {
                    let name = tpl.subrange(i + 1, j);
                    match lookup_scalar(sc, 0, name) {
                        None => Err(name),
                        Some(v) => match render_full(tpl, j + 1, sc, lc) {
                            Ok(rest) => Ok(v + rest),
                            Err(e) => Err(e),
                        },
                    }
                }
            },
        }
    }
}

/// Character-for-character string equality.
pub fn str_eq(a: &str, b: &str) -> (r: bool)
    ensures
        r == (a@ == b@),
{
    let la = a.unicode_len();
    let lb = b.unicode_len();
    if la != lb {
        return false;
    }
    let mut k: usize = 0;
    while k < la
        invariant
            k <= la,
            la == a@.len(),
            lb == b@.len(),
            la == lb,
            forall|j: int| 0 <= j < k ==> a@[j] == b@[j],
        decreases la - k,
    {
        if a.get_char(k) != b.get_char(k) {
            return false;
        }
        k += 1;
    }
    proof {
        assert(a@ =~= b@);
    }
    true
}

fn find_from_exec(tpl: &str, i: usize, c: char) -> (r: Option<usize>)
    requires
        i <= tpl@.len(),
    ensures
        match r {
            Some(j) => find_from(tpl@, i as int, c) == Some(j as int) && i <= j && (j as int)
                < tpl@.len() && tpl@[j as int] == c,
            None => find_from(tpl@, i as int, c) is None,
        },
    decreases tpl@.len() - i,
{
    let len = tpl.unicode_len();
    if i >= len {
        None
    } else if tpl.get_char(i) == c {
        Some(i)
    } else {
        find_from_exec(tpl, i + 1, c)
    }
}

fn find_close2_exec(tpl: &str, i: usize) -> (r: Option<usize>)
    requires
        i <= tpl@.len(),
    ensures
        match r {
            Some(j) => find_close2(tpl@, i as int) == Some(j as int) && i <= j && (j as int) + 1
                < tpl@.len() && tpl@[j as int] == '}' && tpl@[j as int + 1] == '}',
            None => find_close2(tpl@, i as int) is None,
        },
    decreases tpl@.len() - i,
{
    let len = tpl.unicode_len();
    if len < 2 || i >= len - 1 {
        None
    } else if tpl.get_char(i) == '}' && tpl.get_char(i + 1) == '}' {
        Some(i)
    } else {
        find_close2_exec(tpl, i + 1)
    }
}

fn endfor_at_exec(tpl: &str, j: usize) -> (r: bool)
    requires
        j + 10 <= tpl@.len(),
    ensures
        r == endfor_at(tpl@, j as int),
{
    let len = tpl.unicode_len();
    tpl.get_char(j) == '{' && tpl.get_char(j + 1) == '{' && tpl.get_char(j + 2) == 'e'
        && tpl.get_char(j + 3) == 'n' && tpl.get_char(j + 4) == 'd' && tpl.get_char(j + 5) == 'f'
        && tpl.get_char(j + 6) == 'o' && tpl.get_char(j + 7) == 'r' && tpl.get_char(j + 8) == '}'
        && tpl.get_char(j + 9) == '}'
}

fn find_endfor_exec(tpl: &str, i: usize) -> (r: Option<usize>)
    requires
        i <= tpl@.len(),
    ensures
        match r {
            Some(k) => find_endfor(tpl@, i as int) == Some(k as int) && i <= k && endfor_at(
                tpl@,
                k as int,
            ),
            None => find_endfor(tpl@, i as int) is None,
        },
    decreases tpl@.len() - i,
{
    let len = tpl.unicode_len();
    if len < 10 || i > len - 10 {
        None
    } else if endfor_at_exec(tpl, i) {
        Some(i)
    } else {
        find_endfor_exec(tpl, i + 1)
    }
}

fn parse_for_exec<'a>(c: &'a str) -> (r: Option<(&'a str, &'a str)>)
    ensures
        match r {
            Some(pair) => parse_for(c@) == Some((pair.0@, pair.1@)),
            None => parse_for(c@) is None,
        },
{
    let len = c.unicode_len();
    if len >= 4 && c.get_char(0) == 'f' && c.get_char(1) == 'o' && c.get_char(2) == 'r'
        && c.get_char(3) == ' ' {
        match find_from_exec(c, 4, ' ') {
            None => None,
            Some(k) => {
                if 4 < k && k <= len - 4 && c.get_char(k + 1) == 'i' && c.get_char(k + 2) == 'n'
                    && c.get_char(k + 3) == ' ' && k < len - 4 {
                    match find_from_exec(c, k + 4, ' ') {
                        None => Some((c.substring_char(4, k), c.substring_char(k + 4, len))),
                        Some(_) => None,
                    }
                } else {
                    None
                }
            },
        }
    } else {
        None
    }
}

fn lookup_scalar_exec(scalars: &Vec<Binding>, k: usize, name: &str) -> (r: Option<String>)
    ensures
        match r {
            Some(v) => lookup_scalar(bindings_view(scalars@), k as int, name@) == Some(v@),
            None => lookup_scalar(bindings_view(scalars@), k as int, name@) is None,
        },
    decreases scalars@.len() - k,
{
    if k >= scalars.len() {
        None
    } else if str_eq(scalars[k].name.as_str(), name) {
        Some(scalars[k].value.clone())
    } else {
        lookup_scalar_exec(scalars, k + 1, name)
    }
}

fn lookup_list_exec(lists: &Vec<ListBinding>, k: usize, name: &str) -> (r: Option<usize>)
    ensures
        match r {
            Some(li) => li < lists@.len() && lookup_list(lists_view(lists@), k as int, name@)
                == Some(entries_view(lists@[li as int].entries@)),
            None => lookup_list(lists_view(lists@), k as int, name@) is None,
        },
    decreases lists@.len() - k,
{
    if k >= lists.len() {
        None
    } else if str_eq(lists[k].name.as_str(), name) {
        Some(k)
    } else {
        lookup_list_exec(lists, k + 1, name)
    }
}

fn render_flat_exec(tpl: &str, i: usize, scalars: &Vec<Binding>) -> (r: Result<String, String>)
    requires
        i <= tpl@.len(),
    ensures
        match r {
            Ok(o) => render_flat(tpl@, i as int, bindings_view(scalars@)) == Ok::<_, Seq<char>>(o@),
            Err(e) => render_flat(tpl@, i as int, bindings_view(scalars@)) == Err::<Seq<char>, _>(
                e@,
            ),
        },
    decreases tpl@.len() - i,
{
    let len = tpl.unicode_len();
    if i >= len {
        Ok(String::new())
    } else {
        let ch = tpl.get_char(i);
        if ch != '{' {
            match render_flat_exec(tpl, i + 1, scalars) {
                Err(e) => Err(e),
                Ok(rest) => {
                    let mut out = String::from_str(tpl.substring_char(i, i + 1));
                    out.append(rest.as_str());
                    proof {
                        assert(tpl@.subrange(i as int, i as int + 1) =~= seq![tpl@[i as int]]);
                    }
                    Ok(out)
                },
            }
        } else {
            match find_from_exec(tpl, i + 1, '}') {
                None => Err(String::from_str("unclosed variable")),
                Some(j) => {
                    let name = tpl.substring_char(i + 1, j);
                    match lookup_scalar_exec(scalars, 0, name) {
                        None => Err(String::from_str(name)),
                        Some(v) => match render_flat_exec(tpl, j + 1, scalars) {
                            Err(e) => Err(e),
                            Ok(rest) => {
                                let mut out = v;
                                out.append(rest.as_str());
                                Ok(out)
                            },
                        },
                    }
                },
            }
        }
    }
}

fn render_rows_exec(
    body: &str,
    item: &str,
    entries: &Vec<ListEntry>,
    k: usize,
    outer: &Vec<Binding>,
) -> (r: Result<String, String>)
    ensures
        match r {
            Ok(o) => render_rows(body@, item@, entries_view(entries@), k as int, bindings_view(outer@))
                == Ok::<_, Seq<char>>(o@),
            Err(e) => render_rows(body@, item@, entries_view(entries@), k as int, bindings_view(outer@))
                == Err::<Seq<char>, _>(e@),
        },
    decreases entries@.len() - k,
{
    if k >= entries.len() {
        Ok(String::new())
    } else {
        let rc = row_bindings(item, &entries[k], outer);
        proof {
            assert(entries_view(entries@)[k as int] == (entries@[k as int].link@, entries@[k as int].display@));
        }
        match render_flat_exec(body, 0, &rc) {
            Err(e) => Err(e),
            Ok(first) => match render_rows_exec(body, item, entries, k + 1, outer) {
                Err(e) => Err(e),
                Ok(rest) => {
                    let mut out = first;
                    out.append(rest.as_str());
                    Ok(out)
                },
            },
        }
    }
}

/// Builds the scalar bindings visible inside one iteration body instance.
fn row_bindings(item: &str, entry: &ListEntry, outer: &Vec<Binding>) -> (r: Vec<Binding>)
    ensures
        bindings_view(r@) == row_ctx(item@, (entry.link@, entry.display@), bindings_view(outer@)),
{
    let mut rc: Vec<Binding> = Vec::new();
    let mut link_name = String::from_str(item);
    link_name.append(".link");
    rc.push(Binding { name: link_name, value: entry.link.clone() });
    let mut display_name = String::from_str(item);
    display_name.append(".display");
    rc.push(Binding { name: display_name, value: entry.display.clone() });
    let mut q: usize = 0;
    while q < outer.len()
        invariant
            q <= outer.len(),
            rc@.len() == 2 + q,
            rc@[0].name@ == item@ + ".link"@,
            rc@[0].value@ == entry.link@,
            rc@[1].name@ == item@ + ".display"@,
            rc@[1].value@ == entry.display@,
            forall|p: int|
                0 <= p < q ==> rc@[2 + p].name@ == outer@[p].name@ && rc@[2 + p].value@
                    == outer@[p].value@,
        decreases outer.len() - q,
    {
        rc.push(Binding { name: outer[q].name.clone(), value: outer[q].value.clone() });
        q += 1;
    }
    proof {
        assert(bindings_view(rc@) =~= row_ctx(
            item@,
            (entry.link@, entry.display@),
            bindings_view(outer@),
        ));
    }
    rc
}

fn render_full_exec(
    tpl: &str,
    i: usize,
    scalars: &Vec<Binding>,
    lists: &Vec<ListBinding>,
) -> (r: Result<String, String>)
    requires
        i <= tpl@.len(),
    ensures
        match r {
            Ok(o) => render_full(tpl@, i as int, bindings_view(scalars@), lists_view(lists@))
                == Ok::<_, Seq<char>>(o@),
            Err(e) => render_full(tpl@, i as int, bindings_view(scalars@), lists_view(lists@))
                == Err::<Seq<char>, _>(e@),
        },
    decreases tpl@.len() - i,
{
    let len = tpl.unicode_len();
    if i >= len {
        Ok(String::new())
    } else {
        let ch = tpl.get_char(i);
        if ch != '{' {
            match render_full_exec(tpl, i + 1, scalars, lists) {
                Err(e) => Err(e),
                Ok(rest) => {
                    let mut out = String::from_str(tpl.substring_char(i, i + 1));
                    out.append(rest.as_str());
                    proof {
                        assert(tpl@.subrange(i as int, i as int + 1) =~= seq![tpl@[i as int]]);
                    }
                    Ok(out)
                },
            }
        } else if i + 1 < len && tpl.get_char(i + 1) == '{' {
            match find_close2_exec(tpl, i + 2) {
                None => Err(String::from_str("unclosed block")),
                Some(j) => {
                    let content = tpl.substring_char(i + 2, j);
                    match parse_for_exec(content) {
                        None => Err(String::from_str(content)),
                        Some(pair) => {
                            let item = pair.0;
                            let coll = pair.1;
                            match lookup_list_exec(lists, 0, coll) {
                                None => Err(String::from_str(coll)),
                                Some(li) => match find_endfor_exec(tpl, j + 2) {
                                    None => Err(String::from_str("missing endfor")),
                                    Some(k) => {
                                        let body = tpl.substring_char(j + 2, k);
                                        match render_rows_exec(
                                            body,
                                            item,
                                            &lists[li].entries,
                                            0,
                                            scalars,
                                        ) {
                                            Err(e) => Err(e),
                                            Ok(frag) => match render_full_exec(
                                                tpl,
                                                k + 10,
                                                scalars,
                                                lists,
                                            ) {
                                                Err(e) => Err(e),
                                                Ok(rest) => {
                                                    let mut out = frag;
                                                    out.append(rest.as_str());
                                                    Ok(out)
                                                },
                                            },
                                        }
                                    },
                                },
                            }
                        },
                    }
                },
            }
        } else {
            match find_from_exec(tpl, i + 1, '}') {
                None => Err(String::from_str("unclosed variable")),
                Some(j) => {
                    let name = tpl.substring_char(i + 1, j);
                    match lookup_scalar_exec(scalars, 0, name) {
                        None => Err(String::from_str(name)),
                        Some(v) => match render_full_exec(tpl, j + 1, scalars, lists) {
                            Err(e) => Err(e),
                            Ok(rest) => {
                                let mut out = v;
                                out.append(rest.as_str());
                                Ok(out)
                            },
                        },
                    }
                },
            }
        }
    }
}

/// Substitutes the given bindings into the template text. Returns the full
/// output, or the name of the offending field or construct; nothing partial.
pub fn render_template(tpl: &str, scalars: &Vec<Binding>, lists: &Vec<ListBinding>) -> (r: Result<
    String,
    String,
>)
    ensures
        match r {
            Ok(o) => render_full(tpl@, 0, bindings_view(scalars@), lists_view(lists@)) == Ok::<
                _,
                Seq<char>,
            >(o@),
            Err(e) => render_full(tpl@, 0, bindings_view(scalars@), lists_view(lists@)) == Err::<
                Seq<char>,
                _,
            >(e@),
        },
{
    render_full_exec(tpl, 0, scalars, lists)
}

} // verus!
