//! General properties of the render pipeline, proved for templates of the
//! shapes the site uses: a page template that names `{title}`, `{css}` and
//! `{body}` once each, and a list template with one iteration block over
//! `list`.

use vstd::prelude::*;

use crate::appconfig::{
    dir_entries, file_text, page_index, spec_generate_page, AppConfig, Sources,
};
use crate::error::ErrModel;
use crate::render::{html_of, list_rows, page_ctx};
use crate::template::{
    find_close2, find_endfor, find_from, lookup_list, lookup_scalar, render_flat, render_full,
    render_rows, row_ctx, ListCtx, ScalarCtx,
};

verus! {

/// No `{` occurs in `s`: a template copies such text through verbatim.
pub open spec fn brace_free(s: Seq<char>) -> bool {
    forall|k: int| 0 <= k < s.len() ==> s[k] != '{'
}

proof fn lemma_find_from_at(s: Seq<char>, i: int, j: int, c: char)
    requires
        0 <= i <= j < s.len(),
        s[j] == c,
        forall|k: int| i <= k < j ==> s[k] != c,
    ensures
        find_from(s, i, c) == Some(j),
    decreases j - i,
{
    if i < j {
        lemma_find_from_at(s, i + 1, j, c);
    }
}

proof fn lemma_find_from_none(s: Seq<char>, i: int, c: char)
    requires
        0 <= i,
        forall|k: int| i <= k < s.len() ==> s[k] != c,
    ensures
        find_from(s, i, c) is None,
    decreases s.len() - i,
{
    if i < s.len() {
        lemma_find_from_none(s, i + 1, c);
    }
}

proof fn lemma_find_close2_at(s: Seq<char>, i: int, j: int)
    requires
        0 <= i <= j,
        j + 1 < s.len(),
        s[j] == '}',
        s[j + 1] == '}',
        forall|k: int| i <= k < j ==> s[k] != '}',
    ensures
        find_close2(s, i) == Some(j),
    decreases j - i,
{
    if i < j {
        lemma_find_close2_at(s, i + 1, j);
    }
}

proof fn lemma_find_endfor_at(s: Seq<char>, i: int, j: int)
    requires
        0 <= i <= j,
        crate::template::endfor_at(s, j),
        forall|p: int| i <= p < j ==> !crate::template::endfor_at(s, p),
    ensures
        find_endfor(s, i) == Some(j),
    decreases j - i,
{
    if i < j {
        lemma_find_endfor_at(s, i + 1, j);
    }
}

/// Text without `{` between `i` and `m` is copied through unchanged, in full
/// substitution.
proof fn lemma_full_literal(tpl: Seq<char>, i: int, m: int, sc: ScalarCtx, lc: ListCtx)
    requires
        0 <= i <= m <= tpl.len(),
        forall|k: int| i <= k < m ==> tpl[k] != '{',
    ensures
        render_full(tpl, i, sc, lc) == match render_full(tpl, m, sc, lc) {
            Ok(rest) => Ok::<Seq<char>, Seq<char>>(tpl.subrange(i, m) + rest),
            Err(e) => Err::<Seq<char>, Seq<char>>(e),
        },
    decreases m - i,
{
    let r = render_full(tpl, m, sc, lc);
    if i == m {
        if r is Ok {
            assert(tpl.subrange(i, m) + r->Ok_0 =~= r->Ok_0);
        }
    } else {
        lemma_full_literal(tpl, i + 1, m, sc, lc);
        if r is Ok {
            assert(seq![tpl[i]] + (tpl.subrange(i + 1, m) + r->Ok_0) =~= tpl.subrange(i, m)
                + r->Ok_0);
        }
    }
}

/// The same, in flat substitution.
proof fn lemma_flat_literal(tpl: Seq<char>, i: int, m: int, sc: ScalarCtx)
    requires
        0 <= i <= m <= tpl.len(),
        forall|k: int| i <= k < m ==> tpl[k] != '{',
    ensures
        render_flat(tpl, i, sc) == match render_flat(tpl, m, sc) {
            Ok(rest) => Ok::<Seq<char>, Seq<char>>(tpl.subrange(i, m) + rest),
            Err(e) => Err::<Seq<char>, Seq<char>>(e),
        },
    decreases m - i,
{
    let r = render_flat(tpl, m, sc);
    if i == m {
        if r is Ok {
            assert(tpl.subrange(i, m) + r->Ok_0 =~= r->Ok_0);
        }
    } else {
        lemma_flat_literal(tpl, i + 1, m, sc);
        if r is Ok {
            assert(seq![tpl[i]] + (tpl.subrange(i + 1, m) + r->Ok_0) =~= tpl.subrange(i, m)
                + r->Ok_0);
        }
    }
}

/// A variable tag whose name is bound substitutes the bound value, in full
/// substitution.
proof fn lemma_full_var(tpl: Seq<char>, i: int, j: int, sc: ScalarCtx, lc: ListCtx)
    requires
        0 <= i < j < tpl.len(),
        tpl[i] == '{',
        tpl[j] == '}',
        forall|k: int| i < k < j ==> tpl[k] != '{' && tpl[k] != '}',
        lookup_scalar(sc, 0, tpl.subrange(i + 1, j)) is Some,
    ensures
        render_full(tpl, i, sc, lc) == match render_full(tpl, j + 1, sc, lc) {
            Ok(rest) => Ok::<Seq<char>, Seq<char>>(
                lookup_scalar(sc, 0, tpl.subrange(i + 1, j))->Some_0 + rest,
            ),
            Err(e) => Err::<Seq<char>, Seq<char>>(e),
        },
{
    lemma_find_from_at(tpl, i + 1, j, '}');
}

/// The same, in flat substitution.
proof fn lemma_flat_var(tpl: Seq<char>, i: int, j: int, sc: ScalarCtx)
    requires
        0 <= i < j < tpl.len(),
        tpl[i] == '{',
        tpl[j] == '}',
        forall|k: int| i < k < j ==> tpl[k] != '{' && tpl[k] != '}',
        lookup_scalar(sc, 0, tpl.subrange(i + 1, j)) is Some,
    ensures
        render_flat(tpl, i, sc) == match render_flat(tpl, j + 1, sc) {
            Ok(rest) => Ok::<Seq<char>, Seq<char>>(
                lookup_scalar(sc, 0, tpl.subrange(i + 1, j))->Some_0 + rest,
            ),
            Err(e) => Err::<Seq<char>, Seq<char>>(e),
        },
{
    lemma_find_from_at(tpl, i + 1, j, '}');
}

proof fn lemma_prefix_subrange(x: Seq<char>, y: Seq<char>, a: int, b: int)
    requires
        0 <= a <= b <= x.len(),
    ensures
        (x + y).subrange(a, b) == x.subrange(a, b),
{
    assert((x + y).subrange(a, b) =~= x.subrange(a, b));
}

proof fn lemma_suffix_whole(x: Seq<char>, y: Seq<char>)
    ensures
        (x + y).subrange(x.len() as int, (x + y).len() as int) == y,
{
    assert((x + y).subrange(x.len() as int, (x + y).len() as int) =~= y);
}

/// A literal region substitutes to itself, followed by whatever the rest
/// substitutes to (full mode).
proof fn lemma_literal_step(
    tpl: Seq<char>,
    i: int,
    m: int,
    lit: Seq<char>,
    sc: ScalarCtx,
    lc: ListCtx,
    rest: Seq<char>,
)
    requires
        0 <= i <= m <= tpl.len(),
        tpl.subrange(i, m) == lit,
        brace_free(lit),
        render_full(tpl, m, sc, lc) == Ok::<Seq<char>, Seq<char>>(rest),
    ensures
        render_full(tpl, i, sc, lc) == Ok::<Seq<char>, Seq<char>>(lit + rest),
{
    assert forall|k: int| i <= k < m implies tpl[k] != '{' by {
        assert(tpl[k] == tpl.subrange(i, m)[k - i]);
    }
    lemma_full_literal(tpl, i, m, sc, lc);
}

/// A variable tag region substitutes to its bound value, followed by whatever
/// the rest substitutes to (full mode).
proof fn lemma_tag_step(
    tpl: Seq<char>,
    i: int,
    name: Seq<char>,
    value: Seq<char>,
    sc: ScalarCtx,
    lc: ListCtx,
    rest: Seq<char>,
)
    requires
        0 <= i,
        i + name.len() + 2 <= tpl.len(),
        tpl.subrange(i, i + name.len() + 2) == seq!['{'] + name + seq!['}'],
        forall|q: int| 0 <= q < name.len() ==> name[q] != '{' && name[q] != '}',
        lookup_scalar(sc, 0, name) == Some(value),
        render_full(tpl, i + name.len() + 2, sc, lc) == Ok::<Seq<char>, Seq<char>>(rest),
    ensures
        render_full(tpl, i, sc, lc) == Ok::<Seq<char>, Seq<char>>(value + rest),
{
    let tag = seq!['{'] + name + seq!['}'];
    let j = i + 1 + name.len() as int;
    assert(tpl[i] == tag[0]) by {
        assert(tpl.subrange(i, i + name.len() + 2)[0] == tpl[i]);
    }
    assert(tpl[j] == tag[name.len() as int + 1]) by {
        assert(tpl.subrange(i, i + name.len() + 2)[name.len() as int + 1] == tpl[j]);
    }
    assert forall|k: int| i < k < j implies tpl[k] != '{' && tpl[k] != '}' by {
        assert(tpl[k] == tpl.subrange(i, i + name.len() + 2)[k - i]);
        assert(tag[k - i] == name[k - i - 1]);
    }
    assert(tpl.subrange(i + 1, j) =~= name) by {
        assert forall|q: int| 0 <= q < name.len() implies tpl.subrange(i + 1, j)[q] == name[q] by {
            assert(tpl.subrange(i + 1, j)[q] == tpl[i + 1 + q]);
            assert(tpl[i + 1 + q] == tpl.subrange(i, i + name.len() + 2)[q + 1]);
            assert(tag[q + 1] == name[q]);
        }
    }
    lemma_full_var(tpl, i, j, sc, lc);
}

/// A literal region substitutes to itself, followed by whatever the rest
/// substitutes to (flat mode).
proof fn lemma_flat_literal_step(
    tpl: Seq<char>,
    i: int,
    m: int,
    lit: Seq<char>,
    sc: ScalarCtx,
    rest: Seq<char>,
)
    requires
        0 <= i <= m <= tpl.len(),
        tpl.subrange(i, m) == lit,
        brace_free(lit),
        render_flat(tpl, m, sc) == Ok::<Seq<char>, Seq<char>>(rest),
    ensures
        render_flat(tpl, i, sc) == Ok::<Seq<char>, Seq<char>>(lit + rest),
{
    assert forall|k: int| i <= k < m implies tpl[k] != '{' by {
        assert(tpl[k] == tpl.subrange(i, m)[k - i]);
    }
    lemma_flat_literal(tpl, i, m, sc);
}

/// A variable tag region substitutes to its bound value, followed by whatever
/// the rest substitutes to (flat mode).
proof fn lemma_flat_tag_step(
    tpl: Seq<char>,
    i: int,
    name: Seq<char>,
    value: Seq<char>,
    sc: ScalarCtx,
    rest: Seq<char>,
)
    requires
        0 <= i,
        i + name.len() + 2 <= tpl.len(),
        tpl.subrange(i, i + name.len() + 2) == seq!['{'] + name + seq!['}'],
        forall|q: int| 0 <= q < name.len() ==> name[q] != '{' && name[q] != '}',
        lookup_scalar(sc, 0, name) == Some(value),
        render_flat(tpl, i + name.len() + 2, sc) == Ok::<Seq<char>, Seq<char>>(rest),
    ensures
        render_flat(tpl, i, sc) == Ok::<Seq<char>, Seq<char>>(value + rest),
{
    let tag = seq!['{'] + name + seq!['}'];
    let j = i + 1 + name.len() as int;
    assert(tpl[i] == tag[0]) by {
        assert(tpl.subrange(i, i + name.len() + 2)[0] == tpl[i]);
    }
    assert(tpl[j] == tag[name.len() as int + 1]) by {
        assert(tpl.subrange(i, i + name.len() + 2)[name.len() as int + 1] == tpl[j]);
    }
    assert forall|k: int| i < k < j implies tpl[k] != '{' && tpl[k] != '}' by {
        assert(tpl[k] == tpl.subrange(i, i + name.len() + 2)[k - i]);
        assert(tag[k - i] == name[k - i - 1]);
    }
    assert(tpl.subrange(i + 1, j) =~= name) by {
        assert forall|q: int| 0 <= q < name.len() implies tpl.subrange(i + 1, j)[q] == name[q] by {
            assert(tpl.subrange(i + 1, j)[q] == tpl[i + 1 + q]);
            assert(tpl[i + 1 + q] == tpl.subrange(i, i + name.len() + 2)[q + 1]);
            assert(tag[q + 1] == name[q]);
        }
    }
    lemma_flat_var(tpl, i, j, sc);
}

/// The five regions of a canonical iteration body: the literal parts and the
/// two field tags stand at the expected positions.
proof fn lemma_row_body_regions(item: Seq<char>, b0: Seq<char>, b1: Seq<char>, b2: Seq<char>)
    ensures
        ({
            let tag1 = "{"@ + item + ".link}"@;
            let tag2 = "{"@ + item + ".display}"@;
            let body = b0 + tag1 + b1 + tag2 + b2;
            let q0 = b0.len() as int;
            let q1 = q0 + 7 + item.len() as int;
            let q2 = q1 + b1.len() as int;
            let q3 = q2 + 10 + item.len() as int;
            let q4 = q3 + b2.len() as int;
            &&& body.len() == q4
            &&& body.subrange(0, q0) == b0
            &&& body.subrange(q0, q1) == tag1
            &&& body.subrange(q1, q2) == b1
            &&& body.subrange(q2, q3) == tag2
            &&& body.subrange(q3, q4) == b2
        }),
{
    reveal_strlit("{");
    reveal_strlit(".link}");
    reveal_strlit(".display}");
    let tag1 = "{"@ + item + ".link}"@;
    let tag2 = "{"@ + item + ".display}"@;
    let u1 = b0 + tag1;
    let u2 = u1 + b1;
    let u3 = u2 + tag2;
    let body = u3 + b2;
    let q0 = b0.len() as int;
    let q1 = q0 + 7 + item.len() as int;
    let q2 = q1 + b1.len() as int;
    let q3 = q2 + 10 + item.len() as int;
    let q4 = q3 + b2.len() as int;
    lemma_suffix_whole(u3, b2);
    lemma_suffix_whole(u2, tag2);
    lemma_prefix_subrange(u3, b2, q2, q3);
    lemma_suffix_whole(u1, b1);
    lemma_prefix_subrange(u2, tag2, q1, q2);
    lemma_prefix_subrange(u3, b2, q1, q2);
    lemma_suffix_whole(b0, tag1);
    lemma_prefix_subrange(u1, b1, q0, q1);
    lemma_prefix_subrange(u2, tag2, q0, q1);
    lemma_prefix_subrange(u3, b2, q0, q1);
    assert(b0.subrange(0, q0) =~= b0);
    lemma_prefix_subrange(b0, tag1, 0, q0);
    lemma_prefix_subrange(u1, b1, 0, q0);
    lemma_prefix_subrange(u2, tag2, 0, q0);
    lemma_prefix_subrange(u3, b2, 0, q0);
}

/// One iteration-body instantiation: the literal parts around the row's link
/// and display values.
#[verifier::rlimit(60)]
proof fn lemma_row_body_output(
    item: Seq<char>,
    row: (Seq<char>, Seq<char>),
    outer: ScalarCtx,
    b0: Seq<char>,
    b1: Seq<char>,
    b2: Seq<char>,
)
    requires
        item.len() > 0,
        forall|q: int| 0 <= q < item.len() ==> item[q] != '{' && item[q] != '}' && item[q] != ' ',
        brace_free(b0),
        brace_free(b1),
        brace_free(b2),
    ensures
        ({
            let body = b0 + ("{"@ + item + ".link}"@) + b1 + ("{"@ + item + ".display}"@) + b2;
            render_flat(body, 0, row_ctx(item, row, outer)) == Ok::<Seq<char>, Seq<char>>(
                b0 + row.0 + b1 + row.1 + b2,
            )
        }),
{
    reveal_strlit("{");
    reveal_strlit(".link}");
    reveal_strlit(".display}");
    reveal_strlit(".link");
    reveal_strlit(".display");
    lemma_row_body_regions(item, b0, b1, b2);
    let body = b0 + ("{"@ + item + ".link}"@) + b1 + ("{"@ + item + ".display}"@) + b2;
    let rc = row_ctx(item, row, outer);
    let q0 = b0.len() as int;
    let q1 = q0 + 7 + item.len() as int;
    let q2 = q1 + b1.len() as int;
    let q3 = q2 + 10 + item.len() as int;
    let q4 = q3 + b2.len() as int;
    let link_name = item + ".link"@;
    let display_name = item + ".display"@;
    assert("{"@ + item + ".link}"@ =~= seq!['{'] + link_name + seq!['}']);
    assert("{"@ + item + ".display}"@ =~= seq!['{'] + display_name + seq!['}']);
    assert forall|q: int| 0 <= q < link_name.len() implies link_name[q] != '{' && link_name[q]
        != '}' by {
        if q >= item.len() {
            assert(link_name[q] == ".link"@[q - item.len()]);
        }
    }
    assert forall|q: int|
        0 <= q < display_name.len() implies display_name[q] != '{' && display_name[q] != '}' by {
        if q >= item.len() {
            assert(display_name[q] == ".display"@[q - item.len()]);
        }
    }
    assert(lookup_scalar(rc, 0, link_name) == Some(row.0));
    assert(lookup_scalar(rc, 0, display_name) == Some(row.1)) by {
        assert(link_name.len() < display_name.len());
        assert(lookup_scalar(rc, 1, display_name) == Some(row.1));
    }
    assert(render_flat(body, q4, rc) == Ok::<Seq<char>, Seq<char>>(Seq::<char>::empty()));
    lemma_flat_literal_step(body, q3, q4, b2, rc, Seq::<char>::empty());
    assert(b2 + Seq::<char>::empty() =~= b2);
    lemma_flat_tag_step(body, q2, display_name, row.1, rc, b2);
    lemma_flat_literal_step(body, q1, q2, b1, rc, row.1 + b2);
    lemma_flat_tag_step(body, q0, link_name, row.0, rc, b1 + (row.1 + b2));
    lemma_flat_literal_step(body, 0, q0, b0, rc, row.0 + (b1 + (row.1 + b2)));
    assert(b0 + (row.0 + (b1 + (row.1 + b2))) =~= b0 + row.0 + b1 + row.1 + b2);
}

/// The fragment the iteration produces for the rows from `k` on: the body's
/// literal parts around each row's link and display label, one instance per
/// row, in order.
pub open spec fn rows_fragment(
    rows: Seq<(Seq<char>, Seq<char>)>,
    k: int,
    b0: Seq<char>,
    b1: Seq<char>,
    b2: Seq<char>,
) -> Seq<char>
    decreases rows.len() - k,
{
    if k < 0 || k >= rows.len() {
        Seq::empty()
    } else {
        b0 + rows[k].0 + b1 + rows[k].1 + b2 + rows_fragment(rows, k + 1, b0, b1, b2)
    }
}

/// The iteration renders exactly one body instance per row, concatenated in
/// row order.
proof fn lemma_rows_output(
    item: Seq<char>,
    rows: Seq<(Seq<char>, Seq<char>)>,
    k: int,
    outer: ScalarCtx,
    b0: Seq<char>,
    b1: Seq<char>,
    b2: Seq<char>,
)
    requires
        item.len() > 0,
        forall|q: int| 0 <= q < item.len() ==> item[q] != '{' && item[q] != '}' && item[q] != ' ',
        brace_free(b0),
        brace_free(b1),
        brace_free(b2),
        0 <= k <= rows.len(),
    ensures
        ({
            let body = b0 + ("{"@ + item + ".link}"@) + b1 + ("{"@ + item + ".display}"@) + b2;
            render_rows(body, item, rows, k, outer) == Ok::<Seq<char>, Seq<char>>(
                rows_fragment(rows, k, b0, b1, b2),
            )
        }),
    decreases rows.len() - k,
{
    if k < rows.len() {
        lemma_row_body_output(item, rows[k], outer, b0, b1, b2);
        lemma_rows_output(item, rows, k + 1, outer, b0, b1, b2);
    }
}

/// The head content of a canonical iteration block parses as a `for` over
/// `list`.
proof fn lemma_head_parse(item: Seq<char>)
    requires
        item.len() > 0,
        forall|q: int| 0 <= q < item.len() ==> item[q] != '{' && item[q] != '}' && item[q] != ' ',
    ensures
        crate::template::parse_for("for "@ + item + " in list"@) == Some((item, "list"@)),
{
    reveal_strlit("for ");
    reveal_strlit(" in list");
    reveal_strlit("list");
    let c = "for "@ + item + " in list"@;
    let k = 4 + item.len() as int;
    assert forall|q: int| 4 <= q < k implies c[q] != ' ' by {
        assert(c[q] == item[q - 4]);
    }
    assert(c[k] == " in list"@[0]);
    lemma_find_from_at(c, 4, k, ' ');
    assert forall|q: int| k + 4 <= q < c.len() implies c[q] != ' ' by {
        assert(c[q] == " in list"@[q - k]);
    }
    lemma_find_from_none(c, k + 4, ' ');
    assert(c.subrange(4, k) =~= item);
    assert(c.subrange(k + 4, c.len() as int) =~= "list"@);
}

/// In a canonical iteration body no `{` is followed by another `{`, and the
/// body does not end in `{`; so no `{{endfor}}` can begin inside it.
proof fn lemma_body_chars(item: Seq<char>, b0: Seq<char>, b1: Seq<char>, b2: Seq<char>)
    requires
        item.len() > 0,
        forall|q: int| 0 <= q < item.len() ==> item[q] != '{' && item[q] != '}' && item[q] != ' ',
        brace_free(b0),
        brace_free(b1),
        brace_free(b2),
    ensures
        ({
            let body = b0 + ("{"@ + item + ".link}"@) + b1 + ("{"@ + item + ".display}"@) + b2;
            forall|p: int|
                0 <= p < body.len() && #[trigger] body[p] == '{' ==> p + 1 < body.len() && body[p
                    + 1] != '{'
        }),
{
    reveal_strlit("{");
    reveal_strlit(".link}");
    reveal_strlit(".display}");
    lemma_row_body_regions(item, b0, b1, b2);
    let tag1 = "{"@ + item + ".link}"@;
    let tag2 = "{"@ + item + ".display}"@;
    let body = b0 + tag1 + b1 + tag2 + b2;
    let q0 = b0.len() as int;
    let q1 = q0 + 7 + item.len() as int;
    let q2 = q1 + b1.len() as int;
    let q3 = q2 + 10 + item.len() as int;
    let q4 = q3 + b2.len() as int;
    assert forall|q: int| 0 <= q < tag1.len() && tag1[q] == '{' implies q == 0 by {
        if 0 < q < 1 + item.len() {
            assert(tag1[q] == item[q - 1]);
        } else if q >= 1 + item.len() {
            assert(tag1[q] == ".link}"@[q - 1 - item.len()]);
        }
    }
    assert forall|q: int| 0 <= q < tag2.len() && tag2[q] == '{' implies q == 0 by {
        if 0 < q < 1 + item.len() {
            assert(tag2[q] == item[q - 1]);
        } else if q >= 1 + item.len() {
            assert(tag2[q] == ".display}"@[q - 1 - item.len()]);
        }
    }
    assert forall|p: int|
        0 <= p < body.len() && #[trigger] body[p] == '{' implies p + 1 < body.len() && body[p + 1]
        != '{' by {
        if p < q0 {
            assert(body[p] == body.subrange(0, q0)[p]);
        } else if p < q1 {
            assert(body[p] == body.subrange(q0, q1)[p - q0]);
            assert(p == q0);
            assert(body[p + 1] == body.subrange(q0, q1)[1]);
            assert(tag1[1] == item[0]);
        } else if p < q2 {
            assert(body[p] == body.subrange(q1, q2)[p - q1]);
        } else if p < q3 {
            assert(body[p] == body.subrange(q2, q3)[p - q2]);
            assert(p == q2);
            assert(body[p + 1] == body.subrange(q2, q3)[1]);
            assert(tag2[1] == item[0]);
        } else {
            assert(body[p] == body.subrange(q3, q4)[p - q3]);
        }
    }
}

/// An iteration block over `list` renders one body instance per row, followed
/// by whatever the rest of the template substitutes to.
#[verifier::rlimit(100)]
proof fn lemma_for_block_step(
    tpl: Seq<char>,
    i: int,
    item: Seq<char>,
    rows: Seq<(Seq<char>, Seq<char>)>,
    sc: ScalarCtx,
    lc: ListCtx,
    b0: Seq<char>,
    b1: Seq<char>,
    b2: Seq<char>,
    rest: Seq<char>,
)
    requires
        item.len() > 0,
        forall|q: int| 0 <= q < item.len() ==> item[q] != '{' && item[q] != '}' && item[q] != ' ',
        brace_free(b0),
        brace_free(b1),
        brace_free(b2),
        lookup_list(lc, 0, "list"@) == Some(rows),
        0 <= i,
        ({
            let head = "{{for "@ + item + " in list}}"@;
            let body = b0 + ("{"@ + item + ".link}"@) + b1 + ("{"@ + item + ".display}"@) + b2;
            let hend = i + head.len() as int;
            let bend = hend + body.len() as int;
            &&& bend + 10 <= tpl.len()
            &&& tpl.subrange(i, hend) == head
            &&& tpl.subrange(hend, bend) == body
            &&& tpl.subrange(bend, bend + 10) == "{{endfor}}"@
            &&& render_full(tpl, bend + 10, sc, lc) == Ok::<Seq<char>, Seq<char>>(rest)
        }),
    ensures
        render_full(tpl, i, sc, lc) == Ok::<Seq<char>, Seq<char>>(
            rows_fragment(rows, 0, b0, b1, b2) + rest,
        ),
{
    reveal_strlit("{{for ");
    reveal_strlit(" in list}}");
    reveal_strlit("for ");
    reveal_strlit(" in list");
    reveal_strlit("{{endfor}}");
    let head = "{{for "@ + item + " in list}}"@;
    let body = b0 + ("{"@ + item + ".link}"@) + b1 + ("{"@ + item + ".display}"@) + b2;
    let hend = i + head.len() as int;
    let bend = hend + body.len() as int;
    let j = hend - 2;
    assert forall|q: int| 0 <= q < head.len() implies tpl[i + q] == head[q] by {
        assert(tpl.subrange(i, hend)[q] == tpl[i + q]);
    }
    assert(head[0] == '{' && head[1] == '{');
    assert forall|k: int| i + 2 <= k < j implies tpl[k] != '}' by {
        let q = k - i;
        if q < 6 {
            assert(head[q] == "{{for "@[q]);
        } else if q < 6 + item.len() {
            assert(head[q] == item[q - 6]);
        } else {
            assert(head[q] == " in list}}"@[q - 6 - item.len()]);
        }
    }
    assert(tpl[j] == '}' && tpl[j + 1] == '}') by {
        assert(head[head.len() - 2] == " in list}}"@[8]);
        assert(head[head.len() - 1] == " in list}}"@[9]);
    }
    lemma_find_close2_at(tpl, i + 2, j);
    let content = tpl.subrange(i + 2, j);
    assert(content =~= "for "@ + item + " in list"@) by {
        assert forall|q: int| 0 <= q < content.len() implies content[q] == ("for "@ + item
            + " in list"@)[q] by {
            assert(content[q] == tpl[i + 2 + q]);
            assert(tpl[i + 2 + q] == head[q + 2]);
            if q < 4 {
                assert(head[q + 2] == "{{for "@[q + 2]);
                assert(("for "@ + item + " in list"@)[q] == "for "@[q]);
            } else if q < 4 + item.len() {
                assert(head[q + 2] == item[q - 4]);
            } else {
                assert(head[q + 2] == " in list}}"@[q - 4 - item.len()]);
                assert(("for "@ + item + " in list"@)[q] == " in list"@[q - 4 - item.len()]);
            }
        }
    }
    lemma_head_parse(item);
    assert forall|q: int| 0 <= q < body.len() implies tpl[hend + q] == body[q] by {
        assert(tpl.subrange(hend, bend)[q] == tpl[hend + q]);
    }
    assert forall|q: int| 0 <= q < 10 implies tpl[bend + q] == "{{endfor}}"@[q] by {
        assert(tpl.subrange(bend, bend + 10)[q] == tpl[bend + q]);
    }
    assert(crate::template::endfor_at(tpl, bend)) by {
        assert(tpl.subrange(bend, bend + 10)[0] == tpl[bend]);
        assert(tpl.subrange(bend, bend + 10)[1] == tpl[bend + 1]);
        assert(tpl.subrange(bend, bend + 10)[2] == tpl[bend + 2]);
        assert(tpl.subrange(bend, bend + 10)[3] == tpl[bend + 3]);
        assert(tpl.subrange(bend, bend + 10)[4] == tpl[bend + 4]);
        assert(tpl.subrange(bend, bend + 10)[5] == tpl[bend + 5]);
        assert(tpl.subrange(bend, bend + 10)[6] == tpl[bend + 6]);
        assert(tpl.subrange(bend, bend + 10)[7] == tpl[bend + 7]);
        assert(tpl.subrange(bend, bend + 10)[8] == tpl[bend + 8]);
        assert(tpl.subrange(bend, bend + 10)[9] == tpl[bend + 9]);
    }
    lemma_body_chars(item, b0, b1, b2);
    assert forall|p: int| hend <= p < bend implies !crate::template::endfor_at(tpl, p) by {
        if tpl[p] == '{' {
            assert(tpl[p] == body[p - hend]);
            assert(p - hend + 1 < body.len());
            assert(tpl[p + 1] == body[p - hend + 1]);
            assert(tpl[p + 1] != '{');
        }
    }
    lemma_find_endfor_at(tpl, j + 2, bend);
    assert(tpl.subrange(j + 2, bend) == body);
    lemma_rows_output(item, rows, 0, sc, b0, b1, b2);
}

/// The seven regions of a canonical page template: the literal parts and the
/// three tags stand at the expected positions.
proof fn lemma_page_template_regions(t0: Seq<char>, t1: Seq<char>, t2: Seq<char>, t3: Seq<char>)
    ensures
        ({
            let tpl = t0 + "{title}"@ + t1 + "{css}"@ + t2 + "{body}"@ + t3;
            let p0 = t0.len() as int;
            let p1 = p0 + 7 + t1.len() as int;
            let p2 = p1 + 5 + t2.len() as int;
            let p3 = p2 + 6 + t3.len() as int;
            &&& tpl.len() == p3
            &&& tpl.subrange(0, p0) == t0
            &&& tpl.subrange(p0, p0 + 7) == "{title}"@
            &&& tpl.subrange(p0 + 7, p1) == t1
            &&& tpl.subrange(p1, p1 + 5) == "{css}"@
            &&& tpl.subrange(p1 + 5, p2) == t2
            &&& tpl.subrange(p2, p2 + 6) == "{body}"@
            &&& tpl.subrange(p2 + 6, p3) == t3
        }),
{
    reveal_strlit("{title}");
    reveal_strlit("{css}");
    reveal_strlit("{body}");
    let u1 = t0 + "{title}"@;
    let u2 = u1 + t1;
    let u3 = u2 + "{css}"@;
    let u4 = u3 + t2;
    let u5 = u4 + "{body}"@;
    let tpl = u5 + t3;
    let p0 = t0.len() as int;
    let p1 = p0 + 7 + t1.len() as int;
    let p2 = p1 + 5 + t2.len() as int;
    let p3 = p2 + 6 + t3.len() as int;
    lemma_suffix_whole(u5, t3);
    lemma_suffix_whole(u4, "{body}"@);
    lemma_prefix_subrange(u5, t3, p2, p2 + 6);
    lemma_suffix_whole(u3, t2);
    lemma_prefix_subrange(u4, "{body}"@, p1 + 5, p2);
    lemma_prefix_subrange(u5, t3, p1 + 5, p2);
    lemma_suffix_whole(u2, "{css}"@);
    lemma_prefix_subrange(u3, t2, p1, p1 + 5);
    lemma_prefix_subrange(u4, "{body}"@, p1, p1 + 5);
    lemma_prefix_subrange(u5, t3, p1, p1 + 5);
    lemma_suffix_whole(u1, t1);
    lemma_prefix_subrange(u2, "{css}"@, p0 + 7, p1);
    lemma_prefix_subrange(u3, t2, p0 + 7, p1);
    lemma_prefix_subrange(u4, "{body}"@, p0 + 7, p1);
    lemma_prefix_subrange(u5, t3, p0 + 7, p1);
    lemma_suffix_whole(t0, "{title}"@);
    lemma_prefix_subrange(u1, t1, p0, p0 + 7);
    lemma_prefix_subrange(u2, "{css}"@, p0, p0 + 7);
    lemma_prefix_subrange(u3, t2, p0, p0 + 7);
    lemma_prefix_subrange(u4, "{body}"@, p0, p0 + 7);
    lemma_prefix_subrange(u5, t3, p0, p0 + 7);
    assert(t0.subrange(0, p0) =~= t0);
    lemma_prefix_subrange(t0, "{title}"@, 0, p0);
    lemma_prefix_subrange(u1, t1, 0, p0);
    lemma_prefix_subrange(u2, "{css}"@, 0, p0);
    lemma_prefix_subrange(u3, t2, 0, p0);
    lemma_prefix_subrange(u4, "{body}"@, 0, p0);
    lemma_prefix_subrange(u5, t3, 0, p0);
}

/// A page template of the canonical shape — literal text around `{title}`,
/// `{css}` and `{body}`, each named once — renders successfully, and its
/// output is the literal text with the three values embedded in place, each
/// exactly once.
#[verifier::rlimit(100)]
pub proof fn lemma_page_template_output(
    title: Seq<char>,
    css: Seq<char>,
    body: Seq<char>,
    t0: Seq<char>,
    t1: Seq<char>,
    t2: Seq<char>,
    t3: Seq<char>,
)
    requires
        brace_free(t0),
        brace_free(t1),
        brace_free(t2),
        brace_free(t3),
    ensures
        render_full(
            t0 + "{title}"@ + t1 + "{css}"@ + t2 + "{body}"@ + t3,
            0,
            page_ctx(title, css, body),
            Seq::empty(),
        ) == Ok::<Seq<char>, Seq<char>>(t0 + title + t1 + css + t2 + body + t3),
{
    reveal_strlit("{title}");
    reveal_strlit("{css}");
    reveal_strlit("{body}");
    reveal_strlit("title");
    reveal_strlit("css");
    reveal_strlit("body");
    let tpl = t0 + "{title}"@ + t1 + "{css}"@ + t2 + "{body}"@ + t3;
    let sc = page_ctx(title, css, body);
    let lc = Seq::<(Seq<char>, Seq<(Seq<char>, Seq<char>)>)>::empty();
    let p0 = t0.len() as int;
    let p1 = p0 + 7 + t1.len() as int;
    let p2 = p1 + 5 + t2.len() as int;
    let p3 = p2 + 6 + t3.len() as int;
    lemma_page_template_regions(t0, t1, t2, t3);
    assert("{title}"@ =~= seq!['{'] + "title"@ + seq!['}']);
    assert("{css}"@ =~= seq!['{'] + "css"@ + seq!['}']);
    assert("{body}"@ =~= seq!['{'] + "body"@ + seq!['}']);
    assert(lookup_scalar(sc, 0, "title"@) == Some(title));
    assert(lookup_scalar(sc, 0, "css"@) == Some(css)) by {
        assert(lookup_scalar(sc, 1, "css"@) == Some(css));
    }
    assert(lookup_scalar(sc, 0, "body"@) == Some(body)) by {
        assert(lookup_scalar(sc, 2, "body"@) == Some(body));
        assert(lookup_scalar(sc, 1, "body"@) == Some(body));
    }
    assert(render_full(tpl, p3, sc, lc) == Ok::<Seq<char>, Seq<char>>(Seq::<char>::empty()));
    lemma_literal_step(tpl, p2 + 6, p3, t3, sc, lc, Seq::<char>::empty());
    assert(t3 + Seq::<char>::empty() =~= t3);
    lemma_tag_step(tpl, p2, "body"@, body, sc, lc, t3);
    lemma_literal_step(tpl, p1 + 5, p2, t2, sc, lc, body + t3);
    lemma_tag_step(tpl, p1, "css"@, css, sc, lc, t2 + (body + t3));
    lemma_literal_step(tpl, p0 + 7, p1, t1, sc, lc, css + (t2 + (body + t3)));
    lemma_tag_step(tpl, p0, "title"@, title, sc, lc, t1 + (css + (t2 + (body + t3))));
    lemma_literal_step(tpl, 0, p0, t0, sc, lc, title + (t1 + (css + (t2 + (body + t3)))));
    assert(t0 + (title + (t1 + (css + (t2 + (body + t3))))) =~= t0 + title + t1 + css + t2 + body
        + t3);
}

/// The five regions of a canonical list template: literal text around one
/// iteration block over `list`.
proof fn lemma_list_template_regions(
    item: Seq<char>,
    l0: Seq<char>,
    b0: Seq<char>,
    b1: Seq<char>,
    b2: Seq<char>,
    l1: Seq<char>,
)
    ensures
        ({
            let head = "{{for "@ + item + " in list}}"@;
            let body = b0 + ("{"@ + item + ".link}"@) + b1 + ("{"@ + item + ".display}"@) + b2;
            let lt = l0 + head + body + "{{endfor}}"@ + l1;
            let r0 = l0.len() as int;
            let r1 = r0 + head.len() as int;
            let r2 = r1 + body.len() as int;
            let r3 = r2 + 10;
            let r4 = r3 + l1.len() as int;
            &&& lt.len() == r4
            &&& lt.subrange(0, r0) == l0
            &&& lt.subrange(r0, r1) == head
            &&& lt.subrange(r1, r2) == body
            &&& lt.subrange(r2, r3) == "{{endfor}}"@
            &&& lt.subrange(r3, r4) == l1
        }),
{
    reveal_strlit("{{endfor}}");
    let head = "{{for "@ + item + " in list}}"@;
    let body = b0 + ("{"@ + item + ".link}"@) + b1 + ("{"@ + item + ".display}"@) + b2;
    let u1 = l0 + head;
    let u2 = u1 + body;
    let u3 = u2 + "{{endfor}}"@;
    let lt = u3 + l1;
    let r0 = l0.len() as int;
    let r1 = r0 + head.len() as int;
    let r2 = r1 + body.len() as int;
    let r3 = r2 + 10;
    lemma_suffix_whole(u3, l1);
    lemma_suffix_whole(u2, "{{endfor}}"@);
    lemma_prefix_subrange(u3, l1, r2, r3);
    lemma_suffix_whole(u1, body);
    lemma_prefix_subrange(u2, "{{endfor}}"@, r1, r2);
    lemma_prefix_subrange(u3, l1, r1, r2);
    lemma_suffix_whole(l0, head);
    lemma_prefix_subrange(u1, body, r0, r1);
    lemma_prefix_subrange(u2, "{{endfor}}"@, r0, r1);
    lemma_prefix_subrange(u3, l1, r0, r1);
    assert(l0.subrange(0, r0) =~= l0);
    lemma_prefix_subrange(l0, head, 0, r0);
    lemma_prefix_subrange(u1, body, 0, r0);
    lemma_prefix_subrange(u2, "{{endfor}}"@, 0, r0);
    lemma_prefix_subrange(u3, l1, 0, r0);
}

/// A list template of the canonical shape — literal text around one iteration
/// block over `list` whose body names the entry's link and display fields —
/// renders successfully, and its output holds exactly one body instance per
/// row, in row order.
pub proof fn lemma_list_template_output(
    item: Seq<char>,
    rows: Seq<(Seq<char>, Seq<char>)>,
    sc: ScalarCtx,
    lc: ListCtx,
    l0: Seq<char>,
    b0: Seq<char>,
    b1: Seq<char>,
    b2: Seq<char>,
    l1: Seq<char>,
)
    requires
        item.len() > 0,
        forall|q: int| 0 <= q < item.len() ==> item[q] != '{' && item[q] != '}' && item[q] != ' ',
        brace_free(l0),
        brace_free(b0),
        brace_free(b1),
        brace_free(b2),
        brace_free(l1),
        lookup_list(lc, 0, "list"@) == Some(rows),
    ensures
        ({
            let head = "{{for "@ + item + " in list}}"@;
            let body = b0 + ("{"@ + item + ".link}"@) + b1 + ("{"@ + item + ".display}"@) + b2;
            let lt = l0 + head + body + "{{endfor}}"@ + l1;
            render_full(lt, 0, sc, lc) == Ok::<Seq<char>, Seq<char>>(
                l0 + rows_fragment(rows, 0, b0, b1, b2) + l1,
            )
        }),
{
    lemma_list_template_regions(item, l0, b0, b1, b2, l1);
    let head = "{{for "@ + item + " in list}}"@;
    let body = b0 + ("{"@ + item + ".link}"@) + b1 + ("{"@ + item + ".display}"@) + b2;
    let lt = l0 + head + body + "{{endfor}}"@ + l1;
    let r0 = l0.len() as int;
    let r1 = r0 + head.len() as int;
    let r2 = r1 + body.len() as int;
    let r3 = r2 + 10;
    let r4 = r3 + l1.len() as int;
    assert(render_full(lt, r4, sc, lc) == Ok::<Seq<char>, Seq<char>>(Seq::<char>::empty()));
    lemma_literal_step(lt, r3, r4, l1, sc, lc, Seq::<char>::empty());
    assert(l1 + Seq::<char>::empty() =~= l1);
    lemma_for_block_step(lt, r0, item, rows, sc, lc, b0, b1, b2, l1);
    lemma_literal_step(lt, 0, r0, l0, sc, lc, rows_fragment(rows, 0, b0, b1, b2) + l1);
    assert(l0 + (rows_fragment(rows, 0, b0, b1, b2) + l1) =~= l0 + rows_fragment(
        rows,
        0,
        b0,
        b1,
        b2,
    ) + l1);
}

/// For a registered `Single` page whose texts the snapshot provides and whose
/// page template has the canonical shape, the render succeeds, the page's
/// name stands in the title slot, and the converted markdown is embedded
/// exactly once.
pub proof fn lemma_single_page_contents(
    cfg: AppConfig,
    fs: Sources,
    name: Seq<char>,
    t0: Seq<char>,
    t1: Seq<char>,
    t2: Seq<char>,
    t3: Seq<char>,
)
    requires
        page_index(cfg.pages@, 0, name) is Some,
        cfg.pages@[page_index(cfg.pages@, 0, name)->Some_0].kind is Single,
        file_text(fs.files@, 0, cfg.html_template@) == Some(
            t0 + "{title}"@ + t1 + "{css}"@ + t2 + "{body}"@ + t3,
        ),
        file_text(fs.files@, 0, cfg.css@) is Some,
        file_text(fs.files@, 0, cfg.pages@[page_index(cfg.pages@, 0, name)->Some_0].source@)
            is Some,
        brace_free(t0),
        brace_free(t1),
        brace_free(t2),
        brace_free(t3),
    ensures
        spec_generate_page(cfg, fs, name) == Ok::<Seq<char>, ErrModel>(
            t0 + cfg.pages@[page_index(cfg.pages@, 0, name)->Some_0].name@ + t1 + file_text(
                fs.files@,
                0,
                cfg.css@,
            )->Some_0 + t2 + html_of(
                file_text(
                    fs.files@,
                    0,
                    cfg.pages@[page_index(cfg.pages@, 0, name)->Some_0].source@,
                )->Some_0,
            ) + t3,
        ),
{
    let i = page_index(cfg.pages@, 0, name)->Some_0;
    let p = cfg.pages@[i];
    let csst = file_text(fs.files@, 0, cfg.css@)->Some_0;
    let md = file_text(fs.files@, 0, p.source@)->Some_0;
    lemma_page_template_output(p.name@, csst, html_of(md), t0, t1, t2, t3);
}

/// For a registered list item whose markdown file the snapshot provides under
/// the joined path, and whose page template has the canonical shape, the item
/// render succeeds and equals the single-page output of that file's markdown,
/// under the list's own name as title.
pub proof fn lemma_list_item_contents(
    cfg: AppConfig,
    fs: Sources,
    list_name: Seq<char>,
    item_file: Seq<char>,
    t0: Seq<char>,
    t1: Seq<char>,
    t2: Seq<char>,
    t3: Seq<char>,
)
    requires
        page_index(cfg.pages@, 0, list_name) is Some,
        file_text(fs.files@, 0, cfg.html_template@) == Some(
            t0 + "{title}"@ + t1 + "{css}"@ + t2 + "{body}"@ + t3,
        ),
        file_text(fs.files@, 0, cfg.css@) is Some,
        file_text(
            fs.files@,
            0,
            crate::appconfig::joined_path(
                cfg.pages@[page_index(cfg.pages@, 0, list_name)->Some_0].source@,
                item_file,
            ),
        ) is Some,
        brace_free(t0),
        brace_free(t1),
        brace_free(t2),
        brace_free(t3),
    ensures
        ({
            let i = page_index(cfg.pages@, 0, list_name)->Some_0;
            let p = cfg.pages@[i];
            let csst = file_text(fs.files@, 0, cfg.css@)->Some_0;
            let md = file_text(
                fs.files@,
                0,
                crate::appconfig::joined_path(p.source@, item_file),
            )->Some_0;
            crate::appconfig::spec_generate_list_page(cfg, fs, list_name, item_file) == Ok::<
                Seq<char>,
                ErrModel,
            >(t0 + p.name@ + t1 + csst + t2 + html_of(md) + t3)
        }),
{
    let i = page_index(cfg.pages@, 0, list_name)->Some_0;
    let p = cfg.pages@[i];
    let csst = file_text(fs.files@, 0, cfg.css@)->Some_0;
    let md = file_text(fs.files@, 0, crate::appconfig::joined_path(p.source@, item_file))->Some_0;
    lemma_page_template_output(p.name@, csst, html_of(md), t0, t1, t2, t3);
}

/// For a registered `List` page whose texts and listing the snapshot provides
/// and whose templates have the canonical shapes, the render succeeds and the
/// output holds exactly one list entry per file of the source directory, in
/// listing order, each showing the file name as the link and its display
/// label — underscores replaced by spaces, the extension removed — beside it.
pub proof fn lemma_list_page_contents(
    cfg: AppConfig,
    fs: Sources,
    name: Seq<char>,
    item: Seq<char>,
    l0: Seq<char>,
    b0: Seq<char>,
    b1: Seq<char>,
    b2: Seq<char>,
    l1: Seq<char>,
    t0: Seq<char>,
    t1: Seq<char>,
    t2: Seq<char>,
    t3: Seq<char>,
)
    requires
        page_index(cfg.pages@, 0, name) is Some,
        cfg.pages@[page_index(cfg.pages@, 0, name)->Some_0].kind is List,
        dir_entries(fs.dirs@, 0, cfg.pages@[page_index(cfg.pages@, 0, name)->Some_0].source@)
            is Some,
        file_text(fs.files@, 0, cfg.list_template@) == Some(
            l0 + ("{{for "@ + item + " in list}}"@) + (b0 + ("{"@ + item + ".link}"@) + b1 + ("{"@
                + item + ".display}"@) + b2) + "{{endfor}}"@ + l1,
        ),
        file_text(fs.files@, 0, cfg.html_template@) == Some(
            t0 + "{title}"@ + t1 + "{css}"@ + t2 + "{body}"@ + t3,
        ),
        file_text(fs.files@, 0, cfg.css@) is Some,
        item.len() > 0,
        forall|q: int| 0 <= q < item.len() ==> item[q] != '{' && item[q] != '}' && item[q] != ' ',
        brace_free(l0),
        brace_free(b0),
        brace_free(b1),
        brace_free(b2),
        brace_free(l1),
        brace_free(t0),
        brace_free(t1),
        brace_free(t2),
        brace_free(t3),
    ensures
        ({
            let i = page_index(cfg.pages@, 0, name)->Some_0;
            let p = cfg.pages@[i];
            let paths = dir_entries(fs.dirs@, 0, p.source@)->Some_0;
            let csst = file_text(fs.files@, 0, cfg.css@)->Some_0;
            spec_generate_page(cfg, fs, name) == Ok::<Seq<char>, ErrModel>(
                t0 + p.name@ + t1 + csst + t2 + (l0 + rows_fragment(list_rows(paths), 0, b0, b1, b2)
                    + l1) + t3,
            )
        }),
{
    let i = page_index(cfg.pages@, 0, name)->Some_0;
    let p = cfg.pages@[i];
    let paths = dir_entries(fs.dirs@, 0, p.source@)->Some_0;
    let csst = file_text(fs.files@, 0, cfg.css@)->Some_0;
    let rows = list_rows(paths);
    let lc = seq![("list"@, rows)];
    assert(lookup_list(lc, 0, "list"@) == Some(rows));
    lemma_list_template_output(
        item,
        rows,
        Seq::empty(),
        lc,
        l0,
        b0,
        b1,
        b2,
        l1,
    );
    let frag = l0 + rows_fragment(rows, 0, b0, b1, b2) + l1;
    lemma_page_template_output(p.name@, csst, frag, t0, t1, t2, t3);
}

} // verus!
