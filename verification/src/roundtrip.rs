//! The round-trip law of the manifest render path.
//!
//! Rendering loses nothing: two manifests with the same rendered document
//! agree field for field — sequence fields (`files`, `downloads`) exactly and
//! in order, the `dependencies` mapping up to order. Equivalently, a manifest
//! parser reading the rendered document back can reproduce the value. The
//! proof goes through a spec-level parser of JSON string literals and
//! peeling lemmas for each piece of the document.
use vstd::prelude::*;
use crate::manifest::ManifestEnvView;
use crate::manifest::ManifestFileView;
use crate::manifest::ManifestView;
use crate::manifest::dec_str;
use crate::manifest::digit_char;
use crate::manifest::json_escape;
use crate::manifest::json_escape_char;
use crate::manifest::json_str;
use crate::manifest::json_str_array;
use crate::manifest::render_dep_items;
use crate::manifest::render_env;
use crate::manifest::render_file;
use crate::manifest::render_file_items;
use crate::manifest::render_opt_str;
use crate::manifest::render_str_items;
use crate::manifest::sort_deps;
use crate::manifest::spec_render_manifest;

verus! {

pub open spec fn is_digit_char(c: char) -> bool {
    '0' <= c && c <= '9'
}

/// The escape code that `json_escape_char` writes after a backslash.
pub open spec fn escape_code(c: char) -> char {
    if c == '\n' {
        'n'
    } else if c == '\r' {
        'r'
    } else if c == '\t' {
        't'
    } else {
        c
    }
}

pub open spec fn unescape_char(c: char) -> char {
    if c == 'n' {
        '\n'
    } else if c == 'r' {
        '\r'
    } else if c == 't' {
        '\t'
    } else {
        c
    }
}

pub open spec fn is_escape_code(c: char) -> bool {
    c == '"' || c == '\\' || c == 'n' || c == 'r' || c == 't'
}

/// A hypothetical parser of a JSON string literal body: characters up to the
/// closing quote, resolving escapes; returns the content and the rest.
pub open spec fn parse_jstr_rec(s: Seq<char>, acc: Seq<char>) -> Option<(Seq<char>, Seq<char>)>
    decreases s.len(),
{
    if s.len() == 0 {
        None
    } else if s[0] == '"' {
        Some((acc, s.drop_first()))
    } else if s[0] == '\\' {
        if s.len() >= 2 && is_escape_code(s[1]) {
            parse_jstr_rec(s.skip(2), acc.push(unescape_char(s[1])))
        } else {
            None
        }
    } else {
        parse_jstr_rec(s.drop_first(), acc.push(s[0]))
    }
}

/// A hypothetical parser of a JSON string literal.
pub open spec fn parse_jstr(s: Seq<char>) -> Option<(Seq<char>, Seq<char>)> {
    if s.len() > 0 && s[0] == '"' {
        parse_jstr_rec(s.drop_first(), Seq::empty())
    } else {
        None
    }
}

proof fn lemma_jstr_rec_round_trip(t: Seq<char>, acc: Seq<char>, rest: Seq<char>)
    ensures
        parse_jstr_rec(json_escape(t) + seq!['"'] + rest, acc) == Some((acc + t, rest)),
    decreases t.len(),
{
    let s = json_escape(t) + seq!['"'] + rest;
    if t.len() == 0 {
        assert(json_escape(t) =~= Seq::<char>::empty());
        assert(s =~= seq!['"'] + rest);
        assert(s[0] == '"');
        assert(s.drop_first() =~= rest);
        assert(acc + t =~= acc);
    } else {
        let c = t[0];
        let t2 = t.drop_first();
        assert(json_escape(t) == json_escape_char(c) + json_escape(t2));
        if c == '"' || c == '\\' || c == '\n' || c == '\r' || c == '\t' {
            let e = escape_code(c);
            assert(json_escape_char(c) =~= seq!['\\', e]);
            assert(s =~= seq!['\\', e] + (json_escape(t2) + seq!['"'] + rest));
            assert(s[0] == '\\');
            assert(s[1] == e);
            assert(is_escape_code(e));
            assert(unescape_char(e) == c);
            assert(s.skip(2) =~= json_escape(t2) + seq!['"'] + rest);
            lemma_jstr_rec_round_trip(t2, acc.push(c), rest);
            assert(acc.push(c) + t2 =~= acc + t);
        } else {
            assert(json_escape_char(c) =~= seq![c]);
            assert(s =~= seq![c] + (json_escape(t2) + seq!['"'] + rest));
            assert(s[0] == c);
            assert(s.drop_first() =~= json_escape(t2) + seq!['"'] + rest);
            lemma_jstr_rec_round_trip(t2, acc.push(c), rest);
            assert(acc.push(c) + t2 =~= acc + t);
        }
    }
}

/// The round trip of one string: parsing a rendered string literal gives the
/// original content back and leaves exactly the rest.
pub proof fn lemma_jstr_round_trip(t: Seq<char>, rest: Seq<char>)
    ensures
        parse_jstr(json_str(t) + rest) == Some((t, rest)),
{
    let s = json_str(t) + rest;
    assert(s =~= seq!['"'] + (json_escape(t) + seq!['"'] + rest));
    assert(s[0] == '"');
    assert(s.drop_first() =~= json_escape(t) + seq!['"'] + rest);
    lemma_jstr_rec_round_trip(t, Seq::empty(), rest);
    assert(Seq::<char>::empty() + t =~= t);
}

/// Peeling a string literal: equal documents that both start with a rendered
/// string carry equal contents and equal rests.
pub proof fn lemma_jstr_peel(a: Seq<char>, b: Seq<char>, r1: Seq<char>, r2: Seq<char>)
    requires
        json_str(a) + r1 == json_str(b) + r2,
    ensures
        a == b,
        r1 == r2,
{
    lemma_jstr_round_trip(a, r1);
    lemma_jstr_round_trip(b, r2);
}

/// Peeling a shared literal prefix.
proof fn lemma_lit_peel(l: Seq<char>, a: Seq<char>, b: Seq<char>)
    requires
        l + a == l + b,
    ensures
        a == b,
{
    assert(a =~= (l + a).skip(l.len() as int));
    assert(b =~= (l + b).skip(l.len() as int));
}

proof fn lemma_dec_str_digits(n: int)
    requires
        0 <= n,
    ensures
        dec_str(n).len() >= 1,
        forall|i: int| 0 <= i < dec_str(n).len() ==> is_digit_char(#[trigger] dec_str(n)[i]),
    decreases n,
{
    if n < 10 {
        assert(dec_str(n) =~= seq![digit_char(n)]);
    } else {
        lemma_dec_str_digits(n / 10);
        assert forall|i: int| 0 <= i < dec_str(n).len() implies is_digit_char(
            #[trigger] dec_str(n)[i],
        ) by {
            if i < dec_str(n / 10).len() {
                assert(dec_str(n)[i] == dec_str(n / 10)[i]);
            } else {
                assert(dec_str(n)[i] == digit_char(n % 10));
            }
        }
    }
}

proof fn lemma_dec_str_injective(m: int, n: int)
    requires
        0 <= m,
        0 <= n,
        dec_str(m) == dec_str(n),
    ensures
        m == n,
    decreases m,
{
    lemma_dec_str_digits(m);
    lemma_dec_str_digits(n);
    if m < 10 && n < 10 {
        assert(dec_str(m)[0] == digit_char(m));
        assert(dec_str(n)[0] == digit_char(n));
        assert(m == n);
    } else if m < 10 && n >= 10 {
        assert(dec_str(m).len() == 1);
        assert(dec_str(n).len() == dec_str(n / 10).len() + 1);
        assert(false);
    } else if m >= 10 && n < 10 {
        assert(dec_str(m).len() == dec_str(m / 10).len() + 1);
        assert(false);
    } else {
        assert(dec_str(m).last() == digit_char(m % 10));
        assert(dec_str(n).last() == digit_char(n % 10));
        assert(m % 10 == n % 10);
        assert(dec_str(m).drop_last() =~= dec_str(m / 10));
        assert(dec_str(n).drop_last() =~= dec_str(n / 10));
        lemma_dec_str_injective(m / 10, n / 10);
    }
}

/// Peeling a number: a decimal rendering followed by a non-digit determines
/// the number and the rest.
pub proof fn lemma_dec_peel(m: int, n: int, r1: Seq<char>, r2: Seq<char>)
    requires
        0 <= m,
        0 <= n,
        dec_str(m) + r1 == dec_str(n) + r2,
        r1.len() > 0,
        r2.len() > 0,
        !is_digit_char(r1[0]),
        !is_digit_char(r2[0]),
    ensures
        m == n,
        r1 == r2,
{
    let a = dec_str(m);
    let b = dec_str(n);
    lemma_dec_str_digits(m);
    lemma_dec_str_digits(n);
    if a.len() < b.len() {
        assert((a + r1)[a.len() as int] == r1[0]);
        assert((b + r2)[a.len() as int] == b[a.len() as int]);
        assert(false);
    }
    if b.len() < a.len() {
        assert((b + r2)[b.len() as int] == r2[0]);
        assert((a + r1)[b.len() as int] == a[b.len() as int]);
        assert(false);
    }
    assert(a =~= (a + r1).take(a.len() as int));
    assert(b =~= (b + r2).take(a.len() as int));
    lemma_dec_str_injective(m, n);
    assert(r1 =~= (a + r1).skip(a.len() as int));
    assert(r2 =~= (b + r2).skip(a.len() as int));
}

/// Peeling the environment block: `null` and an object are told apart by
/// their first character.
proof fn lemma_env_peel(
    e1: Option<ManifestEnvView>,
    e2: Option<ManifestEnvView>,
    r1: Seq<char>,
    r2: Seq<char>,
)
    requires
        render_env(e1) + r1 == render_env(e2) + r2,
    ensures
        e1 == e2,
        r1 == r2,
{
    reveal_strlit("null");
    reveal_strlit("{\"client\":");
    reveal_strlit(",\"server\":");
    match (e1, e2) {
        (Option::None, Option::None) => {
            lemma_lit_peel("null"@, r1, r2);
        },
        (Option::None, Option::Some(v2)) => {
            assert((render_env(e1) + r1)[0] == 'n');
            assert((render_env(e2) + r2)[0] == '{');
            assert(false);
        },
        (Option::Some(v1), Option::None) => {
            assert((render_env(e1) + r1)[0] == '{');
            assert((render_env(e2) + r2)[0] == 'n');
            assert(false);
        },
        (Option::Some(v1), Option::Some(v2)) => {
            let l = "{\"client\":"@;
            let lsrv = ",\"server\":"@;
            let q1 = seq!['}'] + r1;
            let q2 = seq!['}'] + r2;
            let p1 = json_str(v1.server) + q1;
            let p2 = json_str(v2.server) + q2;
            let n1 = lsrv + p1;
            let n2 = lsrv + p2;
            let m1 = json_str(v1.client) + n1;
            let m2 = json_str(v2.client) + n2;
            assert(render_env(e1) + r1 =~= l + m1);
            assert(render_env(e2) + r2 =~= l + m2);
            lemma_lit_peel(l, m1, m2);
            lemma_jstr_peel(v1.client, v2.client, n1, n2);
            lemma_lit_peel(lsrv, p1, p2);
            lemma_jstr_peel(v1.server, v2.server, q1, q2);
            lemma_lit_peel(seq!['}'], r1, r2);
            assert(v1 =~= v2);
        },
    }
}

/// Peeling a string list: comma-separated rendered strings closed by `]`.
#[verifier::rlimit(100)]
#[verifier::spinoff_prover]
proof fn lemma_str_items_peel(
    xs: Seq<Seq<char>>,
    ys: Seq<Seq<char>>,
    i: int,
    j: int,
    r1: Seq<char>,
    r2: Seq<char>,
)
    requires
        0 <= i <= xs.len(),
        0 <= j <= ys.len(),
        (i == 0) <==> (j == 0),
        render_str_items(xs, i) + seq![']'] + r1 == render_str_items(ys, j) + seq![']'] + r2,
    ensures
        xs.skip(i) == ys.skip(j),
        r1 == r2,
    decreases xs.len() - i,
{
    let s1 = render_str_items(xs, i) + seq![']'] + r1;
    let s2 = render_str_items(ys, j) + seq![']'] + r2;
    if i == xs.len() {
        assert(render_str_items(xs, i) =~= Seq::<char>::empty());
        assert(s1[0] == ']');
        if j < ys.len() {
            if j > 0 {
                assert(s2[0] == ',');
            } else {
                assert(s2 =~= json_str(ys[j]) + (render_str_items(ys, j + 1) + seq![']'] + r2));
                assert(s2[0] == '"');
            }
            assert(false);
        }
        assert(render_str_items(ys, j) =~= Seq::<char>::empty());
        assert(s1 =~= seq![']'] + r1);
        assert(s2 =~= seq![']'] + r2);
        lemma_lit_peel(seq![']'], r1, r2);
        assert(xs.skip(i) =~= ys.skip(j));
    } else {
        if j == ys.len() {
            assert(render_str_items(ys, j) =~= Seq::<char>::empty());
            assert(s2[0] == ']');
            if i > 0 {
                assert(s1[0] == ',');
            } else {
                assert(s1 =~= json_str(xs[i]) + (render_str_items(xs, i + 1) + seq![']'] + r1));
                assert(s1[0] == '"');
            }
            assert(false);
        }
        let t1 = json_str(xs[i]) + (render_str_items(xs, i + 1) + seq![']'] + r1);
        let t2 = json_str(ys[j]) + (render_str_items(ys, j + 1) + seq![']'] + r2);
        if i > 0 {
            assert(s1 =~= seq![','] + t1);
            assert(s2 =~= seq![','] + t2);
            lemma_lit_peel(seq![','], t1, t2);
        } else {
            assert(s1 =~= t1);
            assert(s2 =~= t2);
        }
        lemma_jstr_peel(
            xs[i],
            ys[j],
            render_str_items(xs, i + 1) + seq![']'] + r1,
            render_str_items(ys, j + 1) + seq![']'] + r2,
        );
        lemma_str_items_peel(xs, ys, i + 1, j + 1, r1, r2);
        assert(xs.skip(i) =~= seq![xs[i]] + xs.skip(i + 1));
        assert(ys.skip(j) =~= seq![ys[j]] + ys.skip(j + 1));
    }
}

/// Peeling a whole rendered string array.
proof fn lemma_jarr_peel(xs: Seq<Seq<char>>, ys: Seq<Seq<char>>, r1: Seq<char>, r2: Seq<char>)
    requires
        json_str_array(xs) + r1 == json_str_array(ys) + r2,
    ensures
        xs == ys,
        r1 == r2,
{
    assert(json_str_array(xs) + r1 =~= seq!['['] + (render_str_items(xs, 0) + seq![']'] + r1));
    assert(json_str_array(ys) + r2 =~= seq!['['] + (render_str_items(ys, 0) + seq![']'] + r2));
    lemma_lit_peel(
        seq!['['],
        render_str_items(xs, 0) + seq![']'] + r1,
        render_str_items(ys, 0) + seq![']'] + r2,
    );
    lemma_str_items_peel(xs, ys, 0, 0, r1, r2);
    assert(xs.skip(0) =~= xs);
    assert(ys.skip(0) =~= ys);
}

/// Peeling one rendered file object.
#[verifier::rlimit(100)]
#[verifier::spinoff_prover]
proof fn lemma_file_peel(f1: ManifestFileView, f2: ManifestFileView, r1: Seq<char>, r2: Seq<char>)
    requires
        render_file(f1) + r1 == render_file(f2) + r2,
    ensures
        f1 == f2,
        r1 == r2,
{
    let la = "{\"path\":"@;
    let lb = ",\"hashes\":{\"sha1\":"@;
    let lc = "},\"env\":"@;
    let ld = ",\"downloads\":"@;
    let q1 = seq!['}'] + r1;
    let q2 = seq!['}'] + r2;
    let p1 = json_str_array(f1.downloads) + q1;
    let p2 = json_str_array(f2.downloads) + q2;
    let o1 = ld + p1;
    let o2 = ld + p2;
    let n1 = render_env(f1.env) + o1;
    let n2 = render_env(f2.env) + o2;
    let mm1 = lc + n1;
    let mm2 = lc + n2;
    let k1 = json_str(f1.sha1) + mm1;
    let k2 = json_str(f2.sha1) + mm2;
    let jj1 = lb + k1;
    let jj2 = lb + k2;
    let h1 = json_str(f1.path) + jj1;
    let h2 = json_str(f2.path) + jj2;
    assert(render_file(f1) + r1 =~= la + h1);
    assert(render_file(f2) + r2 =~= la + h2);
    lemma_lit_peel(la, h1, h2);
    lemma_jstr_peel(f1.path, f2.path, jj1, jj2);
    lemma_lit_peel(lb, k1, k2);
    lemma_jstr_peel(f1.sha1, f2.sha1, mm1, mm2);
    lemma_lit_peel(lc, n1, n2);
    lemma_env_peel(f1.env, f2.env, o1, o2);
    lemma_lit_peel(ld, p1, p2);
    lemma_jarr_peel(f1.downloads, f2.downloads, q1, q2);
    lemma_lit_peel(seq!['}'], r1, r2);
    assert(f1 =~= f2);
}

proof fn lemma_render_file_first(f: ManifestFileView)
    ensures
        render_file(f).len() > 0,
        render_file(f)[0] == '{',
{
    reveal_strlit("{\"path\":");
}

/// Peeling the file list: comma-separated file objects closed by `]`.
#[verifier::rlimit(100)]
#[verifier::spinoff_prover]
proof fn lemma_file_items_peel(
    xs: Seq<ManifestFileView>,
    ys: Seq<ManifestFileView>,
    i: int,
    j: int,
    r1: Seq<char>,
    r2: Seq<char>,
)
    requires
        0 <= i <= xs.len(),
        0 <= j <= ys.len(),
        (i == 0) <==> (j == 0),
        render_file_items(xs, i) + seq![']'] + r1 == render_file_items(ys, j) + seq![']'] + r2,
    ensures
        xs.skip(i) == ys.skip(j),
        r1 == r2,
    decreases xs.len() - i,
{
    let s1 = render_file_items(xs, i) + seq![']'] + r1;
    let s2 = render_file_items(ys, j) + seq![']'] + r2;
    if i == xs.len() {
        assert(render_file_items(xs, i) =~= Seq::<char>::empty());
        assert(s1[0] == ']');
        if j < ys.len() {
            if j > 0 {
                assert(s2[0] == ',');
            } else {
                assert(s2 =~= render_file(ys[j]) + (render_file_items(ys, j + 1) + seq![']']
                    + r2));
                lemma_render_file_first(ys[j]);
                assert(s2[0] == '{');
            }
            assert(false);
        }
        assert(render_file_items(ys, j) =~= Seq::<char>::empty());
        assert(s1 =~= seq![']'] + r1);
        assert(s2 =~= seq![']'] + r2);
        lemma_lit_peel(seq![']'], r1, r2);
        assert(xs.skip(i) =~= ys.skip(j));
    } else {
        if j == ys.len() {
            assert(render_file_items(ys, j) =~= Seq::<char>::empty());
            assert(s2[0] == ']');
            if i > 0 {
                assert(s1[0] == ',');
            } else {
                assert(s1 =~= render_file(xs[i]) + (render_file_items(xs, i + 1) + seq![']']
                    + r1));
                lemma_render_file_first(xs[i]);
                assert(s1[0] == '{');
            }
            assert(false);
        }
        let t1 = render_file(xs[i]) + (render_file_items(xs, i + 1) + seq![']'] + r1);
        let t2 = render_file(ys[j]) + (render_file_items(ys, j + 1) + seq![']'] + r2);
        if i > 0 {
            assert(s1 =~= seq![','] + t1);
            assert(s2 =~= seq![','] + t2);
            lemma_lit_peel(seq![','], t1, t2);
        } else {
            assert(s1 =~= t1);
            assert(s2 =~= t2);
        }
        lemma_file_peel(
            xs[i],
            ys[j],
            render_file_items(xs, i + 1) + seq![']'] + r1,
            render_file_items(ys, j + 1) + seq![']'] + r2,
        );
        lemma_file_items_peel(xs, ys, i + 1, j + 1, r1, r2);
        assert(xs.skip(i) =~= seq![xs[i]] + xs.skip(i + 1));
        assert(ys.skip(j) =~= seq![ys[j]] + ys.skip(j + 1));
    }
}

/// Peeling the dependency block: comma-separated `"key":"value"` entries
/// closed by `}`.
#[verifier::rlimit(100)]
#[verifier::spinoff_prover]
proof fn lemma_dep_items_peel(
    xs: Seq<(Seq<char>, Seq<char>)>,
    ys: Seq<(Seq<char>, Seq<char>)>,
    i: int,
    j: int,
    r1: Seq<char>,
    r2: Seq<char>,
)
    requires
        0 <= i <= xs.len(),
        0 <= j <= ys.len(),
        (i == 0) <==> (j == 0),
        render_dep_items(xs, i) + seq!['}'] + r1 == render_dep_items(ys, j) + seq!['}'] + r2,
    ensures
        xs.skip(i) == ys.skip(j),
        r1 == r2,
    decreases xs.len() - i,
{
    let s1 = render_dep_items(xs, i) + seq!['}'] + r1;
    let s2 = render_dep_items(ys, j) + seq!['}'] + r2;
    if i == xs.len() {
        assert(render_dep_items(xs, i) =~= Seq::<char>::empty());
        assert(s1[0] == '}');
        if j < ys.len() {
            if j > 0 {
                assert(s2[0] == ',');
            } else {
                assert(s2 =~= json_str(ys[j].0) + (seq![':'] + json_str(ys[j].1)
                    + render_dep_items(ys, j + 1) + seq!['}'] + r2));
                assert(s2[0] == '"');
            }
            assert(false);
        }
        assert(render_dep_items(ys, j) =~= Seq::<char>::empty());
        assert(s1 =~= seq!['}'] + r1);
        assert(s2 =~= seq!['}'] + r2);
        lemma_lit_peel(seq!['}'], r1, r2);
        assert(xs.skip(i) =~= ys.skip(j));
    } else {
        if j == ys.len() {
            assert(render_dep_items(ys, j) =~= Seq::<char>::empty());
            assert(s2[0] == '}');
            if i > 0 {
                assert(s1[0] == ',');
            } else {
                assert(s1 =~= json_str(xs[i].0) + (seq![':'] + json_str(xs[i].1)
                    + render_dep_items(xs, i + 1) + seq!['}'] + r1));
                assert(s1[0] == '"');
            }
            assert(false);
        }
        let t1 = json_str(xs[i].0) + (seq![':'] + json_str(xs[i].1) + render_dep_items(xs, i + 1)
            + seq!['}'] + r1);
        let t2 = json_str(ys[j].0) + (seq![':'] + json_str(ys[j].1) + render_dep_items(ys, j + 1)
            + seq!['}'] + r2);
        if i > 0 {
            assert(s1 =~= seq![','] + t1);
            assert(s2 =~= seq![','] + t2);
            lemma_lit_peel(seq![','], t1, t2);
        } else {
            assert(s1 =~= t1);
            assert(s2 =~= t2);
        }
        lemma_jstr_peel(
            xs[i].0,
            ys[j].0,
            seq![':'] + json_str(xs[i].1) + render_dep_items(xs, i + 1) + seq!['}'] + r1,
            seq![':'] + json_str(ys[j].1) + render_dep_items(ys, j + 1) + seq!['}'] + r2,
        );
        let u1 = json_str(xs[i].1) + (render_dep_items(xs, i + 1) + seq!['}'] + r1);
        let u2 = json_str(ys[j].1) + (render_dep_items(ys, j + 1) + seq!['}'] + r2);
        assert(seq![':'] + json_str(xs[i].1) + render_dep_items(xs, i + 1) + seq!['}'] + r1 =~= seq![
            ':',
        ] + u1);
        assert(seq![':'] + json_str(ys[j].1) + render_dep_items(ys, j + 1) + seq!['}'] + r2 =~= seq![
            ':',
        ] + u2);
        lemma_lit_peel(seq![':'], u1, u2);
        lemma_jstr_peel(
            xs[i].1,
            ys[j].1,
            render_dep_items(xs, i + 1) + seq!['}'] + r1,
            render_dep_items(ys, j + 1) + seq!['}'] + r2,
        );
        lemma_dep_items_peel(xs, ys, i + 1, j + 1, r1, r2);
        assert(xs[i] == ys[j]);
        assert(xs.skip(i) =~= seq![xs[i]] + xs.skip(i + 1));
        assert(ys.skip(j) =~= seq![ys[j]] + ys.skip(j + 1));
    }
}

/// The rendered text from the file list to the end of the document.
pub open spec fn tail_text(fs: Seq<ManifestFileView>, ds: Seq<(Seq<char>, Seq<char>)>) -> Seq<
    char,
> {
    render_file_items(fs, 0) + ("],\"dependencies\":{"@ + (render_dep_items(ds, 0) + "}}"@))
}

/// The rendered text from the summary on.
pub open spec fn summary_text(m: ManifestView) -> Seq<char> {
    render_opt_str(m.summary) + (",\"files\":["@ + tail_text(m.files, sort_deps(m.dependencies)))
}

/// The rendered text from the name on.
pub open spec fn name_text(m: ManifestView) -> Seq<char> {
    json_str(m.name) + (",\"summary\":"@ + summary_text(m))
}

/// The rendered text from the version identifier on.
pub open spec fn mid_text(m: ManifestView) -> Seq<char> {
    json_str(m.version_id) + (",\"name\":"@ + name_text(m))
}

/// Peeling the tail of the document: the file list and the dependency block.
#[verifier::rlimit(100)]
#[verifier::spinoff_prover]
proof fn lemma_files_deps_peel(
    fs1: Seq<ManifestFileView>,
    fs2: Seq<ManifestFileView>,
    ds1: Seq<(Seq<char>, Seq<char>)>,
    ds2: Seq<(Seq<char>, Seq<char>)>,
)
    requires
        tail_text(fs1, ds1) == tail_text(fs2, ds2),
    ensures
        fs1 == fs2,
        ds1 == ds2,
{
    reveal_strlit("],\"dependencies\":{");
    reveal_strlit(",\"dependencies\":{");
    reveal_strlit("}}");
    let l6 = "],\"dependencies\":{"@;
    let l6tail = ",\"dependencies\":{"@;
    let l7 = "}}"@;
    let s7_1 = render_dep_items(ds1, 0) + l7;
    let s7_2 = render_dep_items(ds2, 0) + l7;
    assert(l6 =~= seq![']'] + l6tail);
    assert(tail_text(fs1, ds1) =~= render_file_items(fs1, 0) + seq![']'] + (l6tail + s7_1));
    assert(tail_text(fs2, ds2) =~= render_file_items(fs2, 0) + seq![']'] + (l6tail + s7_2));
    lemma_file_items_peel(fs1, fs2, 0, 0, l6tail + s7_1, l6tail + s7_2);
    assert(fs1.skip(0) =~= fs1);
    assert(fs2.skip(0) =~= fs2);
    lemma_lit_peel(l6tail, s7_1, s7_2);
    assert(l7 =~= seq!['}'] + seq!['}']);
    assert(s7_1 =~= render_dep_items(ds1, 0) + seq!['}'] + seq!['}']);
    assert(s7_2 =~= render_dep_items(ds2, 0) + seq!['}'] + seq!['}']);
    lemma_dep_items_peel(ds1, ds2, 0, 0, seq!['}'], seq!['}']);
    assert(ds1.skip(0) =~= ds1);
    assert(ds2.skip(0) =~= ds2);
}

/// Peeling the document from the version identifier on.
#[verifier::rlimit(100)]
#[verifier::spinoff_prover]
proof fn lemma_mid_peel(m1: ManifestView, m2: ManifestView)
    requires
        mid_text(m1) == mid_text(m2),
    ensures
        m1.version_id == m2.version_id,
        m1.name == m2.name,
        m1.summary == m2.summary,
        m1.files == m2.files,
        sort_deps(m1.dependencies) == sort_deps(m2.dependencies),
{
    reveal_strlit("null");
    let l3 = ",\"name\":"@;
    let l4 = ",\"summary\":"@;
    let l5 = ",\"files\":["@;
    let s5f_1 = tail_text(m1.files, sort_deps(m1.dependencies));
    let s5f_2 = tail_text(m2.files, sort_deps(m2.dependencies));
    let s5_1 = l5 + s5f_1;
    let s5_2 = l5 + s5f_2;
    let s4s_1 = summary_text(m1);
    let s4s_2 = summary_text(m2);
    let s4_1 = l4 + s4s_1;
    let s4_2 = l4 + s4s_2;
    let s3n_1 = name_text(m1);
    let s3n_2 = name_text(m2);
    let s3_1 = l3 + s3n_1;
    let s3_2 = l3 + s3n_2;
    lemma_jstr_peel(m1.version_id, m2.version_id, s3_1, s3_2);
    lemma_lit_peel(l3, s3n_1, s3n_2);
    lemma_jstr_peel(m1.name, m2.name, s4_1, s4_2);
    lemma_lit_peel(l4, s4s_1, s4s_2);
    match (m1.summary, m2.summary) {
        (Option::None, Option::None) => {
            lemma_lit_peel("null"@, s5_1, s5_2);
        },
        (Option::None, Option::Some(x2)) => {
            assert(s4s_1[0] == 'n');
            assert(s4s_2[0] == '"');
            assert(false);
        },
        (Option::Some(x1), Option::None) => {
            assert(s4s_1[0] == '"');
            assert(s4s_2[0] == 'n');
            assert(false);
        },
        (Option::Some(x1), Option::Some(x2)) => {
            lemma_jstr_peel(x1, x2, s5_1, s5_2);
        },
    }
    lemma_lit_peel(l5, s5f_1, s5f_2);
    lemma_files_deps_peel(
        m1.files,
        m2.files,
        sort_deps(m1.dependencies),
        sort_deps(m2.dependencies),
    );
}

/// The whole rendered document, re-associated head first.
#[verifier::rlimit(100)]
proof fn lemma_render_decompose(m: ManifestView)
    ensures
        spec_render_manifest(m) == "{\"formatVersion\":"@ + (dec_str(m.format_version as int) + (
        ",\"game\":"@ + (json_str(m.game) + (",\"versionId\":"@ + mid_text(m))))),
{
    assert(spec_render_manifest(m) =~= "{\"formatVersion\":"@ + (dec_str(
        m.format_version as int,
    ) + (",\"game\":"@ + (json_str(m.game) + (",\"versionId\":"@ + mid_text(m))))));
}

/// Round trip of the manifest render path: rendering loses nothing. Two
/// manifests whose rendered documents are equal agree on every field --
/// exactly and in order for the sequence fields (`files`, each file's
/// `downloads`), and up to order for the `dependencies` mapping, whose
/// sorted forms are equal. A parser of the rendered document can therefore
/// reproduce the value it came from.
#[verifier::rlimit(100)]
#[verifier::spinoff_prover]
pub proof fn lemma_manifest_render_round_trip(m1: ManifestView, m2: ManifestView)
    requires
        spec_render_manifest(m1) == spec_render_manifest(m2),
    ensures
        m1.format_version == m2.format_version,
        m1.game == m2.game,
        m1.version_id == m2.version_id,
        m1.name == m2.name,
        m1.summary == m2.summary,
        m1.files == m2.files,
        sort_deps(m1.dependencies) == sort_deps(m2.dependencies),
{
    reveal_strlit(",\"game\":");
    let l0 = "{\"formatVersion\":"@;
    let l1 = ",\"game\":"@;
    let l2 = ",\"versionId\":"@;
    let s2v_1 = mid_text(m1);
    let s2v_2 = mid_text(m2);
    let s2_1 = l2 + s2v_1;
    let s2_2 = l2 + s2v_2;
    let s1g_1 = json_str(m1.game) + s2_1;
    let s1g_2 = json_str(m2.game) + s2_2;
    let s1_1 = l1 + s1g_1;
    let s1_2 = l1 + s1g_2;
    let s0_1 = dec_str(m1.format_version as int) + s1_1;
    let s0_2 = dec_str(m2.format_version as int) + s1_2;
    lemma_render_decompose(m1);
    lemma_render_decompose(m2);
    lemma_lit_peel(l0, s0_1, s0_2);
    assert(s1_1[0] == ',' && !is_digit_char(s1_1[0]));
    assert(s1_2[0] == ',' && !is_digit_char(s1_2[0]));
    lemma_dec_peel(m1.format_version as int, m2.format_version as int, s1_1, s1_2);
    lemma_lit_peel(l1, s1g_1, s1g_2);
    lemma_jstr_peel(m1.game, m2.game, s2_1, s2_2);
    lemma_lit_peel(l2, s2v_1, s2v_2);
    lemma_mid_peel(m1, m2);
}

} // verus!
