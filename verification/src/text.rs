//! Character-level scanning utilities shared by the pack parser and the
//! manifest renderer, each proved equal to a spec-level definition.
use vstd::prelude::*;
use vstd::string::*;

verus! {

/// Whitespace within a line of a pack document.
pub open spec fn is_ws(c: char) -> bool {
    c == ' ' || c == '\t' || c == '\r'
}

/// A character allowed in a bare key or a bare table-path segment.
pub open spec fn is_bare(c: char) -> bool {
    ('a' <= c && c <= 'z') || ('A' <= c && c <= 'Z') || ('0' <= c && c <= '9') || c == '-' || c
        == '_'
}

/// First position at or after `i` that is the end of `l` or holds a
/// non-whitespace character.
pub open spec fn skip_ws(l: Seq<char>, i: int) -> int
    decreases l.len() - i,
    when 0 <= i <= l.len()
{
    if i == l.len() {
        i
    } else if is_ws(l[i]) {
        skip_ws(l, i + 1)
    } else {
        i
    }
}

pub broadcast proof fn lemma_skip_ws_bounds(l: Seq<char>, i: int)
    requires
        0 <= i <= l.len(),
    ensures
        i <= #[trigger] skip_ws(l, i) <= l.len(),
    decreases l.len() - i,
{
    if i < l.len() && is_ws(l[i]) {
        lemma_skip_ws_bounds(l, i + 1);
    }
}

/// First position at or after `i` that is the end of `l` or holds a character
/// that cannot stand in a bare key.
pub open spec fn bare_end(l: Seq<char>, i: int) -> int
    decreases l.len() - i,
    when 0 <= i <= l.len()
{
    if i == l.len() {
        i
    } else if is_bare(l[i]) {
        bare_end(l, i + 1)
    } else {
        i
    }
}

pub broadcast proof fn lemma_bare_end_bounds(l: Seq<char>, i: int)
    requires
        0 <= i <= l.len(),
    ensures
        i <= #[trigger] bare_end(l, i) <= l.len(),
    decreases l.len() - i,
{
    if i < l.len() && is_bare(l[i]) {
        lemma_bare_end_bounds(l, i + 1);
    }
}

/// First position at or after `i` that is the end of `l` or holds a double
/// quote.
pub open spec fn quote_end(l: Seq<char>, i: int) -> int
    decreases l.len() - i,
    when 0 <= i <= l.len()
{
    if i == l.len() {
        i
    } else if l[i] == '"' {
        i
    } else {
        quote_end(l, i + 1)
    }
}

pub broadcast proof fn lemma_quote_end_bounds(l: Seq<char>, i: int)
    requires
        0 <= i <= l.len(),
    ensures
        i <= #[trigger] quote_end(l, i) <= l.len(),
    decreases l.len() - i,
{
    if i < l.len() && l[i] != '"' {
        lemma_quote_end_bounds(l, i + 1);
    }
}

/// Lexicographic order on character sequences by code point.
pub open spec fn lex_lt(a: Seq<char>, b: Seq<char>) -> bool
    decreases a.len(),
{
    if b.len() == 0 {
        false
    } else if a.len() == 0 {
        true
    } else if a[0] < b[0] {
        true
    } else if a[0] == b[0] {
        lex_lt(a.drop_first(), b.drop_first())
    } else {
        false
    }
}

pub proof fn lemma_lex_lt_irrefl(a: Seq<char>)
    ensures
        !lex_lt(a, a),
    decreases a.len(),
{
    if a.len() > 0 {
        lemma_lex_lt_irrefl(a.drop_first());
    }
}

pub proof fn lemma_lex_lt_total(a: Seq<char>, b: Seq<char>)
    ensures
        lex_lt(a, b) || lex_lt(b, a) || a == b,
    decreases a.len(),
{
    if a.len() == 0 && b.len() == 0 {
        assert(a =~= b);
    } else if a.len() > 0 && b.len() > 0 {
        if a[0] == b[0] {
            lemma_lex_lt_total(a.drop_first(), b.drop_first());
            if a.drop_first() == b.drop_first() {
                assert forall|i: int| 0 <= i < a.len() implies a[i] == b[i] by {
                    if i > 0 {
                        assert(a[i] == a.drop_first()[i - 1]);
                        assert(b[i] == b.drop_first()[i - 1]);
                    }
                }
                assert(a =~= b);
            }
        }
    }
}

pub proof fn lemma_lex_lt_trans(a: Seq<char>, b: Seq<char>, c: Seq<char>)
    requires
        lex_lt(a, b),
        lex_lt(b, c),
    ensures
        lex_lt(a, c),
    decreases a.len() + b.len() + c.len(),
{
    if a.len() > 0 && b.len() > 0 && c.len() > 0 {
        if a[0] == b[0] && b[0] == c[0] {
            lemma_lex_lt_trans(a.drop_first(), b.drop_first(), c.drop_first());
        }
    }
}

/// Appending a single character to a `String`; `alloc` documents that `push`
/// appends the given char to the end of the string.
pub assume_specification[ String::push ](s: &mut String, c: char)
    ensures
        final(s)@ == old(s)@.push(c),
;

pub fn skip_ws_x(l: &str, from: usize, n: usize) -> (r: usize)
    requires
        n == l@.len(),
        from <= n,
    ensures
        r == skip_ws(l@, from as int),
{
    proof {
        lemma_skip_ws_bounds(l@, from as int);
    }
    let mut i = from;
    loop
        invariant
            from <= i <= n,
            n == l@.len(),
            skip_ws(l@, from as int) == skip_ws(l@, i as int),
        decreases n - i,
    {
        if i == n {
            return i;
        }
        let c = l.get_char(i);
        if c == ' ' || c == '\t' || c == '\r' {
            i = i + 1;
        } else {
            return i;
        }
    }
}

pub fn bare_end_x(l: &str, from: usize, n: usize) -> (r: usize)
    requires
        n == l@.len(),
        from <= n,
    ensures
        r == bare_end(l@, from as int),
{
    let mut i = from;
    loop
        invariant
            from <= i <= n,
            n == l@.len(),
            bare_end(l@, from as int) == bare_end(l@, i as int),
        decreases n - i,
    {
        if i == n {
            return i;
        }
        let c = l.get_char(i);
        if ('a' <= c && c <= 'z') || ('A' <= c && c <= 'Z') || ('0' <= c && c <= '9') || c == '-'
            || c == '_' {
            i = i + 1;
        } else {
            return i;
        }
    }
}

pub fn quote_end_x(l: &str, from: usize, n: usize) -> (r: usize)
    requires
        n == l@.len(),
        from <= n,
    ensures
        r == quote_end(l@, from as int),
{
    let mut i = from;
    loop
        invariant
            from <= i <= n,
            n == l@.len(),
            quote_end(l@, from as int) == quote_end(l@, i as int),
        decreases n - i,
    {
        if i == n {
            return i;
        }
        if l.get_char(i) == '"' {
            return i;
        }
        i = i + 1;
    }
}

/// The substring of `l` from `from` (inclusive) to `to` (exclusive), in
/// character positions, as an owned `String`.
pub fn sub_string(l: &str, from: usize, to: usize) -> (r: String)
    requires
        from <= to <= l@.len(),
    ensures
        r@ == l@.subrange(from as int, to as int),
{
    let s = l.substring_char(from, to);
    String::from_str(s)
}

/// Character-for-character equality of two string slices.
pub fn str_eq_x(a: &str, b: &str) -> (r: bool)
    ensures
        r == (a@ == b@),
{
    let na = a.unicode_len();
    let nb = b.unicode_len();
    if na != nb {
        return false;
    }
    let mut i: usize = 0;
    while i < na
        invariant
            na == a@.len(),
            nb == b@.len(),
            na == nb,
            i <= na,
            forall|j: int| 0 <= j < i ==> a@[j] == b@[j],
        decreases na - i,
    {
        if a.get_char(i) != b.get_char(i) {
            return false;
        }
        i = i + 1;
    }
    proof {
        assert(a@ =~= b@);
    }
    true
}

/// Lexicographic comparison of two string slices by code point.
pub fn str_lt_x(a: &str, b: &str) -> (r: bool)
    ensures
        r == lex_lt(a@, b@),
{
    let na = a.unicode_len();
    let nb = b.unicode_len();
    proof {
        assert(a@.skip(0) =~= a@);
        assert(b@.skip(0) =~= b@);
    }
    let mut i: usize = 0;
    loop
        invariant
            i <= na,
            i <= nb,
            na == a@.len(),
            nb == b@.len(),
            lex_lt(a@, b@) == lex_lt(a@.skip(i as int), b@.skip(i as int)),
        decreases na - i,
    {
        if i == nb {
            return false;
        }
        if i == na {
            return true;
        }
        let ca = a.get_char(i);
        let cb = b.get_char(i);
        if ca < cb {
            return true;
        }
        if ca != cb {
            return false;
        }
        proof {
            assert(a@.skip(i as int).drop_first() =~= a@.skip(i as int + 1));
            assert(b@.skip(i as int).drop_first() =~= b@.skip(i as int + 1));
        }
        i = i + 1;
    }
}

} // verus!
