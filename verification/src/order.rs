//! Lexicographic order on character sequences, the order `String` has in Rust
//! (UTF-8 byte order and code point order agree).
use vstd::prelude::*;

verus! {

/// Compares two character sequences lexicographically: negative, zero or
/// positive as `a` sorts before, equal to, or after `b`.
pub open spec fn lex_order(a: Seq<char>, b: Seq<char>) -> int
    decreases a.len(),
{
    if a.len() == 0 && b.len() == 0 {
        0
    } else if a.len() == 0 {
        -1
    } else if b.len() == 0 {
        1
    } else if a[0] < b[0] {
        -1
    } else if a[0] > b[0] {
        1
    } else {
        lex_order(a.skip(1), b.skip(1))
    }
}

/// Compares optional sequences, with `None` before every `Some`.
pub open spec fn opt_lex_order(a: Option<Seq<char>>, b: Option<Seq<char>>) -> int {
    match (a, b) {
        (None, None) => 0,
        (None, Some(_)) => -1,
        (Some(_), None) => 1,
        (Some(x), Some(y)) => lex_order(x, y),
    }
}

/// `lex_order` is -1, 0 or 1, zero exactly on equal sequences, and flips sign
/// when its arguments are swapped.
pub proof fn lemma_lex_order_basic(a: Seq<char>, b: Seq<char>)
    ensures
        lex_order(a, b) == 0 || lex_order(a, b) == 1 || lex_order(a, b) == -1,
        lex_order(a, b) == 0 <==> a == b,
        lex_order(a, b) == -lex_order(b, a),
    decreases a.len(),
{
    if a.len() > 0 && b.len() > 0 && a[0] == b[0] {
        lemma_lex_order_basic(a.skip(1), b.skip(1));
        assert(a =~= seq![a[0]] + a.skip(1));
        assert(b =~= seq![b[0]] + b.skip(1));
        if a == b {
            assert(a.skip(1) =~= b.skip(1));
        }
    } else if a.len() > 0 && b.len() > 0 {
        assert(a[0] != b[0]);
        assert(a != b);
    } else if a.len() == 0 && b.len() == 0 {
        assert(a =~= b);
    }
}

/// `lex_order` orders transitively.
pub proof fn lemma_lex_order_transitive(a: Seq<char>, b: Seq<char>, c: Seq<char>)
    requires
        lex_order(a, b) < 0,
        lex_order(b, c) < 0,
    ensures
        lex_order(a, c) < 0,
    decreases a.len(),
{
    if a.len() > 0 && b.len() > 0 && c.len() > 0 && a[0] == b[0] && b[0] == c[0] {
        lemma_lex_order_transitive(a.skip(1), b.skip(1), c.skip(1));
    }
}

/// `opt_lex_order` is -1, 0 or 1, zero exactly on equal values, and flips sign
/// when its arguments are swapped.
pub proof fn lemma_opt_lex_order_basic(a: Option<Seq<char>>, b: Option<Seq<char>>)
    ensures
        opt_lex_order(a, b) == 0 || opt_lex_order(a, b) == 1 || opt_lex_order(a, b) == -1,
        opt_lex_order(a, b) == 0 <==> a == b,
        opt_lex_order(a, b) == -opt_lex_order(b, a),
{
    match (a, b) {
        (Some(x), Some(y)) => lemma_lex_order_basic(x, y),
        _ => {},
    }
}

/// `opt_lex_order` orders transitively.
pub proof fn lemma_opt_lex_order_transitive(
    a: Option<Seq<char>>,
    b: Option<Seq<char>>,
    c: Option<Seq<char>>,
)
    requires
        opt_lex_order(a, b) < 0,
        opt_lex_order(b, c) < 0,
    ensures
        opt_lex_order(a, c) < 0,
{
    match (a, b, c) {
        (Some(x), Some(y), Some(z)) => lemma_lex_order_transitive(x, y, z),
        _ => {},
    }
}

/// Compares two strings lexicographically (`String::cmp`), as -1, 0 or 1.
pub fn compare_str(a: &str, b: &str) -> (res: i8)
    ensures
        res as int == lex_order(a@, b@),
{
    let x = crate::text::chars_of(a);
    let y = crate::text::chars_of(b);
    let mut i: usize = 0;
    assert(a@.skip(0) =~= a@);
    assert(b@.skip(0) =~= b@);
    while i < x.len() && i < y.len()
        invariant
            x@ == a@,
            y@ == b@,
            i <= x@.len(),
            i <= y@.len(),
            lex_order(a@, b@) == lex_order(a@.skip(i as int), b@.skip(i as int)),
        decreases x@.len() - i,
    {
        let ghost sa = a@.skip(i as int);
        let ghost sb = b@.skip(i as int);
        assert(sa[0] == x@[i as int]);
        assert(sb[0] == y@[i as int]);
        if x[i] < y[i] {
            return -1;
        }
        if x[i] > y[i] {
            return 1;
        }
        assert(sa.skip(1) =~= a@.skip(i + 1));
        assert(sb.skip(1) =~= b@.skip(i + 1));
        i = i + 1;
    }
    if x.len() == y.len() {
        0
    } else if i == x.len() {
        -1
    } else {
        1
    }
}

/// Compares two optional strings, with `None` first, as -1, 0 or 1.
pub fn compare_opt_str(a: &Option<String>, b: &Option<String>) -> (res: i8)
    ensures
        res as int == opt_lex_order(
            match a {
                Some(s) => Some(s@),
                None => None,
            },
            match b {
                Some(s) => Some(s@),
                None => None,
            },
        ),
{
    match (a, b) {
        (None, None) => 0,
        (None, Some(_)) => -1,
        (Some(_), None) => 1,
        (Some(x), Some(y)) => compare_str(x.as_str(), y.as_str()),
    }
}

} // verus!
