//! Character-level text operations used throughout the library: prefixes,
//! search, replacement, splitting, joining and path composition, each with
//! a mathematical definition over `Seq<char>`.
use vstd::prelude::*;

verus! {

// ---------------------------------------------------------------------------
// Definitions
// ---------------------------------------------------------------------------

/// `p` is a prefix of `s`.
pub open spec fn is_prefix_of(p: Seq<char>, s: Seq<char>) -> bool {
    p.len() <= s.len() && s.take(p.len() as int) =~= p
}

/// `p` is a suffix of `s`.
pub open spec fn is_suffix_of(p: Seq<char>, s: Seq<char>) -> bool {
    p.len() <= s.len() && s.skip(s.len() - p.len()) =~= p
}

/// `p` occurs in `s` starting at index `i`.
pub open spec fn occurs_at(s: Seq<char>, p: Seq<char>, i: int) -> bool {
    0 <= i && i + p.len() <= s.len() && s.subrange(i, i + p.len()) =~= p
}

/// `p` occurs somewhere in `s`.
pub open spec fn contains_seq(s: Seq<char>, p: Seq<char>) -> bool {
    exists|i: int| occurs_at(s, p, i)
}

/// The index of the first occurrence of `c` in `s`, if any.
pub open spec fn first_index_of(s: Seq<char>, c: char) -> Option<int>
    decreases s.len(),
{
    if s.len() == 0 {
        None
    } else if s[0] == c {
        Some(0)
    } else {
        match first_index_of(s.skip(1), c) {
            Some(i) => Some(i + 1),
            None => None,
        }
    }
}

/// The start of the last occurrence of the non-empty pattern `p` in `s`, if any.
pub open spec fn last_occurrence(s: Seq<char>, p: Seq<char>) -> Option<int>
    decreases s.len(),
{
    if p.len() == 0 || s.len() < p.len() {
        None
    } else if is_suffix_of(p, s) {
        Some(s.len() - p.len())
    } else {
        last_occurrence(s.drop_last(), p)
    }
}

/// Replaces every non-overlapping occurrence of `from`, scanning from the
/// left, by `to` (what `str::replace` computes for a non-empty pattern).
pub open spec fn replace_spec(s: Seq<char>, from: Seq<char>, to: Seq<char>) -> Seq<char>
    decreases s.len(),
{
    if s.len() == 0 {
        Seq::empty()
    } else if from.len() > 0 && is_prefix_of(from, s) {
        to + replace_spec(s.skip(from.len() as int), from, to)
    } else {
        seq![s[0]] + replace_spec(s.skip(1), from, to)
    }
}

/// Splits `s` at every non-overlapping occurrence of the non-empty separator
/// `sep`, scanning from the left; `cur` is the piece collected so far.
pub open spec fn split_acc(s: Seq<char>, sep: Seq<char>, cur: Seq<char>) -> Seq<Seq<char>>
    decreases s.len(),
{
    if s.len() == 0 {
        seq![cur]
    } else if sep.len() > 0 && is_prefix_of(sep, s) {
        seq![cur] + split_acc(s.skip(sep.len() as int), sep, Seq::empty())
    } else {
        split_acc(s.skip(1), sep, cur.push(s[0]))
    }
}

/// The pieces of `s` between occurrences of `sep` (what `str::split` yields).
pub open spec fn split_spec(s: Seq<char>, sep: Seq<char>) -> Seq<Seq<char>> {
    split_acc(s, sep, Seq::empty())
}

/// The pieces joined with `sep` between consecutive pieces.
pub open spec fn join_spec(parts: Seq<Seq<char>>, sep: Seq<char>) -> Seq<char>
    decreases parts.len(),
{
    if parts.len() == 0 {
        Seq::empty()
    } else if parts.len() == 1 {
        parts[0]
    } else {
        join_spec(parts.drop_last(), sep) + sep + parts.last()
    }
}

/// Joins a path segment to a base path the way `Path::join` does on Unix:
/// an absolute segment replaces the base, an empty base yields the segment,
/// and otherwise one `/` separates them unless the base already ends in `/`.
pub open spec fn path_join_spec(base: Seq<char>, seg: Seq<char>) -> Seq<char> {
    if seg.len() > 0 && seg[0] == '/' {
        seg
    } else if base.len() == 0 {
        seg
    } else if base.last() == '/' {
        base + seg
    } else {
        base + seq!['/'] + seg
    }
}

/// Everything after the first `c`, or the whole text when `c` does not occur.
pub open spec fn substr_after_spec(s: Seq<char>, c: char) -> Seq<char> {
    match first_index_of(s, c) {
        Some(i) => s.skip(i + 1),
        None => s,
    }
}

/// Drops a leading `open` and a trailing `close`, each where present.
pub open spec fn remove_surrounding_spec(s: Seq<char>, open: char, close: char) -> Seq<char> {
    let t = if s.len() > 0 && s[0] == open { s.skip(1) } else { s };
    if t.len() > 0 && t.last() == close { t.drop_last() } else { t }
}

/// Drops the last occurrence of `p` and everything after it; the text is
/// unchanged when `p` does not occur.
pub open spec fn replace_after_last_spec(s: Seq<char>, p: Seq<char>) -> Seq<char> {
    match last_occurrence(s, p) {
        Some(i) => s.take(i),
        None => s,
    }
}

/// The index of the last `c` in `s`, if any.
pub open spec fn last_index_of(s: Seq<char>, c: char) -> Option<int>
    decreases s.len(),
{
    if s.len() == 0 {
        None
    } else if s.last() == c {
        Some(s.len() - 1)
    } else {
        last_index_of(s.drop_last(), c)
    }
}

/// The text before and the text after the last `c` (`str::rsplit_once`);
/// `None` when `c` does not occur.
pub open spec fn rsplit_once_spec(s: Seq<char>, c: char) -> Option<(Seq<char>, Seq<char>)> {
    match last_index_of(s, c) {
        Some(i) => Some((s.take(i), s.skip(i + 1))),
        None => None,
    }
}

/// `n` spaces.
pub open spec fn spaces_spec(n: nat) -> Seq<char> {
    Seq::new(n, |i: int| ' ')
}

/// The text padded with spaces on the right to at least `width` characters
/// (what the format width `{:<width}` produces).
pub open spec fn pad_right_spec(s: Seq<char>, width: nat) -> Seq<char> {
    if s.len() < width {
        s + spaces_spec((width - s.len()) as nat)
    } else {
        s
    }
}

/// The views of a sequence of strings.
pub open spec fn views(v: Seq<String>) -> Seq<Seq<char>> {
    v.map_values(|s: String| s@)
}

// ---------------------------------------------------------------------------
// Lemmas
// ---------------------------------------------------------------------------

/// Joining one more part adds the separator and the part (nothing before
/// the first part).
pub proof fn lemma_join_empty_push(parts: Seq<Seq<char>>, x: Seq<char>)
    ensures
        join_spec(parts.push(x), Seq::empty()) == join_spec(parts, Seq::empty()) + x,
{
    assert(parts.push(x).drop_last() =~= parts);
    if parts.len() == 0 {
        assert(parts.push(x)[0] == x);
        assert(join_spec(parts, Seq::empty()) + x =~= x);
    } else {
        assert(join_spec(parts, Seq::empty()) + Seq::<char>::empty() + x =~= join_spec(parts, Seq::empty()) + x);
    }
}

/// Characterisation of `first_index_of`.
pub proof fn lemma_first_index_of(s: Seq<char>, c: char)
    ensures
        match first_index_of(s, c) {
            Some(i) => 0 <= i < s.len() && s[i] == c && forall|k: int| 0 <= k < i ==> s[k] != c,
            None => forall|k: int| 0 <= k < s.len() ==> s[k] != c,
        },
    decreases s.len(),
{
    if s.len() > 0 && s[0] != c {
        lemma_first_index_of(s.skip(1), c);
        match first_index_of(s.skip(1), c) {
            Some(i) => {
                assert forall|k: int| 0 <= k < i + 1 implies s[k] != c by {
                    if k > 0 {
                        assert(s[k] == s.skip(1)[k - 1]);
                    }
                }
            },
            None => {
                assert forall|k: int| 0 <= k < s.len() implies s[k] != c by {
                    if k > 0 {
                        assert(s[k] == s.skip(1)[k - 1]);
                    }
                }
            },
        }
    }
}

/// Characterisation of `last_occurrence`.
pub proof fn lemma_last_occurrence(s: Seq<char>, p: Seq<char>)
    ensures
        match last_occurrence(s, p) {
            Some(i) => occurs_at(s, p, i) && forall|k: int| i < k ==> !occurs_at(s, p, k),
            None => p.len() == 0 || forall|k: int| !occurs_at(s, p, k),
        },
    decreases s.len(),
{
    if p.len() == 0 || s.len() < p.len() {
    } else if is_suffix_of(p, s) {
        assert(s.subrange(s.len() - p.len(), s.len() as int) =~= s.skip(s.len() - p.len()));
    } else {
        lemma_last_occurrence(s.drop_last(), p);
        let t = s.drop_last();
        assert forall|k: int| occurs_at(s, p, k) && k + p.len() < s.len() implies occurs_at(t, p, k) by {
            assert(t.subrange(k, k + p.len()) =~= s.subrange(k, k + p.len()));
        }
        assert forall|k: int| occurs_at(t, p, k) implies occurs_at(s, p, k) by {
            assert(t.subrange(k, k + p.len()) =~= s.subrange(k, k + p.len()));
        }
        assert forall|k: int| occurs_at(s, p, k) implies k + p.len() < s.len() by {
            if k + p.len() == s.len() {
                assert(s.subrange(k, k + p.len()) =~= s.skip(s.len() - p.len()));
            }
        }
    }
}

// ---------------------------------------------------------------------------
// Executable operations
// ---------------------------------------------------------------------------

/// Appends one character to a string (`String::push`).
#[verifier::external_body]
pub(crate) fn push_char(s: &mut String, c: char)
    ensures
        final(s)@ == old(s)@.push(c),
{
    s.push(c);
}

/// An owned copy of a string slice.
pub fn owned(s: &str) -> (res: String)
    ensures
        res@ == s@,
{
    s.to_owned()
}

/// The characters of a string slice, in order.
pub fn chars_of(s: &str) -> (res: Vec<char>)
    ensures
        res@ == s@,
{
    let mut res: Vec<char> = Vec::new();
    for c in it: s.chars()
        invariant
            res@ == it.seq().take(it.index() as int),
            it.seq() == s@,
    {
        res.push(c);
    }
    assert(res@ == s@);
    res
}

/// A string made of the characters `v[lo..hi]`.
pub fn string_of_range(v: &[char], lo: usize, hi: usize) -> (res: String)
    requires
        lo <= hi <= v@.len(),
    ensures
        res@ == v@.subrange(lo as int, hi as int),
{
    let mut res = String::new();
    let mut i: usize = lo;
    while i < hi
        invariant
            lo <= i <= hi <= v@.len(),
            res@ == v@.subrange(lo as int, i as int),
        decreases hi - i,
    {
        push_char(&mut res, v[i]);
        i = i + 1;
        assert(res@ =~= v@.subrange(lo as int, i as int));
    }
    res
}

/// A string made of the given characters.
pub fn string_of(v: &[char]) -> (res: String)
    ensures
        res@ == v@,
{
    let res = string_of_range(v, 0, v.len());
    assert(v@.subrange(0, v@.len() as int) =~= v@);
    res
}

/// The concatenation of two strings.
pub fn concat(a: &str, b: &str) -> (res: String)
    ensures
        res@ == a@ + b@,
{
    let mut res = owned(a);
    res.append(b);
    res
}

/// `n` spaces.
pub fn spaces(n: usize) -> (res: String)
    ensures
        res@ == spaces_spec(n as nat),
{
    let mut res = String::new();
    let mut i: usize = 0;
    while i < n
        invariant
            i <= n,
            res@ == spaces_spec(i as nat),
        decreases n - i,
    {
        push_char(&mut res, ' ');
        i = i + 1;
        assert(res@ =~= spaces_spec(i as nat));
    }
    res
}

/// The text padded with spaces on the right to at least `width` characters.
pub fn pad_right(s: &str, width: usize) -> (res: String)
    ensures
        res@ == pad_right_spec(s@, width as nat),
{
    let v = chars_of(s);
    if v.len() < width {
        let pad = spaces(width - v.len());
        concat(s, pad.as_str())
    } else {
        owned(s)
    }
}

/// Whether `p` occurs in `s` at index `i`.
pub fn matches_at(s: &Vec<char>, p: &Vec<char>, i: usize) -> (res: bool)
    ensures
        res == occurs_at(s@, p@, i as int),
{
    if i > s.len() || p.len() > s.len() - i {
        return false;
    }
    let mut k: usize = 0;
    while k < p.len()
        invariant
            i + p@.len() <= s@.len(),
            i + p.len() <= s.len(),
            k <= p@.len(),
            forall|j: int| 0 <= j < k ==> s@[i + j] == p@[j],
        decreases p@.len() - k,
    {
        if s[i + k] != p[k] {
            assert(s@.subrange(i as int, i + p@.len())[k as int] != p@[k as int]);
            return false;
        }
        k = k + 1;
    }
    assert(s@.subrange(i as int, i + p@.len()) =~= p@);
    true
}

/// Whether two strings have the same characters.
pub fn str_eq(a: &str, b: &str) -> (res: bool)
    ensures
        res == (a@ == b@),
{
    let x = owned(a);
    let y = owned(b);
    x == y
}

/// Whether `p` is a prefix of `s` (`str::starts_with`).
pub fn starts_with(s: &str, p: &str) -> (res: bool)
    ensures
        res == is_prefix_of(p@, s@),
{
    let v = chars_of(s);
    let w = chars_of(p);
    let r = matches_at(&v, &w, 0);
    proof {
        if r {
            assert(v@.take(w@.len() as int) =~= v@.subrange(0, w@.len() as int));
        } else if w@.len() <= v@.len() {
            assert(v@.take(w@.len() as int) =~= v@.subrange(0, w@.len() as int));
        }
    }
    r
}

/// Whether `p` occurs in `s` (`str::contains`).
pub fn contains(s: &str, p: &str) -> (res: bool)
    ensures
        res == contains_seq(s@, p@),
{
    let v = chars_of(s);
    let w = chars_of(p);
    if w.len() > v.len() {
        assert forall|i: int| !occurs_at(s@, p@, i) by {}
        return false;
    }
    let mut i: usize = 0;
    while i <= v.len() - w.len()
        invariant
            w@.len() <= v@.len(),
            v@ == s@,
            w@ == p@,
            i <= v@.len() - w@.len() + 1,
            forall|k: int| 0 <= k < i ==> !occurs_at(s@, p@, k),
        decreases v@.len() - w@.len() + 1 - i,
    {
        if matches_at(&v, &w, i) {
            return true;
        }
        i = i + 1;
    }
    assert forall|k: int| !occurs_at(s@, p@, k) by {
        if 0 <= k && k + p@.len() <= s@.len() {
            assert(k < i);
        }
    }
    false
}

/// Replaces every occurrence of the non-empty pattern `from` by `to`
/// (`str::replace`).
pub fn replace(s: &str, from: &str, to: &str) -> (res: String)
    requires
        from@.len() > 0,
    ensures
        res@ == replace_spec(s@, from@, to@),
{
    let v = chars_of(s);
    let f = chars_of(from);
    let mut res = String::new();
    let mut i: usize = 0;
    assert(v@.skip(0) =~= v@);
    while i < v.len()
        invariant
            v@ == s@,
            f@ == from@,
            f@.len() > 0,
            i <= v@.len(),
            res@ + replace_spec(v@.skip(i as int), f@, to@) == replace_spec(s@, from@, to@),
        decreases v@.len() - i,
    {
        let ghost rest = v@.skip(i as int);
        if matches_at(&v, &f, i) {
            assert(rest.take(f@.len() as int) =~= v@.subrange(i as int, i + f@.len()));
            assert(rest.skip(f@.len() as int) =~= v@.skip(i + f@.len()));
            res.append(to);
            i = i + f.len();
        } else {
            assert(!is_prefix_of(f@, rest)) by {
                if is_prefix_of(f@, rest) {
                    assert(rest.take(f@.len() as int) =~= v@.subrange(i as int, i + f@.len()));
                }
            }
            assert(rest.skip(1) =~= v@.skip(i + 1));
            push_char(&mut res, v[i]);
            i = i + 1;
            assert(res@ + replace_spec(v@.skip(i as int), f@, to@) =~= replace_spec(
                s@,
                from@,
                to@,
            ));
        }
    }
    assert(v@.skip(i as int) =~= Seq::<char>::empty());
    assert(res@ + Seq::<char>::empty() =~= res@);
    res
}

/// Splits `s` at every occurrence of the non-empty separator `sep`
/// (`str::split`, collected).
pub fn split(s: &str, sep: &str) -> (res: Vec<String>)
    requires
        sep@.len() > 0,
    ensures
        views(res@) == split_spec(s@, sep@),
{
    let v = chars_of(s);
    let p = chars_of(sep);
    let mut res: Vec<String> = Vec::new();
    let mut cur: Vec<char> = Vec::new();
    let mut i: usize = 0;
    assert(v@.skip(0) =~= v@);
    while i < v.len()
        invariant
            v@ == s@,
            p@ == sep@,
            p@.len() > 0,
            i <= v@.len(),
            views(res@) + split_acc(v@.skip(i as int), p@, cur@) == split_spec(s@, sep@),
        decreases v@.len() - i,
    {
        let ghost rest = v@.skip(i as int);
        if matches_at(&v, &p, i) {
            assert(rest.take(p@.len() as int) =~= v@.subrange(i as int, i + p@.len()));
            assert(rest.skip(p@.len() as int) =~= v@.skip(i + p@.len()));
            let piece = string_of(cur.as_slice());
            let ghost before = res@;
            res.push(piece);
            assert(views(res@) =~= views(before) + seq![cur@]);
            cur = Vec::new();
            i = i + p.len();
            assert(views(res@) + split_acc(v@.skip(i as int), p@, cur@) =~= split_spec(s@, sep@));
        } else {
            assert(!is_prefix_of(p@, rest)) by {
                if is_prefix_of(p@, rest) {
                    assert(rest.take(p@.len() as int) =~= v@.subrange(i as int, i + p@.len()));
                }
            }
            assert(rest.skip(1) =~= v@.skip(i + 1));
            cur.push(v[i]);
            i = i + 1;
        }
    }
    assert(v@.skip(i as int) =~= Seq::<char>::empty());
    let piece = string_of(cur.as_slice());
    let ghost before = res@;
    res.push(piece);
    assert(views(res@) =~= views(before) + seq![cur@]);
    res
}

/// Joins the strings with `sep` between consecutive ones (`[String]::join`).
pub fn join(parts: &Vec<String>, sep: &str) -> (res: String)
    ensures
        res@ == join_spec(views(parts@), sep@),
{
    let mut res = String::new();
    let mut i: usize = 0;
    while i < parts.len()
        invariant
            i <= parts@.len(),
            res@ == join_spec(views(parts@).take(i as int), sep@),
        decreases parts@.len() - i,
    {
        if i > 0 {
            res.append(sep);
        }
        res.append(parts[i].as_str());
        i = i + 1;
        assert(views(parts@).take(i as int).drop_last() =~= views(parts@).take(i - 1));
    }
    assert(views(parts@).take(parts@.len() as int) =~= views(parts@));
    res
}

/// Joins a segment to a base path (`Path::join` on Unix).
pub fn path_join(base: &str, seg: &str) -> (res: String)
    ensures
        res@ == path_join_spec(base@, seg@),
{
    let b = chars_of(base);
    let s = chars_of(seg);
    if s.len() > 0 && s[0] == '/' {
        owned(seg)
    } else if b.len() == 0 {
        owned(seg)
    } else if b[b.len() - 1] == '/' {
        concat(base, seg)
    } else {
        let mut res = owned(base);
        push_char(&mut res, '/');
        res.append(seg);
        res
    }
}

/// Everything after the first `c`, or the whole text when `c` is absent.
pub fn substr_after(s: &str, c: char) -> (res: String)
    ensures
        res@ == substr_after_spec(s@, c),
{
    let v = chars_of(s);
    proof {
        lemma_first_index_of(s@, c);
    }
    let mut i: usize = 0;
    while i < v.len()
        invariant
            v@ == s@,
            i <= v@.len(),
            forall|k: int| 0 <= k < i ==> v@[k] != c,
        decreases v@.len() - i,
    {
        if v[i] == c {
            let rest = string_of_range(v.as_slice(), i + 1, v.len());
            proof {
                lemma_first_index_of(s@, c);
                match first_index_of(s@, c) {
                    Some(j) => {
                        assert(j == i);
                    },
                    None => {
                        assert(v@[i as int] == c);
                    },
                }
                assert(rest@ =~= s@.skip(i + 1));
            }
            return rest;
        }
        i = i + 1;
    }
    owned(s)
}

/// Characterisation of `last_index_of`.
pub proof fn lemma_last_index_of(s: Seq<char>, c: char)
    ensures
        match last_index_of(s, c) {
            Some(i) => 0 <= i < s.len() && s[i] == c && forall|k: int| i < k < s.len() ==> s[k] != c,
            None => forall|k: int| 0 <= k < s.len() ==> s[k] != c,
        },
    decreases s.len(),
{
    if s.len() > 0 && s.last() != c {
        let t = s.drop_last();
        lemma_last_index_of(t, c);
        assert forall|k: int| 0 <= k < t.len() implies t[k] == s[k] by {}
        match last_index_of(t, c) {
            Some(i) => {
                assert forall|k: int| i < k < s.len() implies s[k] != c by {
                    if k < t.len() {
                        assert(t[k] == s[k]);
                    }
                }
            },
            None => {
                assert forall|k: int| 0 <= k < s.len() implies s[k] != c by {
                    if k < t.len() {
                        assert(t[k] == s[k]);
                    }
                }
            },
        }
    }
}

/// Splits the text at the last `c` into what comes before and what comes
/// after it (`str::rsplit_once`); `None` when `c` does not occur.
pub fn rsplit_once(s: &str, c: char) -> (res: Option<(String, String)>)
    ensures
        match res {
            Some((a, b)) => rsplit_once_spec(s@, c) == Some((a@, b@)),
            None => rsplit_once_spec(s@, c) is None,
        },
{
    let v = chars_of(s);
    let mut i: usize = v.len();
    while i > 0
        invariant
            v@ == s@,
            i <= v@.len(),
            forall|k: int| i <= k < v@.len() ==> v@[k] != c,
        decreases i,
    {
        if v[i - 1] == c {
            let before = string_of_range(v.as_slice(), 0, i - 1);
            let after = string_of_range(v.as_slice(), i, v.len());
            proof {
                let m = (i - 1) as int;
                lemma_last_index_of(s@, c);
                match last_index_of(s@, c) {
                    Some(j) => {
                        if j < m {
                            assert(v@[m] == c);
                        }
                        assert(j == m);
                    },
                    None => {
                        assert(v@[m] == c);
                    },
                }
                assert(before@ =~= s@.take(m));
                assert(after@ =~= s@.skip(m + 1));
            }
            return Some((before, after));
        }
        i = i - 1;
    }
    proof {
        lemma_last_index_of(s@, c);
        match last_index_of(s@, c) {
            Some(j) => {
                assert(v@[j] == c);
            },
            None => {},
        }
    }
    None
}

/// Drops a leading `open` and a trailing `close`, each where present.
pub fn remove_surrounding(s: &str, open: char, close: char) -> (res: String)
    ensures
        res@ == remove_surrounding_spec(s@, open, close),
{
    let v = chars_of(s);
    let start: usize = if v.len() > 0 && v[0] == open { 1 } else { 0 };
    let end: usize = if v.len() > start && v[v.len() - 1] == close { v.len() - 1 } else { v.len() };
    let ghost t = if v@.len() > 0 && v@[0] == open { v@.skip(1) } else { v@ };
    assert(t =~= v@.subrange(start as int, v@.len() as int));
    let res = string_of_range(v.as_slice(), start, end);
    assert(res@ =~= remove_surrounding_spec(s@, open, close));
    res
}

/// Drops the last occurrence of the non-empty pattern `p` and everything
/// after it; the text is unchanged when `p` does not occur.
pub fn replace_after_last(s: &str, p: &str) -> (res: String)
    requires
        p@.len() > 0,
    ensures
        res@ == replace_after_last_spec(s@, p@),
{
    let v = chars_of(s);
    let w = chars_of(p);
    proof {
        lemma_last_occurrence(s@, p@);
    }
    if w.len() > v.len() {
        return owned(s);
    }
    let mut i: usize = v.len() - w.len() + 1;
    while i > 0
        invariant
            v@ == s@,
            w@ == p@,
            p@.len() > 0,
            w@.len() <= v@.len(),
            i <= v@.len() - w@.len() + 1,
            forall|k: int| i <= k ==> !occurs_at(s@, p@, k),
        decreases i,
    {
        if matches_at(&v, &w, i - 1) {
            let res = string_of_range(v.as_slice(), 0, i - 1);
            proof {
                let m = (i - 1) as int;
                lemma_last_occurrence(s@, p@);
                assert(occurs_at(s@, p@, m));
                match last_occurrence(s@, p@) {
                    Some(j) => {
                        if j < m {
                            assert(!occurs_at(s@, p@, m));
                        }
                        if j > m {
                            assert(!occurs_at(s@, p@, j));
                        }
                        assert(j == m);
                    },
                    None => {
                        assert(!occurs_at(s@, p@, m));
                    },
                }
                assert(res@ =~= s@.take(m));
            }
            return res;
        }
        i = i - 1;
    }
    owned(s)
}


/// The character of a decimal digit.
pub open spec fn digit_char(d: nat) -> char {
    (48 + d) as char
}

/// The decimal representation of a number, without leading zeros.
pub open spec fn decimal_spec(n: nat) -> Seq<char>
    decreases n,
{
    if n < 10 {
        seq![digit_char(n)]
    } else {
        decimal_spec(n / 10).push(digit_char(n % 10))
    }
}

/// The decimal representation of a number (as `to_string` writes it).
pub fn decimal(n: usize) -> (res: String)
    ensures
        res@ == decimal_spec(n as nat),
    decreases n,
{
    if n < 10 {
        let mut s = String::new();
        push_char(&mut s, ((n as u8) + 48u8) as char);
        proof {
            assert(s@ =~= seq![digit_char(n as nat)]);
        }
        s
    } else {
        let mut s = decimal(n / 10);
        push_char(&mut s, (((n % 10) as u8) + 48u8) as char);
        s
    }
}

} // verus!
