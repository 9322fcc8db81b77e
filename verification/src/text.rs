//! Verified text utilities: equality, search, case folding.
//!
//! Everything in the crate that inspects a string goes through these
//! functions, so their contracts pin down the character-level meaning of
//! each operation.

use vstd::prelude::*;

verus! {

use vstd::string::*;

/// Index of the first occurrence of `c` in `s`, or -1 when `c` does not occur.
pub open spec fn first_index_of(s: Seq<char>, c: char) -> int
    decreases s.len(),
{
    if s.len() == 0 {
        -1
    } else if s[0] == c {
        0
    } else {
        let r = first_index_of(s.drop_first(), c);
        if r == -1 {
            -1
        } else {
            r + 1
        }
    }
}

/// `first_index_of` returns -1 exactly when `c` is absent, and otherwise
/// the least index holding `c`.
pub proof fn lemma_first_index_of(s: Seq<char>, c: char)
    ensures
        first_index_of(s, c) == -1 ==> forall|j: int| 0 <= j < s.len() ==> s[j] != c,
        first_index_of(s, c) != -1 ==> 0 <= first_index_of(s, c) < s.len() && s[first_index_of(
            s,
            c,
        )] == c && forall|j: int| 0 <= j < first_index_of(s, c) ==> s[j] != c,
    decreases s.len(),
{
    if s.len() > 0 && s[0] != c {
        let t = s.drop_first();
        lemma_first_index_of(t, c);
        let rt = first_index_of(t, c);
        if rt == -1 {
            assert forall|j: int| 0 <= j < s.len() implies s[j] != c by {
                if j > 0 {
                    assert(t[j - 1] == s[j]);
                    assert(t[j - 1] != c);
                }
            }
        } else {
            assert(s[rt + 1] == t[rt]);
            assert forall|j: int| 0 <= j < rt + 1 implies s[j] != c by {
                if j > 0 {
                    assert(t[j - 1] == s[j]);
                    assert(t[j - 1] != c);
                }
            }
        }
    }
}

/// Index of the first occurrence of `c` in `s`, if any.
pub fn find_char(s: &str, c: char) -> (r: Option<usize>)
    ensures
        match r {
            Some(i) => first_index_of(s@, c) == i as int,
            None => first_index_of(s@, c) == -1,
        },
{
    let n = s.unicode_len();
    for i in 0..n
        invariant
            n == s@.len(),
            forall|j: int| 0 <= j < i ==> s@[j] != c,
    {
        if s.get_char(i) == c {
            proof {
                lemma_first_index_of(s@, c);
            }
            return Some(i);
        }
    }
    proof {
        lemma_first_index_of(s@, c);
    }
    None
}

/// Index of the first position where `a` is immediately followed by `b`,
/// or -1 when no such position exists.
pub open spec fn first_pair_index(s: Seq<char>, a: char, b: char) -> int
    decreases s.len(),
{
    if s.len() < 2 {
        -1
    } else if s[0] == a && s[1] == b {
        0
    } else {
        let r = first_pair_index(s.drop_first(), a, b);
        if r == -1 {
            -1
        } else {
            r + 1
        }
    }
}

/// `first_pair_index` returns -1 exactly when the pair is absent, and
/// otherwise the least index where it starts.
pub proof fn lemma_first_pair_index(s: Seq<char>, a: char, b: char)
    ensures
        first_pair_index(s, a, b) == -1 ==> forall|j: int|
            0 <= j && j + 1 < s.len() ==> !(#[trigger] s[j] == a && s[j + 1] == b),
        first_pair_index(s, a, b) != -1 ==> 0 <= first_pair_index(s, a, b) && first_pair_index(
            s,
            a,
            b,
        ) + 1 < s.len() && s[first_pair_index(s, a, b)] == a && s[first_pair_index(s, a, b) + 1]
            == b && forall|j: int|
            0 <= j < first_pair_index(s, a, b) ==> !(#[trigger] s[j] == a && s[j + 1] == b),
    decreases s.len(),
{
    if s.len() >= 2 && !(s[0] == a && s[1] == b) {
        let t = s.drop_first();
        lemma_first_pair_index(t, a, b);
        let rt = first_pair_index(t, a, b);
        if rt == -1 {
            assert forall|j: int| 0 <= j && j + 1 < s.len() implies !(#[trigger] s[j] == a && s[j
                + 1] == b) by {
                if j > 0 {
                    assert(t[j - 1] == s[j]);
                    assert(t[j] == s[j + 1]);
                    assert(!(t[j - 1] == a && t[j] == b));
                }
            }
        } else {
            assert(s[rt + 1] == t[rt]);
            assert(s[rt + 2] == t[rt + 1]);
            assert forall|j: int| 0 <= j < rt + 1 implies !(#[trigger] s[j] == a && s[j + 1]
                == b) by {
                if j > 0 {
                    assert(t[j - 1] == s[j]);
                    assert(t[j] == s[j + 1]);
                    assert(!(t[j - 1] == a && t[j] == b));
                }
            }
        }
    }
}

/// Index of the first position where `a` is immediately followed by `b`,
/// if any.
pub fn find_pair(s: &str, a: char, b: char) -> (r: Option<usize>)
    ensures
        match r {
            Some(i) => first_pair_index(s@, a, b) == i as int,
            None => first_pair_index(s@, a, b) == -1,
        },
{
    let n = s.unicode_len();
    if n < 2 {
        proof {
            lemma_first_pair_index(s@, a, b);
        }
        return None;
    }
    for i in 0..n - 1
        invariant
            n == s@.len(),
            2 <= n,
            forall|j: int| 0 <= j < i ==> !(#[trigger] s@[j] == a && s@[j + 1] == b),
    {
        if s.get_char(i) == a && s.get_char(i + 1) == b {
            proof {
                lemma_first_pair_index(s@, a, b);
            }
            return Some(i);
        }
    }
    proof {
        lemma_first_pair_index(s@, a, b);
    }
    None
}

/// Character-for-character string equality.
pub fn str_eq(a: &str, b: &str) -> (r: bool)
    ensures
        r == (a@ == b@),
{
    let na = a.unicode_len();
    let nb = b.unicode_len();
    if na != nb {
        return false;
    }
    for i in 0..na
        invariant
            na == a@.len(),
            na == b@.len(),
            forall|j: int| 0 <= j < i ==> a@[j] == b@[j],
    {
        if a.get_char(i) != b.get_char(i) {
            return false;
        }
    }
    proof {
        assert(a@ =~= b@);
    }
    true
}

/// `needle` occurs in `hay` starting at index `i`.
pub open spec fn matches_at(hay: Seq<char>, needle: Seq<char>, i: int) -> bool {
    0 <= i && i + needle.len() <= hay.len() && hay.subrange(i, i + needle.len() as int) == needle
}

/// `needle` occurs contiguously somewhere in `hay`.
pub open spec fn contains_seq(hay: Seq<char>, needle: Seq<char>) -> bool {
    exists|i: int| #[trigger] matches_at(hay, needle, i)
}

fn match_at(hay: &str, needle: &str, i: usize) -> (r: bool)
    requires
        i + needle@.len() <= hay@.len(),
    ensures
        r == matches_at(hay@, needle@, i as int),
{
    let m = needle.unicode_len();
    let hn = hay.unicode_len();
    let ghost sub = hay@.subrange(i as int, i as int + needle@.len() as int);
    for j in 0..m
        invariant
            m == needle@.len(),
            hn == hay@.len(),
            i + m <= hay@.len(),
            sub == hay@.subrange(i as int, i as int + needle@.len() as int),
            forall|l: int| 0 <= l < j ==> sub[l] == needle@[l],
    {
        if hay.get_char(i + j) != needle.get_char(j) {
            assert(sub[j as int] != needle@[j as int]);
            return false;
        }
    }
    proof {
        assert(sub =~= needle@);
    }
    true
}

/// Substring search.
pub fn contains_str(hay: &str, needle: &str) -> (r: bool)
    ensures
        r == contains_seq(hay@, needle@),
{
    let n = hay.unicode_len();
    let m = needle.unicode_len();
    if m > n {
        proof {
            assert(forall|i: int| !matches_at(hay@, needle@, i));
        }
        return false;
    }
    if m == 0 {
        proof {
            assert(hay@.subrange(0, 0) =~= needle@);
            assert(matches_at(hay@, needle@, 0));
        }
        return true;
    }
    let mut i: usize = 0;
    while i <= n - m
        invariant
            1 <= m <= n,
            n == hay@.len(),
            m == needle@.len(),
            i <= n - m + 1,
            forall|k: int| 0 <= k < i ==> !#[trigger] matches_at(hay@, needle@, k),
        decreases n - m + 1 - i,
    {
        if match_at(hay, needle, i) {
            proof {
                assert(matches_at(hay@, needle@, i as int));
            }
            return true;
        }
        i = i + 1;
    }
    proof {
        assert(forall|k: int| !matches_at(hay@, needle@, k));
    }
    false
}

/// ASCII lower-casing of one character; other characters are unchanged.
pub open spec fn lower_char(c: char) -> char {
    if 65 <= c as u32 && c as u32 <= 90 {
        ((c as u32) + 32) as char
    } else {
        c
    }
}

/// ASCII lower-casing of a whole character sequence.
pub open spec fn lower_seq(s: Seq<char>) -> Seq<char> {
    s.map_values(|c: char| lower_char(c))
}

fn lower_char_exec(c: char) -> (r: char)
    ensures
        r == lower_char(c),
{
    let u = c as u32;
    if 65 <= u && u <= 90 {
        let v: u32 = u + 32;
        let l = (v as u8) as char;
        proof {
            vstd::utf8::char_u32_cast(l, v);
        }
        l
    } else {
        c
    }
}

fn match_at_lower(hay: &str, needle: &str, i: usize) -> (r: bool)
    requires
        i + needle@.len() <= hay@.len(),
    ensures
        r == matches_at(lower_seq(hay@), needle@, i as int),
{
    let m = needle.unicode_len();
    let hn = hay.unicode_len();
    let ghost low = lower_seq(hay@);
    let ghost sub = low.subrange(i as int, i as int + needle@.len() as int);
    proof {
        assert(low.len() == hay@.len());
    }
    for j in 0..m
        invariant
            m == needle@.len(),
            hn == hay@.len(),
            i + m <= hay@.len(),
            low == lower_seq(hay@),
            low.len() == hay@.len(),
            sub == low.subrange(i as int, i as int + needle@.len() as int),
            forall|l: int| 0 <= l < j ==> sub[l] == needle@[l],
    {
        if lower_char_exec(hay.get_char(i + j)) != needle.get_char(j) {
            assert(sub[j as int] == lower_char(hay@[i + j]));
            return false;
        }
        assert(sub[j as int] == lower_char(hay@[i + j]));
    }
    proof {
        assert(sub =~= needle@);
    }
    true
}

/// Case-insensitive substring search: does `needle` (given already in lower
/// case) occur in the ASCII lower-casing of `hay`?
pub fn contains_str_lower(hay: &str, needle: &str) -> (r: bool)
    ensures
        r == contains_seq(lower_seq(hay@), needle@),
{
    let n = hay.unicode_len();
    let m = needle.unicode_len();
    let ghost low = lower_seq(hay@);
    proof {
        assert(low.len() == hay@.len());
    }
    if m > n {
        proof {
            assert(forall|i: int| !matches_at(low, needle@, i));
        }
        return false;
    }
    if m == 0 {
        proof {
            assert(low.subrange(0, 0) =~= needle@);
            assert(matches_at(low, needle@, 0));
        }
        return true;
    }
    let mut i: usize = 0;
    while i <= n - m
        invariant
            1 <= m <= n,
            n == hay@.len(),
            m == needle@.len(),
            low == lower_seq(hay@),
            low.len() == n,
            i <= n - m + 1,
            forall|k: int| 0 <= k < i ==> !#[trigger] matches_at(low, needle@, k),
        decreases n - m + 1 - i,
    {
        if match_at_lower(hay, needle, i) {
            proof {
                assert(matches_at(low, needle@, i as int));
            }
            return true;
        }
        i = i + 1;
    }
    proof {
        assert(forall|k: int| !matches_at(low, needle@, k));
    }
    false
}

/// Does `s` start with `prefix`?
pub fn starts_with_str(s: &str, prefix: &str) -> (r: bool)
    ensures
        r == (s@.len() >= prefix@.len() && s@.subrange(0, prefix@.len() as int) == prefix@),
{
    let n = s.unicode_len();
    let m = prefix.unicode_len();
    if m > n {
        return false;
    }
    match_at(s, prefix, 0)
}

/// The whitespace characters stripped from log lines.
pub open spec fn is_ws(c: char) -> bool {
    c == ' ' || c == '\t' || c == '\r' || c == '\n'
}

fn is_ws_exec(c: char) -> (r: bool)
    ensures
        r == is_ws(c),
{
    c == ' ' || c == '\t' || c == '\r' || c == '\n'
}

/// Index of the first non-whitespace character, or -1 when there is none.
pub open spec fn first_non_ws(s: Seq<char>) -> int
    decreases s.len(),
{
    if s.len() == 0 {
        -1
    } else if !is_ws(s[0]) {
        0
    } else {
        let r = first_non_ws(s.drop_first());
        if r == -1 {
            -1
        } else {
            r + 1
        }
    }
}

/// Index of the last non-whitespace character, or -1 when there is none.
pub open spec fn last_non_ws(s: Seq<char>) -> int
    decreases s.len(),
{
    if s.len() == 0 {
        -1
    } else if !is_ws(s.last()) {
        s.len() - 1
    } else {
        last_non_ws(s.drop_last())
    }
}

/// `first_non_ws` is -1 exactly when everything is whitespace, and
/// otherwise the least non-whitespace index.
pub proof fn lemma_first_non_ws(s: Seq<char>)
    ensures
        first_non_ws(s) == -1 ==> forall|j: int| 0 <= j < s.len() ==> is_ws(#[trigger] s[j]),
        first_non_ws(s) != -1 ==> 0 <= first_non_ws(s) < s.len() && !is_ws(s[first_non_ws(s)])
            && forall|j: int| 0 <= j < first_non_ws(s) ==> is_ws(#[trigger] s[j]),
    decreases s.len(),
{
    if s.len() > 0 && is_ws(s[0]) {
        let t = s.drop_first();
        lemma_first_non_ws(t);
        let rt = first_non_ws(t);
        if rt == -1 {
            assert forall|j: int| 0 <= j < s.len() implies is_ws(#[trigger] s[j]) by {
                if j > 0 {
                    assert(t[j - 1] == s[j]);
                    assert(is_ws(t[j - 1]));
                }
            }
        } else {
            assert(s[rt + 1] == t[rt]);
            assert forall|j: int| 0 <= j < rt + 1 implies is_ws(#[trigger] s[j]) by {
                if j > 0 {
                    assert(t[j - 1] == s[j]);
                    assert(is_ws(t[j - 1]));
                }
            }
        }
    }
}

/// `last_non_ws` is -1 exactly when everything is whitespace, and otherwise
/// the greatest non-whitespace index.
pub proof fn lemma_last_non_ws(s: Seq<char>)
    ensures
        last_non_ws(s) == -1 ==> forall|j: int| 0 <= j < s.len() ==> is_ws(#[trigger] s[j]),
        last_non_ws(s) != -1 ==> 0 <= last_non_ws(s) < s.len() && !is_ws(s[last_non_ws(s)])
            && forall|j: int| last_non_ws(s) < j < s.len() ==> is_ws(#[trigger] s[j]),
    decreases s.len(),
{
    if s.len() > 0 && is_ws(s.last()) {
        let t = s.drop_last();
        lemma_last_non_ws(t);
        assert(forall|j: int| 0 <= j < t.len() ==> t[j] == s[j]);
    }
}

/// `s` without leading and trailing whitespace.
pub open spec fn trim_seq(s: Seq<char>) -> Seq<char> {
    let a = first_non_ws(s);
    if a == -1 {
        Seq::<char>::empty()
    } else {
        s.subrange(a, last_non_ws(s) + 1)
    }
}

/// Strips leading and trailing whitespace.
pub fn trim_str<'a>(s: &'a str) -> (r: &'a str)
    ensures
        r@ == trim_seq(s@),
{
    let n = s.unicode_len();
    let mut a: usize = 0;
    while a < n && is_ws_exec(s.get_char(a))
        invariant
            n == s@.len(),
            a <= n,
            forall|j: int| 0 <= j < a ==> is_ws(#[trigger] s@[j]),
        decreases n - a,
    {
        a = a + 1;
    }
    if a == n {
        proof {
            lemma_first_non_ws(s@);
            reveal_strlit("");
            assert(""@ =~= trim_seq(s@));
        }
        return "";
    }
    let mut b: usize = n;
    while b > a + 1 && is_ws_exec(s.get_char(b - 1))
        invariant
            n == s@.len(),
            a < n,
            !is_ws(s@[a as int]),
            a + 1 <= b <= n,
            forall|j: int| b <= j < n ==> is_ws(#[trigger] s@[j]),
        decreases b,
    {
        b = b - 1;
    }
    proof {
        lemma_first_non_ws(s@);
        lemma_last_non_ws(s@);
        assert(first_non_ws(s@) == a as int);
        assert(!is_ws(s@[b - 1]));
        assert(last_non_ws(s@) == b - 1);
    }
    s.substring_char(a, b)
}

/// How often `c` occurs in `s`.
pub open spec fn count_char(s: Seq<char>, c: char) -> int
    decreases s.len(),
{
    if s.len() == 0 {
        0
    } else {
        count_char(s.drop_last(), c) + (if s.last() == c {
            1int
        } else {
            0int
        })
    }
}

/// The count is non-negative, bounded by the length, and positive exactly
/// when the character occurs.
pub proof fn lemma_count_char(s: Seq<char>, c: char)
    ensures
        0 <= count_char(s, c) <= s.len(),
        (count_char(s, c) > 0) <==> exists|i: int| 0 <= i < s.len() && s[i] == c,
    decreases s.len(),
{
    if s.len() > 0 {
        let t = s.drop_last();
        lemma_count_char(t, c);
        if s.last() == c {
            assert(s[s.len() - 1] == c);
        } else {
            if count_char(t, c) > 0 {
                let i = choose|i: int| 0 <= i < t.len() && t[i] == c;
                assert(s[i] == c);
            }
            if exists|i: int| 0 <= i < s.len() && s[i] == c {
                let i = choose|i: int| 0 <= i < s.len() && s[i] == c;
                assert(i < s.len() - 1);
                assert(t[i] == c);
            }
        }
    }
}

/// Counts the occurrences of `c` in `s`.
pub fn count_char_str(s: &str, c: char) -> (r: usize)
    ensures
        r as int == count_char(s@, c),
{
    let n = s.unicode_len();
    let mut cnt: usize = 0;
    for i in 0..n
        invariant
            n == s@.len(),
            cnt as int == count_char(s@.take(i as int), c),
            cnt <= i,
    {
        proof {
            lemma_count_char(s@.take(i as int), c);
            assert(s@.take(i + 1).drop_last() =~= s@.take(i as int));
            assert(s@.take(i + 1).last() == s@[i as int]);
        }
        if s.get_char(i) == c {
            cnt = cnt + 1;
        }
    }
    proof {
        assert(s@.take(n as int) =~= s@);
    }
    cnt
}

/// Views of a string list, in order.
pub open spec fn str_views(ss: Seq<String>) -> Seq<Seq<char>> {
    ss.map_values(|s: String| s@)
}

/// Lexicographic order on character sequences, by Unicode scalar value.
pub open spec fn lex_le(a: Seq<char>, b: Seq<char>) -> bool
    decreases a.len(),
{
    if a.len() == 0 {
        true
    } else if b.len() == 0 {
        false
    } else if (a[0] as u32) < (b[0] as u32) {
        true
    } else if (b[0] as u32) < (a[0] as u32) {
        false
    } else {
        lex_le(a.drop_first(), b.drop_first())
    }
}

/// The order is total.
pub proof fn lemma_lex_le_total(a: Seq<char>, b: Seq<char>)
    ensures
        lex_le(a, b) || lex_le(b, a),
    decreases a.len(),
{
    if a.len() > 0 && b.len() > 0 && (a[0] as u32) == (b[0] as u32) {
        lemma_lex_le_total(a.drop_first(), b.drop_first());
    }
}

/// The order is antisymmetric: mutual order means equality.
pub proof fn lemma_lex_le_antisym(a: Seq<char>, b: Seq<char>)
    requires
        lex_le(a, b),
        lex_le(b, a),
    ensures
        a == b,
    decreases a.len(),
{
    if a.len() == 0 {
        assert(b.len() == 0);
        assert(a =~= b);
    } else {
        assert(b.len() > 0);
        assert((a[0] as u32) == (b[0] as u32));
        vstd::utf8::char_u32_cast(a[0], a[0] as u32);
        vstd::utf8::char_u32_cast(b[0], b[0] as u32);
        assert(a[0] == b[0]);
        lemma_lex_le_antisym(a.drop_first(), b.drop_first());
        assert forall|i: int| 0 <= i < a.len() implies a[i] == b[i] by {
            if i > 0 {
                assert(a.drop_first()[i - 1] == b.drop_first()[i - 1]);
            }
        }
        assert(a =~= b);
    }
}

/// The order is transitive.
pub proof fn lemma_lex_le_trans(a: Seq<char>, b: Seq<char>, c: Seq<char>)
    requires
        lex_le(a, b),
        lex_le(b, c),
    ensures
        lex_le(a, c),
    decreases a.len(),
{
    if a.len() > 0 && b.len() > 0 && c.len() > 0 {
        if (a[0] as u32) == (b[0] as u32) && (b[0] as u32) == (c[0] as u32) {
            lemma_lex_le_trans(a.drop_first(), b.drop_first(), c.drop_first());
        }
    }
}

/// Sequences that agree on a prefix compare as their remainders do.
proof fn lemma_lex_le_skip(a: Seq<char>, b: Seq<char>, i: int)
    requires
        0 <= i <= a.len(),
        i <= b.len(),
        forall|j: int| 0 <= j < i ==> a[j] == b[j],
    ensures
        lex_le(a, b) == lex_le(a.skip(i), b.skip(i)),
    decreases i,
{
    if i > 0 {
        assert(a[0] == b[0]);
        assert((a[0] as u32) == (b[0] as u32));
        assert(forall|j: int|
            0 <= j < i - 1 ==> #[trigger] a.drop_first()[j] == b.drop_first()[j]);
        lemma_lex_le_skip(a.drop_first(), b.drop_first(), i - 1);
        assert(a.drop_first().skip(i - 1) =~= a.skip(i));
        assert(b.drop_first().skip(i - 1) =~= b.skip(i));
    } else {
        assert(a.skip(0) =~= a);
        assert(b.skip(0) =~= b);
    }
}

/// Lexicographic comparison of two strings.
pub fn str_le(a: &str, b: &str) -> (r: bool)
    ensures
        r == lex_le(a@, b@),
{
    let na = a.unicode_len();
    let nb = b.unicode_len();
    let min: usize = if na < nb {
        na
    } else {
        nb
    };
    for i in 0..min
        invariant
            na == a@.len(),
            nb == b@.len(),
            min <= na,
            min <= nb,
            forall|j: int| 0 <= j < i ==> a@[j] == b@[j],
    {
        let ca = a.get_char(i) as u32;
        let cb = b.get_char(i) as u32;
        if ca < cb {
            proof {
                lemma_lex_le_skip(a@, b@, i as int);
                assert(a@.skip(i as int)[0] == a@[i as int]);
                assert(b@.skip(i as int)[0] == b@[i as int]);
            }
            return true;
        }
        if cb < ca {
            proof {
                lemma_lex_le_skip(a@, b@, i as int);
                assert(a@.skip(i as int)[0] == a@[i as int]);
                assert(b@.skip(i as int)[0] == b@[i as int]);
            }
            return false;
        }
        proof {
            vstd::utf8::char_u32_cast(a@[i as int], ca);
            vstd::utf8::char_u32_cast(b@[i as int], cb);
            assert(a@[i as int] == b@[i as int]);
        }
    }
    proof {
        lemma_lex_le_skip(a@, b@, min as int);
        if na <= nb {
            assert(a@.skip(min as int).len() == 0);
        } else {
            assert(b@.skip(min as int).len() == 0);
            assert(a@.skip(min as int).len() > 0);
        }
    }
    na <= nb
}

} // verus!
