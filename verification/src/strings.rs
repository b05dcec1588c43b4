//! Character-level string utilities: the boundary between `String`/`&str`
//! and the `Vec<char>` form the verified code manipulates, plus split,
//! join, substring search and the UTF-8 byte measures the wire format needs.
use vstd::prelude::*;

verus! {

use vstd::utf8::encode_utf8;
use vstd::utf8::encode_scalar;

/// Relies on str::chars and Iterator::collect: yields exactly the
/// characters of the string, in order.
#[verifier::external_body]
pub fn str_to_chars(s: &str) -> (r: Vec<char>)
    ensures
        r@ == s@,
{
    s.chars().collect()
}

/// Relies on String's FromIterator over char: builds the string holding
/// exactly these characters, in order.
#[verifier::external_body]
pub fn chars_to_string(v: &Vec<char>) -> (r: String)
    ensures
        r@ == v@,
{
    v.iter().collect()
}

/// Relies on str's PartialEq: two slices compare equal exactly when they
/// hold the same characters (UTF-8 encoding is injective).
#[verifier::external_body]
pub fn str_eq(a: &str, b: &str) -> (r: bool)
    ensures
        r == (a@ == b@),
{
    a == b
}

// ---------------------------------------------------------------------------
// Splitting on a separator character.
// ---------------------------------------------------------------------------

/// The remaining segments when `s` is still to be read, the current segment
/// already holds `cur`, and `acc` holds the finished segments.
pub open spec fn split_rec(s: Seq<char>, sep: char, cur: Seq<char>, acc: Seq<Seq<char>>) -> Seq<
    Seq<char>,
>
    decreases s.len(),
{
    if s.len() == 0 {
        acc.push(cur)
    } else if s[0] == sep {
        split_rec(s.drop_first(), sep, Seq::empty(), acc.push(cur))
    } else {
        split_rec(s.drop_first(), sep, cur.push(s[0]), acc)
    }
}

/// The segments of `s` between occurrences of `sep`; always non-empty,
/// and empty segments are kept (as str::split does).
pub open spec fn spec_split(s: Seq<char>, sep: char) -> Seq<Seq<char>> {
    split_rec(s, sep, Seq::empty(), Seq::empty())
}

pub fn split_chars(s: &Vec<char>, sep: char) -> (r: Vec<Vec<char>>)
    ensures
        r.deep_view() == spec_split(s@, sep),
{
    let mut acc: Vec<Vec<char>> = Vec::new();
    let mut cur: Vec<char> = Vec::new();
    let mut i: usize = 0;
    proof {
        assert(s@.subrange(0, s@.len() as int) == s@);
        assert(acc.deep_view() =~= Seq::<Seq<char>>::empty());
    }
    while i < s.len()
        invariant
            0 <= i <= s.len(),
            split_rec(s@.subrange(i as int, s@.len() as int), sep, cur@, acc.deep_view())
                == spec_split(s@, sep),
        decreases s.len() - i,
    {
        let c = s[i];
        proof {
            let rest = s@.subrange(i as int, s@.len() as int);
            assert(rest[0] == c);
            assert(rest.drop_first() == s@.subrange(i + 1, s@.len() as int));
        }
        if c == sep {
            let ghost old_dv = acc.deep_view();
            acc.push(cur);
            proof {
                assert(acc.deep_view() =~~= old_dv.push(cur@));
            }
            cur = Vec::new();
            assert(cur@ == Seq::<char>::empty());
        } else {
            cur.push(c);
        }
        i = i + 1;
    }
    assert(s@.subrange(i as int, s@.len() as int).len() == 0);
    let ghost old_dv = acc.deep_view();
    acc.push(cur);
    proof {
        assert(acc.deep_view() =~~= old_dv.push(cur@));
    }
    acc
}

/// Splitting text that holds no separator yields one segment.
pub proof fn lemma_split_rec_no_sep(s: Seq<char>, sep: char, cur: Seq<char>, acc: Seq<Seq<char>>)
    requires
        forall|j: int| 0 <= j < s.len() ==> s[j] != sep,
    ensures
        split_rec(s, sep, cur, acc) == acc.push(cur + s),
    decreases s.len(),
{
    if s.len() == 0 {
        assert(cur + s =~= cur);
    } else {
        assert(forall|j: int| 0 <= j < s.drop_first().len() ==> s.drop_first()[j] == s[j + 1]);
        lemma_split_rec_no_sep(s.drop_first(), sep, cur.push(s[0]), acc);
        assert(cur.push(s[0]) + s.drop_first() =~= cur + s);
    }
}

/// Splitting `a sep b`, with no separator inside `a` or `b`, yields exactly
/// the two segments.
pub proof fn lemma_split_two(a: Seq<char>, sep: char, b: Seq<char>)
    requires
        forall|j: int| 0 <= j < a.len() ==> a[j] != sep,
        forall|j: int| 0 <= j < b.len() ==> b[j] != sep,
    ensures
        spec_split(a + seq![sep] + b, sep) == seq![a, b],
{
    lemma_split_rec_mid(a, sep, b, Seq::empty(), Seq::empty());
    assert(Seq::<Seq<char>>::empty().push(Seq::<char>::empty() + a).push(b) =~= seq![
        Seq::<char>::empty() + a,
        b,
    ]);
    assert(Seq::<char>::empty() + a =~= a);
    assert(seq![Seq::<char>::empty() + a, b] =~= seq![a, b]);
}

proof fn lemma_split_rec_mid(a: Seq<char>, sep: char, b: Seq<char>, cur: Seq<char>, acc: Seq<Seq<char>>)
    requires
        forall|j: int| 0 <= j < a.len() ==> a[j] != sep,
        forall|j: int| 0 <= j < b.len() ==> b[j] != sep,
    ensures
        split_rec(a + seq![sep] + b, sep, cur, acc) == acc.push(cur + a).push(b),
    decreases a.len(),
{
    let s = a + seq![sep] + b;
    if a.len() == 0 {
        assert(s[0] == sep);
        assert(s.drop_first() =~= b);
        lemma_split_rec_no_sep(b, sep, Seq::empty(), acc.push(cur));
        assert(cur + a =~= cur);
        assert(Seq::<char>::empty() + b =~= b);
    } else {
        assert(s[0] == a[0]);
        assert(s[0] != sep);
        assert(s.drop_first() =~= a.drop_first() + seq![sep] + b);
        assert(forall|j: int| 0 <= j < a.drop_first().len() ==> a.drop_first()[j] == a[j + 1]);
        lemma_split_rec_mid(a.drop_first(), sep, b, cur.push(a[0]), acc);
        assert(cur.push(a[0]) + a.drop_first() =~= cur + a);
    }
}

/// Appending `sep y` to split text adds one segment.
pub proof fn lemma_split_snoc(x: Seq<char>, sep: char, y: Seq<char>)
    requires
        forall|j: int| 0 <= j < y.len() ==> y[j] != sep,
    ensures
        spec_split(x + seq![sep] + y, sep) == spec_split(x, sep).push(y),
{
    lemma_split_rec_snoc(x, sep, y, Seq::empty(), Seq::empty());
}

proof fn lemma_split_rec_snoc(
    x: Seq<char>,
    sep: char,
    y: Seq<char>,
    cur: Seq<char>,
    acc: Seq<Seq<char>>,
)
    requires
        forall|j: int| 0 <= j < y.len() ==> y[j] != sep,
    ensures
        split_rec(x + seq![sep] + y, sep, cur, acc) == split_rec(x, sep, cur, acc).push(y),
    decreases x.len(),
{
    let s = x + seq![sep] + y;
    if x.len() == 0 {
        assert(s[0] == sep);
        assert(s.drop_first() =~= y);
        lemma_split_rec_no_sep(y, sep, Seq::empty(), acc.push(cur));
        assert(Seq::<char>::empty() + y =~= y);
    } else {
        assert(s[0] == x[0]);
        assert(s.drop_first() =~= x.drop_first() + seq![sep] + y);
        assert(forall|j: int| 0 <= j < x.drop_first().len() ==> x.drop_first()[j] == x[j + 1]);
        if x[0] == sep {
            lemma_split_rec_snoc(x.drop_first(), sep, y, Seq::empty(), acc.push(cur));
        } else {
            lemma_split_rec_snoc(x.drop_first(), sep, y, cur.push(x[0]), acc);
        }
    }
}

/// Index of the first occurrence of `c` in `s`, or -1.
pub open spec fn char_index(s: Seq<char>, c: char) -> int
    decreases s.len(),
{
    if s.len() == 0 {
        -1
    } else if s[0] == c {
        0
    } else {
        let r = char_index(s.drop_first(), c);
        if r == -1 {
            -1
        } else {
            r + 1
        }
    }
}

pub proof fn lemma_char_index(s: Seq<char>, c: char)
    ensures
        -1 <= char_index(s, c) < s.len(),
        char_index(s, c) >= 0 ==> s[char_index(s, c)] == c,
        forall|j: int|
            0 <= j < (if char_index(s, c) >= 0 {
                char_index(s, c)
            } else {
                s.len() as int
            }) ==> s[j] != c,
    decreases s.len(),
{
    if s.len() > 0 && s[0] != c {
        lemma_char_index(s.drop_first(), c);
        assert(forall|j: int| 1 <= j < s.len() ==> s[j] == s.drop_first()[j - 1]);
    }
}

/// Position of the first `c` in `s`, if any.
pub fn find_char(s: &Vec<char>, c: char) -> (r: Option<usize>)
    ensures
        match r {
            Some(i) => char_index(s@, c) == i,
            None => char_index(s@, c) == -1,
        },
{
    proof {
        lemma_char_index(s@, c);
    }
    let mut i: usize = 0;
    while i < s.len()
        invariant
            0 <= i <= s.len(),
            forall|j: int| 0 <= j < i ==> s@[j] != c,
            -1 <= char_index(s@, c) < s@.len(),
            char_index(s@, c) >= 0 ==> s@[char_index(s@, c)] == c,
            forall|j: int|
                0 <= j < (if char_index(s@, c) >= 0 {
                    char_index(s@, c)
                } else {
                    s@.len() as int
                }) ==> s@[j] != c,
        decreases s.len() - i,
    {
        if s[i] == c {
            return Some(i);
        }
        i = i + 1;
    }
    None
}

/// The characters of `s` from `a` (inclusive) to `b` (exclusive).
pub fn subvec(s: &Vec<char>, a: usize, b: usize) -> (r: Vec<char>)
    requires
        a <= b <= s@.len(),
    ensures
        r@ == s@.subrange(a as int, b as int),
{
    let mut r: Vec<char> = Vec::new();
    let mut i: usize = a;
    while i < b
        invariant
            a <= i <= b <= s@.len(),
            r@ == s@.subrange(a as int, i as int),
        decreases b - i,
    {
        r.push(s[i]);
        assert(r@ =~= s@.subrange(a as int, i + 1 as int));
        i = i + 1;
    }
    r
}

/// Whether `p` occurs in `s` at position `at`.
pub fn starts_at(s: &Vec<char>, p: &Vec<char>, at: usize) -> (r: bool)
    requires
        at <= s@.len(),
    ensures
        r == (at + p@.len() <= s@.len() && s@.subrange(at as int, at + p@.len()) == p@),
{
    if p.len() > s.len() - at {
        return false;
    }
    let mut j: usize = 0;
    let mut all_eq = true;
    while j < p.len() && all_eq
        invariant
            0 <= j <= p.len(),
            at + p.len() <= s.len(),
            all_eq ==> s@.subrange(at as int, at + j as int) == p@.subrange(0, j as int),
            !all_eq ==> s@.subrange(at as int, at + p@.len()) != p@,
        decreases p.len() - j,
    {
        let ghost pre_s = s@.subrange(at as int, at + j as int);
        let ghost pre_p = p@.subrange(0, j as int);
        if s[at + j] != p[j] {
            all_eq = false;
            assert(s@.subrange(at as int, at + p@.len())[j as int] == s@[at + j]);
        } else {
            assert(s@.subrange(at as int, at + j + 1 as int) == pre_s.push(s@[at + j]));
            assert(p@.subrange(0, j + 1 as int) == pre_p.push(p@[j as int]));
        }
        j = j + 1;
    }
    if all_eq {
        assert(p@.subrange(0, p@.len() as int) == p@);
    }
    all_eq
}

// ---------------------------------------------------------------------------
// Appending.
// ---------------------------------------------------------------------------

/// Appends the characters of `src` to `dst`.
pub fn push_all(dst: &mut Vec<char>, src: &Vec<char>)
    ensures
        final(dst)@ == old(dst)@ + src@,
{
    let mut i: usize = 0;
    while i < src.len()
        invariant
            0 <= i <= src.len(),
            dst@ == old(dst)@ + src@.subrange(0, i as int),
        decreases src.len() - i,
    {
        dst.push(src[i]);
        assert(dst@ =~= old(dst)@ + src@.subrange(0, i + 1 as int));
        i = i + 1;
    }
    assert(dst@ =~= old(dst)@ + src@);
}

// ---------------------------------------------------------------------------
// Character replacement (the SOH <-> '|' swap of the wire form).
// ---------------------------------------------------------------------------

/// `s` with every occurrence of `from` replaced by `to`.
pub open spec fn spec_replace(s: Seq<char>, from: char, to: char) -> Seq<char> {
    s.map_values(|c: char| if c == from { to } else { c })
}

pub fn replace_chars(s: &Vec<char>, from: char, to: char) -> (r: Vec<char>)
    ensures
        r@ == spec_replace(s@, from, to),
{
    let mut r: Vec<char> = Vec::new();
    let mut i: usize = 0;
    while i < s.len()
        invariant
            0 <= i <= s.len(),
            r@ == spec_replace(s@.subrange(0, i as int), from, to),
        decreases s.len() - i,
    {
        let c = s[i];
        if c == from {
            r.push(to);
        } else {
            r.push(c);
        }
        assert(s@.subrange(0, i + 1 as int).drop_last() == s@.subrange(0, i as int));
        assert(r@ =~= spec_replace(s@.subrange(0, i + 1 as int), from, to));
        i = i + 1;
    }
    assert(s@.subrange(0, s@.len() as int) == s@);
    r
}

// ---------------------------------------------------------------------------
// Substring search.
// ---------------------------------------------------------------------------

/// `sub` occurs in `s` starting at position `i`.
pub open spec fn is_match_at(s: Seq<char>, sub: Seq<char>, i: int) -> bool {
    0 <= i && i + sub.len() <= s.len() && s.subrange(i, i + sub.len() as int) == sub
}

/// `sub` occurs somewhere in `s`.
pub open spec fn spec_contains(s: Seq<char>, sub: Seq<char>) -> bool {
    exists|i: int| is_match_at(s, sub, i)
}

pub fn contains_sub(s: &Vec<char>, sub: &Vec<char>) -> (r: bool)
    ensures
        r == spec_contains(s@, sub@),
{
    if sub.len() > s.len() {
        assert(forall|i: int| !is_match_at(s@, sub@, i));
        return false;
    }
    if sub.len() == 0 {
        assert(s@.subrange(0, 0) =~= sub@);
        assert(is_match_at(s@, sub@, 0));
        return true;
    }
    let mut i: usize = 0;
    while i <= s.len() - sub.len()
        invariant
            1 <= sub.len() <= s.len(),
            0 <= i <= s.len() - sub.len() + 1,
            forall|k: int| 0 <= k < i ==> !is_match_at(s@, sub@, k),
        decreases s.len() + 1 - sub.len() - i,
    {
        let mut j: usize = 0;
        let mut all_eq = true;
        while j < sub.len() && all_eq
            invariant
                0 <= j <= sub.len(),
                i + sub.len() <= s.len(),
                all_eq ==> s@.subrange(i as int, i + j as int) == sub@.subrange(0, j as int),
                !all_eq ==> !is_match_at(s@, sub@, i as int),
            decreases sub.len() - j,
        {
            let ghost pre_s = s@.subrange(i as int, i + j as int);
            let ghost pre_b = sub@.subrange(0, j as int);
            if s[i + j] != sub[j] {
                all_eq = false;
                assert(s@.subrange(i as int, i + sub@.len() as int)[j as int] == s@[i + j]);
            } else {
                assert(s@.subrange(i as int, i + j + 1 as int) == pre_s.push(s@[i + j]));
                assert(sub@.subrange(0, j + 1 as int) == pre_b.push(sub@[j as int]));
            }
            j = j + 1;
        }
        if all_eq {
            assert(j == sub.len());
            assert(sub@.subrange(0, sub@.len() as int) == sub@);
            assert(is_match_at(s@, sub@, i as int));
            return true;
        }
        assert(!is_match_at(s@, sub@, i as int));
        i = i + 1;
    }
    assert(forall|k: int| i <= k ==> !is_match_at(s@, sub@, k));
    false
}

/// ASCII whitespace, as list entries are trimmed.
pub open spec fn is_space(c: char) -> bool {
    c == ' ' || c == '\t' || c == '\n' || c == '\r'
}

/// `s` without leading whitespace.
pub open spec fn trim_start(s: Seq<char>) -> Seq<char>
    decreases s.len(),
{
    if s.len() > 0 && is_space(s[0]) {
        trim_start(s.drop_first())
    } else {
        s
    }
}

/// `s` without trailing whitespace.
pub open spec fn trim_end(s: Seq<char>) -> Seq<char>
    decreases s.len(),
{
    if s.len() > 0 && is_space(s.last()) {
        trim_end(s.drop_last())
    } else {
        s
    }
}

/// `s` without leading and trailing whitespace.
pub open spec fn spec_trim(s: Seq<char>) -> Seq<char> {
    trim_end(trim_start(s))
}

/// Trims leading and trailing whitespace.
pub fn trim_chars(s: &Vec<char>) -> (r: Vec<char>)
    ensures
        r@ == spec_trim(s@),
{
    let mut i: usize = 0;
    proof {
        assert(s@.subrange(0, s@.len() as int) == s@);
    }
    while i < s.len() && (s[i] == ' ' || s[i] == '\t' || s[i] == '\n' || s[i] == '\r')
        invariant
            0 <= i <= s.len(),
            trim_start(s@.subrange(i as int, s@.len() as int)) == trim_start(s@),
        decreases s.len() - i,
    {
        proof {
            let rest = s@.subrange(i as int, s@.len() as int);
            assert(rest[0] == s@[i as int]);
            assert(rest.drop_first() == s@.subrange(i + 1, s@.len() as int));
        }
        i = i + 1;
    }
    proof {
        let rest = s@.subrange(i as int, s@.len() as int);
        if rest.len() > 0 {
            assert(rest[0] == s@[i as int]);
        }
        assert(trim_start(rest) == rest);
    }
    let mut j: usize = s.len();
    while j > i && (s[j - 1] == ' ' || s[j - 1] == '\t' || s[j - 1] == '\n' || s[j - 1] == '\r')
        invariant
            i <= j <= s.len(),
            trim_start(s@) == s@.subrange(i as int, s@.len() as int),
            trim_end(s@.subrange(i as int, j as int)) == trim_end(trim_start(s@)),
        decreases j,
    {
        proof {
            let cur = s@.subrange(i as int, j as int);
            assert(cur.last() == s@[j - 1]);
            assert(cur.drop_last() == s@.subrange(i as int, j - 1));
        }
        j = j - 1;
    }
    proof {
        let cur = s@.subrange(i as int, j as int);
        if cur.len() > 0 {
            assert(cur.last() == s@[j - 1]);
        }
        assert(trim_end(cur) == cur);
    }
    subvec(s, i, j)
}

// ---------------------------------------------------------------------------
// ASCII case folding (enum descriptions are matched case-insensitively).
// ---------------------------------------------------------------------------

/// `c` with an ASCII lowercase letter mapped to its uppercase form.
pub open spec fn spec_upper_char(c: char) -> char {
    if 'a' <= c <= 'z' {
        ((c as u8) - 32) as char
    } else {
        c
    }
}

/// `s` with ASCII lowercase letters mapped to uppercase.
pub open spec fn spec_upper(s: Seq<char>) -> Seq<char> {
    s.map_values(|c: char| spec_upper_char(c))
}

pub fn upper_chars(s: &Vec<char>) -> (r: Vec<char>)
    ensures
        r@ == spec_upper(s@),
{
    let mut r: Vec<char> = Vec::new();
    let mut i: usize = 0;
    while i < s.len()
        invariant
            0 <= i <= s.len(),
            r@ == spec_upper(s@.subrange(0, i as int)),
        decreases s.len() - i,
    {
        let c = s[i];
        if 'a' <= c && c <= 'z' {
            r.push(((c as u8) - 32) as char);
        } else {
            r.push(c);
        }
        assert(s@.subrange(0, i + 1 as int).drop_last() == s@.subrange(0, i as int));
        assert(r@ =~= spec_upper(s@.subrange(0, i + 1 as int)));
        i = i + 1;
    }
    assert(s@.subrange(0, s@.len() as int) == s@);
    r
}

// ---------------------------------------------------------------------------
// UTF-8 byte measures: the wire format counts and sums bytes, not chars.
// ---------------------------------------------------------------------------

/// Number of bytes in the UTF-8 encoding of `s`.
pub open spec fn byte_len(s: Seq<char>) -> nat {
    encode_utf8(s).len()
}

/// Sum of the bytes of `bs`.
pub open spec fn byte_sum(bs: Seq<u8>) -> nat
    decreases bs.len(),
{
    if bs.len() == 0 {
        0
    } else {
        (bs[0] + byte_sum(bs.drop_first())) as nat
    }
}

/// Sum of the UTF-8 bytes of `s`.
pub open spec fn char_byte_sum(s: Seq<char>) -> nat {
    byte_sum(encode_utf8(s))
}

pub proof fn lemma_byte_sum_concat(a: Seq<u8>, b: Seq<u8>)
    ensures
        byte_sum(a + b) == byte_sum(a) + byte_sum(b),
    decreases a.len(),
{
    if a.len() == 0 {
        assert(a + b == b);
    } else {
        assert((a + b).drop_first() == a.drop_first() + b);
        lemma_byte_sum_concat(a.drop_first(), b);
    }
}

pub proof fn lemma_encode_utf8_concat(a: Seq<char>, b: Seq<char>)
    ensures
        encode_utf8(a + b) == encode_utf8(a) + encode_utf8(b),
    decreases a.len(),
{
    if a.len() == 0 {
        assert(a + b == b);
        assert(encode_utf8(a) + encode_utf8(b) =~= encode_utf8(b));
    } else {
        assert((a + b).drop_first() == a.drop_first() + b);
        lemma_encode_utf8_concat(a.drop_first(), b);
        assert(encode_utf8(a + b) =~= encode_utf8(a) + encode_utf8(b));
    }
}

/// The number of bytes of one character's UTF-8 encoding, from its scalar value.
pub fn char_utf8_len(c: char) -> (r: usize)
    ensures
        r == encode_scalar(c as u32).len(),
        1 <= r <= 4,
{
    proof {
        vstd::utf8::char_is_scalar(c);
    }
    let u = c as u32;
    if u < 0x80 {
        1
    } else if u < 0x800 {
        2
    } else if u < 0x10000 {
        3
    } else {
        4
    }
}

/// The bytes of one character's UTF-8 encoding, from its scalar value.
pub fn char_utf8_bytes(c: char) -> (r: Vec<u8>)
    ensures
        r@ == encode_scalar(c as u32),
{
    proof {
        vstd::utf8::char_is_scalar(c);
    }
    let u = c as u32;
    let mut r: Vec<u8> = Vec::new();
    if u < 0x80 {
        r.push((u & 0x7F) as u8);
        assert(r@ =~= encode_scalar(c as u32));
    } else if u < 0x800 {
        r.push(0xC0u8 | (((u >> 6) & 0x1F) as u8));
        r.push(0x80u8 | ((u & 0x3F) as u8));
        assert(r@ =~= encode_scalar(c as u32));
    } else if u < 0x10000 {
        r.push(0xE0u8 | (((u >> 12) & 0x0F) as u8));
        r.push(0x80u8 | (((u >> 6) & 0x3F) as u8));
        r.push(0x80u8 | ((u & 0x3F) as u8));
        assert(r@ =~= encode_scalar(c as u32));
    } else {
        r.push(0xF0u8 | (((u >> 18) & 0x7) as u8));
        r.push(0x80u8 | (((u >> 12) & 0x3F) as u8));
        r.push(0x80u8 | (((u >> 6) & 0x3F) as u8));
        r.push(0x80u8 | ((u & 0x3F) as u8));
        assert(r@ =~= encode_scalar(c as u32));
    }
    r
}

/// Byte length of `s` in UTF-8, saturating at `u64::MAX`.
pub fn utf8_len_u64(s: &Vec<char>) -> (r: u64)
    ensures
        r == if byte_len(s@) <= u64::MAX {
            byte_len(s@) as u64
        } else {
            u64::MAX
        },
{
    let mut r: u64 = 0;
    let mut i: usize = 0;
    while i < s.len()
        invariant
            0 <= i <= s.len(),
            r == if byte_len(s@.subrange(0, i as int)) <= u64::MAX {
                byte_len(s@.subrange(0, i as int)) as u64
            } else {
                u64::MAX
            },
        decreases s.len() - i,
    {
        let l = char_utf8_len(s[i]);
        proof {
            assert(s@.subrange(0, i + 1 as int) == s@.subrange(0, i as int) + seq![s@[i as int]]);
            lemma_encode_utf8_concat(s@.subrange(0, i as int), seq![s@[i as int]]);
            assert(encode_utf8(seq![s@[i as int]]).len() == encode_scalar(
                s@[i as int] as u32,
            ).len() + encode_utf8(Seq::<char>::empty()).len()) by {
                assert(seq![s@[i as int]].drop_first() =~= Seq::<char>::empty());
            }
        }
        if r > u64::MAX - (l as u64) {
            r = u64::MAX;
        } else {
            r = r + (l as u64);
        }
        i = i + 1;
    }
    assert(s@.subrange(0, s@.len() as int) == s@);
    r
}

/// Sum of the UTF-8 bytes of `s`, reduced modulo 256.
pub fn utf8_sum_mod256(s: &Vec<char>) -> (r: u64)
    ensures
        r == char_byte_sum(s@) % 256,
{
    let mut r: u64 = 0;
    let mut i: usize = 0;
    while i < s.len()
        invariant
            0 <= i <= s.len(),
            r == char_byte_sum(s@.subrange(0, i as int)) % 256,
        decreases s.len() - i,
    {
        let bs = char_utf8_bytes(s[i]);
        let mut j: usize = 0;
        while j < bs.len()
            invariant
                0 <= j <= bs.len(),
                r == (char_byte_sum(s@.subrange(0, i as int)) + byte_sum(
                    bs@.subrange(0, j as int),
                )) % 256,
                bs@ == encode_scalar(s@[i as int] as u32),
                i < s.len(),
            decreases bs.len() - j,
        {
            let ghost pre = bs@.subrange(0, j as int);
            let b = bs[j];
            proof {
                assert(bs@.subrange(0, j + 1 as int) == pre.push(b));
                lemma_byte_sum_push(pre, b);
                let total = char_byte_sum(s@.subrange(0, i as int)) + byte_sum(pre);
                vstd::arithmetic::div_mod::lemma_add_mod_noop(total as int, b as int, 256);
                assert((total % 256 + (b as int) % 256) % 256 == (total + b) % 256);
                assert((b as int) % 256 == b as int);
            }
            r = (r + (b as u64)) % 256;
            j = j + 1;
        }
        proof {
            assert(bs@.subrange(0, bs@.len() as int) == bs@);
            assert(s@.subrange(0, i + 1 as int) == s@.subrange(0, i as int) + seq![s@[i as int]]);
            lemma_encode_utf8_concat(s@.subrange(0, i as int), seq![s@[i as int]]);
            assert(encode_utf8(seq![s@[i as int]]) =~= encode_scalar(s@[i as int] as u32)) by {
                assert(seq![s@[i as int]].drop_first() =~= Seq::<char>::empty());
                assert(encode_scalar(s@[i as int] as u32) + encode_utf8(Seq::<char>::empty())
                    =~= encode_scalar(s@[i as int] as u32));
            }
            lemma_byte_sum_concat(
                encode_utf8(s@.subrange(0, i as int)),
                encode_scalar(s@[i as int] as u32),
            );
        }
        i = i + 1;
    }
    assert(s@.subrange(0, s@.len() as int) == s@);
    r
}

pub proof fn lemma_byte_sum_push(bs: Seq<u8>, b: u8)
    ensures
        byte_sum(bs.push(b)) == byte_sum(bs) + b,
{
    assert(bs.push(b) == bs + seq![b]);
    lemma_byte_sum_concat(bs, seq![b]);
    assert(byte_sum(seq![b]) == b) by {
        assert(seq![b].drop_first() =~= Seq::<u8>::empty());
        assert(byte_sum(Seq::<u8>::empty()) == 0);
    }
}

} // verus!
