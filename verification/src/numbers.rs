//! Decimal text for the numeric fields of the wire format: rendering
//! counters and lengths as digit strings, and reading tag numbers and
//! sequence numbers back out of them.
use vstd::prelude::*;

verus! {

/// The digit character for a value below ten.
pub open spec fn digit_char(d: nat) -> char
    recommends
        d < 10,
{
    ((48 + d) as u8) as char
}

/// The decimal digit string of `n`, without sign or leading zeros
/// (a single `'0'` for zero).
pub open spec fn spec_digits(n: nat) -> Seq<char>
    decreases n,
{
    if n < 10 {
        seq![digit_char(n)]
    } else {
        spec_digits(n / 10) + seq![digit_char(n % 10)]
    }
}

pub proof fn lemma_spec_digits_len(n: nat)
    ensures
        1 <= spec_digits(n).len(),
        forall|i: int|
            0 <= i < spec_digits(n).len() ==> '0' <= #[trigger] spec_digits(n)[i] <= '9',
    decreases n,
{
    if n >= 10 {
        lemma_spec_digits_len(n / 10);
    }
}

/// Renders `n` in decimal.
pub fn u64_to_chars(n: u64) -> (r: Vec<char>)
    ensures
        r@ == spec_digits(n as nat),
{
    if n == 0 {
        let mut r: Vec<char> = Vec::new();
        r.push('0');
        assert(r@ =~= spec_digits(0nat));
        return r;
    }
    let mut rev: Vec<char> = Vec::new();
    let mut m: u64 = n;
    while m > 0
        invariant
            m > 0 ==> spec_digits(n as nat) == spec_digits(m as nat) + rev@.reverse(),
            m == 0 ==> spec_digits(n as nat) == rev@.reverse(),
        decreases m,
    {
        let d: u8 = (m % 10) as u8;
        let c: char = (48 + d) as char;
        let ghost prev = m;
        let ghost prev_rev = rev@;
        rev.push(c);
        m = m / 10;
        proof {
            assert(rev@.reverse() =~= seq![c] + prev_rev.reverse());
            if prev >= 10 {
                assert(spec_digits(prev as nat) == spec_digits((prev / 10) as nat) + seq![
                    digit_char((prev % 10) as nat),
                ]);
                assert(spec_digits(m as nat) + rev@.reverse() =~= spec_digits(prev as nat)
                    + prev_rev.reverse());
            } else {
                assert(spec_digits(prev as nat) == seq![digit_char(prev as nat)]);
                assert(rev@.reverse() =~= spec_digits(prev as nat) + prev_rev.reverse());
            }
        }
    }
    let mut r: Vec<char> = Vec::new();
    let mut i: usize = rev.len();
    while i > 0
        invariant
            0 <= i <= rev.len(),
            r@ == rev@.subrange(i as int, rev@.len() as int).reverse(),
        decreases i,
    {
        i = i - 1;
        let ghost pre = r@;
        r.push(rev[i]);
        proof {
            let tail = rev@.subrange(i as int, rev@.len() as int);
            assert(tail.reverse() =~= pre.push(rev@[i as int]));
        }
    }
    proof {
        assert(rev@.subrange(0, rev@.len() as int) == rev@);
    }
    r
}

/// Renders `n` as exactly three digits, zero padded; `n` is below 1000.
pub open spec fn spec_pad3(n: nat) -> Seq<char>
    recommends
        n < 1000,
{
    seq![digit_char(n / 100), digit_char((n / 10) % 10), digit_char(n % 10)]
}

pub fn u64_to_pad3(n: u64) -> (r: Vec<char>)
    requires
        n < 1000,
    ensures
        r@ == spec_pad3(n as nat),
{
    let mut r: Vec<char> = Vec::new();
    r.push((48 + (n / 100) as u8) as char);
    r.push((48 + ((n / 10) % 10) as u8) as char);
    r.push((48 + (n % 10) as u8) as char);
    assert(r@ =~= spec_pad3(n as nat));
    r
}

/// `c` is a decimal digit.
pub open spec fn is_digit(c: char) -> bool {
    '0' <= c <= '9'
}

/// Numeric value of a digit character.
pub open spec fn digit_val(c: char) -> nat
    recommends
        is_digit(c),
{
    (c as nat - 48) as nat
}

/// Value of a digit string read left to right.
pub open spec fn digits_val(s: Seq<char>) -> nat
    decreases s.len(),
{
    if s.len() == 0 {
        0
    } else {
        digits_val(s.drop_last()) * 10 + digit_val(s.last())
    }
}

/// The number `s` denotes: defined when `s` is non-empty, all digits,
/// and the value fits in a `u64`.
pub open spec fn spec_parse_u64(s: Seq<char>) -> Option<u64> {
    if s.len() > 0 && (forall|i: int| 0 <= i < s.len() ==> is_digit(#[trigger] s[i]))
        && digits_val(s) <= u64::MAX {
        Some(digits_val(s) as u64)
    } else {
        None
    }
}

/// Reads a decimal `u64`; rejects anything but digits, the empty string,
/// and values that overflow.
pub fn parse_u64(s: &Vec<char>) -> (r: Option<u64>)
    ensures
        r == spec_parse_u64(s@),
{
    if s.len() == 0 {
        return None;
    }
    let mut acc: u64 = 0;
    let mut i: usize = 0;
    while i < s.len()
        invariant
            0 <= i <= s.len(),
            s@.len() > 0,
            forall|k: int| 0 <= k < i ==> is_digit(#[trigger] s@[k]),
            acc == digits_val(s@.subrange(0, i as int)),
        decreases s.len() - i,
    {
        let c = s[i];
        if c < '0' || c > '9' {
            assert(spec_parse_u64(s@) is None);
            return None;
        }
        let d: u64 = ((c as u32) - 48) as u64;
        proof {
            assert(s@.subrange(0, i + 1 as int).drop_last() == s@.subrange(0, i as int));
            assert(s@.subrange(0, i + 1 as int).last() == c);
        }
        if acc > (u64::MAX - d) / 10 {
            proof {
                let full = s@;
                lemma_digits_val_monotone(s@.subrange(0, i + 1 as int), s@);
                assert(digits_val(s@.subrange(0, i + 1 as int)) > u64::MAX) by (nonlinear_arith)
                    requires
                        digits_val(s@.subrange(0, i + 1 as int)) == acc * 10 + d,
                        acc > (u64::MAX as nat - d) / 10,
                        d < 10,
                ;
                assert(digits_val(s@) > u64::MAX);
            }
            return None;
        }
        acc = acc * 10 + d;
        i = i + 1;
    }
    proof {
        assert(s@.subrange(0, s@.len() as int) == s@);
    }
    Some(acc)
}

/// A longer digit string never denotes a smaller value.
proof fn lemma_digits_val_monotone(p: Seq<char>, s: Seq<char>)
    requires
        p.len() <= s.len(),
        p == s.subrange(0, p.len() as int),
    ensures
        digits_val(p) <= digits_val(s),
    decreases s.len() - p.len(),
{
    if p.len() < s.len() {
        let q = s.subrange(0, p.len() as int + 1);
        assert(q.drop_last() =~= p);
        assert(digits_val(q) == digits_val(p) * 10 + digit_val(q.last()));
        assert(digits_val(p) * 10 >= digits_val(p)) by (nonlinear_arith);
        lemma_digits_val_monotone(q, s);
    } else {
        assert(p =~= s);
    }
}

/// The digit character of `d` denotes `d`.
pub proof fn lemma_digit_char_val(d: nat)
    requires
        d < 10,
    ensures
        is_digit(digit_char(d)),
        digit_val(digit_char(d)) == d,
{
    assert(digit_char(d) as int == 48 + d);
}

/// The three zero-padded digits of `n` denote `n`.
pub proof fn lemma_pad3_val(n: nat)
    requires
        n < 1000,
    ensures
        digits_val(spec_pad3(n)) == n,
        forall|i: int| 0 <= i < 3 ==> is_digit(#[trigger] spec_pad3(n)[i]),
{
    lemma_digit_char_val(n / 100);
    lemma_digit_char_val((n / 10) % 10);
    lemma_digit_char_val(n % 10);
    let p = spec_pad3(n);
    let d1 = seq![digit_char(n / 100)];
    let d2 = seq![digit_char(n / 100), digit_char((n / 10) % 10)];
    assert(digits_val(d1) == n / 100) by {
        assert(d1.drop_last() =~= Seq::<char>::empty());
        assert(digits_val(Seq::<char>::empty()) == 0);
        assert(d1.last() == digit_char(n / 100));
    }
    assert(digits_val(d2) == (n / 100) * 10 + (n / 10) % 10) by {
        assert(d2.drop_last() =~= d1);
        assert(d2.last() == digit_char((n / 10) % 10));
    }
    assert(digits_val(p) == ((n / 100) * 10 + (n / 10) % 10) * 10 + n % 10) by {
        assert(p.drop_last() =~= d2);
        assert(p.last() == digit_char(n % 10));
    }
    assert(((n / 100) * 10 + (n / 10) % 10) * 10 + n % 10 == n) by (nonlinear_arith)
        requires
            n < 1000,
    ;
}

/// Reads a decimal `u32` the same way.
pub fn parse_u32(s: &Vec<char>) -> (r: Option<u32>)
    ensures
        r == match spec_parse_u64(s@) {
            Some(v) if v <= u32::MAX => Some(v as u32),
            _ => None::<u32>,
        },
{
    match parse_u64(s) {
        Some(v) => if v <= 0xFFFF_FFFFu64 {
            Some(v as u32)
        } else {
            None
        },
        None => None,
    }
}

} // verus!
