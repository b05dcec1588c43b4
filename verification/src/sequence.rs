//! The session's incoming and outgoing sequence counters, and the JSON
//! record they persist as. The store itself is pure state: reading and
//! writing the backing file (under its exclusive lock) happens outside the
//! library, with `to_json` and `from_json` carrying the record across.
use vstd::prelude::*;

verus! {

use crate::numbers::spec_digits;
use crate::numbers::u64_to_chars;
use crate::numbers::spec_parse_u64;
use crate::numbers::parse_u64;
use crate::numbers::is_digit;
use crate::numbers::digit_char;
use crate::numbers::digits_val;
use crate::strings::str_to_chars;
use crate::strings::chars_to_string;
use crate::strings::subvec;
use crate::strings::starts_at;
use crate::strings::push_all;

/// Whitespace as the record reader skips it.
pub open spec fn is_ws(c: char) -> bool {
    c == ' ' || c == '\t' || c == '\n' || c == '\r'
}

/// `s` without its whitespace characters.
pub open spec fn strip_ws(s: Seq<char>) -> Seq<char>
    decreases s.len(),
{
    if s.len() == 0 {
        Seq::empty()
    } else {
        (if is_ws(s[0]) {
            Seq::empty()
        } else {
            seq![s[0]]
        }) + strip_ws(s.drop_first())
    }
}

/// Number of leading digits of `s`.
pub open spec fn digit_prefix_len(s: Seq<char>) -> int
    decreases s.len(),
{
    if s.len() > 0 && is_digit(s[0]) {
        1 + digit_prefix_len(s.drop_first())
    } else {
        0
    }
}

pub proof fn lemma_digit_prefix_len(s: Seq<char>)
    ensures
        0 <= digit_prefix_len(s) <= s.len(),
        forall|j: int| 0 <= j < digit_prefix_len(s) ==> is_digit(s[j]),
        digit_prefix_len(s) < s.len() ==> !is_digit(s[digit_prefix_len(s)]),
    decreases s.len(),
{
    if s.len() > 0 && is_digit(s[0]) {
        lemma_digit_prefix_len(s.drop_first());
        assert(forall|j: int| 1 <= j < s.len() ==> s[j] == s.drop_first()[j - 1]);
    }
}

/// The number at the head of `s` and what follows it, when `s` starts with
/// digits denoting a `u64`.
pub open spec fn take_number(s: Seq<char>) -> Option<(u64, Seq<char>)> {
    let k = digit_prefix_len(s);
    match spec_parse_u64(s.subrange(0, k)) {
        Some(v) => Some((v, s.subrange(k, s.len() as int))),
        None => None,
    }
}

/// The JSON text of a counter record.
pub open spec fn spec_record_json(incoming: u64, outgoing: u64) -> Seq<char> {
    "{\"incoming\":"@ + spec_digits(incoming as nat) + ",\"outgoing\":"@ + spec_digits(
        outgoing as nat,
    ) + "}"@
}

/// The counters a stored record denotes: whitespace is skipped, then the
/// record must have exactly the shape `to_json` writes.
pub open spec fn spec_parse_record(s: Seq<char>) -> Option<(u64, u64)> {
    let t = strip_ws(s);
    let pre_in = "{\"incoming\":"@;
    let pre_out = ",\"outgoing\":"@;
    if t.len() >= pre_in.len() && t.subrange(0, pre_in.len() as int) == pre_in {
        match take_number(t.subrange(pre_in.len() as int, t.len() as int)) {
            None => None,
            Some((inc, r1)) => {
                if r1.len() >= pre_out.len() && r1.subrange(0, pre_out.len() as int) == pre_out {
                    match take_number(r1.subrange(pre_out.len() as int, r1.len() as int)) {
                        None => None,
                        Some((out, r2)) => {
                            if r2 == "}"@ {
                                Some((inc, out))
                            } else {
                                None
                            }
                        },
                    }
                } else {
                    None
                }
            },
        }
    } else {
        None
    }
}

/// `s` without whitespace, executed.
fn strip_ws_chars(s: &Vec<char>) -> (r: Vec<char>)
    ensures
        r@ == strip_ws(s@),
{
    let mut r: Vec<char> = Vec::new();
    proof {
        assert(s@.subrange(0, s@.len() as int) == s@);
    }
    let mut i: usize = 0;
    while i < s.len()
        invariant
            0 <= i <= s.len(),
            r@ + strip_ws(s@.subrange(i as int, s@.len() as int)) == strip_ws(s@),
        decreases s.len() - i,
    {
        let ghost rest = s@.subrange(i as int, s@.len() as int);
        proof {
            assert(rest[0] == s@[i as int]);
            assert(rest.drop_first() == s@.subrange(i + 1, s@.len() as int));
        }
        let ghost pre = r@;
        let c = s[i];
        if c == ' ' || c == '\t' || c == '\n' || c == '\r' {
            proof {
                assert(pre + (Seq::<char>::empty() + strip_ws(rest.drop_first())) =~= pre
                    + strip_ws(rest.drop_first()));
            }
        } else {
            r.push(c);
            proof {
                assert(pre + (seq![s@[i as int]] + strip_ws(rest.drop_first())) =~= (pre + seq![
                    s@[i as int],
                ]) + strip_ws(rest.drop_first()));
            }
        }
        i = i + 1;
    }
    proof {
        assert(s@.subrange(i as int, s@.len() as int).len() == 0);
        assert(r@ + Seq::<char>::empty() =~= r@);
    }
    r
}

/// The leading digit count of `s` from position `from`, executed.
#[verifier::loop_isolation(false)]
fn digit_prefix(s: &Vec<char>, from: usize) -> (r: usize)
    requires
        from <= s@.len(),
    ensures
        r == digit_prefix_len(s@.subrange(from as int, s@.len() as int)),
        from + r <= s@.len(),
{
    let ghost tail = s@.subrange(from as int, s@.len() as int);
    proof {
        lemma_digit_prefix_len(tail);
        assert(forall|k: int| 0 <= k < tail.len() ==> tail[k] == s@[from + k]);
    }
    let mut i: usize = from;
    while i < s.len() && '0' <= s[i] && s[i] <= '9'
        invariant
            from <= i <= s@.len(),
            forall|j: int| from <= j < i ==> is_digit(s@[j]),
            i - from <= digit_prefix_len(tail),
        decreases s.len() - i,
    {
        proof {
            let dpl = digit_prefix_len(tail);
            if i + 1 - from > dpl {
                assert(is_digit(s@[from + dpl]));
                assert(!is_digit(tail[dpl]));
                assert(false);
            }
        }
        i = i + 1;
    }
    proof {
        let dpl = digit_prefix_len(tail);
        if i - from < dpl {
            assert(is_digit(tail[i - from]));
            assert(is_digit(s@[i as int]));
            assert(i < s@.len());
            assert(false);
        }
    }
    i - from
}

/// The durable incoming/outgoing sequence counters of one session.
pub struct SequenceNumberStore {
    incoming: u64,
    outgoing: u64,
}

impl SequenceNumberStore {
    pub closed spec fn spec_incoming(&self) -> u64 {
        self.incoming
    }

    pub closed spec fn spec_outgoing(&self) -> u64 {
        self.outgoing
    }

    /// A fresh store: both counters start at 1.
    pub fn new() -> (r: Self)
        ensures
            r.spec_incoming() == 1 && r.spec_outgoing() == 1,
    {
        SequenceNumberStore { incoming: 1, outgoing: 1 }
    }

    /// The store a persisted record denotes. The reader skips whitespace
    /// but otherwise accepts only the shape `to_json` writes, with
    /// `incoming` before `outgoing`; any other record — including one
    /// hand-edited into a different key order — falls back to fresh
    /// counters, the same fallback a corrupt file gets.
    #[verifier::loop_isolation(false)]
    #[verifier::rlimit(100)]
    #[verifier::spinoff_prover]
    pub fn from_json(content: &str) -> (r: Self)
        ensures
            match spec_parse_record(content@) {
                Some((i, o)) => r.spec_incoming() == i && r.spec_outgoing() == o,
                None => r.spec_incoming() == 1 && r.spec_outgoing() == 1,
            },
    {
        let chars = str_to_chars(content);
        let t = strip_ws_chars(&chars);
        let tlen = t.len();
        let ghost tv = strip_ws(content@);
        proof {
            assert(tv.len() == tlen);
        }
        let pre_in = str_to_chars("{\"incoming\":");
        let pre_out = str_to_chars(",\"outgoing\":");
        if !starts_at(&t, &pre_in, 0) {
            return SequenceNumberStore { incoming: 1, outgoing: 1 };
        }
        let ghost r0 = tv.subrange(pre_in@.len() as int, tv.len() as int);
        let d1 = digit_prefix(&t, pre_in.len());
        proof {
            assert(pre_in@.len() + d1 <= t@.len());
        }
        proof {
            assert(forall|k: int| 0 <= k < r0.len() ==> r0[k] == tv[pre_in@.len() + k]);
            assert(r0 =~= tv.subrange(pre_in@.len() as int, tv.len() as int));
            assert(digit_prefix_len(r0) == d1) by {
                assert(r0 == t@.subrange(pre_in@.len() as int, t@.len() as int));
            }
        }
        let end1 = pre_in.len() + d1;
        let digits1 = subvec(&t, pre_in.len(), end1);
        proof {
            assert(digits1@ =~= r0.subrange(0, d1 as int));
        }
        let inc = match parse_u64(&digits1) {
            Some(v) => v,
            None => {
                proof {
                    assert(take_number(r0) is None);
                }
                return SequenceNumberStore { incoming: 1, outgoing: 1 };
            },
        };
        let ghost r1 = r0.subrange(d1 as int, r0.len() as int);
        let start2 = pre_in.len() + d1;
        proof {
            assert(take_number(r0) == Some((inc, r1)));
            assert(r1 =~= tv.subrange(start2 as int, tv.len() as int));
        }
        if !starts_at(&t, &pre_out, start2) {
            proof {
                if r1.len() >= pre_out@.len() {
                    assert(r1.subrange(0, pre_out@.len() as int) =~= t@.subrange(
                        start2 as int,
                        start2 + pre_out@.len(),
                    ));
                }
            }
            return SequenceNumberStore { incoming: 1, outgoing: 1 };
        }
        proof {
            assert(r1.subrange(0, pre_out@.len() as int) =~= t@.subrange(
                start2 as int,
                start2 + pre_out@.len(),
            ));
        }
        proof {
            assert(start2 + pre_out@.len() <= t@.len());
        }
        let start3 = start2 + pre_out.len();
        let ghost r1b = r1.subrange(pre_out@.len() as int, r1.len() as int);
        let d2 = digit_prefix(&t, start3);
        proof {
            assert(r1b =~= tv.subrange(start3 as int, tv.len() as int));
            assert(digit_prefix_len(r1b) == d2) by {
                assert(r1b == t@.subrange(start3 as int, t@.len() as int));
            }
        }
        proof {
            assert(start3 + d2 <= t@.len());
        }
        let end2 = start3 + d2;
        let digits2 = subvec(&t, start3, end2);
        proof {
            assert(digits2@ =~= r1b.subrange(0, d2 as int));
        }
        let out = match parse_u64(&digits2) {
            Some(v) => v,
            None => {
                proof {
                    assert(take_number(r1b) is None);
                }
                return SequenceNumberStore { incoming: 1, outgoing: 1 };
            },
        };
        let ghost r2 = r1b.subrange(d2 as int, r1b.len() as int);
        let start4 = start3 + d2;
        proof {
            assert(take_number(r1b) == Some((out, r2)));
            assert(r2 =~= tv.subrange(start4 as int, tv.len() as int));
            reveal_strlit("}");
        }
        if t.len() - start4 == 1 && t[start4] == '}' {
            proof {
                assert(r2.len() == 1 && r2[0] == '}');
                assert(r2 =~= "}"@);
            }
            SequenceNumberStore { incoming: inc, outgoing: out }
        } else {
            proof {
                if r2 == "}"@ {
                    assert(r2.len() == 1);
                    assert(r2[0] == '}');
                    assert(tv[start4 as int] == '}');
                    assert(false);
                }
            }
            SequenceNumberStore { incoming: 1, outgoing: 1 }
        }
    }

    /// The JSON record of the current counters, as persisted.
    pub fn to_json(&self) -> (r: String)
        ensures
            r@ == spec_record_json(self.spec_incoming(), self.spec_outgoing()),
    {
        let mut out = str_to_chars("{\"incoming\":");
        let d1 = u64_to_chars(self.incoming);
        push_all(&mut out, &d1);
        let mid = str_to_chars(",\"outgoing\":");
        push_all(&mut out, &mid);
        let d2 = u64_to_chars(self.outgoing);
        push_all(&mut out, &d2);
        let end = str_to_chars("}");
        push_all(&mut out, &end);
        let r = chars_to_string(&out);
        proof {
            assert(r@ =~= spec_record_json(self.spec_incoming(), self.spec_outgoing()));
        }
        r
    }

    pub fn get_incoming(&self) -> (r: u64)
        ensures
            r == self.spec_incoming(),
    {
        self.incoming
    }

    pub fn get_outgoing(&self) -> (r: u64)
        ensures
            r == self.spec_outgoing(),
    {
        self.outgoing
    }

    /// One accepted inbound message advances the incoming counter by
    /// exactly one; the outgoing counter does not move.
    pub fn increment_incoming(&mut self)
        requires
            old(self).spec_incoming() < u64::MAX,
        ensures
            final(self).spec_incoming() == old(self).spec_incoming() + 1,
            final(self).spec_outgoing() == old(self).spec_outgoing(),
    {
        self.incoming = self.incoming + 1;
    }

    /// One sent outbound message advances the outgoing counter by exactly
    /// one; the incoming counter does not move.
    pub fn increment_outgoing(&mut self)
        requires
            old(self).spec_outgoing() < u64::MAX,
        ensures
            final(self).spec_outgoing() == old(self).spec_outgoing() + 1,
            final(self).spec_incoming() == old(self).spec_incoming(),
    {
        self.outgoing = self.outgoing + 1;
    }

    pub fn set_incoming(&mut self, new_seq: u64)
        ensures
            final(self).spec_incoming() == new_seq,
            final(self).spec_outgoing() == old(self).spec_outgoing(),
    {
        self.incoming = new_seq;
    }

    pub fn set_outgoing(&mut self, new_seq: u64)
        ensures
            final(self).spec_outgoing() == new_seq,
            final(self).spec_incoming() == old(self).spec_incoming(),
    {
        self.outgoing = new_seq;
    }
}

/// Counters after a run of increments: `true` bumps the incoming counter,
/// `false` the outgoing one.
pub open spec fn apply_increments(incoming: int, outgoing: int, ops: Seq<bool>) -> (int, int)
    decreases ops.len(),
{
    if ops.len() == 0 {
        (incoming, outgoing)
    } else if ops[0] {
        apply_increments(incoming + 1, outgoing, ops.drop_first())
    } else {
        apply_increments(incoming, outgoing + 1, ops.drop_first())
    }
}

/// Number of `true` entries.
pub open spec fn count_true(ops: Seq<bool>) -> int
    decreases ops.len(),
{
    if ops.len() == 0 {
        0
    } else {
        (if ops[0] {
            1int
        } else {
            0int
        }) + count_true(ops.drop_first())
    }
}

/// Sequence monotonicity: under any interleaving of incoming and outgoing
/// increments, each final counter equals its initial value plus exactly the
/// number of increments aimed at it.
pub proof fn lemma_sequence_monotonicity(incoming: int, outgoing: int, ops: Seq<bool>)
    ensures
        apply_increments(incoming, outgoing, ops) == (
            incoming + count_true(ops),
            outgoing + (ops.len() - count_true(ops)),
        ),
    decreases ops.len(),
{
    if ops.len() > 0 {
        if ops[0] {
            lemma_sequence_monotonicity(incoming + 1, outgoing, ops.drop_first());
        } else {
            lemma_sequence_monotonicity(incoming, outgoing + 1, ops.drop_first());
        }
    }
}

/// The value of the digit string of `n` is `n`.
pub proof fn lemma_digits_val_of_digits(n: nat)
    ensures
        digits_val(spec_digits(n)) == n,
        spec_parse_u64(spec_digits(n)) == if n <= u64::MAX {
            Some(n as u64)
        } else {
            None::<u64>
        },
    decreases n,
{
    crate::numbers::lemma_spec_digits_len(n);
    if n < 10 {
        crate::numbers::lemma_digit_char_val(n);
        assert(spec_digits(n) == seq![digit_char(n)]);
        assert(spec_digits(n).drop_last() =~= Seq::<char>::empty());
        assert(digits_val(spec_digits(n).drop_last()) == 0);
        assert(spec_digits(n).last() == digit_char(n));
        assert(digits_val(spec_digits(n)) == n);
    } else {
        lemma_digits_val_of_digits(n / 10);
        crate::numbers::lemma_digit_char_val(n % 10);
        assert(spec_digits(n).drop_last() =~= spec_digits(n / 10));
        assert(spec_digits(n).last() == digit_char(n % 10));
    }
    assert(forall|i: int|
        0 <= i < spec_digits(n).len() ==> is_digit(#[trigger] spec_digits(n)[i]));
}

/// The persisted record reads back as the counters it was written from:
/// what `to_json` writes, `from_json` parses to the same two values.
#[verifier::rlimit(100)]
#[verifier::spinoff_prover]
pub proof fn lemma_record_round_trip(incoming: u64, outgoing: u64)
    ensures
        spec_parse_record(spec_record_json(incoming, outgoing)) == Some((incoming, outgoing)),
{
    let s = spec_record_json(incoming, outgoing);
    let pre_in = "{\"incoming\":"@;
    let pre_out = ",\"outgoing\":"@;
    let d1 = spec_digits(incoming as nat);
    let d2 = spec_digits(outgoing as nat);
    reveal_strlit("{\"incoming\":");
    reveal_strlit(",\"outgoing\":");
    reveal_strlit("}");
    crate::numbers::lemma_spec_digits_len(incoming as nat);
    crate::numbers::lemma_spec_digits_len(outgoing as nat);
    lemma_digits_val_of_digits(incoming as nat);
    lemma_digits_val_of_digits(outgoing as nat);
    assert(forall|j: int| 0 <= j < s.len() ==> !is_ws(#[trigger] s[j])) by {
        assert(forall|j: int| 0 <= j < pre_in.len() ==> !is_ws(#[trigger] pre_in[j]));
        assert(forall|j: int| 0 <= j < pre_out.len() ==> !is_ws(#[trigger] pre_out[j]));
        assert(forall|j: int| 0 <= j < d1.len() ==> !is_ws(#[trigger] d1[j]));
        assert(forall|j: int| 0 <= j < d2.len() ==> !is_ws(#[trigger] d2[j]));
    }
    lemma_strip_ws_no_ws(s);
    assert(strip_ws(s) == s);
    assert(s.subrange(0, pre_in.len() as int) =~= pre_in);
    let r0 = s.subrange(pre_in.len() as int, s.len() as int);
    assert(r0 =~= d1 + pre_out + d2 + "}"@);
    assert(r0.subrange(0, d1.len() as int) =~= d1);
    assert(!is_digit(r0[d1.len() as int])) by {
        assert(r0[d1.len() as int] == pre_out[0]);
    }
    lemma_digit_prefix_exact(r0, d1);
    let r1 = r0.subrange(d1.len() as int, r0.len() as int);
    assert(take_number(r0) == Some((incoming, r1)));
    assert(r1 =~= pre_out + d2 + "}"@);
    assert(r1.subrange(0, pre_out.len() as int) =~= pre_out);
    let r1b = r1.subrange(pre_out.len() as int, r1.len() as int);
    assert(r1b =~= d2 + "}"@);
    assert(r1b.subrange(0, d2.len() as int) =~= d2);
    assert(!is_digit(r1b[d2.len() as int])) by {
        assert(r1b[d2.len() as int] == '}');
    }
    lemma_digit_prefix_exact(r1b, d2);
    let r2 = r1b.subrange(d2.len() as int, r1b.len() as int);
    assert(take_number(r1b) == Some((outgoing, r2)));
    assert(r2 =~= "}"@);
}

/// A digit string followed by a non-digit scans as exactly itself.
proof fn lemma_digit_prefix_exact(s: Seq<char>, d: Seq<char>)
    requires
        d.len() <= s.len(),
        s.subrange(0, d.len() as int) == d,
        forall|j: int| 0 <= j < d.len() ==> is_digit(#[trigger] d[j]),
        d.len() < s.len() ==> !is_digit(s[d.len() as int]),
    ensures
        digit_prefix_len(s) == d.len(),
{
    lemma_digit_prefix_len(s);
    assert(forall|j: int| 0 <= j < d.len() ==> s[j] == d[j]);
    if digit_prefix_len(s) < d.len() {
        assert(is_digit(d[digit_prefix_len(s)]));
        assert(!is_digit(s[digit_prefix_len(s)]));
        assert(false);
    }
    if digit_prefix_len(s) > d.len() {
        assert(is_digit(s[d.len() as int]));
        assert(false);
    }
}

/// Stripping whitespace from text without whitespace changes nothing.
proof fn lemma_strip_ws_no_ws(s: Seq<char>)
    requires
        forall|j: int| 0 <= j < s.len() ==> !is_ws(#[trigger] s[j]),
    ensures
        strip_ws(s) == s,
    decreases s.len(),
{
    if s.len() > 0 {
        assert(forall|j: int| 0 <= j < s.drop_first().len() ==> s.drop_first()[j] == s[j + 1]);
        lemma_strip_ws_no_ws(s.drop_first());
        assert(strip_ws(s) =~= s);
    }
}

} // verus!
