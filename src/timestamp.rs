use vstd::prelude::*;
use crate::components::Timestamp;

verus! {

pub open spec fn is_digit(b: u8) -> bool {
    48 <= b <= 57
}

/// The number that a string of decimal digits writes.
pub open spec fn decimal_value(s: Seq<u8>) -> int
    decreases s.len(),
{
    if s.len() == 0 {
        0
    } else {
        decimal_value(s.drop_last()) * 10 + (s.last() - 48)
    }
}

/// The time that a creation record writes: a non-empty string of decimal
/// digits, counting microseconds, that fits in a timestamp.
pub open spec fn spec_timestamp(s: Seq<u8>) -> Option<Timestamp> {
    if s.len() > 0 && (forall|i: int| 0 <= i < s.len() ==> is_digit(#[trigger] s[i]))
        && decimal_value(s) <= i64::MAX {
        Some(decimal_value(s) as i64)
    } else {
        None
    }
}

proof fn lemma_decimal_prefix_grows(s: Seq<u8>, j: int, k: int)
    requires
        0 <= j <= k <= s.len(),
        forall|i: int| 0 <= i < s.len() ==> is_digit(#[trigger] s[i]),
    ensures
        0 <= decimal_value(s.take(j)) <= decimal_value(s.take(k)),
    decreases k - j,
{
    if j < k {
        lemma_decimal_prefix_grows(s, j, k - 1);
        assert(s.take(k).drop_last() =~= s.take(k - 1));
        assert(is_digit(s[k - 1]));
    } else {
        lemma_decimal_nonneg(s.take(j), s);
    }
}

proof fn lemma_decimal_nonneg(p: Seq<u8>, s: Seq<u8>)
    requires
        p.len() <= s.len(),
        forall|i: int| 0 <= i < p.len() ==> p[i] == s[i],
        forall|i: int| 0 <= i < s.len() ==> is_digit(#[trigger] s[i]),
    ensures
        decimal_value(p) >= 0,
    decreases p.len(),
{
    if p.len() > 0 {
        lemma_decimal_nonneg(p.drop_last(), s);
        assert(is_digit(s[p.len() - 1]));
    }
}

/// Reads a creation time written as decimal microseconds.
pub fn parse_timestamp(s: &str) -> (r: Option<Timestamp>)
    ensures
        r == spec_timestamp(vstd::utf8::encode_utf8(s@)),
{
    let bytes = s.as_bytes();
    let ghost b = bytes@;
    if bytes.len() == 0 {
        return None;
    }
    let mut acc: i64 = 0;
    let mut i: usize = 0;
    while i < bytes.len()
        invariant
            b == bytes@,
            b == vstd::utf8::encode_utf8(s@),
            b.len() > 0,
            i <= b.len(),
            forall|j: int| 0 <= j < i ==> is_digit(#[trigger] b[j]),
            acc == decimal_value(b.take(i as int)),
            acc >= 0,
        decreases b.len() - i,
    {
        let d = bytes[i];
        if d < 48 || d > 57 {
            assert(!is_digit(b[i as int]));
            return None;
        }
        assert(b.take(i + 1).drop_last() =~= b.take(i as int));
        let v = (d - 48) as i64;
        if acc > (i64::MAX - v) / 10 {
            proof {
                assert(acc * 10 + v > i64::MAX) by (nonlinear_arith)
                    requires acc > (i64::MAX - v) / 10, v >= 0;
                if forall|j: int| 0 <= j < b.len() ==> is_digit(#[trigger] b[j]) {
                    lemma_decimal_prefix_grows(b, i + 1, b.len() as int);
                    assert(b.take(b.len() as int) =~= b);
                }
            }
            return None;
        }
        proof {
            assert(0 <= acc * 10 <= acc * 10 + v <= i64::MAX) by (nonlinear_arith)
                requires acc <= (i64::MAX - v) / 10, v >= 0, acc >= 0;
        }
        acc = acc * 10 + v;
        i = i + 1;
    }
    assert(b.take(b.len() as int) =~= b);
    Some(acc)
}

} // verus!
