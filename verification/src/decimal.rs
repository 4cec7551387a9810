//! Decimal text for the persisted issuance counter: parsing, formatting,
//! whitespace trimming, and a proved parse-of-format round trip.

use vstd::prelude::*;

verus! {

/// An ASCII decimal digit.
pub open spec fn is_digit(c: u8) -> bool {
    48 <= c <= 57
}

/// ASCII whitespace as the counter file may carry it.
pub open spec fn is_space(c: u8) -> bool {
    c == 32 || c == 9 || c == 10 || c == 13
}

/// Every character is a digit.
pub open spec fn all_digits(s: Seq<u8>) -> bool {
    forall|j: int| 0 <= j < s.len() ==> is_digit(s[j])
}

/// The number a digit string denotes.
pub open spec fn dec_value(s: Seq<u8>) -> int
    decreases s.len(),
{
    if s.len() == 0 {
        0
    } else {
        dec_value(s.drop_last()) * 10 + (s.last() - 48)
    }
}

/// The canonical digit string of a number: no sign, no leading zero.
pub open spec fn dec_digits(n: nat) -> Seq<u8>
    decreases n,
{
    if n < 10 {
        seq![(48 + n) as u8]
    } else {
        dec_digits(n / 10) + seq![(48 + n % 10) as u8]
    }
}

/// The canonical digit string is made of digits and denotes its number.
pub proof fn lemma_dec_digits(n: nat)
    ensures
        all_digits(dec_digits(n)),
        dec_value(dec_digits(n)) == n,
        dec_digits(n).len() >= 1,
    decreases n,
{
    if n < 10 {
        let s = dec_digits(n);
        assert(dec_value(Seq::<u8>::empty()) == 0);
        assert(s.drop_last() =~= Seq::<u8>::empty());
        assert(dec_value(s) == n);
    } else {
        lemma_dec_digits(n / 10);
        let s = dec_digits(n);
        assert(s.drop_last() =~= dec_digits(n / 10));
        assert(s.last() == (48 + n % 10) as u8);
        assert(dec_value(s) == (n / 10) * 10 + n % 10);
        assert((n / 10) * 10 + n % 10 == n) by (nonlinear_arith);
        assert forall|j: int| 0 <= j < s.len() implies is_digit(s[j]) by {
            if j < s.len() - 1 {
                assert(s[j] == dec_digits(n / 10)[j]);
            }
        }
    }
}

/// A digit string denotes at least what any of its prefixes denotes.
pub proof fn lemma_dec_value_prefix(s: Seq<u8>, i: int)
    requires
        all_digits(s),
        0 <= i <= s.len(),
    ensures
        dec_value(s) >= dec_value(s.take(i)),
    decreases s.len() - i,
{
    if i == s.len() {
        assert(s.take(i) =~= s);
    } else {
        lemma_dec_value_prefix(s, i + 1);
        let t = s.take(i + 1);
        assert(t.drop_last() =~= s.take(i));
        assert(is_digit(t.last()));
        assert(dec_value(t) >= dec_value(s.take(i)) * 10) by {
            assert(dec_value(t) == dec_value(s.take(i)) * 10 + (t.last() - 48));
        }
        assert(dec_value(s.take(i)) >= 0) by {
            lemma_dec_value_nonneg(s.take(i));
        }
        assert(dec_value(s.take(i)) * 10 >= dec_value(s.take(i))) by (nonlinear_arith)
            requires
                dec_value(s.take(i)) >= 0,
        ;
    }
}

/// A digit string denotes a non-negative number.
pub proof fn lemma_dec_value_nonneg(s: Seq<u8>)
    requires
        all_digits(s),
    ensures
        dec_value(s) >= 0,
    decreases s.len(),
{
    if s.len() > 0 {
        assert(all_digits(s.drop_last())) by {
            assert(forall|j: int|
                0 <= j < s.len() - 1 ==> s.drop_last()[j] == s[j] && is_digit(s[j]));
        }
        lemma_dec_value_nonneg(s.drop_last());
        assert(dec_value(s.drop_last()) * 10 >= 0) by (nonlinear_arith)
            requires
                dec_value(s.drop_last()) >= 0,
        ;
    }
}

/// Parses a digit string into a 32-bit number; `None` on an empty string, a
/// character that is not a digit, or a value that does not fit.
pub fn parse_u32(s: &[u8]) -> (r: Option<u32>)
    ensures
        match r {
            Some(v) => s@.len() > 0 && all_digits(s@) && dec_value(s@) == v,
            None => s@.len() == 0 || !all_digits(s@) || dec_value(s@) > u32::MAX,
        },
{
    if s.len() == 0 {
        return None;
    }
    let mut acc: u32 = 0;
    let mut i: usize = 0;
    proof {
        assert(s@.take(0) =~= Seq::<u8>::empty());
    }
    while i < s.len()
        invariant
            i <= s@.len(),
            s@.len() <= usize::MAX,
            all_digits(s@.take(i as int)),
            acc == dec_value(s@.take(i as int)),
        decreases s@.len() - i,
    {
        let c = s[i];
        if c < 48 || c > 57 {
            proof {
                assert(!is_digit(s@[i as int]));
            }
            return None;
        }
        let d = c - 48;
        if acc > (u32::MAX - d as u32) / 10 {
            proof {
                let t = s@.take(i as int);
                assert(dec_value(t.push(c)) == acc * 10 + d) by {
                    assert(t.push(c).drop_last() =~= t);
                    assert(t.push(c).last() == c);
                }
                assert(acc * 10 + d > u32::MAX) by (nonlinear_arith)
                    requires
                        acc > (u32::MAX - d as u32) / 10 && d < 10,
                ;
                if all_digits(s@) {
                    assert(t.push(c) =~= s@.take(i + 1));
                    lemma_dec_value_prefix(s@, i + 1);
                }
            }
            return None;
        }
        proof {
            let t = s@.take(i as int);
            assert(acc * 10 + d <= u32::MAX) by (nonlinear_arith)
                requires
                    acc <= (u32::MAX - d as u32) / 10 && d < 10 && acc >= 0,
            ;
            assert(dec_value(t.push(c)) == acc * 10 + d) by {
                assert(t.push(c).drop_last() =~= t);
                assert(t.push(c).last() == c);
            }
            assert(t.push(c) =~= s@.take(i + 1));
        }
        acc = acc * 10 + d as u32;
        i = i + 1;
    }
    proof {
        assert(s@.take(s@.len() as int) =~= s@);
    }
    Some(acc)
}

/// Appends the canonical digit string of a number.
fn format_into(n: u32, out: &mut Vec<u8>)
    ensures
        final(out)@ == old(out)@ + dec_digits(n as nat),
    decreases n,
{
    if n < 10 {
        out.push(48 + n as u8);
        proof {
            assert(out@ =~= old(out)@ + dec_digits(n as nat));
        }
    } else {
        format_into(n / 10, out);
        out.push(48 + (n % 10) as u8);
        proof {
            assert(out@ =~= old(out)@ + dec_digits(n as nat));
        }
    }
}

/// The canonical digit string of a 32-bit number.
pub fn format_u32(n: u32) -> (out: Vec<u8>)
    ensures
        out@ == dec_digits(n as nat),
{
    let mut out: Vec<u8> = Vec::new();
    format_into(n, &mut out);
    proof {
        assert(out@ =~= dec_digits(n as nat));
    }
    out
}

/// The string without leading whitespace.
pub open spec fn trim_front_spec(s: Seq<u8>) -> Seq<u8>
    decreases s.len(),
{
    if s.len() > 0 && is_space(s[0]) {
        trim_front_spec(s.skip(1))
    } else {
        s
    }
}

/// The string without trailing whitespace.
pub open spec fn trim_back_spec(s: Seq<u8>) -> Seq<u8>
    decreases s.len(),
{
    if s.len() > 0 && is_space(s.last()) {
        trim_back_spec(s.drop_last())
    } else {
        s
    }
}

/// The string without leading or trailing whitespace.
pub open spec fn trim_spec(s: Seq<u8>) -> Seq<u8> {
    trim_back_spec(trim_front_spec(s))
}

/// A string without whitespace trims to itself.
pub proof fn lemma_trim_clean(s: Seq<u8>)
    requires
        forall|j: int| 0 <= j < s.len() ==> !is_space(s[j]),
    ensures
        trim_spec(s) == s,
{
}

/// Removes leading and trailing ASCII whitespace.
pub fn trim(s: &[u8]) -> (out: Vec<u8>)
    ensures
        out@ == trim_spec(s@),
{
    let n = s.len();
    let mut lo: usize = 0;
    proof {
        assert(n == s@.len());
        assert(s@.skip(0) =~= s@);
    }
    while lo < s.len() && (s[lo] == 32 || s[lo] == 9 || s[lo] == 10 || s[lo] == 13)
        invariant
            lo <= s@.len(),
            s@.len() <= usize::MAX,
            trim_front_spec(s@) == trim_front_spec(s@.skip(lo as int)),
        decreases s@.len() - lo,
    {
        proof {
            assert(s@.skip(lo as int)[0] == s@[lo as int]);
            assert(s@.skip(lo as int).skip(1) =~= s@.skip(lo + 1));
        }
        lo = lo + 1;
    }
    let ghost front = s@.skip(lo as int);
    proof {
        if lo < s@.len() {
            assert(!is_space(front[0]));
        }
        assert(trim_front_spec(front) == front);
    }
    let mut hi: usize = s.len();
    proof {
        assert(front.take(hi - lo) =~= front);
    }
    while hi > lo && (s[hi - 1] == 32 || s[hi - 1] == 9 || s[hi - 1] == 10 || s[hi - 1] == 13)
        invariant
            lo <= hi <= s@.len(),
            front == s@.skip(lo as int),
            trim_back_spec(front) == trim_back_spec(front.take(hi - lo)),
        decreases hi,
    {
        proof {
            let t = front.take(hi - lo);
            assert(t.last() == s@[hi - 1]);
            assert(t.drop_last() =~= front.take(hi - 1 - lo));
        }
        hi = hi - 1;
    }
    proof {
        let t = front.take(hi - lo);
        if hi > lo {
            assert(t.last() == s@[hi - 1]);
            assert(!is_space(t.last()));
        }
        assert(trim_back_spec(t) == t);
    }
    let mut out: Vec<u8> = Vec::new();
    let mut m = lo;
    proof {
        assert(out@ =~= s@.subrange(lo as int, lo as int));
    }
    while m < hi
        invariant
            lo <= m <= hi <= s@.len(),
            out@ == s@.subrange(lo as int, m as int),
        decreases hi - m,
    {
        out.push(s[m]);
        m = m + 1;
        proof {
            assert(out@ =~= s@.subrange(lo as int, m as int));
        }
    }
    proof {
        assert(s@.subrange(lo as int, hi as int) =~= front.take(hi - lo));
    }
    out
}

} // verus!
