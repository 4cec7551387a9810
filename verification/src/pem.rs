//! PEM framing: base64 text wrapped at 64 columns between `BEGIN` and `END`
//! lines, with a proved decode-of-encode round trip.

use vstd::prelude::*;

use crate::base64;
use crate::decimal;

verus! {

/// Base64 text broken into lines of at most 64 characters, each line
/// terminated by a line feed.
pub open spec fn wrap_spec(s: Seq<u8>) -> Seq<u8>
    decreases s.len(),
{
    if s.len() == 0 {
        Seq::empty()
    } else if s.len() <= 64 {
        s + seq![10u8]
    } else {
        s.take(64) + seq![10u8] + wrap_spec(s.skip(64))
    }
}

/// The same text with every line feed and carriage return removed.
pub open spec fn strip_nl_spec(s: Seq<u8>) -> Seq<u8>
    decreases s.len(),
{
    if s.len() == 0 {
        Seq::empty()
    } else if s[0] == 10 || s[0] == 13 {
        strip_nl_spec(s.skip(1))
    } else {
        seq![s[0]] + strip_nl_spec(s.skip(1))
    }
}

/// `-----BEGIN <label>-----`, without its line ending.
pub open spec fn begin_tag_spec(label: Seq<u8>) -> Seq<u8> {
    seq![45u8, 45u8, 45u8, 45u8, 45u8, 66u8, 69u8, 71u8, 73u8, 78u8, 32u8] + label + seq![
        45u8,
        45u8,
        45u8,
        45u8,
        45u8,
    ]
}

/// `-----END <label>-----`, without its line ending.
pub open spec fn end_tag_spec(label: Seq<u8>) -> Seq<u8> {
    seq![45u8, 45u8, 45u8, 45u8, 45u8, 69u8, 78u8, 68u8, 32u8] + label + seq![
        45u8,
        45u8,
        45u8,
        45u8,
        45u8,
    ]
}

/// The PEM encoding of a binary object under the given label: each tag on a
/// line of its own, terminated by a line feed.
pub open spec fn pem_encode_spec(label: Seq<u8>, der: Seq<u8>) -> Seq<u8> {
    begin_tag_spec(label) + seq![10u8] + wrap_spec(base64::enc_spec(der)) + end_tag_spec(label)
        + seq![10u8]
}

/// PEM decoding: after surrounding whitespace is trimmed, the begin and end
/// tags must stand at the two ends, and the text between them must be
/// well-formed base64 once line feeds and carriage returns are removed.
/// This also accepts texts with carriage-return line endings and a missing
/// or repeated final newline, as the original reader did.
pub open spec fn pem_decode_spec(label: Seq<u8>, pem: Seq<u8>) -> Option<Seq<u8>> {
    let t = decimal::trim_spec(pem);
    let b = begin_tag_spec(label);
    let e = end_tag_spec(label);
    if t.len() >= b.len() + e.len() && t.take(b.len() as int) == b && t.skip(t.len() - e.len())
        == e {
        base64::dec_spec(strip_nl_spec(t.subrange(b.len() as int, t.len() - e.len())))
    } else {
        None
    }
}

/// Stripping distributes over concatenation.
pub proof fn lemma_strip_concat(a: Seq<u8>, b: Seq<u8>)
    ensures
        strip_nl_spec(a + b) == strip_nl_spec(a) + strip_nl_spec(b),
    decreases a.len(),
{
    if a.len() == 0 {
        assert(a + b =~= b);
        assert(strip_nl_spec(a) + strip_nl_spec(b) =~= strip_nl_spec(b));
    } else {
        assert((a + b)[0] == a[0]);
        assert((a + b).skip(1) =~= a.skip(1) + b);
        lemma_strip_concat(a.skip(1), b);
        if a[0] == 10 || a[0] == 13 {
        } else {
            assert(seq![a[0]] + (strip_nl_spec(a.skip(1)) + strip_nl_spec(b)) =~= (seq![a[0]]
                + strip_nl_spec(a.skip(1))) + strip_nl_spec(b));
        }
    }
}

/// Stripping leaves a text without line breaks unchanged.
pub proof fn lemma_strip_clean(s: Seq<u8>)
    requires
        forall|j: int| 0 <= j < s.len() ==> s[j] != 10 && s[j] != 13,
    ensures
        strip_nl_spec(s) == s,
    decreases s.len(),
{
    if s.len() == 0 {
    } else {
        lemma_strip_clean(s.skip(1));
        assert(seq![s[0]] + s.skip(1) =~= s);
    }
}

/// Stripping undoes wrapping on a text without line breaks.
pub proof fn lemma_strip_wrap(s: Seq<u8>)
    requires
        forall|j: int| 0 <= j < s.len() ==> s[j] != 10 && s[j] != 13,
    ensures
        strip_nl_spec(wrap_spec(s)) == s,
    decreases s.len(),
{
    if s.len() == 0 {
    } else if s.len() <= 64 {
        lemma_strip_concat(s, seq![10u8]);
        lemma_strip_clean(s);
        assert(strip_nl_spec(Seq::<u8>::empty()) =~= Seq::<u8>::empty());
        assert(seq![10u8].skip(1) =~= Seq::<u8>::empty());
        assert(strip_nl_spec(seq![10u8]) =~= Seq::<u8>::empty());
        assert(s + Seq::<u8>::empty() =~= s);
    } else {
        let head = s.take(64) + seq![10u8];
        let rest = s.skip(64);
        assert(wrap_spec(s) == head + wrap_spec(rest));
        lemma_strip_concat(head, wrap_spec(rest));
        lemma_strip_concat(s.take(64), seq![10u8]);
        lemma_strip_clean(s.take(64));
        assert(strip_nl_spec(Seq::<u8>::empty()) =~= Seq::<u8>::empty());
        assert(seq![10u8].skip(1) =~= Seq::<u8>::empty());
        assert(strip_nl_spec(seq![10u8]) =~= Seq::<u8>::empty());
        lemma_strip_wrap(rest);
        assert(strip_nl_spec(wrap_spec(s)) =~= s);
    }
}

/// Decoding inverts encoding, for every label and every binary object.
pub proof fn lemma_pem_round_trip(label: Seq<u8>, der: Seq<u8>)
    ensures
        pem_decode_spec(label, pem_encode_spec(label, der)) == Some(der),
{
    let bt = begin_tag_spec(label);
    let et = end_tag_spec(label);
    let m = wrap_spec(base64::enc_spec(der));
    let pem = pem_encode_spec(label, der);
    let body = bt + seq![10u8] + m + et;
    assert(pem =~= body + seq![10u8]);
    // the text starts with a dash, so nothing is trimmed at the front
    assert(pem[0] == 45 && !decimal::is_space(45));
    assert(decimal::trim_front_spec(pem) == pem);
    // the single trailing line feed is trimmed, and the end tag's final
    // dash stops the trimming there
    assert(pem.last() == 10 && decimal::is_space(10));
    assert(pem.drop_last() =~= body);
    assert(body.last() == et.last() && et.last() == 45) by {
        assert(body[body.len() - 1] == et[et.len() - 1]);
    }
    assert(decimal::trim_back_spec(body) == body);
    assert(decimal::trim_back_spec(pem) == body);
    assert(decimal::trim_spec(pem) == body);
    assert(body.take(bt.len() as int) =~= bt);
    assert(body.skip(body.len() - et.len()) =~= et);
    assert(body.subrange(bt.len() as int, body.len() - et.len()) =~= seq![10u8] + m);
    // the line feed after the begin tag is stripped with the line breaks
    assert(strip_nl_spec(seq![10u8] + m) == strip_nl_spec(m)) by {
        assert((seq![10u8] + m)[0] == 10);
        assert((seq![10u8] + m).skip(1) =~= m);
    }
    base64::lemma_enc_no_newline(der);
    lemma_strip_wrap(base64::enc_spec(der));
    base64::lemma_round_trip(der);
}

/// Appends every byte of a slice to a vector.
pub(crate) fn push_bytes(out: &mut Vec<u8>, bytes: &[u8])
    ensures
        final(out)@ == old(out)@ + bytes@,
{
    let ghost out0 = out@;
    let mut j: usize = 0;
    proof {
        assert(out@ =~= out0 + bytes@.take(0));
    }
    while j < bytes.len()
        invariant
            j <= bytes.len(),
            out@ == out0 + bytes@.take(j as int),
        decreases bytes.len() - j,
    {
        out.push(bytes[j]);
        j = j + 1;
        proof {
            assert(out@ =~= out0 + bytes@.take(j as int));
        }
    }
    proof {
        assert(bytes@.take(bytes@.len() as int) =~= bytes@);
    }
}

/// Builds the begin tag for a label.
fn begin_tag(label: &[u8]) -> (out: Vec<u8>)
    ensures
        out@ == begin_tag_spec(label@),
{
    let mut out: Vec<u8> = Vec::new();
    let head: [u8; 11] = [45, 45, 45, 45, 45, 66, 69, 71, 73, 78, 32];
    push_bytes(&mut out, head.as_slice());
    push_bytes(&mut out, label);
    let tail: [u8; 5] = [45, 45, 45, 45, 45];
    push_bytes(&mut out, tail.as_slice());
    proof {
        assert(out@ =~= begin_tag_spec(label@));
    }
    out
}

/// Builds the end tag for a label.
fn end_tag(label: &[u8]) -> (out: Vec<u8>)
    ensures
        out@ == end_tag_spec(label@),
{
    let mut out: Vec<u8> = Vec::new();
    let head: [u8; 9] = [45, 45, 45, 45, 45, 69, 78, 68, 32];
    push_bytes(&mut out, head.as_slice());
    push_bytes(&mut out, label);
    let tail: [u8; 5] = [45, 45, 45, 45, 45];
    push_bytes(&mut out, tail.as_slice());
    proof {
        assert(out@ =~= end_tag_spec(label@));
    }
    out
}

/// Breaks a text into lines of at most 64 characters.
fn wrap_lines(input: &[u8]) -> (out: Vec<u8>)
    ensures
        out@ == wrap_spec(input@),
{
    let n = input.len();
    let mut out: Vec<u8> = Vec::new();
    if n == 0 {
        proof {
            assert(out@ =~= wrap_spec(input@));
        }
        return out;
    }
    let mut i: usize = 0;
    proof {
        assert(input@.skip(0) =~= input@);
        assert(out@ + wrap_spec(input@) =~= wrap_spec(input@));
    }
    while n - i > 64
        invariant
            i < n,
            n == input.len(),
            wrap_spec(input@) == out@ + wrap_spec(input@.skip(i as int)),
        decreases n - i,
    {
        let ghost tail = input@.skip(i as int);
        let ghost out0 = out@;
        let end = i + 64;
        let mut j = i;
        proof {
            assert(out@ =~= out0 + input@.subrange(i as int, i as int));
        }
        while j < end
            invariant
                i <= j <= end,
                end == i + 64,
                end <= n,
                n == input.len(),
                out@ == out0 + input@.subrange(i as int, j as int),
            decreases end - j,
        {
            out.push(input[j]);
            j = j + 1;
            proof {
                assert(out@ =~= out0 + input@.subrange(i as int, j as int));
            }
        }
        out.push(10);
        proof {
            assert(input@.subrange(i as int, end as int) =~= tail.take(64));
            assert(tail.skip(64) =~= input@.skip(end as int));
            assert(out@ =~= out0 + (tail.take(64) + seq![10u8]));
            assert(wrap_spec(input@) =~= out@ + wrap_spec(input@.skip(end as int)));
        }
        i = end;
    }
    let ghost tail = input@.skip(i as int);
    let ghost out0 = out@;
    let mut j = i;
    proof {
        assert(out@ =~= out0 + input@.subrange(i as int, i as int));
    }
    while j < n
        invariant
            i <= j <= n,
            n == input.len(),
            out@ == out0 + input@.subrange(i as int, j as int),
        decreases n - j,
    {
        out.push(input[j]);
        j = j + 1;
        proof {
            assert(out@ =~= out0 + input@.subrange(i as int, j as int));
        }
    }
    out.push(10);
    proof {
        assert(input@.subrange(i as int, n as int) =~= tail);
        assert(out@ =~= out0 + (tail + seq![10u8]));
        assert(out@ =~= wrap_spec(input@));
    }
    out
}

/// Removes every line feed and carriage return.
fn strip_newlines(input: &[u8]) -> (out: Vec<u8>)
    ensures
        out@ == strip_nl_spec(input@),
{
    let mut out: Vec<u8> = Vec::new();
    let mut j: usize = 0;
    proof {
        assert(input@.skip(0) =~= input@);
        assert(out@ + strip_nl_spec(input@) =~= strip_nl_spec(input@));
    }
    while j < input.len()
        invariant
            j <= input.len(),
            strip_nl_spec(input@) == out@ + strip_nl_spec(input@.skip(j as int)),
        decreases input.len() - j,
    {
        let ghost tail = input@.skip(j as int);
        proof {
            assert(tail[0] == input@[j as int]);
            assert(tail.skip(1) =~= input@.skip(j + 1));
        }
        let c = input[j];
        if c != 10 && c != 13 {
            out.push(c);
        }
        j = j + 1;
        proof {
            assert(strip_nl_spec(input@) =~= out@ + strip_nl_spec(input@.skip(j as int)));
        }
    }
    proof {
        assert(input@.skip(input@.len() as int) =~= Seq::<u8>::empty());
        assert(out@ =~= strip_nl_spec(input@));
    }
    out
}

/// Encodes a binary object as PEM under the given label.
pub fn encode(label: &[u8], der: &[u8]) -> (out: Vec<u8>)
    ensures
        out@ == pem_encode_spec(label@, der@),
{
    let body = base64::encode(der);
    let wrapped = wrap_lines(body.as_slice());
    let mut out = begin_tag(label);
    out.push(10);
    push_bytes(&mut out, wrapped.as_slice());
    let end = end_tag(label);
    push_bytes(&mut out, end.as_slice());
    out.push(10);
    proof {
        assert(out@ =~= pem_encode_spec(label@, der@));
    }
    out
}

/// Decodes a PEM text under the given label; `None` on malformed input.
pub fn decode(label: &[u8], pem: &[u8]) -> (out: Option<Vec<u8>>)
    ensures
        match out {
            Some(v) => pem_decode_spec(label@, pem@) == Some(v@),
            None => pem_decode_spec(label@, pem@) is None,
        },
{
    let trimmed = decimal::trim(pem);
    let t = trimmed.as_slice();
    let b = begin_tag(label);
    let e = end_tag(label);
    if t.len() < b.len() || t.len() - b.len() < e.len() {
        return None;
    }
    let mut j: usize = 0;
    proof {
        assert(t@.take(0) =~= b@.take(0));
    }
    while j < b.len()
        invariant
            j <= b@.len(),
            t@ == decimal::trim_spec(pem@),
            b@ == begin_tag_spec(label@),
            e@ == end_tag_spec(label@),
            b@.len() + e@.len() <= t@.len(),
            t@.take(j as int) == b@.take(j as int),
        decreases b@.len() - j,
    {
        if t[j] != b[j] {
            proof {
                assert(t@.take(b@.len() as int) != b@) by {
                    assert(t@.take(b@.len() as int)[j as int] != b@[j as int]);
                }
            }
            return None;
        }
        j = j + 1;
        proof {
            assert(t@.take(j as int) =~= t@.take(j - 1).push(t@[j - 1]));
            assert(b@.take(j as int) =~= b@.take(j - 1).push(b@[j - 1]));
        }
    }
    proof {
        assert(t@.take(b@.len() as int) == b@) by {
            assert(b@.take(b@.len() as int) =~= b@);
        }
    }
    let suffix_at = t.len() - e.len();
    let mut k: usize = 0;
    proof {
        assert(t@.subrange(suffix_at as int, suffix_at as int) =~= e@.take(0));
    }
    while k < e.len()
        invariant
            k <= e@.len(),
            t@.len() <= usize::MAX,
            t@ == decimal::trim_spec(pem@),
            b@ == begin_tag_spec(label@),
            e@ == end_tag_spec(label@),
            suffix_at == t@.len() - e@.len(),
            b@.len() <= suffix_at,
            t@.subrange(suffix_at as int, suffix_at + k) == e@.take(k as int),
        decreases e@.len() - k,
    {
        if t[suffix_at + k] != e[k] {
            proof {
                assert(t@.skip(suffix_at as int) != e@) by {
                    assert(t@.skip(suffix_at as int)[k as int] != e@[k as int]);
                }
            }
            return None;
        }
        k = k + 1;
        proof {
            assert(t@.subrange(suffix_at as int, suffix_at + k) =~= t@.subrange(
                suffix_at as int,
                suffix_at + k - 1,
            ).push(t@[suffix_at + k - 1]));
            assert(e@.take(k as int) =~= e@.take(k - 1).push(e@[k - 1]));
        }
    }
    proof {
        assert(t@.skip(suffix_at as int) == e@) by {
            assert(t@.subrange(suffix_at as int, suffix_at + e@.len()) =~= t@.skip(
                suffix_at as int,
            ));
            assert(e@.take(e@.len() as int) =~= e@);
        }
    }
    let mut middle: Vec<u8> = Vec::new();
    let mut m = b.len();
    proof {
        assert(middle@ =~= t@.subrange(b@.len() as int, m as int));
    }
    while m < suffix_at
        invariant
            b@.len() <= m <= suffix_at,
            suffix_at <= t@.len(),
            t@ == decimal::trim_spec(pem@),
            b@ == begin_tag_spec(label@),
            middle@ == t@.subrange(b@.len() as int, m as int),
        decreases suffix_at - m,
    {
        middle.push(t[m]);
        m = m + 1;
        proof {
            assert(middle@ =~= t@.subrange(b@.len() as int, m as int));
        }
    }
    let stripped = strip_newlines(middle.as_slice());
    base64::decode(stripped.as_slice())
}

} // verus!
