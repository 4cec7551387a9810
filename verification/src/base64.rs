//! Standard base64 alphabet, encoding and decoding over byte sequences,
//! with a proved decode-of-encode round trip.

use vstd::prelude::*;

verus! {

/// The padding character `=`.
pub const PAD: u8 = 61;

/// Maps a 6-bit group to its character in the standard base64 alphabet.
pub open spec fn b64_char(i: u8) -> u8 {
    if i < 26 {
        (65 + i) as u8
    } else if i < 52 {
        (71 + i) as u8
    } else if i < 62 {
        (i - 4) as u8
    } else if i == 62 {
        43
    } else {
        47
    }
}

/// Maps an alphabet character back to its 6-bit group.
pub open spec fn b64_val(c: u8) -> Option<u8> {
    if 65 <= c && c <= 90 {
        Some((c - 65) as u8)
    } else if 97 <= c && c <= 122 {
        Some((c - 71) as u8)
    } else if 48 <= c && c <= 57 {
        Some((c + 4) as u8)
    } else if c == 43 {
        Some(62)
    } else if c == 47 {
        Some(63)
    } else {
        None
    }
}

/// The four characters that encode one full group of three bytes.
pub open spec fn enc3(a: u8, b: u8, c: u8) -> Seq<u8> {
    seq![
        b64_char(a >> 2),
        b64_char(((a & 3) << 4) | (b >> 4)),
        b64_char(((b & 15) << 2) | (c >> 6)),
        b64_char(c & 63),
    ]
}

/// Base64 encoding of an arbitrary byte sequence, including padding.
pub open spec fn enc_spec(s: Seq<u8>) -> Seq<u8>
    decreases s.len(),
{
    if s.len() == 0 {
        Seq::empty()
    } else if s.len() == 1 {
        seq![b64_char(s[0] >> 2), b64_char((s[0] & 3) << 4), PAD, PAD]
    } else if s.len() == 2 {
        seq![
            b64_char(s[0] >> 2),
            b64_char(((s[0] & 3) << 4) | (s[1] >> 4)),
            b64_char((s[1] & 15) << 2),
            PAD,
        ]
    } else {
        enc3(s[0], s[1], s[2]) + enc_spec(s.skip(3))
    }
}

/// Base64 decoding; `None` on any input that is not a well-formed,
/// canonically padded encoding.
pub open spec fn dec_spec(s: Seq<u8>) -> Option<Seq<u8>>
    decreases s.len(),
{
    if s.len() == 0 {
        Some(Seq::empty())
    } else if s.len() % 4 != 0 {
        None
    } else if b64_val(s[0]) is None || b64_val(s[1]) is None {
        None
    } else {
        let i0 = b64_val(s[0])->Some_0;
        let i1 = b64_val(s[1])->Some_0;
        if s.len() == 4 && s[2] == PAD && s[3] == PAD {
            if i1 & 15 == 0 {
                Some(seq![((i0 << 2) | (i1 >> 4)) as u8])
            } else {
                None
            }
        } else if s.len() == 4 && s[3] == PAD {
            if b64_val(s[2]) is None {
                None
            } else {
                let i2 = b64_val(s[2])->Some_0;
                if i2 & 3 == 0 {
                    Some(seq![(i0 << 2) | (i1 >> 4), ((i1 & 15) << 4) | (i2 >> 2)])
                } else {
                    None
                }
            }
        } else if b64_val(s[2]) is None || b64_val(s[3]) is None {
            None
        } else {
            let i2 = b64_val(s[2])->Some_0;
            let i3 = b64_val(s[3])->Some_0;
            match dec_spec(s.skip(4)) {
                None => None,
                Some(rest) => Some(
                    seq![
                        (i0 << 2) | (i1 >> 4),
                        ((i1 & 15) << 4) | (i2 >> 2),
                        ((i2 & 3) << 6) | i3,
                    ] + rest,
                ),
            }
        }
    }
}

/// Every 6-bit group decodes back to itself, and never encodes to padding.
pub proof fn lemma_char_val(i: u8)
    requires
        i < 64,
    ensures
        b64_val(b64_char(i)) == Some(i),
        b64_char(i) != PAD,
        b64_char(i) != 10,
        b64_char(i) != 13,
{
}

/// The encoding's length is the padded group length.
pub proof fn lemma_enc_len(s: Seq<u8>)
    ensures
        enc_spec(s).len() % 4 == 0,
        s.len() > 0 ==> enc_spec(s).len() >= 4,
    decreases s.len(),
{
    if s.len() >= 3 {
        lemma_enc_len(s.skip(3));
    }
}

/// No character of an encoding is a carriage return or line feed.
pub proof fn lemma_enc_no_newline(s: Seq<u8>)
    ensures
        forall|j: int|
            0 <= j < enc_spec(s).len() ==> enc_spec(s)[j] != 10 && enc_spec(s)[j] != 13,
    decreases s.len(),
{
    if s.len() == 0 {
    } else if s.len() == 1 {
        let a = s[0];
        assert((a >> 2) < 64 && ((a & 3) << 4) < 64) by (bit_vector);
        lemma_char_val(a >> 2);
        lemma_char_val((a & 3) << 4);
    } else if s.len() == 2 {
        let (a, b) = (s[0], s[1]);
        assert((a >> 2) < 64 && (((a & 3) << 4) | (b >> 4)) < 64 && ((b & 15) << 2)
            < 64) by (bit_vector);
        lemma_char_val(a >> 2);
        lemma_char_val(((a & 3) << 4) | (b >> 4));
        lemma_char_val((b & 15) << 2);
    } else {
        let (a, b, c) = (s[0], s[1], s[2]);
        assert((a >> 2) < 64 && (((a & 3) << 4) | (b >> 4)) < 64 && (((b & 15) << 2) | (c >> 6))
            < 64 && (c & 63) < 64) by (bit_vector);
        lemma_char_val(a >> 2);
        lemma_char_val(((a & 3) << 4) | (b >> 4));
        lemma_char_val(((b & 15) << 2) | (c >> 6));
        lemma_char_val(c & 63);
        lemma_enc_no_newline(s.skip(3));
        assert forall|j: int| 0 <= j < enc_spec(s).len() implies enc_spec(s)[j] != 10 && enc_spec(
            s,
        )[j] != 13 by {
            if j >= 4 {
                assert(enc_spec(s)[j] == enc_spec(s.skip(3))[j - 4]);
            }
        }
    }
}

/// Decoding inverts encoding on every byte sequence.
pub proof fn lemma_round_trip(s: Seq<u8>)
    ensures
        dec_spec(enc_spec(s)) == Some(s),
    decreases s.len(),
{
    if s.len() == 0 {
    } else if s.len() == 1 {
        let a = s[0];
        let i0 = a >> 2;
        let i1 = (a & 3) << 4;
        assert(i0 < 64 && i1 < 64) by (bit_vector)
            requires
                i0 == (a >> 2) && i1 == ((a & 3) << 4),
        ;
        lemma_char_val(i0);
        lemma_char_val(i1);
        assert(i1 & 15 == 0 && ((i0 << 2) | (i1 >> 4)) == a) by (bit_vector)
            requires
                i0 == (a >> 2) && i1 == ((a & 3) << 4),
        ;
        assert(dec_spec(enc_spec(s)) == Some(seq![a]));
        assert(seq![a] =~= s);
    } else if s.len() == 2 {
        let (a, b) = (s[0], s[1]);
        let i0 = a >> 2;
        let i1 = ((a & 3) << 4) | (b >> 4);
        let i2 = (b & 15) << 2;
        assert(i0 < 64 && i1 < 64 && i2 < 64) by (bit_vector)
            requires
                i0 == (a >> 2) && i1 == (((a & 3) << 4) | (b >> 4)) && i2 == ((b & 15) << 2),
        ;
        lemma_char_val(i0);
        lemma_char_val(i1);
        lemma_char_val(i2);
        assert(i2 & 3 == 0 && ((i0 << 2) | (i1 >> 4)) == a && (((i1 & 15) << 4) | (i2 >> 2))
            == b) by (bit_vector)
            requires
                i0 == (a >> 2) && i1 == (((a & 3) << 4) | (b >> 4)) && i2 == ((b & 15) << 2),
        ;
        assert(dec_spec(enc_spec(s)) == Some(seq![a, b]));
        assert(seq![a, b] =~= s);
    } else {
        let (a, b, c) = (s[0], s[1], s[2]);
        let i0 = a >> 2;
        let i1 = ((a & 3) << 4) | (b >> 4);
        let i2 = ((b & 15) << 2) | (c >> 6);
        let i3 = c & 63;
        assert(i0 < 64 && i1 < 64 && i2 < 64 && i3 < 64) by (bit_vector)
            requires
                i0 == (a >> 2) && i1 == (((a & 3) << 4) | (b >> 4)) && i2 == (((b & 15) << 2) | (c
                    >> 6)) && i3 == (c & 63),
        ;
        lemma_char_val(i0);
        lemma_char_val(i1);
        lemma_char_val(i2);
        lemma_char_val(i3);
        let e = enc_spec(s);
        let rest = enc_spec(s.skip(3));
        lemma_enc_len(s.skip(3));
        lemma_enc_len(s);
        assert(e == enc3(a, b, c) + rest);
        assert(e[0] == b64_char(i0) && e[1] == b64_char(i1) && e[2] == b64_char(i2) && e[3]
            == b64_char(i3));
        lemma_round_trip(s.skip(3));
        assert(e.skip(4) =~= rest);
        if s.len() == 3 {
            assert(rest =~= Seq::<u8>::empty());
            assert(e.len() == 4);
        }
        assert(((i0 << 2) | (i1 >> 4)) == a && (((i1 & 15) << 4) | (i2 >> 2)) == b && (((i2 & 3)
            << 6) | i3) == c) by (bit_vector)
            requires
                i0 == (a >> 2) && i1 == (((a & 3) << 4) | (b >> 4)) && i2 == (((b & 15) << 2) | (c
                    >> 6)) && i3 == (c & 63),
        ;
        assert(dec_spec(e) == Some(seq![a, b, c] + s.skip(3)));
        assert(seq![a, b, c] + s.skip(3) =~= s);
    }
}

/// Maps a 6-bit group to its alphabet character.
fn b64_char_x(i: u8) -> (c: u8)
    requires
        i < 64,
    ensures
        c == b64_char(i),
{
    if i < 26 {
        65 + i
    } else if i < 52 {
        71 + i
    } else if i < 62 {
        i - 4
    } else if i == 62 {
        43
    } else {
        47
    }
}

/// Maps an alphabet character back to its 6-bit group.
fn b64_val_x(c: u8) -> (r: Option<u8>)
    ensures
        r == b64_val(c),
{
    if 65 <= c && c <= 90 {
        Some(c - 65)
    } else if 97 <= c && c <= 122 {
        Some(c - 71)
    } else if 48 <= c && c <= 57 {
        Some(c + 4)
    } else if c == 43 {
        Some(62)
    } else if c == 47 {
        Some(63)
    } else {
        None
    }
}

/// Encodes a byte slice in base64 with canonical padding.
pub fn encode(input: &[u8]) -> (out: Vec<u8>)
    ensures
        out@ == enc_spec(input@),
{
    let mut out: Vec<u8> = Vec::new();
    let mut i: usize = 0;
    proof {
        assert(input@.skip(0) =~= input@);
        assert(out@ + enc_spec(input@) =~= enc_spec(input@));
    }
    while input.len() - i >= 3
        invariant
            i <= input.len(),
            enc_spec(input@) == out@ + enc_spec(input@.skip(i as int)),
        decreases input.len() - i,
    {
        let (a, b, c) = (input[i], input[i + 1], input[i + 2]);
        proof {
            assert((a >> 2) < 64 && (((a & 3) << 4) | (b >> 4)) < 64 && (((b & 15) << 2) | (c
                >> 6)) < 64 && (c & 63) < 64) by (bit_vector);
            assert(input@.skip(i as int).skip(3) =~= input@.skip(i + 3));
            assert(input@.skip(i as int)[0] == a && input@.skip(i as int)[1] == b && input@.skip(
                i as int,
            )[2] == c);
        }
        out.push(b64_char_x(a >> 2));
        out.push(b64_char_x(((a & 3) << 4) | (b >> 4)));
        out.push(b64_char_x(((b & 15) << 2) | (c >> 6)));
        out.push(b64_char_x(c & 63));
        i = i + 3;
        proof {
            assert(enc_spec(input@) =~= out@ + enc_spec(input@.skip(i as int)));
        }
    }
    if input.len() - i == 1 {
        let a = input[i];
        proof {
            assert((a >> 2) < 64 && ((a & 3) << 4) < 64) by (bit_vector);
            assert(input@.skip(i as int)[0] == a && input@.skip(i as int).len() == 1);
        }
        out.push(b64_char_x(a >> 2));
        out.push(b64_char_x((a & 3) << 4));
        out.push(PAD);
        out.push(PAD);
        proof {
            assert(out@ =~= enc_spec(input@));
        }
    } else if input.len() - i == 2 {
        let (a, b) = (input[i], input[i + 1]);
        proof {
            assert((a >> 2) < 64 && (((a & 3) << 4) | (b >> 4)) < 64 && ((b & 15) << 2)
                < 64) by (bit_vector);
            assert(input@.skip(i as int)[0] == a && input@.skip(i as int)[1] == b && input@.skip(
                i as int,
            ).len() == 2);
        }
        out.push(b64_char_x(a >> 2));
        out.push(b64_char_x(((a & 3) << 4) | (b >> 4)));
        out.push(b64_char_x((b & 15) << 2));
        out.push(PAD);
        proof {
            assert(out@ =~= enc_spec(input@));
        }
    } else {
        proof {
            assert(input@.skip(i as int) =~= Seq::<u8>::empty());
            assert(out@ =~= enc_spec(input@));
        }
    }
    out
}

/// Decodes a base64 byte slice; `None` on malformed input.
#[verifier::rlimit(50)]
pub fn decode(input: &[u8]) -> (out: Option<Vec<u8>>)
    ensures
        match out {
            Some(v) => dec_spec(input@) == Some(v@),
            None => dec_spec(input@) is None,
        },
{
    let n = input.len();
    if n % 4 != 0 {
        proof {
            if n > 0 {
                assert(dec_spec(input@) is None);
            }
        }
        if n == 0 {
            return Some(Vec::new());
        }
        return None;
    }
    let mut out: Vec<u8> = Vec::new();
    let mut i: usize = 0;
    proof {
        assert(input@.skip(0) =~= input@);
        if dec_spec(input@) is Some {
            assert(out@ + dec_spec(input@)->Some_0 =~= dec_spec(input@)->Some_0);
        }
    }
    while n - i > 4
        invariant
            i <= n,
            n == input.len(),
            n % 4 == 0,
            i % 4 == 0,
            (dec_spec(input@) is Some <==> dec_spec(input@.skip(i as int)) is Some),
            dec_spec(input@.skip(i as int)) is Some ==> dec_spec(input@) == Some(
                out@ + dec_spec(input@.skip(i as int))->Some_0,
            ),
        decreases n - i,
    {
        let tail = Ghost(input@.skip(i as int));
        proof {
            assert(tail@.len() == n - i && tail@.len() % 4 == 0 && tail@.len() > 4);
            assert(tail@[0] == input@[i as int] && tail@[1] == input@[i + 1] && tail@[2] == input@[
                i + 2
            ] && tail@[3] == input@[i + 3]);
            assert(tail@.skip(4) =~= input@.skip(i + 4));
        }
        let v0 = b64_val_x(input[i]);
        let v1 = b64_val_x(input[i + 1]);
        let v2 = b64_val_x(input[i + 2]);
        let v3 = b64_val_x(input[i + 3]);
        match (v0, v1, v2, v3) {
            (Some(i0), Some(i1), Some(i2), Some(i3)) => {
                out.push((i0 << 2) | (i1 >> 4));
                out.push(((i1 & 15) << 4) | (i2 >> 2));
                out.push(((i2 & 3) << 6) | i3);
                i = i + 4;
                proof {
                    if dec_spec(input@.skip(i as int)) is Some {
                        assert(out@ + dec_spec(input@.skip(i as int))->Some_0 =~= out@.subrange(
                            0,
                            out@.len() - 3,
                        ) + dec_spec(tail@)->Some_0);
                    }
                }
            },
            _ => {
                proof {
                    assert(dec_spec(tail@) is None);
                }
                return None;
            },
        }
    }
    if i == n {
        proof {
            assert(input@.skip(i as int) =~= Seq::<u8>::empty());
            assert(out@ + Seq::<u8>::empty() =~= out@);
        }
        return Some(out);
    }
    // exactly one group is left
    let tail = Ghost(input@.skip(i as int));
    proof {
        assert(tail@.len() == 4);
        assert(tail@[0] == input@[i as int] && tail@[1] == input@[i + 1] && tail@[2] == input@[i
            + 2] && tail@[3] == input@[i + 3]);
    }
    let v0 = b64_val_x(input[i]);
    let v1 = b64_val_x(input[i + 1]);
    let (i0, i1) = match (v0, v1) {
        (Some(i0), Some(i1)) => (i0, i1),
        _ => {
            proof {
                assert(dec_spec(tail@) is None);
            }
            return None;
        },
    };
    let c2 = input[i + 2];
    let c3 = input[i + 3];
    if c2 == PAD && c3 == PAD {
        if i1 & 15 == 0 {
            out.push((i0 << 2) | (i1 >> 4));
            proof {
                assert(dec_spec(tail@) == Some(seq![((i0 << 2) | (i1 >> 4)) as u8]));
                assert(out@ =~= out@.subrange(0, out@.len() - 1) + seq![
                    ((i0 << 2) | (i1 >> 4)) as u8
                ]);
            }
            Some(out)
        } else {
            None
        }
    } else if c3 == PAD {
        let v2 = b64_val_x(c2);
        match v2 {
            Some(i2) => {
                if i2 & 3 == 0 {
                    out.push((i0 << 2) | (i1 >> 4));
                    out.push(((i1 & 15) << 4) | (i2 >> 2));
                    proof {
                        assert(dec_spec(tail@) == Some(
                            seq![(i0 << 2) | (i1 >> 4), (((i1 & 15) << 4) | (i2 >> 2)) as u8],
                        ));
                        assert(out@ =~= out@.subrange(0, out@.len() - 2) + seq![
                            (i0 << 2) | (i1 >> 4),
                            (((i1 & 15) << 4) | (i2 >> 2)) as u8,
                        ]);
                    }
                    Some(out)
                } else {
                    None
                }
            },
            None => None,
        }
    } else {
        let v2 = b64_val_x(c2);
        let v3 = b64_val_x(c3);
        match (v2, v3) {
            (Some(i2), Some(i3)) => {
                proof {
                    assert(tail@.skip(4) =~= Seq::<u8>::empty());
                    assert(dec_spec(Seq::<u8>::empty()) == Some(Seq::<u8>::empty()));
                    assert(dec_spec(tail@) == Some(
                        seq![
                            (i0 << 2) | (i1 >> 4),
                            ((i1 & 15) << 4) | (i2 >> 2),
                            (((i2 & 3) << 6) | i3) as u8,
                        ] + Seq::<u8>::empty(),
                    ));
                }
                out.push((i0 << 2) | (i1 >> 4));
                out.push(((i1 & 15) << 4) | (i2 >> 2));
                out.push(((i2 & 3) << 6) | i3);
                proof {
                    assert(out@ =~= out@.subrange(0, out@.len() - 3) + (seq![
                        (i0 << 2) | (i1 >> 4),
                        ((i1 & 15) << 4) | (i2 >> 2),
                        (((i2 & 3) << 6) | i3) as u8,
                    ] + Seq::<u8>::empty()));
                }
                Some(out)
            },
            _ => {
                proof {
                    assert(dec_spec(tail@) is None);
                }
                None
            },
        }
    }
}

} // verus!
