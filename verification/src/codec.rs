//! The fixed-width text encoding for salts and hashes: base64 with the
//! standard alphabet and no padding.
//!
//! The encoding is padding-free and of constant length for a given byte
//! length, and its alphabet contains no character that the query validators
//! refuse, so encoded credentials can be spliced into single-quoted query
//! fragments without further escaping. Decoding rejects any string that is
//! not the exact encoding of some byte sequence (a stray length or nonzero
//! trailing bits), and decoding an encoding always gives the bytes back.

use vstd::prelude::*;

use crate::validate::{is_space, valid_literal, valid_name};

verus! {

/// The ASCII code of the alphabet character for a sextet `v < 64`:
/// `A`-`Z`, then `a`-`z`, then `0`-`9`, then `+` and `/`.
pub open spec fn b64_code(v: u8) -> u8 {
    if v < 26 {
        (v + 65) as u8
    } else if v < 52 {
        (v + 71) as u8
    } else if v < 62 {
        (v - 4) as u8
    } else if v == 62 {
        43u8
    } else {
        47u8
    }
}

/// The alphabet character for a sextet `v < 64`.
pub open spec fn b64_char_of(v: u8) -> char {
    b64_code(v) as char
}

/// The sextet a character stands for, if it is in the alphabet.
pub open spec fn b64_val(c: char) -> Option<u8> {
    let n = c as int;
    if 65 <= n && n <= 90 {
        Some((n - 65) as u8)
    } else if 97 <= n && n <= 122 {
        Some((n - 71) as u8)
    } else if 48 <= n && n <= 57 {
        Some((n + 4) as u8)
    } else if n == 43 {
        Some(62u8)
    } else if n == 47 {
        Some(63u8)
    } else {
        None
    }
}

/// The padding-free base64 encoding of a byte sequence: full three-byte
/// groups become four characters, a tail of one or two bytes becomes two or
/// three characters, with the unused low bits of the last sextet zero.
pub open spec fn b64_encode(s: Seq<u8>) -> Seq<char>
    decreases s.len(),
{
    if s.len() >= 3 {
        seq![
            b64_char_of(s[0] >> 2),
            b64_char_of(((s[0] & 3) << 4) | (s[1] >> 4)),
            b64_char_of(((s[1] & 15) << 2) | (s[2] >> 6)),
            b64_char_of(s[2] & 63),
        ] + b64_encode(s.skip(3))
    } else if s.len() == 2 {
        seq![
            b64_char_of(s[0] >> 2),
            b64_char_of(((s[0] & 3) << 4) | (s[1] >> 4)),
            b64_char_of((s[1] & 15) << 2),
        ]
    } else if s.len() == 1 {
        seq![b64_char_of(s[0] >> 2), b64_char_of((s[0] & 3) << 4)]
    } else {
        Seq::empty()
    }
}

/// The decoding of a padding-free base64 text: `Some` exactly when every
/// character is in the alphabet, the length is not one more than a multiple
/// of four, and the trailing bits of a tail group are zero.
pub open spec fn b64_decode(cs: Seq<char>) -> Option<Seq<u8>>
    decreases cs.len(),
{
    if cs.len() == 0 {
        Some(Seq::empty())
    } else if cs.len() == 1 {
        None
    } else if cs.len() == 2 {
        match (b64_val(cs[0]), b64_val(cs[1])) {
            (Some(v0), Some(v1)) => if v1 & 15 == 0 {
                Some(seq![(v0 << 2) | (v1 >> 4)])
            } else {
                None
            },
            _ => None,
        }
    } else if cs.len() == 3 {
        match (b64_val(cs[0]), b64_val(cs[1]), b64_val(cs[2])) {
            (Some(v0), Some(v1), Some(v2)) => if v2 & 3 == 0 {
                Some(seq![(v0 << 2) | (v1 >> 4), ((v1 & 15) << 4) | (v2 >> 2)])
            } else {
                None
            },
            _ => None,
        }
    } else {
        match (b64_val(cs[0]), b64_val(cs[1]), b64_val(cs[2]), b64_val(cs[3])) {
            (Some(v0), Some(v1), Some(v2), Some(v3)) => match b64_decode(cs.skip(4)) {
                Some(rest) => Some(
                    seq![
                        (v0 << 2) | (v1 >> 4),
                        ((v1 & 15) << 4) | (v2 >> 2),
                        ((v2 & 3) << 6) | v3,
                    ] + rest,
                ),
                None => None,
            },
            _ => None,
        }
    }
}

/// The length of the encoding of `n` bytes: four characters for each full
/// three-byte group, and one more character than bytes remain for a tail.
pub open spec fn b64_len(n: nat) -> nat {
    (n / 3) * 4 + if n % 3 == 0 {
        0
    } else {
        n % 3 + 1
    }
}

/// Decoding the character of a sextet gives the sextet back.
proof fn lemma_b64_char_round(v: u8)
    requires
        v < 64,
    ensures
        b64_val(b64_char_of(v)) == Some(v),
{
}

/// Relies on std's String::push: appends exactly the one character.
#[verifier::external_body]
fn push_char(s: &mut String, c: char)
    ensures
        final(s)@ == old(s)@.push(c),
{
    s.push(c);
}

/// The alphabet character of a sextet, computed.
fn b64_char_exec(v: u8) -> (c: char)
    requires
        v < 64,
    ensures
        c == b64_char_of(v),
{
    let code: u8 = if v < 26 {
        v + 65
    } else if v < 52 {
        v + 71
    } else if v < 62 {
        v - 4
    } else if v == 62 {
        43
    } else {
        47
    };
    code as char
}

/// The sextet of a character, computed.
fn b64_val_exec(c: char) -> (r: Option<u8>)
    ensures
        r == b64_val(c),
{
    let n = c as u32;
    if 65 <= n && n <= 90 {
        Some((n - 65) as u8)
    } else if 97 <= n && n <= 122 {
        Some((n - 71) as u8)
    } else if 48 <= n && n <= 57 {
        Some((n + 4) as u8)
    } else if n == 43 {
        Some(62)
    } else if n == 47 {
        Some(63)
    } else {
        None
    }
}

/// Encodes a byte sequence as padding-free base64 text.
pub fn base64_encode(bytes: &[u8]) -> (r: String)
    ensures
        r@ == b64_encode(bytes@),
        r@.len() == b64_len(bytes@.len()),
{
    let n = bytes.len();
    let mut out = String::new();
    let mut i: usize = 0;
    proof {
        assert(bytes@.skip(0) =~= bytes@);
    }
    while n - i >= 3
        invariant
            0 <= i <= n,
            n == bytes@.len(),
            out@ + b64_encode(bytes@.skip(i as int)) == b64_encode(bytes@),
        decreases n - i,
    {
        let b0 = bytes[i];
        let b1 = bytes[i + 1];
        let b2 = bytes[i + 2];
        proof {
            assert(b0 >> 2 < 64 && ((b0 & 3) << 4) | (b1 >> 4) < 64 && ((b1 & 15) << 2) | (b2
                >> 6) < 64 && b2 & 63 < 64) by (bit_vector);
        }
        let ghost pre = out@;
        push_char(&mut out, b64_char_exec(b0 >> 2));
        push_char(&mut out, b64_char_exec(((b0 & 3) << 4) | (b1 >> 4)));
        push_char(&mut out, b64_char_exec(((b1 & 15) << 2) | (b2 >> 6)));
        push_char(&mut out, b64_char_exec(b2 & 63));
        proof {
            let s = bytes@;
            assert(s.skip(i as int)[0] == b0 && s.skip(i as int)[1] == b1 && s.skip(i as int)[2]
                == b2);
            assert(s.skip(i as int).skip(3) =~= s.skip(i as int + 3));
            assert(out@ + b64_encode(s.skip(i as int + 3)) =~= pre + b64_encode(
                s.skip(i as int),
            ));
        }
        i += 3;
    }
    if n - i == 1 {
        let b0 = bytes[i];
        proof {
            assert(b0 >> 2 < 64 && (b0 & 3) << 4 < 64) by (bit_vector);
        }
        let ghost pre = out@;
        push_char(&mut out, b64_char_exec(b0 >> 2));
        push_char(&mut out, b64_char_exec((b0 & 3) << 4));
        proof {
            assert(bytes@.skip(i as int)[0] == b0);
            assert(out@ =~= pre + b64_encode(bytes@.skip(i as int)));
        }
    } else if n - i == 2 {
        let b0 = bytes[i];
        let b1 = bytes[i + 1];
        proof {
            assert(b0 >> 2 < 64 && ((b0 & 3) << 4) | (b1 >> 4) < 64 && (b1 & 15) << 2
                < 64) by (bit_vector);
        }
        let ghost pre = out@;
        push_char(&mut out, b64_char_exec(b0 >> 2));
        push_char(&mut out, b64_char_exec(((b0 & 3) << 4) | (b1 >> 4)));
        push_char(&mut out, b64_char_exec((b1 & 15) << 2));
        proof {
            assert(bytes@.skip(i as int)[0] == b0 && bytes@.skip(i as int)[1] == b1);
            assert(out@ =~= pre + b64_encode(bytes@.skip(i as int)));
        }
    } else {
        proof {
            assert(out@ =~= out@ + b64_encode(bytes@.skip(i as int)));
        }
    }
    proof {
        lemma_b64_encode_len(bytes@);
    }
    out
}

/// Decodes padding-free base64 text; `None` on any string that is not the
/// encoding of a byte sequence.
pub fn base64_decode(s: &str) -> (r: Option<Vec<u8>>)
    ensures
        match r {
            Some(v) => b64_decode(s@) == Some(v@),
            None => b64_decode(s@) is None,
        },
{
    let n = s.unicode_len();
    let mut out: Vec<u8> = Vec::new();
    let mut i: usize = 0;
    proof {
        assert(s@.skip(0) =~= s@);
    }
    while n - i >= 4
        invariant
            0 <= i <= n,
            n == s@.len(),
            opt_prepend(out@, b64_decode(s@.skip(i as int))) == b64_decode(s@),
        decreases n - i,
    {
        let c0 = s.get_char(i);
        let c1 = s.get_char(i + 1);
        let c2 = s.get_char(i + 2);
        let c3 = s.get_char(i + 3);
        proof {
            let cs = s@.skip(i as int);
            assert(cs[0] == c0 && cs[1] == c1 && cs[2] == c2 && cs[3] == c3);
            assert(cs.skip(4) =~= s@.skip(i as int + 4));
        }
        let (v0, v1, v2, v3) = match (
            b64_val_exec(c0),
            b64_val_exec(c1),
            b64_val_exec(c2),
            b64_val_exec(c3),
        ) {
            (Some(v0), Some(v1), Some(v2), Some(v3)) => (v0, v1, v2, v3),
            _ => {
                return None;
            },
        };
        let ghost pre = out@;
        out.push((v0 << 2) | (v1 >> 4));
        out.push(((v1 & 15) << 4) | (v2 >> 2));
        out.push(((v2 & 3) << 6) | v3);
        proof {
            assert(out@ =~= pre + seq![(v0 << 2) | (v1 >> 4), ((v1 & 15) << 4) | (v2 >> 2), ((v2
                & 3) << 6) | v3]);
            lemma_opt_prepend_assoc(
                pre,
                seq![(v0 << 2) | (v1 >> 4), ((v1 & 15) << 4) | (v2 >> 2), ((v2 & 3) << 6) | v3],
                b64_decode(s@.skip(i as int + 4)),
            );
        }
        i += 4;
    }
    if n - i == 0 {
        proof {
            assert(b64_decode(s@.skip(i as int)) == Some(Seq::<u8>::empty()));
            assert(out@ + Seq::<u8>::empty() =~= out@);
        }
        Some(out)
    } else if n - i == 1 {
        None
    } else if n - i == 2 {
        let c0 = s.get_char(i);
        let c1 = s.get_char(i + 1);
        proof {
            assert(s@.skip(i as int)[0] == c0 && s@.skip(i as int)[1] == c1);
        }
        match (b64_val_exec(c0), b64_val_exec(c1)) {
            (Some(v0), Some(v1)) => {
                if v1 & 15 == 0 {
                    let ghost pre = out@;
                    out.push((v0 << 2) | (v1 >> 4));
                    proof {
                        assert(out@ =~= pre + seq![(v0 << 2) | (v1 >> 4)]);
                    }
                    Some(out)
                } else {
                    None
                }
            },
            _ => None,
        }
    } else {
        let c0 = s.get_char(i);
        let c1 = s.get_char(i + 1);
        let c2 = s.get_char(i + 2);
        proof {
            assert(s@.skip(i as int)[0] == c0 && s@.skip(i as int)[1] == c1 && s@.skip(
                i as int,
            )[2] == c2);
        }
        match (b64_val_exec(c0), b64_val_exec(c1), b64_val_exec(c2)) {
            (Some(v0), Some(v1), Some(v2)) => {
                if v2 & 3 == 0 {
                    let ghost pre = out@;
                    out.push((v0 << 2) | (v1 >> 4));
                    out.push(((v1 & 15) << 4) | (v2 >> 2));
                    proof {
                        assert(out@ =~= pre + seq![(v0 << 2) | (v1 >> 4), ((v1 & 15) << 4) | (v2
                            >> 2)]);
                    }
                    Some(out)
                } else {
                    None
                }
            },
            _ => None,
        }
    }
}

/// `None` absorbs, `Some` prepends: the shape a decoded prefix leaves a
/// suffix decoding in.
pub open spec fn opt_prepend(acc: Seq<u8>, rest: Option<Seq<u8>>) -> Option<Seq<u8>> {
    match rest {
        Some(t) => Some(acc + t),
        None => None,
    }
}

proof fn lemma_opt_prepend_assoc(a: Seq<u8>, b: Seq<u8>, rest: Option<Seq<u8>>)
    ensures
        opt_prepend(a + b, rest) == opt_prepend(a, opt_prepend(b, rest)),
{
    match rest {
        Some(t) => {
            assert((a + b) + t =~= a + (b + t));
        },
        None => {},
    }
}

/// Encoding length is a function of the byte length alone.
pub proof fn lemma_b64_encode_len(s: Seq<u8>)
    ensures
        b64_encode(s).len() == b64_len(s.len()),
    decreases s.len(),
{
    if s.len() >= 3 {
        lemma_b64_encode_len(s.skip(3));
        assert(s.len() / 3 == 1 + (s.len() - 3) / 3);
        assert(s.len() % 3 == (s.len() - 3) % 3);
    }
}

/// Decoding an encoding is lossless: the bytes come back exactly.
pub proof fn lemma_base64_round_trip(s: Seq<u8>)
    ensures
        b64_decode(b64_encode(s)) == Some(s),
    decreases s.len(),
{
    if s.len() == 0 {
        assert(b64_decode(b64_encode(s)) == Some(Seq::<u8>::empty()));
        assert(Seq::<u8>::empty() =~= s);
    } else if s.len() == 1 {
        let b0 = s[0];
        let v0 = b0 >> 2;
        let v1 = (b0 & 3) << 4;
        assert(v0 < 64 && v1 < 64 && v1 & 15 == 0 && ((v0 << 2) | (v1 >> 4)) == b0) by (bit_vector)
            requires v0 == b0 >> 2 && v1 == (b0 & 3) << 4;
        lemma_b64_char_round(v0);
        lemma_b64_char_round(v1);
        assert(seq![b0] =~= s);
    } else if s.len() == 2 {
        let b0 = s[0];
        let b1 = s[1];
        let v0 = b0 >> 2;
        let v1 = ((b0 & 3) << 4) | (b1 >> 4);
        let v2 = (b1 & 15) << 2;
        assert(v0 < 64 && v1 < 64 && v2 < 64 && v2 & 3 == 0 && ((v0 << 2) | (v1 >> 4)) == b0 && ((
        (v1 & 15) << 4) | (v2 >> 2)) == b1) by (bit_vector)
            requires v0 == b0 >> 2 && v1 == ((b0 & 3) << 4) | (b1 >> 4) && v2 == (b1 & 15) << 2;
        lemma_b64_char_round(v0);
        lemma_b64_char_round(v1);
        lemma_b64_char_round(v2);
        assert(seq![b0, b1] =~= s);
    } else {
        let b0 = s[0];
        let b1 = s[1];
        let b2 = s[2];
        let v0 = b0 >> 2;
        let v1 = ((b0 & 3) << 4) | (b1 >> 4);
        let v2 = ((b1 & 15) << 2) | (b2 >> 6);
        let v3 = b2 & 63;
        assert(v0 < 64 && v1 < 64 && v2 < 64 && v3 < 64 && ((v0 << 2) | (v1 >> 4)) == b0 && (((v1
            & 15) << 4) | (v2 >> 2)) == b1 && (((v2 & 3) << 6) | v3) == b2) by (bit_vector)
            requires v0 == b0 >> 2 && v1 == ((b0 & 3) << 4) | (b1 >> 4) && v2 == ((b1 & 15) << 2)
                | (b2 >> 6) && v3 == b2 & 63;
        lemma_b64_char_round(v0);
        lemma_b64_char_round(v1);
        lemma_b64_char_round(v2);
        lemma_b64_char_round(v3);
        lemma_base64_round_trip(s.skip(3));
        let cs = b64_encode(s);
        let head = seq![b64_char_of(v0), b64_char_of(v1), b64_char_of(v2), b64_char_of(v3)];
        assert(cs == head + b64_encode(s.skip(3)));
        assert(cs.len() >= 4);
        assert(cs[0] == head[0] && cs[1] == head[1] && cs[2] == head[2] && cs[3] == head[3]);
        assert(cs.skip(4) =~= b64_encode(s.skip(3)));
        assert(seq![b0, b1, b2] + s.skip(3) =~= s);
    }
}

/// Every character the encoder emits may stand inside a single-quoted query
/// fragment and inside a backtick-delimited identifier fragment.
pub proof fn lemma_b64_text_safe(s: Seq<u8>)
    ensures
        valid_literal(b64_encode(s)),
        valid_name(b64_encode(s)),
    decreases s.len(),
{
    assert forall|v: u8| v < 64 implies !is_space(b64_char_of(v)) && b64_char_of(v) != '\''
        && b64_char_of(v) != '`' by {
        assert(43 <= b64_code(v) && b64_code(v) <= 122 && b64_code(v) != 96);
    }
    if s.len() >= 3 {
        lemma_b64_text_safe(s.skip(3));
        let head = seq![
            b64_char_of(s[0] >> 2),
            b64_char_of(((s[0] & 3) << 4) | (s[1] >> 4)),
            b64_char_of(((s[1] & 15) << 2) | (s[2] >> 6)),
            b64_char_of(s[2] & 63),
        ];
        let tail = b64_encode(s.skip(3));
        let b0 = s[0];
        let b1 = s[1];
        let b2 = s[2];
        assert(b0 >> 2 < 64 && ((b0 & 3) << 4) | (b1 >> 4) < 64 && ((b1 & 15) << 2) | (b2 >> 6)
            < 64 && b2 & 63 < 64) by (bit_vector);
        assert forall|i: int| 0 <= i < (head + tail).len() implies !is_space((head + tail)[i]) && (
        head + tail)[i] != '\'' && (head + tail)[i] != '`' by {
            if i < 4 {
            } else {
                assert((head + tail)[i] == tail[i - 4]);
            }
        }
    } else if s.len() == 2 {
        let b0 = s[0];
        let b1 = s[1];
        assert(b0 >> 2 < 64 && ((b0 & 3) << 4) | (b1 >> 4) < 64 && (b1 & 15) << 2
            < 64) by (bit_vector);
    } else if s.len() == 1 {
        let b0 = s[0];
        assert(b0 >> 2 < 64 && (b0 & 3) << 4 < 64) by (bit_vector);
    }
}

} // verus!
