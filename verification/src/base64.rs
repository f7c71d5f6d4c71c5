//! URL-safe base64 without padding: the encoding used for every segment of
//! the bearer-token wire format.

use vstd::prelude::*;
use crate::text::ascii_bytes;

verus! {

/// The alphabet byte for a 6-bit value.
pub open spec fn b64_char(v: u8) -> u8 {
    if v < 26 {
        (0x41 + v) as u8
    } else if v < 52 {
        (0x61 + (v - 26)) as u8
    } else if v < 62 {
        (0x30 + (v - 52)) as u8
    } else if v == 62 {
        0x2d
    } else {
        0x5f
    }
}

/// The 6-bit value of an alphabet byte, `None` outside the alphabet.
pub open spec fn b64_val(b: u8) -> Option<u8> {
    if 0x41 <= b <= 0x5a {
        Some((b - 0x41) as u8)
    } else if 0x61 <= b <= 0x7a {
        Some((b - 0x61 + 26) as u8)
    } else if 0x30 <= b <= 0x39 {
        Some((b - 0x30 + 52) as u8)
    } else if b == 0x2d {
        Some(62u8)
    } else if b == 0x5f {
        Some(63u8)
    } else {
        None
    }
}

pub open spec fn is_b64_byte(b: u8) -> bool {
    b64_val(b) is Some
}

pub proof fn lemma_b64_char_val(v: u8)
    requires
        v < 64,
    ensures
        b64_val(b64_char(v)) == Some(v),
        is_b64_byte(b64_char(v)),
{
}

/// An alphabet byte is ASCII and is neither `.` nor `"` nor `\`.
pub proof fn lemma_b64_byte_plain(b: u8)
    requires
        is_b64_byte(b),
    ensures
        0x20 <= b < 0x7f,
        b != 0x2e,
        b != 0x22,
        b != 0x5c,
{
}

/// URL-safe base64 of a byte sequence, unpadded, 4 alphabet bytes per 3
/// input bytes with a 2- or 3-byte tail for a remainder of 1 or 2.
pub open spec fn b64_encode_spec(s: Seq<u8>) -> Seq<u8>
    decreases s.len(),
{
    if s.len() == 0 {
        Seq::empty()
    } else if s.len() == 1 {
        seq![b64_char(s[0] >> 2), b64_char((s[0] & 3) << 4)]
    } else if s.len() == 2 {
        seq![
            b64_char(s[0] >> 2),
            b64_char(((s[0] & 3) << 4) | (s[1] >> 4)),
            b64_char((s[1] & 0xf) << 2),
        ]
    } else {
        seq![
            b64_char(s[0] >> 2),
            b64_char(((s[0] & 3) << 4) | (s[1] >> 4)),
            b64_char(((s[1] & 0xf) << 2) | (s[2] >> 6)),
            b64_char(s[2] & 0x3f),
        ] + b64_encode_spec(s.skip(3))
    }
}

/// Inverse reading of an unpadded URL-safe base64 sequence; lenient about
/// the trailing bits a strict encoder leaves at zero.
pub open spec fn b64_decode_spec(s: Seq<u8>) -> Option<Seq<u8>>
    decreases s.len(),
{
    if s.len() == 0 {
        Some(Seq::empty())
    } else if s.len() == 1 {
        None
    } else if s.len() == 2 {
        match (b64_val(s[0]), b64_val(s[1])) {
            (Some(v0), Some(v1)) => Some(seq![((v0 << 2) | (v1 >> 4)) as u8]),
            _ => None,
        }
    } else if s.len() == 3 {
        match (b64_val(s[0]), b64_val(s[1]), b64_val(s[2])) {
            (Some(v0), Some(v1), Some(v2)) => Some(
                seq![((v0 << 2) | (v1 >> 4)) as u8, (((v1 & 0xf) << 4) | (v2 >> 2)) as u8],
            ),
            _ => None,
        }
    } else {
        match (b64_val(s[0]), b64_val(s[1]), b64_val(s[2]), b64_val(s[3])) {
            (Some(v0), Some(v1), Some(v2), Some(v3)) => match b64_decode_spec(s.skip(4)) {
                Some(rest) => Some(
                    seq![
                        ((v0 << 2) | (v1 >> 4)) as u8,
                        (((v1 & 0xf) << 4) | (v2 >> 2)) as u8,
                        (((v2 & 3) << 6) | v3) as u8,
                    ] + rest,
                ),
                None => None,
            },
            _ => None,
        }
    }
}

proof fn lemma_chunk_values(b0: u8, b1: u8, b2: u8)
    ensures
        b0 >> 2 < 64,
        ((b0 & 3) << 4) | (b1 >> 4) < 64,
        ((b1 & 0xf) << 2) | (b2 >> 6) < 64,
        b2 & 0x3f < 64,
        (b0 & 3) << 4 < 64,
        (b1 & 0xf) << 2 < 64,
        ((b0 >> 2) << 2) | ((((b0 & 3) << 4) | (b1 >> 4)) >> 4) == b0,
        (((((b0 & 3) << 4) | (b1 >> 4)) & 0xf) << 4) | (((((b1 & 0xf) << 2) | (b2 >> 6))) >> 2)
            == b1,
        ((((((b1 & 0xf) << 2) | (b2 >> 6))) & 3) << 6) | (b2 & 0x3f) == b2,
        (((((b0 & 3) << 4) | (b1 >> 4)) & 0xf) << 4) | (((b1 & 0xf) << 2) >> 2) == b1,
        ((b0 >> 2) << 2) | (((b0 & 3) << 4) >> 4) == b0,
{
    assert(b0 >> 2 < 64 && ((b0 & 3) << 4) | (b1 >> 4) < 64 && ((b1 & 0xf) << 2) | (b2 >> 6)
        < 64 && b2 & 0x3f < 64 && (b0 & 3) << 4 < 64 && (b1 & 0xf) << 2 < 64 && ((b0 >> 2) << 2)
        | ((((b0 & 3) << 4) | (b1 >> 4)) >> 4) == b0 && (((((b0 & 3) << 4) | (b1 >> 4)) & 0xf)
        << 4) | (((((b1 & 0xf) << 2) | (b2 >> 6))) >> 2) == b1 && ((((((b1 & 0xf) << 2) | (b2
        >> 6))) & 3) << 6) | (b2 & 0x3f) == b2 && (((((b0 & 3) << 4) | (b1 >> 4)) & 0xf) << 4) | (((
    b1 & 0xf) << 2) >> 2) == b1 && ((b0 >> 2) << 2) | (((b0 & 3) << 4) >> 4) == b0) by (bit_vector);
}

/// Every byte an encoder emits is in the URL-safe alphabet.
pub proof fn lemma_b64_encode_alphabet(s: Seq<u8>)
    ensures
        forall|i: int|
            0 <= i < b64_encode_spec(s).len() ==> is_b64_byte(#[trigger] b64_encode_spec(s)[i]),
        ascii_bytes(b64_encode_spec(s)),
    decreases s.len(),
{
    if s.len() >= 3 {
        lemma_b64_encode_alphabet(s.skip(3));
    }
    assert forall|i: int| 0 <= i < b64_encode_spec(s).len() implies is_b64_byte(
        #[trigger] b64_encode_spec(s)[i],
    ) by {
        if s.len() > 0 {
            lemma_chunk_values(s[0], if s.len() >= 2 { s[1] } else { 0 }, if s.len() >= 3 { s[2] } else { 0 });
        }
    }
    assert forall|i: int| 0 <= i < b64_encode_spec(s).len() implies b64_encode_spec(s)[i]
        < 128 by {
        lemma_b64_byte_plain(b64_encode_spec(s)[i]);
    }
}

/// Decoding undoes encoding.
pub proof fn lemma_b64_roundtrip(s: Seq<u8>)
    ensures
        b64_decode_spec(b64_encode_spec(s)) == Some(s),
    decreases s.len(),
{
    let e = b64_encode_spec(s);
    if s.len() == 0 {
        assert(e =~= Seq::<u8>::empty());
        assert(b64_decode_spec(e) == Some(Seq::<u8>::empty()));
        assert(Seq::<u8>::empty() =~= s);
    } else if s.len() == 1 {
        lemma_chunk_values(s[0], 0, 0);
        lemma_b64_char_val(s[0] >> 2);
        lemma_b64_char_val((s[0] & 3) << 4);
        assert(b64_decode_spec(e) == Some(seq![((s[0] >> 2) << 2) | (((s[0] & 3) << 4) >> 4)]));
        assert(seq![((s[0] >> 2) << 2) | (((s[0] & 3) << 4) >> 4)] =~= s);
    } else if s.len() == 2 {
        lemma_chunk_values(s[0], s[1], 0);
        lemma_b64_char_val(s[0] >> 2);
        lemma_b64_char_val(((s[0] & 3) << 4) | (s[1] >> 4));
        lemma_b64_char_val((s[1] & 0xf) << 2);
        assert(b64_decode_spec(e) matches Some(d) && d =~= s);
    } else {
        let v0 = s[0] >> 2;
        let v1 = ((s[0] & 3) << 4) | (s[1] >> 4);
        let v2 = ((s[1] & 0xf) << 2) | (s[2] >> 6);
        let v3 = s[2] & 0x3f;
        lemma_chunk_values(s[0], s[1], s[2]);
        lemma_b64_char_val(v0);
        lemma_b64_char_val(v1);
        lemma_b64_char_val(v2);
        lemma_b64_char_val(v3);
        lemma_b64_roundtrip(s.skip(3));
        let chunk = seq![b64_char(v0), b64_char(v1), b64_char(v2), b64_char(v3)];
        assert(e == chunk + b64_encode_spec(s.skip(3)));
        assert(e.len() >= 4);
        assert(e[0] == b64_char(v0) && e[1] == b64_char(v1) && e[2] == b64_char(v2) && e[3]
            == b64_char(v3));
        assert(e.skip(4) =~= b64_encode_spec(s.skip(3)));
        assert(b64_decode_spec(e) matches Some(d) && d =~= s);
    }
}

fn enc_ch(v: u8) -> (r: u8)
    requires
        v < 64,
    ensures
        r == b64_char(v),
{
    if v < 26 {
        0x41 + v
    } else if v < 52 {
        0x61 + (v - 26)
    } else if v < 62 {
        0x30 + (v - 52)
    } else if v == 62 {
        0x2d
    } else {
        0x5f
    }
}

fn dec_ch(b: u8) -> (r: Option<u8>)
    ensures
        r == b64_val(b),
{
    if 0x41 <= b && b <= 0x5a {
        Some(b - 0x41)
    } else if 0x61 <= b && b <= 0x7a {
        Some(b - 0x61 + 26)
    } else if 0x30 <= b && b <= 0x39 {
        Some(b - 0x30 + 52)
    } else if b == 0x2d {
        Some(62)
    } else if b == 0x5f {
        Some(63)
    } else {
        None
    }
}

fn b64_encode_from(s: &Vec<u8>, from: usize) -> (r: Vec<u8>)
    requires
        from <= s@.len(),
    ensures
        r@ == b64_encode_spec(s@.skip(from as int)),
    decreases s@.len() - from,
{
    let ghost tail = s@.skip(from as int);
    let n = s.len() - from;
    let mut r: Vec<u8> = Vec::new();
    if n == 0 {
        proof {
            assert(r@ =~= b64_encode_spec(tail));
        }
        r
    } else if n == 1 {
        let b0 = s[from];
        proof {
            lemma_chunk_values(b0, 0, 0);
            assert(tail[0] == b0);
        }
        r.push(enc_ch(b0 >> 2));
        r.push(enc_ch((b0 & 3) << 4));
        proof {
            assert(r@ =~= b64_encode_spec(tail));
        }
        r
    } else if n == 2 {
        let b0 = s[from];
        let b1 = s[from + 1];
        proof {
            lemma_chunk_values(b0, b1, 0);
            assert(tail[0] == b0 && tail[1] == b1);
        }
        r.push(enc_ch(b0 >> 2));
        r.push(enc_ch(((b0 & 3) << 4) | (b1 >> 4)));
        r.push(enc_ch((b1 & 0xf) << 2));
        proof {
            assert(r@ =~= b64_encode_spec(tail));
        }
        r
    } else {
        let b0 = s[from];
        let b1 = s[from + 1];
        let b2 = s[from + 2];
        proof {
            lemma_chunk_values(b0, b1, b2);
            assert(tail[0] == b0 && tail[1] == b1 && tail[2] == b2);
        }
        r.push(enc_ch(b0 >> 2));
        r.push(enc_ch(((b0 & 3) << 4) | (b1 >> 4)));
        r.push(enc_ch(((b1 & 0xf) << 2) | (b2 >> 6)));
        r.push(enc_ch(b2 & 0x3f));
        let mut rest = b64_encode_from(s, from + 3);
        proof {
            assert(s@.skip(from as int + 3) =~= tail.skip(3));
        }
        r.append(&mut rest);
        proof {
            assert(r@ =~= b64_encode_spec(tail));
        }
        r
    }
}

/// URL-safe unpadded base64 of `v`.
pub fn b64_encode(v: &Vec<u8>) -> (r: Vec<u8>)
    ensures
        r@ == b64_encode_spec(v@),
{
    let r = b64_encode_from(v, 0);
    proof {
        assert(v@.skip(0) =~= v@);
    }
    r
}

fn b64_decode_from(s: &Vec<u8>, from: usize) -> (r: Option<Vec<u8>>)
    requires
        from <= s@.len(),
    ensures
        match r {
            Some(v) => b64_decode_spec(s@.skip(from as int)) == Some(v@),
            None => b64_decode_spec(s@.skip(from as int)) is None,
        },
    decreases s@.len() - from,
{
    let ghost tail = s@.skip(from as int);
    let n = s.len() - from;
    if n == 0 {
        let r: Vec<u8> = Vec::new();
        proof {
            assert(tail =~= Seq::<u8>::empty());
            assert(r@ =~= Seq::<u8>::empty());
        }
        Some(r)
    } else if n == 1 {
        None
    } else if n == 2 {
        proof {
            assert(tail[0] == s@[from as int] && tail[1] == s@[from as int + 1]);
        }
        let v0 = match dec_ch(s[from]) {
            Some(v) => v,
            None => { return None; },
        };
        let v1 = match dec_ch(s[from + 1]) {
            Some(v) => v,
            None => { return None; },
        };
        let mut r: Vec<u8> = Vec::new();
        r.push((v0 << 2) | (v1 >> 4));
        proof {
            assert(r@ =~= seq![((v0 << 2) | (v1 >> 4)) as u8]);
        }
        Some(r)
    } else if n == 3 {
        proof {
            assert(tail[0] == s@[from as int] && tail[1] == s@[from as int + 1] && tail[2]
                == s@[from as int + 2]);
        }
        let v0 = match dec_ch(s[from]) {
            Some(v) => v,
            None => { return None; },
        };
        let v1 = match dec_ch(s[from + 1]) {
            Some(v) => v,
            None => { return None; },
        };
        let v2 = match dec_ch(s[from + 2]) {
            Some(v) => v,
            None => { return None; },
        };
        let mut r: Vec<u8> = Vec::new();
        r.push((v0 << 2) | (v1 >> 4));
        r.push(((v1 & 0xf) << 4) | (v2 >> 2));
        proof {
            assert(r@ =~= seq![((v0 << 2) | (v1 >> 4)) as u8, (((v1 & 0xf) << 4) | (v2 >> 2)) as u8]);
        }
        Some(r)
    } else {
        proof {
            assert(tail[0] == s@[from as int] && tail[1] == s@[from as int + 1] && tail[2]
                == s@[from as int + 2] && tail[3] == s@[from as int + 3]);
        }
        let v0 = match dec_ch(s[from]) {
            Some(v) => v,
            None => { return None; },
        };
        let v1 = match dec_ch(s[from + 1]) {
            Some(v) => v,
            None => { return None; },
        };
        let v2 = match dec_ch(s[from + 2]) {
            Some(v) => v,
            None => { return None; },
        };
        let v3 = match dec_ch(s[from + 3]) {
            Some(v) => v,
            None => { return None; },
        };
        let rest = match b64_decode_from(s, from + 4) {
            Some(v) => v,
            None => {
                proof {
                    assert(s@.skip(from as int + 4) =~= tail.skip(4));
                }
                return None;
            },
        };
        let mut r: Vec<u8> = Vec::new();
        r.push((v0 << 2) | (v1 >> 4));
        r.push(((v1 & 0xf) << 4) | (v2 >> 2));
        r.push(((v2 & 3) << 6) | v3);
        let mut rest = rest;
        r.append(&mut rest);
        proof {
            assert(s@.skip(from as int + 4) =~= tail.skip(4));
            assert(r@ =~= seq![
                ((v0 << 2) | (v1 >> 4)) as u8,
                (((v1 & 0xf) << 4) | (v2 >> 2)) as u8,
                (((v2 & 3) << 6) | v3) as u8,
            ] + b64_decode_spec(tail.skip(4)).unwrap());
        }
        Some(r)
    }
}

/// Reads URL-safe unpadded base64; `None` when `v` is not such an encoding.
pub fn b64_decode(v: &Vec<u8>) -> (r: Option<Vec<u8>>)
    ensures
        match r {
            Some(out) => b64_decode_spec(v@) == Some(out@),
            None => b64_decode_spec(v@) is None,
        },
{
    let r = b64_decode_from(v, 0);
    proof {
        assert(v@.skip(0) =~= v@);
    }
    r
}

} // verus!
