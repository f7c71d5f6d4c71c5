//! Byte-level text helpers shared by the token codec: ASCII views of byte
//! sequences and decimal rendering / reading of unsigned integers.

use vstd::prelude::*;

verus! {

/// Every byte is an ASCII code point.
pub open spec fn ascii_bytes(s: Seq<u8>) -> bool {
    forall|i: int| 0 <= i < s.len() ==> s[i] < 128
}

/// The characters spelled by a sequence of ASCII bytes.
pub open spec fn ascii_view(s: Seq<u8>) -> Seq<char> {
    Seq::new(s.len(), |i: int| s[i] as char)
}

/// The byte codes of a sequence of characters (meaningful for ASCII text).
pub open spec fn chars_to_bytes(s: Seq<char>) -> Seq<u8> {
    Seq::new(s.len(), |i: int| s[i] as u8)
}

pub proof fn lemma_ascii_view_roundtrip(s: Seq<u8>)
    requires
        ascii_bytes(s),
    ensures
        chars_to_bytes(ascii_view(s)) =~= s,
        vstd::utf8::is_ascii_chars(ascii_view(s)),
{
    assert forall|i: int| 0 <= i < s.len() implies (ascii_view(s)[i] as u8) == s[i] by {
        assert(s[i] < 128);
    }
}

pub proof fn lemma_chars_to_bytes_roundtrip(s: Seq<char>)
    requires
        vstd::utf8::is_ascii_chars(s),
    ensures
        ascii_view(chars_to_bytes(s)) =~= s,
        ascii_bytes(chars_to_bytes(s)),
{
    assert forall|i: int| 0 <= i < s.len() implies chars_to_bytes(s)[i] < 128
        && (chars_to_bytes(s)[i] as char) == s[i] by {
        assert('\0' <= s[i] <= '\u{7f}');
    }
}

/// Turns ASCII bytes into the `String` spelling the same characters.
///
/// Relies on `String::from_utf8` (std): ASCII bytes are valid UTF-8 and
/// decode to exactly one character per byte, each the byte's code point.
#[verifier::external_body]
pub fn ascii_to_string(v: Vec<u8>) -> (r: String)
    requires
        ascii_bytes(v@),
    ensures
        r@ == ascii_view(v@),
{
    String::from_utf8(v).expect("ASCII bytes are valid UTF-8")
}

/// The decimal digits of `n`, most significant first.
pub open spec fn dec_digits(n: nat) -> Seq<u8>
    decreases n,
{
    if n < 10 {
        seq![(n + 0x30) as u8]
    } else {
        dec_digits(n / 10).push((n % 10 + 0x30) as u8)
    }
}

pub open spec fn is_digit(b: u8) -> bool {
    0x30 <= b <= 0x39
}

pub proof fn lemma_dec_digits_form(n: nat)
    ensures
        dec_digits(n).len() >= 1,
        forall|i: int| 0 <= i < dec_digits(n).len() ==> is_digit(#[trigger] dec_digits(n)[i]),
    decreases n,
{
    if n >= 10 {
        lemma_dec_digits_form(n / 10);
    }
}

/// The number spelled by a sequence of decimal digits, most significant first.
pub open spec fn dec_val(s: Seq<u8>) -> nat
    decreases s.len(),
{
    if s.len() == 0 {
        0
    } else {
        dec_val(s.drop_last()) * 10 + (s.last() - 0x30) as nat
    }
}

pub open spec fn all_digits(s: Seq<u8>) -> bool {
    forall|i: int| 0 <= i < s.len() ==> is_digit(#[trigger] s[i])
}

pub proof fn lemma_dec_digits_val(n: nat)
    ensures
        dec_val(dec_digits(n)) == n,
    decreases n,
{
    if n < 10 {
        let s = dec_digits(n);
        assert(s =~= seq![(n + 0x30) as u8]);
        assert(s.drop_last() =~= Seq::<u8>::empty());
        assert(dec_val(s.drop_last()) == 0);
        assert(s.last() == (n + 0x30) as u8);
        assert(dec_val(s) == 0 * 10 + ((n + 0x30) as u8 - 0x30) as nat);
    } else {
        lemma_dec_digits_val(n / 10);
        let s = dec_digits(n);
        assert(s == dec_digits(n / 10).push((n % 10 + 0x30) as u8));
        assert(s.drop_last() =~= dec_digits(n / 10));
        assert(s.last() == (n % 10 + 0x30) as u8);
        assert(dec_val(s) == (n / 10) * 10 + ((n % 10 + 0x30) as u8 - 0x30) as nat);
        assert(n == (n / 10) * 10 + n % 10);
    }
}

pub proof fn lemma_dec_val_prefix(s: Seq<u8>, k: int)
    requires
        0 <= k <= s.len(),
    ensures
        dec_val(s.subrange(0, k)) <= dec_val(s),
    decreases s.len(),
{
    if k < s.len() {
        lemma_dec_val_prefix(s.drop_last(), k);
        assert(s.drop_last().subrange(0, k) =~= s.subrange(0, k));
        assert(dec_val(s) == dec_val(s.drop_last()) * 10 + (s.last() - 0x30) as nat);
        assert(dec_val(s.drop_last()) * 10 >= dec_val(s.drop_last())) by (nonlinear_arith);
    } else {
        assert(s.subrange(0, k) =~= s);
    }
}

/// Reads the decimal number spelled by `s[from..to]`; `None` when the range
/// is empty, holds a non-digit, or spells a value above `u64::MAX`.
pub fn parse_dec(s: &Vec<u8>, from: usize, to: usize) -> (r: Option<u64>)
    requires
        from <= to <= s@.len(),
    ensures
        ({
            let part = s@.subrange(from as int, to as int);
            match r {
                Some(v) => all_digits(part) && part.len() >= 1 && dec_val(part) == v,
                None => !(all_digits(part) && part.len() >= 1 && dec_val(part) <= u64::MAX),
            }
        }),
{
    let ghost part = s@.subrange(from as int, to as int);
    if from == to {
        return None;
    }
    let mut acc: u64 = 0;
    let mut i: usize = from;
    while i < to
        invariant
            from <= i <= to <= s@.len(),
            part == s@.subrange(from as int, to as int),
            all_digits(s@.subrange(from as int, i as int)),
            acc == dec_val(s@.subrange(from as int, i as int)),
        decreases to - i,
    {
        let b = s[i];
        if b < 0x30 || b > 0x39 {
            proof {
                assert(part[i - from] == b);
            }
            return None;
        }
        let d = b - 0x30;
        let ghost pre = s@.subrange(from as int, i as int);
        let ghost ext = s@.subrange(from as int, i as int + 1);
        proof {
            assert(ext.drop_last() =~= pre);
            assert(ext.last() == b);
            assert(dec_val(ext) == dec_val(pre) * 10 + d);
        }
        if acc > (u64::MAX - (d as u64)) / 10 {
            proof {
                assert(dec_val(ext) > u64::MAX) by {
                    assert(acc * 10 + d > u64::MAX) by (nonlinear_arith)
                        requires
                            acc > (u64::MAX - (d as u64)) / 10,
                            d <= 9,
                            acc == dec_val(pre),
                    ;
                }
                lemma_dec_val_prefix(part, i as int + 1 - from);
                assert(part.subrange(0, i as int + 1 - from) =~= ext);
            }
            return None;
        }
        acc = acc * 10 + (d as u64);
        i = i + 1;
    }
    proof {
        assert(s@.subrange(from as int, i as int) =~= part);
    }
    Some(acc)
}

/// Renders `n` in decimal, most significant digit first.
pub fn format_u64(n: u64) -> (r: Vec<u8>)
    ensures
        r@ == dec_digits(n as nat),
    decreases n,
{
    if n < 10 {
        let mut r: Vec<u8> = Vec::new();
        r.push((n as u8) + 0x30);
        proof {
            assert(r@ =~= dec_digits(n as nat));
        }
        r
    } else {
        let mut r = format_u64(n / 10);
        r.push(((n % 10) as u8) + 0x30);
        r
    }
}

} // verus!
