//! The claims record carried by a bearer token and its canonical JSON
//! spelling: `{"sub":<id>,"jti":"<unique id>","exp":<secs>,"iat":<secs>}`.

use vstd::prelude::*;
use crate::text::{
    all_digits, ascii_bytes, ascii_view, chars_to_bytes, dec_digits, dec_val, format_u64,
    is_digit, lemma_dec_digits_form, lemma_dec_digits_val, parse_dec,
};

verus! {

/// Characters that may stand unescaped inside a JSON string literal here:
/// printable ASCII without the quote and the backslash.
pub open spec fn json_safe_chars(s: Seq<char>) -> bool {
    forall|i: int|
        0 <= i < s.len() ==> (' ' <= #[trigger] s[i] < '\u{7f}' && s[i] != '"' && s[i] != '\\')
}

/// The byte-level mirror of [`json_safe_chars`].
pub open spec fn json_safe_byte(b: u8) -> bool {
    0x20 <= b < 0x7f && b != 0x22 && b != 0x5c
}

/// A well-formed claims record: non-negative times and a unique id that
/// needs no JSON escaping.
pub open spec fn claims_wf(sub: u64, jti: Seq<char>, exp: i64, iat: i64) -> bool {
    &&& 0 <= exp
    &&& 0 <= iat
    &&& json_safe_chars(jti)
}

pub open spec fn lit_sub() -> Seq<u8> {
    seq![0x7bu8, 0x22, 0x73, 0x75, 0x62, 0x22, 0x3a]
}

pub open spec fn lit_jti() -> Seq<u8> {
    seq![0x2cu8, 0x22, 0x6a, 0x74, 0x69, 0x22, 0x3a, 0x22]
}

pub open spec fn lit_exp() -> Seq<u8> {
    seq![0x22u8, 0x2c, 0x22, 0x65, 0x78, 0x70, 0x22, 0x3a]
}

pub open spec fn lit_iat() -> Seq<u8> {
    seq![0x2cu8, 0x22, 0x69, 0x61, 0x74, 0x22, 0x3a]
}

/// The canonical JSON bytes of a claims record.
pub open spec fn claims_json(sub: u64, jti: Seq<char>, exp: i64, iat: i64) -> Seq<u8> {
    lit_sub() + dec_digits(sub as nat) + lit_jti() + chars_to_bytes(jti) + lit_exp()
        + dec_digits(exp as nat) + lit_iat() + dec_digits(iat as nat) + seq![0x7du8]
}

pub proof fn lemma_json_safe_ascii(s: Seq<char>)
    requires
        json_safe_chars(s),
    ensures
        vstd::utf8::is_ascii_chars(s),
        forall|i: int| 0 <= i < s.len() ==> json_safe_byte(#[trigger] chars_to_bytes(s)[i]),
        ascii_bytes(chars_to_bytes(s)),
{
    assert forall|i: int| 0 <= i < s.len() implies '\0' <= #[trigger] s[i] <= '\u{7f}' by {
        assert(' ' <= s[i] < '\u{7f}');
    }
    assert forall|i: int| 0 <= i < s.len() implies json_safe_byte(#[trigger] chars_to_bytes(s)[i])
        && chars_to_bytes(s)[i] < 128 by {
        assert(' ' <= s[i] < '\u{7f}' && s[i] != '"' && s[i] != '\\');
    }
}

/// The canonical JSON bytes are printable ASCII.
pub proof fn lemma_claims_json_ascii(sub: u64, jti: Seq<char>, exp: i64, iat: i64)
    requires
        claims_wf(sub, jti, exp, iat),
    ensures
        ascii_bytes(claims_json(sub, jti, exp, iat)),
{
    lemma_json_safe_ascii(jti);
    lemma_dec_digits_form(sub as nat);
    lemma_dec_digits_form(exp as nat);
    lemma_dec_digits_form(iat as nat);
}

/// Renders a claims record as its canonical JSON bytes.
pub fn encode_claims(sub: u64, jti: &str, exp: i64, iat: i64) -> (r: Vec<u8>)
    requires
        claims_wf(sub, jti@, exp, iat),
    ensures
        r@ == claims_json(sub, jti@, exp, iat),
{
    broadcast use vstd::string::is_ascii_spec_bytes;

    let mut out: Vec<u8> = Vec::new();
    out.push(0x7b);
    out.push(0x22);
    out.push(0x73);
    out.push(0x75);
    out.push(0x62);
    out.push(0x22);
    out.push(0x3a);
    proof {
        assert(out@ =~= lit_sub());
    }
    let mut d = format_u64(sub);
    out.append(&mut d);
    out.push(0x2c);
    out.push(0x22);
    out.push(0x6a);
    out.push(0x74);
    out.push(0x69);
    out.push(0x22);
    out.push(0x3a);
    out.push(0x22);
    proof {
        assert(out@ =~= lit_sub() + dec_digits(sub as nat) + lit_jti());
    }
    proof {
        lemma_json_safe_ascii(jti@);
        assert(vstd::string::is_ascii(jti));
    }
    let mut jb = vstd::string::StrSliceExecFns::as_bytes_vec(jti);
    proof {
        assert(jb@ =~= chars_to_bytes(jti@));
    }
    out.append(&mut jb);
    out.push(0x22);
    out.push(0x2c);
    out.push(0x22);
    out.push(0x65);
    out.push(0x78);
    out.push(0x70);
    out.push(0x22);
    out.push(0x3a);
    proof {
        assert(out@ =~= lit_sub() + dec_digits(sub as nat) + lit_jti() + chars_to_bytes(jti@)
            + lit_exp());
    }
    let mut d = format_u64(exp as u64);
    out.append(&mut d);
    out.push(0x2c);
    out.push(0x22);
    out.push(0x69);
    out.push(0x61);
    out.push(0x74);
    out.push(0x22);
    out.push(0x3a);
    let mut d = format_u64(iat as u64);
    out.append(&mut d);
    out.push(0x7d);
    proof {
        assert((exp as u64) as nat == exp as nat);
        assert((iat as u64) as nat == iat as nat);
        assert(out@ =~= claims_json(sub, jti@, exp, iat));
    }
    out
}

/// First position at or after `from` that does not hold a decimal digit.
pub open spec fn digit_run_end(s: Seq<u8>, from: int) -> int
    decreases s.len() - from,
{
    if from < 0 || from >= s.len() {
        from
    } else if !is_digit(s[from]) {
        from
    } else {
        digit_run_end(s, from + 1)
    }
}

/// First position at or after `from` that does not hold a JSON-safe byte.
pub open spec fn string_run_end(s: Seq<u8>, from: int) -> int
    decreases s.len() - from,
{
    if from < 0 || from >= s.len() {
        from
    } else if !json_safe_byte(s[from]) {
        from
    } else {
        string_run_end(s, from + 1)
    }
}

pub proof fn lemma_digit_run_exact(s: Seq<u8>, from: int, to: int)
    requires
        0 <= from <= to <= s.len(),
        forall|i: int| from <= i < to ==> is_digit(#[trigger] s[i]),
        to == s.len() || !is_digit(s[to as int]),
    ensures
        digit_run_end(s, from) == to,
    decreases to - from,
{
    if from < to {
        lemma_digit_run_exact(s, from + 1, to);
    }
}

pub proof fn lemma_string_run_exact(s: Seq<u8>, from: int, to: int)
    requires
        0 <= from <= to <= s.len(),
        forall|i: int| from <= i < to ==> json_safe_byte(#[trigger] s[i]),
        to == s.len() || !json_safe_byte(s[to as int]),
    ensures
        string_run_end(s, from) == to,
    decreases to - from,
{
    if from < to {
        lemma_string_run_exact(s, from + 1, to);
    }
}


pub proof fn lemma_digit_run_props(s: Seq<u8>, from: int)
    requires
        0 <= from <= s.len(),
    ensures
        from <= digit_run_end(s, from) <= s.len(),
        forall|k: int| from <= k < digit_run_end(s, from) ==> is_digit(#[trigger] s[k]),
    decreases s.len() - from,
{
    if from < s.len() && is_digit(s[from]) {
        lemma_digit_run_props(s, from + 1);
    }
}

pub proof fn lemma_string_run_props(s: Seq<u8>, from: int)
    requires
        0 <= from <= s.len(),
    ensures
        from <= string_run_end(s, from) <= s.len(),
        forall|k: int| from <= k < string_run_end(s, from) ==> json_safe_byte(#[trigger] s[k]),
    decreases s.len() - from,
{
    if from < s.len() && json_safe_byte(s[from]) {
        lemma_string_run_props(s, from + 1);
    }
}

/// Whatever parses is a well-formed claims record.
pub proof fn lemma_parse_claims_wf(s: Seq<u8>)
    requires
        spec_parse_claims(s) is Some,
    ensures
        ({
            let c = spec_parse_claims(s)->Some_0;
            claims_wf(c.0, c.1, c.2, c.3)
        }),
{
    let d1 = digit_run_end(s, 7);
    let j0 = d1 + 8;
    lemma_digit_run_props(s, 7);
    lemma_string_run_props(s, j0);
    let j1 = string_run_end(s, j0);
    let jti = ascii_view(s.subrange(j0, j1));
    assert forall|i: int| 0 <= i < jti.len() implies (' ' <= #[trigger] jti[i] < '\u{7f}'
        && jti[i] != '"' && jti[i] != '\\') by {
        assert(json_safe_byte(s.subrange(j0, j1)[i]));
    }
}

/// The one claims record whose canonical JSON spelling `s` is, if any:
/// the deterministic mirror of the executable parser.
pub open spec fn spec_parse_claims(s: Seq<u8>) -> Option<(u64, Seq<char>, i64, i64)> {
    if s.len() < 7 || s.subrange(0, 7) != lit_sub() {
        None
    } else {
        let d1 = digit_run_end(s, 7);
        if d1 == 7 || dec_val(s.subrange(7, d1)) > u64::MAX {
            None
        } else {
            let sub = dec_val(s.subrange(7, d1)) as u64;
            if d1 + 8 > s.len() || s.subrange(d1, d1 + 8) != lit_jti() {
                None
            } else {
                let j0 = d1 + 8;
                let j1 = string_run_end(s, j0);
                let jti = ascii_view(s.subrange(j0, j1));
                if j1 + 8 > s.len() || s.subrange(j1, j1 + 8) != lit_exp() {
                    None
                } else {
                    let e0 = j1 + 8;
                    let e1 = digit_run_end(s, e0);
                    if e1 == e0 || dec_val(s.subrange(e0, e1)) > i64::MAX {
                        None
                    } else {
                        let exp = dec_val(s.subrange(e0, e1)) as i64;
                        let i0 = e1 + 7;
                        if i0 > s.len() || s.subrange(e1, i0) != lit_iat() {
                            None
                        } else {
                            let i1 = digit_run_end(s, i0);
                            if i1 == i0 || dec_val(s.subrange(i0, i1)) > i64::MAX {
                                None
                            } else {
                                let iat = dec_val(s.subrange(i0, i1)) as i64;
                                if i1 + 1 == s.len() && s[i1] == 0x7d {
                                    Some((sub, jti, exp, iat))
                                } else {
                                    None
                                }
                            }
                        }
                    }
                }
            }
        }
    }
}

fn scan_digits(s: &Vec<u8>, from: usize) -> (end: usize)
    requires
        from <= s@.len(),
    ensures
        from <= end <= s@.len(),
        end == digit_run_end(s@, from as int),
        all_digits(s@.subrange(from as int, end as int)),
{
    let mut i = from;
    while i < s.len() && 0x30 <= s[i] && s[i] <= 0x39
        invariant
            from <= i <= s@.len(),
            forall|k: int| from <= k < i ==> is_digit(#[trigger] s@[k]),
        decreases s@.len() - i,
    {
        i = i + 1;
    }
    proof {
        lemma_digit_run_exact(s@, from as int, i as int);
    }
    i
}

fn scan_string(s: &Vec<u8>, from: usize) -> (end: usize)
    requires
        from <= s@.len(),
    ensures
        from <= end <= s@.len(),
        end == string_run_end(s@, from as int),
        forall|k: int| from <= k < end ==> json_safe_byte(#[trigger] s@[k]),
    decreases s@.len() - from,
{
    let mut i = from;
    while i < s.len() && 0x20 <= s[i] && s[i] < 0x7f && s[i] != 0x22 && s[i] != 0x5c
        invariant
            from <= i <= s@.len(),
            forall|k: int| from <= k < i ==> json_safe_byte(#[trigger] s@[k]),
        decreases s@.len() - i,
    {
        i = i + 1;
    }
    proof {
        lemma_string_run_exact(s@, from as int, i as int);
    }
    i
}

/// Copies `s[from..to]` out as its own vector.
pub fn copy_range(s: &Vec<u8>, from: usize, to: usize) -> (r: Vec<u8>)
    requires
        from <= to <= s@.len(),
    ensures
        r@ == s@.subrange(from as int, to as int),
{
    let mut r: Vec<u8> = Vec::new();
    let mut i = from;
    while i < to
        invariant
            from <= i <= to <= s@.len(),
            r@ =~= s@.subrange(from as int, i as int),
        decreases to - i,
    {
        r.push(s[i]);
        proof {
            assert(r@ =~= s@.subrange(from as int, i as int + 1));
        }
        i = i + 1;
    }
    r
}

/// Reads the canonical JSON spelling of a claims record; `None` exactly
/// when `s` is not such a spelling.
#[verifier::rlimit(50)]
pub fn parse_claims(s: &Vec<u8>) -> (r: Option<(u64, String, i64, i64)>)
    ensures
        match r {
            Some(c) => spec_parse_claims(s@) == Some((c.0, c.1@, c.2, c.3)),
            None => spec_parse_claims(s@) is None,
        },
{
    if s.len() < 7 {
        return None;
    }
    if !(s[0] == 0x7b && s[1] == 0x22 && s[2] == 0x73 && s[3] == 0x75 && s[4] == 0x62 && s[5]
        == 0x22 && s[6] == 0x3a) {
        proof {
            assert(s@.subrange(0, 7) != lit_sub());
        }
        return None;
    }
    proof {
        assert(s@.subrange(0, 7) =~= lit_sub());
    }
    let d1 = scan_digits(s, 7);
    let sub = match parse_dec(s, 7, d1) {
        Some(v) => v,
        None => { return None; },
    };
    if s.len() - d1 < 8 {
        return None;
    }
    if !(s[d1] == 0x2c && s[d1 + 1] == 0x22 && s[d1 + 2] == 0x6a && s[d1 + 3] == 0x74 && s[d1
        + 4] == 0x69 && s[d1 + 5] == 0x22 && s[d1 + 6] == 0x3a && s[d1 + 7] == 0x22) {
        proof {
            assert(s@.subrange(d1 as int, d1 as int + 8) != lit_jti());
        }
        return None;
    }
    proof {
        assert(s@.subrange(d1 as int, d1 as int + 8) =~= lit_jti());
    }
    let j0 = d1 + 8;
    let j1 = scan_string(s, j0);
    if s.len() - j1 < 8 {
        return None;
    }
    if !(s[j1] == 0x22 && s[j1 + 1] == 0x2c && s[j1 + 2] == 0x22 && s[j1 + 3] == 0x65 && s[j1
        + 4] == 0x78 && s[j1 + 5] == 0x70 && s[j1 + 6] == 0x22 && s[j1 + 7] == 0x3a) {
        proof {
            assert(s@.subrange(j1 as int, j1 as int + 8) != lit_exp());
        }
        return None;
    }
    proof {
        assert(s@.subrange(j1 as int, j1 as int + 8) =~= lit_exp());
    }
    let jti_bytes = copy_range(s, j0, j1);
    proof {
        assert(ascii_bytes(jti_bytes@));
    }
    let jti = crate::text::ascii_to_string(jti_bytes);
    let e0 = j1 + 8;
    let e1 = scan_digits(s, e0);
    let exp_u = match parse_dec(s, e0, e1) {
        Some(v) => v,
        None => { return None; },
    };
    if exp_u > 0x7fff_ffff_ffff_ffff {
        return None;
    }
    let exp = exp_u as i64;
    if s.len() - e1 < 7 {
        return None;
    }
    if !(s[e1] == 0x2c && s[e1 + 1] == 0x22 && s[e1 + 2] == 0x69 && s[e1 + 3] == 0x61 && s[e1
        + 4] == 0x74 && s[e1 + 5] == 0x22 && s[e1 + 6] == 0x3a) {
        proof {
            assert(s@.subrange(e1 as int, e1 as int + 7) != lit_iat());
        }
        return None;
    }
    proof {
        assert(s@.subrange(e1 as int, e1 as int + 7) =~= lit_iat());
    }
    let i0 = e1 + 7;
    let i1 = scan_digits(s, i0);
    let iat_u = match parse_dec(s, i0, i1) {
        Some(v) => v,
        None => { return None; },
    };
    if iat_u > 0x7fff_ffff_ffff_ffff {
        return None;
    }
    let iat = iat_u as i64;
    if !(s.len() - i1 == 1 && s[i1] == 0x7d) {
        return None;
    }
    Some((sub, jti, exp, iat))
}

/// Parsing reads back exactly what rendering wrote.
#[verifier::rlimit(80)]
pub proof fn lemma_parse_claims_roundtrip(sub: u64, jti: Seq<char>, exp: i64, iat: i64)
    requires
        claims_wf(sub, jti, exp, iat),
    ensures
        spec_parse_claims(claims_json(sub, jti, exp, iat)) == Some((sub, jti, exp, iat)),
{
    let s = claims_json(sub, jti, exp, iat);
    let ds = dec_digits(sub as nat);
    let de = dec_digits(exp as nat);
    let di = dec_digits(iat as nat);
    let jb = chars_to_bytes(jti);
    lemma_dec_digits_form(sub as nat);
    lemma_dec_digits_form(exp as nat);
    lemma_dec_digits_form(iat as nat);
    lemma_dec_digits_val(sub as nat);
    lemma_dec_digits_val(exp as nat);
    lemma_dec_digits_val(iat as nat);
    lemma_json_safe_ascii(jti);
    assert(s.len() == 7 + ds.len() + 8 + jb.len() + 8 + de.len() + 7 + di.len() + 1);
    assert(s.subrange(0, 7) =~= lit_sub());
    let d1 = 7 + ds.len() as int;
    assert(s.subrange(7, d1) =~= ds);
    assert(s[d1] == 0x2c);
    lemma_digit_run_exact(s, 7, d1);
    assert(dec_val(s.subrange(7, d1)) == sub as nat);
    assert(s.subrange(d1, d1 + 8) =~= lit_jti());
    let j0 = d1 + 8;
    let j1 = j0 + jb.len() as int;
    assert(s.subrange(j0, j1) =~= jb);
    assert(s[j1] == 0x22);
    assert(!json_safe_byte(0x22));
    lemma_string_run_exact(s, j0, j1);
    crate::text::lemma_chars_to_bytes_roundtrip(jti);
    assert(ascii_view(s.subrange(j0, j1)) == jti);
    assert(s.subrange(j1, j1 + 8) =~= lit_exp());
    let e0 = j1 + 8;
    let e1 = e0 + de.len() as int;
    assert(s.subrange(e0, e1) =~= de);
    assert(s[e1] == 0x2c);
    lemma_digit_run_exact(s, e0, e1);
    assert(dec_val(s.subrange(e0, e1)) == exp as nat);
    assert(s.subrange(e1, e1 + 7) =~= lit_iat());
    let i0 = e1 + 7;
    let i1 = i0 + di.len() as int;
    assert(s.subrange(i0, i1) =~= di);
    assert(s[i1] == 0x7d);
    lemma_digit_run_exact(s, i0, i1);
    assert(dec_val(s.subrange(i0, i1)) == iat as nat);
    assert(i1 + 1 == s.len());
}

} // verus!
