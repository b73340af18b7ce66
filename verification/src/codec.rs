//! Identifier text encoding.
//!
//! A 64-bit identifier is serialized as its 8 bytes in big-endian order
//! and encoded with the URL-safe, unpadded base-64 alphabet, which for 8
//! bytes of input yields exactly 11 characters; the final character
//! carries only 4 bits of payload, so its low 2 bits are always zero.
//! The resulting string is opaque, case-sensitive text to every
//! consumer. Decoding is the exact inverse and recovers the identifier
//! and with it the timestamp, tag and sequence fields it was minted
//! from.

use vstd::prelude::*;
use vstd::arithmetic::div_mod::{
    lemma_div_denominator, lemma_fundamental_div_mod, lemma_fundamental_div_mod_converse,
};
use vstd::string::StrSliceExecFns;
use base64::Engine;

verus! {

/// The 6-bit value a URL-safe base-64 alphabet character stands for, or
/// -1 for a character outside the alphabet. The alphabet is `A`-`Z`,
/// `a`-`z`, `0`-`9`, `-`, `_`, in that order.
pub open spec fn spec_b64url_value(c: char) -> int {
    let u = c as int;
    if 65 <= u < 91 {
        u - 65
    } else if 97 <= u < 123 {
        u - 71
    } else if 48 <= u < 58 {
        u + 4
    } else if u == 45 {
        62
    } else if u == 95 {
        63
    } else {
        -1
    }
}

/// The alphabet character for a 6-bit value.
pub open spec fn spec_b64url_char(v: int) -> char {
    if 0 <= v < 26 {
        ((v + 65) as u8) as char
    } else if 26 <= v < 52 {
        ((v + 71) as u8) as char
    } else if 52 <= v < 62 {
        ((v - 4) as u8) as char
    } else if v == 62 {
        '-'
    } else {
        '_'
    }
}

/// The two alphabet functions invert each other on 6-bit values.
pub proof fn lemma_b64url_char_value(v: int)
    requires
        0 <= v < 64,
    ensures
        spec_b64url_value(spec_b64url_char(v)) == v,
{
}

/// The 8 bytes of an identifier, most significant first.
pub open spec fn spec_be_bytes(n: u64) -> Seq<u8> {
    seq![
        ((n as int / 0x100000000000000) % 256) as u8,
        ((n as int / 0x1000000000000) % 256) as u8,
        ((n as int / 0x10000000000) % 256) as u8,
        ((n as int / 0x100000000) % 256) as u8,
        ((n as int / 0x1000000) % 256) as u8,
        ((n as int / 0x10000) % 256) as u8,
        ((n as int / 0x100) % 256) as u8,
        (n as int % 256) as u8,
    ]
}

/// The value the big-endian bytes stand for.
pub open spec fn spec_be_value(b: Seq<u8>) -> int {
    b[0] * 0x100000000000000 + b[1] * 0x1000000000000 + b[2] * 0x10000000000 + b[3] * 0x100000000
        + b[4] * 0x1000000 + b[5] * 0x10000 + b[6] * 0x100 + b[7]
}

/// Serializing a value to big-endian bytes loses nothing.
pub proof fn lemma_be_bytes_value(n: u64)
    ensures
        spec_be_value(spec_be_bytes(n)) == n,
{
    let x = n as int;
    lemma_fundamental_div_mod(x, 0x100);
    lemma_div_denominator(x, 0x100, 0x100);
    lemma_fundamental_div_mod(x / 0x100, 0x100);
    lemma_div_denominator(x, 0x10000, 0x100);
    lemma_fundamental_div_mod(x / 0x10000, 0x100);
    lemma_div_denominator(x, 0x1000000, 0x100);
    lemma_fundamental_div_mod(x / 0x1000000, 0x100);
    lemma_div_denominator(x, 0x100000000, 0x100);
    lemma_fundamental_div_mod(x / 0x100000000, 0x100);
    lemma_div_denominator(x, 0x10000000000, 0x100);
    lemma_fundamental_div_mod(x / 0x10000000000, 0x100);
    lemma_div_denominator(x, 0x1000000000000, 0x100);
    lemma_fundamental_div_mod(x / 0x1000000000000, 0x100);
    assert(x / 0x100000000000000 < 0x100);
    vstd::arithmetic::div_mod::lemma_small_mod((x / 0x100000000000000) as nat, 0x100);
}

/// The 11 alphabet characters that encode 8 bytes in URL-safe unpadded
/// base-64: each character carries 6 bits, and the last carries only the
/// final 4 payload bits, shifted up past 2 zero bits.
pub open spec fn spec_encode8(b: Seq<u8>) -> Seq<char> {
    let b0 = b[0] as int;
    let b1 = b[1] as int;
    let b2 = b[2] as int;
    let b3 = b[3] as int;
    let b4 = b[4] as int;
    let b5 = b[5] as int;
    let b6 = b[6] as int;
    let b7 = b[7] as int;
    seq![
        spec_b64url_char(b0 / 4),
        spec_b64url_char((b0 % 4) * 16 + b1 / 16),
        spec_b64url_char((b1 % 16) * 4 + b2 / 64),
        spec_b64url_char(b2 % 64),
        spec_b64url_char(b3 / 4),
        spec_b64url_char((b3 % 4) * 16 + b4 / 16),
        spec_b64url_char((b4 % 16) * 4 + b5 / 64),
        spec_b64url_char(b5 % 64),
        spec_b64url_char(b6 / 4),
        spec_b64url_char((b6 % 4) * 16 + b7 / 16),
        spec_b64url_char((b7 % 16) * 4),
    ]
}

/// The text form of an identifier.
pub open spec fn spec_id_text(n: u64) -> Seq<char> {
    spec_encode8(spec_be_bytes(n))
}

/// Relies on base64's `URL_SAFE_NO_PAD` engine (the RFC 4648 section 5
/// alphabet, unpadded): eight input bytes encode to exactly the eleven
/// alphabet characters that `spec_encode8` states.
#[verifier::external_body]
fn b64url_encode8(bytes: &Vec<u8>) -> (r: String)
    requires
        bytes@.len() == 8,
    ensures
        r@ == spec_encode8(bytes@),
{
    base64::engine::general_purpose::URL_SAFE_NO_PAD.encode(bytes.as_slice())
}

/// Splits an identifier into its 8 bytes, most significant first.
pub fn u64_to_be_bytes(n: u64) -> (r: Vec<u8>)
    ensures
        r@ == spec_be_bytes(n),
{
    let mut v: Vec<u8> = Vec::new();
    v.push((n / 0x100000000000000 % 256) as u8);
    v.push((n / 0x1000000000000 % 256) as u8);
    v.push((n / 0x10000000000 % 256) as u8);
    v.push((n / 0x100000000 % 256) as u8);
    v.push((n / 0x1000000 % 256) as u8);
    v.push((n / 0x10000 % 256) as u8);
    v.push((n / 0x100 % 256) as u8);
    v.push((n % 256) as u8);
    proof {
        assert(v@ =~= spec_be_bytes(n));
    }
    v
}

/// Encodes an identifier as 11 characters of URL-safe, unpadded
/// base-64 over its big-endian bytes: opaque, case-sensitive text.
pub fn to_base64url(num: u64) -> (r: String)
    ensures
        r@ == spec_id_text(num),
        r@.len() == 11,
{
    let bytes = u64_to_be_bytes(num);
    b64url_encode8(&bytes)
}

/// The 66-bit value the 11 character values stand for, 6 bits per
/// character. Meaningful when every character is in the alphabet.
pub open spec fn spec_decode11_raw(s: Seq<char>) -> int {
    spec_b64url_value(s[0]) * 0x1000000000000000 + spec_b64url_value(s[1]) * 0x40000000000000
        + spec_b64url_value(s[2]) * 0x1000000000000 + spec_b64url_value(s[3]) * 0x40000000000
        + spec_b64url_value(s[4]) * 0x1000000000 + spec_b64url_value(s[5]) * 0x40000000
        + spec_b64url_value(s[6]) * 0x1000000 + spec_b64url_value(s[7]) * 0x40000
        + spec_b64url_value(s[8]) * 0x1000 + spec_b64url_value(s[9]) * 0x40
        + spec_b64url_value(s[10])
}

/// What decoding identifier text yields: the identifier whose encoding
/// the text is, or None when the text is not 11 characters, holds a
/// character outside the alphabet, or sets one of the 2 slack bits.
pub open spec fn spec_decode11(s: Seq<char>) -> Option<u64> {
    if s.len() == 11 && (forall|i: int| 0 <= i < 11 ==> spec_b64url_value(#[trigger] s[i]) >= 0)
        && spec_b64url_value(s[10]) % 4 == 0 {
        Some((spec_decode11_raw(s) / 4) as u64)
    } else {
        None
    }
}

/// The 6-bit value of one alphabet character, or None outside the
/// alphabet.
fn b64url_value_of(c: char) -> (r: Option<u8>)
    ensures
        (r matches Some(v) ==> v as int == spec_b64url_value(c) && v < 64),
        r is None ==> spec_b64url_value(c) == -1,
{
    let u = c as u32;
    if 65 <= u && u < 91 {
        Some((u - 65) as u8)
    } else if 97 <= u && u < 123 {
        Some((u - 71) as u8)
    } else if 48 <= u && u < 58 {
        Some((u + 4) as u8)
    } else if u == 45 {
        Some(62)
    } else if u == 95 {
        Some(63)
    } else {
        None
    }
}

/// Decodes identifier text back to the 64-bit identifier: the exact
/// inverse of `to_base64url`. None for anything the encoding cannot
/// produce: a length other than 11, a character outside the alphabet,
/// or a set slack bit in the last character.
pub fn from_base64url(s: &str) -> (r: Option<u64>)
    ensures
        r == spec_decode11(s@),
{
    let n = s.unicode_len();
    if n != 11 {
        return None;
    }
    let v0 = match b64url_value_of(s.get_char(0)) {
        Some(v) => v,
        None => {
            return None;
        },
    };
    let v1 = match b64url_value_of(s.get_char(1)) {
        Some(v) => v,
        None => {
            return None;
        },
    };
    let v2 = match b64url_value_of(s.get_char(2)) {
        Some(v) => v,
        None => {
            return None;
        },
    };
    let v3 = match b64url_value_of(s.get_char(3)) {
        Some(v) => v,
        None => {
            return None;
        },
    };
    let v4 = match b64url_value_of(s.get_char(4)) {
        Some(v) => v,
        None => {
            return None;
        },
    };
    let v5 = match b64url_value_of(s.get_char(5)) {
        Some(v) => v,
        None => {
            return None;
        },
    };
    let v6 = match b64url_value_of(s.get_char(6)) {
        Some(v) => v,
        None => {
            return None;
        },
    };
    let v7 = match b64url_value_of(s.get_char(7)) {
        Some(v) => v,
        None => {
            return None;
        },
    };
    let v8 = match b64url_value_of(s.get_char(8)) {
        Some(v) => v,
        None => {
            return None;
        },
    };
    let v9 = match b64url_value_of(s.get_char(9)) {
        Some(v) => v,
        None => {
            return None;
        },
    };
    let v10 = match b64url_value_of(s.get_char(10)) {
        Some(v) => v,
        None => {
            return None;
        },
    };
    if v10 % 4 != 0 {
        return None;
    }
    let b0: u8 = v0 * 4 + v1 / 16;
    let b1: u8 = (v1 % 16) * 16 + v2 / 4;
    let b2: u8 = (v2 % 4) * 64 + v3;
    let b3: u8 = v4 * 4 + v5 / 16;
    let b4: u8 = (v5 % 16) * 16 + v6 / 4;
    let b5: u8 = (v6 % 4) * 64 + v7;
    let b6: u8 = v8 * 4 + v9 / 16;
    let b7: u8 = (v9 % 16) * 16 + v10 / 4;
    let num: u64 = (b0 as u64) * 0x100000000000000 + (b1 as u64) * 0x1000000000000 + (b2 as u64)
        * 0x10000000000 + (b3 as u64) * 0x100000000 + (b4 as u64) * 0x1000000 + (b5 as u64)
        * 0x10000 + (b6 as u64) * 0x100 + (b7 as u64);
    proof {
        lemma_fundamental_div_mod(v1 as int, 16);
        lemma_fundamental_div_mod(v2 as int, 4);
        lemma_fundamental_div_mod(v5 as int, 16);
        lemma_fundamental_div_mod(v6 as int, 4);
        lemma_fundamental_div_mod(v9 as int, 16);
        lemma_fundamental_div_mod(v10 as int, 4);
        assert(spec_decode11_raw(s@) == num as int * 4);
        lemma_fundamental_div_mod_converse(spec_decode11_raw(s@), 4, num as int, 0);
    }
    Some(num)
}

/// Round-trip law: decoding the text form of any 64-bit identifier
/// recovers exactly that identifier.
pub proof fn lemma_round_trip(num: u64)
    ensures
        spec_decode11(spec_id_text(num)) == Some(num),
{
    let b = spec_be_bytes(num);
    let s = spec_id_text(num);
    let b0 = b[0] as int;
    let b1 = b[1] as int;
    let b2 = b[2] as int;
    let b3 = b[3] as int;
    let b4 = b[4] as int;
    let b5 = b[5] as int;
    let b6 = b[6] as int;
    let b7 = b[7] as int;
    lemma_b64url_char_value(b0 / 4);
    lemma_b64url_char_value((b0 % 4) * 16 + b1 / 16);
    lemma_b64url_char_value((b1 % 16) * 4 + b2 / 64);
    lemma_b64url_char_value(b2 % 64);
    lemma_b64url_char_value(b3 / 4);
    lemma_b64url_char_value((b3 % 4) * 16 + b4 / 16);
    lemma_b64url_char_value((b4 % 16) * 4 + b5 / 64);
    lemma_b64url_char_value(b5 % 64);
    lemma_b64url_char_value(b6 / 4);
    lemma_b64url_char_value((b6 % 4) * 16 + b7 / 16);
    lemma_b64url_char_value((b7 % 16) * 4);
    assert(forall|i: int| 0 <= i < 11 ==> spec_b64url_value(#[trigger] s[i]) >= 0);
    lemma_fundamental_div_mod(b0, 4);
    lemma_fundamental_div_mod(b1, 16);
    lemma_fundamental_div_mod(b2, 64);
    lemma_fundamental_div_mod(b3, 4);
    lemma_fundamental_div_mod(b4, 16);
    lemma_fundamental_div_mod(b5, 64);
    lemma_fundamental_div_mod(b6, 4);
    lemma_fundamental_div_mod(b7, 16);
    assert(spec_decode11_raw(s) == 4 * spec_be_value(b));
    lemma_fundamental_div_mod_converse(spec_decode11_raw(s), 4, spec_be_value(b), 0);
    lemma_be_bytes_value(num);
}

/// Round-trip law down to the fields: decoding the text of an
/// identifier composed from in-range timestamp, datacenter, worker and
/// sequence fields recovers the identifier, and extracting its fields
/// recovers exactly the values it was minted from.
pub proof fn lemma_round_trip_fields(delta: int, datacenter: int, worker: int, sequence: int)
    requires
        crate::suid::spec_fields_in_range(delta, datacenter, worker, sequence),
    ensures
        ({
            let id = crate::suid::spec_compose(delta, datacenter, worker, sequence) as u64;
            &&& spec_decode11(spec_id_text(id)) == Some(id)
            &&& crate::suid::spec_timestamp_delta_of(id) == delta
            &&& crate::suid::spec_datacenter_of(id) == datacenter
            &&& crate::suid::spec_worker_of(id) == worker
            &&& crate::suid::spec_sequence_of(id) == sequence
        }),
{
    crate::suid::lemma_compose_fields(delta, datacenter, worker, sequence);
    let id = crate::suid::spec_compose(delta, datacenter, worker, sequence) as u64;
    lemma_round_trip(id);
}

} // verus!
