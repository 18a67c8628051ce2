//! Hex codec used by the WS framing layer.
//!
//! Encoding produces lowercase hex; decoding accepts upper- and lowercase
//! digits and rejects odd-length input or any non-hex byte with
//! [`AppError::BadHex`].
use vstd::prelude::*;
use crate::domain::errors::AppError;
use crate::domain::text::push_char;
use vstd::string::StringSliceAdditionalSpecFns;

verus! {

/// The lowercase hex digit for a nibble `n` (`n < 16`).
pub open spec fn hex_digit(n: nat) -> char {
    if n < 10 {
        ((48 + n) as u32) as char
    } else {
        ((87 + n) as u32) as char
    }
}

/// Lowercase hex encoding: two characters per byte, high nibble first.
pub open spec fn spec_encode_hex(b: Seq<u8>) -> Seq<char> {
    Seq::new(
        2 * b.len(),
        |i: int|
            if i % 2 == 0 {
                hex_digit((b[i / 2] / 16) as nat)
            } else {
                hex_digit((b[i / 2] % 16) as nat)
            },
    )
}

/// The value of a single hex digit byte, if it is one (`0-9`, `a-f`, `A-F`).
pub open spec fn hex_value(c: u8) -> Option<u8> {
    if 48 <= c <= 57 {
        Some((c - 48) as u8)
    } else if 97 <= c <= 102 {
        Some((c - 87) as u8)
    } else if 65 <= c <= 70 {
        Some((c - 55) as u8)
    } else {
        None
    }
}

/// True iff every byte of `s` is a hex digit.
pub open spec fn all_hex_digits(s: Seq<u8>) -> bool {
    forall|i: int| 0 <= i < s.len() ==> (#[trigger] hex_value(s[i])) is Some
}

/// Decoding of a hex byte string: `None` for an odd length or a non-hex byte,
/// otherwise the bytes made of consecutive digit pairs.
pub open spec fn spec_decode_hex(s: Seq<u8>) -> Option<Seq<u8>> {
    if s.len() % 2 == 0 && all_hex_digits(s) {
        Some(
            Seq::new(
                s.len() / 2,
                |i: int|
                    (hex_value(s[2 * i]).unwrap() * 16 + hex_value(s[2 * i + 1]).unwrap()) as u8,
            ),
        )
    } else {
        None
    }
}

fn hex_digit_char(n: u8) -> (c: char)
    requires
        n < 16,
    ensures
        c == hex_digit(n as nat),
        (c as u32) < 128,
{
    if n < 10 {
        (48u8 + n) as char
    } else {
        (87u8 + n) as char
    }
}

fn hex_value_of(c: u8) -> (r: Option<u8>)
    ensures
        r == hex_value(c),
        r matches Some(v) ==> v < 16,
{
    if 48 <= c && c <= 57 {
        Some(c - 48)
    } else if 97 <= c && c <= 102 {
        Some(c - 87)
    } else if 65 <= c && c <= 70 {
        Some(c - 55)
    } else {
        None
    }
}

/// Encode a byte slice as a lowercase hex string.
pub fn encode_bytes_to_hex(b: &[u8]) -> (s: String)
    ensures
        s@ == spec_encode_hex(b@),
{
    let mut s = String::new();
    let n = b.len();
    for i in 0..n
        invariant
            n == b@.len(),
            s@ =~= spec_encode_hex(b@.take(i as int)),
    {
        let byte = b[i];
        push_char(&mut s, hex_digit_char(byte / 16));
        push_char(&mut s, hex_digit_char(byte % 16));
        assert(b@.take(i as int + 1) =~= b@.take(i as int).push(byte));
        assert(s@ =~= spec_encode_hex(b@.take(i as int + 1)));
    }
    assert(b@.take(n as int) =~= b@);
    s
}

/// Decode a hex string into raw bytes.
///
/// Returns [`AppError::BadHex`] when the input is not a valid hex sequence
/// (odd length, non-hex character).
pub fn decode_hex_to_bytes(s: &str) -> (r: Result<Vec<u8>, AppError>)
    ensures
        match spec_decode_hex(s.spec_bytes()) {
            Some(v) => r matches Ok(w) && w@ == v,
            None => r matches Err(AppError::BadHex),
        },
{
    let bytes = s.as_bytes();
    let n = bytes.len();
    if n % 2 != 0 {
        return Err(AppError::BadHex);
    }
    let mut out: Vec<u8> = Vec::new();
    let mut i: usize = 0;
    while i < n / 2
        invariant
            n == bytes@.len(),
            bytes@ == s.spec_bytes(),
            n % 2 == 0,
            i <= n / 2,
            out@.len() == i,
            forall|k: int| 0 <= k < 2 * i ==> (#[trigger] hex_value(bytes@[k])) is Some,
            forall|k: int|
                0 <= k < i ==> #[trigger] out@[k] == (hex_value(bytes@[2 * k]).unwrap() * 16
                    + hex_value(bytes@[2 * k + 1]).unwrap()) as u8,
        decreases n / 2 - i,
    {
        let hi = hex_value_of(bytes[2 * i]);
        let lo = hex_value_of(bytes[2 * i + 1]);
        match (hi, lo) {
            (Some(h), Some(l)) => {
                out.push(h * 16 + l);
            },
            _ => {
                proof {
                    let bad = if hi is None { 2 * i as int } else { 2 * i as int + 1 };
                    assert(hex_value(bytes@[bad]) is None);
                    assert(!all_hex_digits(bytes@));
                }
                return Err(AppError::BadHex);
            },
        }
        i = i + 1;
    }
    proof {
        assert(all_hex_digits(bytes@));
        let v = spec_decode_hex(bytes@).unwrap();
        assert(out@ =~= v);
    }
    Ok(out)
}

/// Every encoded string is made of ASCII characters, so its UTF-8 bytes are
/// its characters one for one.
pub proof fn lemma_encode_is_ascii(b: Seq<u8>)
    ensures
        vstd::utf8::is_ascii_chars(spec_encode_hex(b)),
        vstd::utf8::encode_utf8(spec_encode_hex(b)) =~= Seq::new(
            2 * b.len(),
            |i: int| spec_encode_hex(b)[i] as u8,
        ),
{
    let e = spec_encode_hex(b);
    assert(forall|i: int| 0 <= i < e.len() ==> (e[i] as u32) < 128) by {
        assert forall|i: int| 0 <= i < e.len() implies (e[i] as u32) < 128 by {
            assert(b[i / 2] / 16 < 16);
            assert(b[i / 2] % 16 < 16);
        }
    }
    assert(vstd::utf8::is_ascii_chars(e));
    vstd::utf8::is_ascii_chars_encode_utf8(e);
}

/// Round trip: decoding the (UTF-8 bytes of the) encoding of any byte
/// sequence gives that byte sequence back.
pub proof fn lemma_hex_roundtrip(b: Seq<u8>)
    ensures
        spec_decode_hex(vstd::utf8::encode_utf8(spec_encode_hex(b))) == Some(b),
{
    lemma_encode_is_ascii(b);
    let e = spec_encode_hex(b);
    let bytes = vstd::utf8::encode_utf8(e);
    assert forall|k: int| 0 <= k < bytes.len() implies (#[trigger] hex_value(bytes[k])) is Some
        && hex_value(bytes[k]).unwrap() == (if k % 2 == 0 {
        b[k / 2] / 16
    } else {
        b[k / 2] % 16
    }) by {
        assert(b[k / 2] / 16 < 16);
        assert(b[k / 2] % 16 < 16);
    }
    let d = spec_decode_hex(bytes).unwrap();
    assert forall|i: int| 0 <= i < b.len() implies d[i] == b[i] by {
        assert(hex_value(bytes[2 * i]).unwrap() == b[i] / 16);
        assert(hex_value(bytes[2 * i + 1]).unwrap() == b[i] % 16);
        assert((2 * i) / 2 == i);
        assert((2 * i + 1) / 2 == i);
        assert((b[i] / 16) * 16 + b[i] % 16 == b[i]);
    }
    assert(d =~= b);
}

} // verus!
