//! Small helpers shared across the driver.

use vstd::prelude::*;

verus! {

/// Whether `stream_id` has reached the top of the assignable stream-id range
/// for the given protocol version (128 for v1/v2, 32767 for v3).
pub open spec fn spec_max_stream_id(stream_id: i16, version: u8) -> bool {
    (stream_id >= crate::CQL_MAX_STREAM_ID_V1_V2 && (version == 1 || version == 2))
        || (stream_id >= crate::CQL_MAX_STREAM_ID_V3 && version == 3)
}

/// Exec counterpart of [`spec_max_stream_id`].
#[verifier::when_used_as_spec(spec_max_stream_id)]
pub fn max_stream_id(stream_id: i16, version: u8) -> (r: bool)
    ensures
        r == spec_max_stream_id(stream_id, version),
{
    (stream_id >= crate::CQL_MAX_STREAM_ID_V1_V2 && (version == 1 || version == 2))
        || (stream_id >= crate::CQL_MAX_STREAM_ID_V3 && version == 3)
}

/// Byte-for-byte equality of two slices.
pub fn bytes_eq(a: &[u8], b: &[u8]) -> (r: bool)
    ensures
        r == (a@ == b@),
{
    if a.len() != b.len() {
        return false;
    }
    let n = a.len();
    let mut i: usize = 0;
    while i < n
        invariant
            i <= n,
            n == a@.len(),
            n == b@.len(),
            forall|j: int| 0 <= j < i ==> a@[j] == b@[j],
        decreases n - i,
    {
        if a[i] != b[i] {
            return false;
        }
        i = i + 1;
    }
    proof {
        assert(a@ =~= b@);
    }
    true
}

/// Character-for-character equality of two string slices.
pub fn str_eq(a: &str, b: &str) -> (r: bool)
    ensures
        r == (a@ == b@),
{
    let r = bytes_eq(a.as_bytes(), b.as_bytes());
    proof {
        vstd::utf8::encode_utf8_decode_utf8(a@);
        vstd::utf8::encode_utf8_decode_utf8(b@);
    }
    r
}

/// Relies on core::str::from_utf8: it succeeds exactly on the valid UTF-8
/// byte strings and yields their decoded characters.
#[verifier::external_body]
pub fn bytes_to_string(v: &[u8]) -> (r: Option<String>)
    ensures
        r is Some <==> vstd::utf8::valid_utf8(v@),
        (match r {
            Some(s) => s@ == vstd::utf8::decode_utf8(v@),
            None => true,
        }),
{
    match core::str::from_utf8(v) {
        Ok(s) => Some(s.to_owned()),
        Err(_) => None,
    }
}

/// The hexadecimal digit character of a value below 16, upper case.
pub open spec fn spec_hex_digit(n: u8) -> char {
    if n == 0 {
        '0'
    } else if n == 1 {
        '1'
    } else if n == 2 {
        '2'
    } else if n == 3 {
        '3'
    } else if n == 4 {
        '4'
    } else if n == 5 {
        '5'
    } else if n == 6 {
        '6'
    } else if n == 7 {
        '7'
    } else if n == 8 {
        '8'
    } else if n == 9 {
        '9'
    } else if n == 10 {
        'A'
    } else if n == 11 {
        'B'
    } else if n == 12 {
        'C'
    } else if n == 13 {
        'D'
    } else if n == 14 {
        'E'
    } else {
        'F'
    }
}

/// Two upper-case hex digits per byte, bytes separated by one space.
pub open spec fn spec_hex_chars(b: Seq<u8>) -> Seq<char>
    decreases b.len(),
{
    if b.len() == 0 {
        Seq::<char>::empty()
    } else if b.len() == 1 {
        seq![spec_hex_digit(b[0] / 16), spec_hex_digit(b[0] % 16)]
    } else {
        seq![spec_hex_digit(b[0] / 16), spec_hex_digit(b[0] % 16), ' '] + spec_hex_chars(
            b.drop_first(),
        )
    }
}

/// The hex rendering is plain ASCII, so its UTF-8 image is one byte per
/// character.
proof fn lemma_hex_ascii(b: Seq<u8>)
    ensures
        vstd::utf8::is_ascii_chars(spec_hex_chars(b)),
        vstd::utf8::encode_utf8(spec_hex_chars(b)).len() == spec_hex_chars(b).len(),
        forall|i: int|
            0 <= i < spec_hex_chars(b).len() ==> vstd::utf8::encode_utf8(spec_hex_chars(b))[i]
                == (#[trigger] spec_hex_chars(b)[i]) as u8,
    decreases b.len(),
{
    assert forall|i: int|
        0 <= i < spec_hex_chars(b).len() implies '\0' <= #[trigger] spec_hex_chars(b)[i]
        <= '\u{7f}' by {
        if b.len() >= 2 && i >= 3 {
            lemma_hex_ascii(b.drop_first());
        }
    }
    vstd::utf8::is_ascii_chars_encode_utf8(spec_hex_chars(b));
}

/// The ASCII code of a hex digit.
fn hex_digit_byte(n: u8) -> (r: u8)
    requires
        n < 16,
    ensures
        r == spec_hex_digit(n) as u8,
        r < 0x80,
{
    if n < 10 {
        0x30 + n
    } else {
        0x41 + (n - 10)
    }
}

/// The UTF-8 (equally: ASCII) image of the hex rendering of `b`.
fn hex_bytes_of(b: &[u8]) -> (r: Vec<u8>)
    ensures
        r@ == vstd::utf8::encode_utf8(spec_hex_chars(b@)),
    decreases b@.len(),
{
    proof {
        lemma_hex_ascii(b@);
    }
    let mut out: Vec<u8> = Vec::new();
    if b.len() == 0 {
        proof {
            assert(out@ =~= vstd::utf8::encode_utf8(spec_hex_chars(b@)));
        }
        return out;
    }
    out.push(hex_digit_byte(b[0] / 16));
    out.push(hex_digit_byte(b[0] % 16));
    if b.len() == 1 {
        proof {
            assert(out@ =~= vstd::utf8::encode_utf8(spec_hex_chars(b@)));
        }
        return out;
    }
    out.push(0x20);
    let rest = vstd::slice::slice_subrange(b, 1, b.len());
    let tail = hex_bytes_of(rest);
    out.extend_from_slice(tail.as_slice());
    proof {
        assert(rest@ =~= b@.drop_first());
        lemma_hex_ascii(b@.drop_first());
        let chars = spec_hex_chars(b@);
        let enc = vstd::utf8::encode_utf8(chars);
        let rchars = spec_hex_chars(b@.drop_first());
        assert(chars =~= seq![spec_hex_digit(b@[0] / 16), spec_hex_digit(b@[0] % 16), ' ']
            + rchars);
        assert(out@.len() == enc.len());
        assert forall|i: int| 0 <= i < out@.len() implies out@[i] == enc[i] by {
            assert(enc[i] == chars[i] as u8);
            if i >= 3 {
                assert(out@[i] == vstd::utf8::encode_utf8(rchars)[i - 3]);
                assert(vstd::utf8::encode_utf8(rchars)[i - 3] == rchars[i - 3] as u8);
                assert(chars[i] == rchars[i - 3]);
            }
        }
        assert(out@ =~= enc);
    }
    out
}

/// Render bytes as upper-case hex pairs separated by spaces.
pub fn to_hex_string(bytes: &Vec<u8>) -> (r: String)
    ensures
        r@ == spec_hex_chars(bytes@),
{
    let ascii = hex_bytes_of(bytes.as_slice());
    proof {
        lemma_hex_ascii(bytes@);
        vstd::utf8::encode_utf8_valid_utf8(spec_hex_chars(bytes@));
        vstd::utf8::encode_utf8_decode_utf8(spec_hex_chars(bytes@));
    }
    match bytes_to_string(ascii.as_slice()) {
        Some(s) => s,
        None => {
            proof {
                assert(false);
            }
            String::new()
        },
    }
}

} // verus!
