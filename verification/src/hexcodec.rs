//! Hex-prefixed string encoding and decoding of byte values.
//!
//! Primitives are displayed as `0x`-prefixed lowercase hex and parsed back
//! from hex strings with an optional `0x` prefix. The specification functions
//! below fix the byte-level grammar; encoding is delegated to an outside
//! encoder, decoding is implemented and verified here.

use vstd::prelude::*;
use vstd::string::StringSliceAdditionalSpecFns;

verus! {

/// ASCII code of the lowercase hex digit for a nibble.
pub open spec fn hex_digit(n: u8) -> u8
    recommends
        n < 16,
{
    if n < 10 {
        (0x30 + n) as u8
    } else {
        (0x57 + n) as u8
    }
}

/// Lowercase hex encoding of a byte sequence: two digits per byte.
pub open spec fn hex_of(bs: Seq<u8>) -> Seq<u8>
    decreases bs.len(),
{
    if bs.len() == 0 {
        Seq::empty()
    } else {
        hex_of(bs.drop_last()) + seq![
            hex_digit((bs.last() / 16) as u8),
            hex_digit((bs.last() % 16) as u8),
        ]
    }
}

/// `0x`-prefixed lowercase hex encoding of a byte sequence.
pub open spec fn hex_prefixed(bs: Seq<u8>) -> Seq<u8> {
    seq![0x30u8, 0x78u8] + hex_of(bs)
}

/// Whether an ASCII code is a hex digit (either case).
pub open spec fn is_hex_digit(c: u8) -> bool {
    (0x30 <= c && c <= 0x39) || (0x41 <= c && c <= 0x46) || (0x61 <= c && c <= 0x66)
}

/// Numeric value of a hex digit (either case).
pub open spec fn hex_val(c: u8) -> u8
    recommends
        is_hex_digit(c),
{
    if 0x30 <= c && c <= 0x39 {
        (c - 0x30) as u8
    } else if 0x41 <= c && c <= 0x46 {
        ((c - 0x41) + 10) as u8
    } else {
        ((c - 0x61) + 10) as u8
    }
}

/// Whether every position of the sequence is a hex digit.
pub open spec fn all_hex_digits(s: Seq<u8>) -> bool {
    forall|i: int| 0 <= i < s.len() ==> is_hex_digit(s[i])
}

/// Byte sequence denoted by a sequence of hex digits, two digits per byte.
pub open spec fn bytes_of_hex(s: Seq<u8>) -> Seq<u8>
    recommends
        s.len() % 2 == 0,
        all_hex_digits(s),
    decreases s.len(),
{
    if s.len() < 2 {
        Seq::empty()
    } else {
        bytes_of_hex(s.drop_last().drop_last()) + seq![
            ((hex_val(s[s.len() - 2]) as int) * 16 + (hex_val(s.last()) as int)) as u8,
        ]
    }
}

/// The input with a leading `0x`, when present, removed.
pub open spec fn strip_hex_prefix(s: Seq<u8>) -> Seq<u8> {
    if s.len() >= 2 && s[0] == 0x30 && s[1] == 0x78 {
        s.subrange(2, s.len() as int)
    } else {
        s
    }
}

/// Whether the input is, after an optional `0x` prefix, exactly `2 * n`
/// hex digits.
pub open spec fn valid_fixed_hex(s: Seq<u8>, n: int) -> bool {
    strip_hex_prefix(s).len() == 2 * n && all_hex_digits(strip_hex_prefix(s))
}

/// A hex encoding has two digits per byte.
pub proof fn lemma_hex_of_len(bs: Seq<u8>)
    ensures
        hex_of(bs).len() == 2 * bs.len(),
        all_hex_digits(hex_of(bs)),
    decreases bs.len(),
{
    if bs.len() > 0 {
        lemma_hex_of_len(bs.drop_last());
        assert forall|i: int| 0 <= i < hex_of(bs).len() implies is_hex_digit(hex_of(bs)[i]) by {
            if i < hex_of(bs.drop_last()).len() {
                assert(is_hex_digit(hex_of(bs.drop_last())[i]));
            }
        }
    }
}

/// Decoding inverts encoding: parsing the hex digits of a byte sequence
/// yields that sequence back.
pub proof fn lemma_hex_round_trip(bs: Seq<u8>)
    ensures
        bytes_of_hex(hex_of(bs)) == bs,
    decreases bs.len(),
{
    if bs.len() == 0 {
        assert(bytes_of_hex(hex_of(bs)) =~= bs);
    } else {
        lemma_hex_round_trip(bs.drop_last());
        lemma_hex_of_len(bs.drop_last());
        let h = hex_of(bs);
        let b = bs.last();
        assert(h.drop_last().drop_last() =~= hex_of(bs.drop_last()));
        assert(h[h.len() - 2] == hex_digit((b / 16) as u8));
        assert(h.last() == hex_digit((b % 16) as u8));
        assert(hex_val(hex_digit((b / 16) as u8)) == b / 16);
        assert(hex_val(hex_digit((b % 16) as u8)) == b % 16);
        assert((hex_val(h[h.len() - 2]) as int) * 16 + (hex_val(h.last()) as int) == b as int);
        assert(bytes_of_hex(h) =~= bs);
    }
}

/// The characters of an ASCII byte sequence.
pub open spec fn ascii_chars_of(s: Seq<u8>) -> Seq<char> {
    Seq::new(s.len(), |i: int| s[i] as char)
}

/// Every byte of a hex-prefixed encoding is ASCII.
pub proof fn lemma_hex_prefixed_ascii(bs: Seq<u8>)
    ensures
        forall|i: int| 0 <= i < hex_prefixed(bs).len() ==> hex_prefixed(bs)[i] < 128,
{
    lemma_hex_of_len(bs);
    assert forall|i: int| 0 <= i < hex_prefixed(bs).len() implies hex_prefixed(bs)[i] < 128 by {
        if i >= 2 {
            assert(is_hex_digit(hex_of(bs)[i - 2]));
        }
    }
}

/// Relies on const_hex::encode_prefixed: returns "0x" followed by two
/// lowercase ASCII hex digits for each input byte.
#[verifier::external_body]
pub(crate) fn encode_prefixed(bytes: &[u8]) -> (r: String)
    ensures
        r@ == ascii_chars_of(hex_prefixed(bytes@)),
{
    const_hex::encode_prefixed(bytes)
}

/// Parsing the displayed form of a byte sequence yields the sequence back:
/// the hex-prefixed encoding of `n` bytes is a valid fixed hex string of
/// `n` bytes, and decoding it is the identity.
pub proof fn lemma_display_parse_round_trip(bs: Seq<u8>)
    ensures
        valid_fixed_hex(vstd::utf8::encode_utf8(ascii_chars_of(hex_prefixed(bs))), bs.len() as int),
        bytes_of_hex(strip_hex_prefix(vstd::utf8::encode_utf8(ascii_chars_of(hex_prefixed(bs)))))
            == bs,
{
    lemma_hex_prefixed_ascii(bs);
    lemma_hex_of_len(bs);
    let chars = ascii_chars_of(hex_prefixed(bs));
    assert(vstd::utf8::is_ascii_chars(chars)) by {
        assert forall|i: int| 0 <= i < chars.len() implies '\0' <= #[trigger] chars[i] <= '\u{7f}'
        by {
            assert(hex_prefixed(bs)[i] < 128);
        }
    }
    vstd::utf8::is_ascii_chars_encode_utf8(chars);
    let enc = vstd::utf8::encode_utf8(chars);
    assert(enc =~= hex_prefixed(bs));
    assert(strip_hex_prefix(enc) =~= hex_of(bs));
    lemma_hex_round_trip(bs);
}

/// Numeric value of one ASCII hex digit, or `None` when the byte is not
/// a hex digit.
fn hex_digit_value(c: u8) -> (r: Option<u8>)
    ensures
        r is Some <==> is_hex_digit(c),
        r is Some ==> r->0 == hex_val(c) && r->0 < 16,
{
    if 0x30 <= c && c <= 0x39 {
        Some(c - 0x30)
    } else if 0x41 <= c && c <= 0x46 {
        Some(c - 0x41 + 10)
    } else if 0x61 <= c && c <= 0x66 {
        Some(c - 0x61 + 10)
    } else {
        None
    }
}

/// Parses a hex string (optional `0x` prefix) that must denote exactly
/// `n` bytes. Returns the bytes, or `None` when the length or the hex
/// alphabet is wrong.
pub fn decode_fixed_hex(s: &str, n: usize) -> (r: Option<Vec<u8>>)
    requires
        n <= 0x1000,
    ensures
        r is Some <==> valid_fixed_hex(s.spec_bytes(), n as int),
        r is Some ==> r->0@ == bytes_of_hex(strip_hex_prefix(s.spec_bytes()))
            && r->0@.len() == n,
{
    let bytes: &[u8] = s.as_bytes();
    let len: usize = bytes.len();
    let start: usize = if len >= 2 && bytes[0] == 0x30 && bytes[1] == 0x78 {
        2
    } else {
        0
    };
    let ghost body = strip_hex_prefix(s.spec_bytes());
    proof {
        assert(body =~= bytes@.subrange(start as int, len as int));
    }
    if len - start != 2 * n {
        return None;
    }
    let mut out: Vec<u8> = Vec::new();
    let mut i: usize = 0;
    while i < n
        invariant
            i <= n,
            n <= 0x1000,
            start + 2 * n == len,
            len == bytes@.len(),
            body == strip_hex_prefix(s.spec_bytes()),
            body == bytes@.subrange(start as int, len as int),
            body.len() == 2 * n,
            out@ == bytes_of_hex(body.subrange(0, 2 * i as int)),
            out@.len() == i,
            forall|j: int| 0 <= j < 2 * i ==> is_hex_digit(body[j]),
        decreases n - i,
    {
        let c1 = bytes[start + 2 * i];
        let c2 = bytes[start + 2 * i + 1];
        proof {
            assert(c1 == body[2 * i as int]);
            assert(c2 == body[2 * i as int + 1]);
        }
        let v1 = match hex_digit_value(c1) {
            Some(v) => v,
            None => {
                proof {
                    assert(!is_hex_digit(body[2 * i as int]));
                    assert(!all_hex_digits(body));
                }
                return None;
            },
        };
        let v2 = match hex_digit_value(c2) {
            Some(v) => v,
            None => {
                proof {
                    assert(!is_hex_digit(body[2 * i as int + 1]));
                    assert(!all_hex_digits(body));
                }
                return None;
            },
        };
        let b: u8 = v1 * 16 + v2;
        out.push(b);
        proof {
            let pre = body.subrange(0, 2 * i as int);
            let ext = body.subrange(0, 2 * (i + 1) as int);
            assert(ext.drop_last().drop_last() =~= pre);
            assert(ext[ext.len() - 2] == c1);
            assert(ext.last() == c2);
            assert(bytes_of_hex(ext) =~= bytes_of_hex(pre) + seq![b]);
        }
        i = i + 1;
    }
    proof {
        assert(body.subrange(0, 2 * n as int) =~= body);
        assert(all_hex_digits(body));
    }
    Some(out)
}

} // verus!
