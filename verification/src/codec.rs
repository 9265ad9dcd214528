//! Shared byte-level vocabulary of the textual codec: hex digits, ASCII case
//! mapping, and the bridge between ASCII byte sequences and strings.

use vstd::prelude::*;

verus! {

/// Whether `b` is the ASCII code of a hex digit, either case.
pub open spec fn is_hex_digit(b: u8) -> bool {
    (0x30 <= b && b <= 0x39) || (0x41 <= b && b <= 0x46) || (0x61 <= b && b <= 0x66)
}

/// The numeric value of a hex digit byte.
pub open spec fn hex_val(b: u8) -> u8
    recommends
        is_hex_digit(b),
{
    if 0x30 <= b && b <= 0x39 {
        (b - 0x30) as u8
    } else if 0x41 <= b && b <= 0x46 {
        (b - 0x41 + 10) as u8
    } else {
        (b - 0x61 + 10) as u8
    }
}

/// The lowercase hex digit byte for a nibble value.
pub open spec fn nibble_char(n: u8) -> u8
    recommends
        n < 16,
{
    if n < 10 {
        (0x30 + n) as u8
    } else {
        (0x57 + n) as u8
    }
}

/// ASCII uppercasing of one byte: `a`..`z` map to `A`..`Z`, the rest stay.
pub open spec fn upper_byte(b: u8) -> u8 {
    if 0x61 <= b && b <= 0x7A {
        (b - 0x20) as u8
    } else {
        b
    }
}

/// ASCII lowercasing of one byte: `A`..`Z` map to `a`..`z`, the rest stay.
pub open spec fn lower_byte(b: u8) -> u8 {
    if 0x41 <= b && b <= 0x5A {
        (b + 0x20) as u8
    } else {
        b
    }
}

/// Pointwise ASCII uppercasing of a byte sequence.
pub open spec fn upper_seq(s: Seq<u8>) -> Seq<u8> {
    Seq::new(s.len(), |i: int| upper_byte(s[i]))
}

/// Pointwise ASCII lowercasing of a byte sequence.
pub open spec fn lower_seq(s: Seq<u8>) -> Seq<u8> {
    Seq::new(s.len(), |i: int| lower_byte(s[i]))
}

/// The character sequence spelled by a sequence of ASCII bytes.
pub open spec fn ascii_view(s: Seq<u8>) -> Seq<char> {
    Seq::new(s.len(), |i: int| s[i] as char)
}

/// Relies on `String::from_utf8`: a vector of bytes below 0x80 is valid
/// UTF-8 and decodes to the string whose characters are exactly those bytes.
#[verifier::external_body]
pub(crate) fn ascii_to_string(bytes: Vec<u8>) -> (r: String)
    requires
        forall|i: int| 0 <= i < bytes@.len() ==> bytes@[i] < 0x80,
    ensures
        r@ == ascii_view(bytes@),
{
    String::from_utf8(bytes).unwrap_or_default()
}

/// Exec form of `hex_val`.
pub(crate) fn hex_val_of(b: u8) -> (r: u8)
    requires
        is_hex_digit(b),
    ensures
        r == hex_val(b),
        r < 16,
{
    if 0x30 <= b && b <= 0x39 {
        b - 0x30
    } else if 0x41 <= b && b <= 0x46 {
        b - 0x41 + 10
    } else {
        b - 0x61 + 10
    }
}

/// Exec form of `nibble_char`.
pub(crate) fn nibble_char_of(n: u8) -> (r: u8)
    requires
        n < 16,
    ensures
        r == nibble_char(n),
{
    if n < 10 {
        0x30 + n
    } else {
        0x57 + n
    }
}

/// Exec test for `is_hex_digit`.
pub(crate) fn is_hex_digit_byte(b: u8) -> (r: bool)
    ensures
        r == is_hex_digit(b),
{
    (0x30 <= b && b <= 0x39) || (0x41 <= b && b <= 0x46) || (0x61 <= b && b <= 0x66)
}

/// Pointwise ASCII uppercasing of a byte vector.
pub(crate) fn upper_bytes(v: &Vec<u8>) -> (r: Vec<u8>)
    ensures
        r@ == upper_seq(v@),
{
    let mut out: Vec<u8> = Vec::new();
    let mut i: usize = 0;
    while i < v.len()
        invariant
            i <= v@.len(),
            out@ =~= upper_seq(v@).subrange(0, i as int),
        decreases v@.len() - i,
    {
        let b = v[i];
        if 0x61 <= b && b <= 0x7A {
            out.push(b - 0x20);
        } else {
            out.push(b);
        }
        i += 1;
    }
    proof {
        assert(out@ =~= upper_seq(v@));
    }
    out
}

/// The 16 bytes spelled by 32 hex digit bytes, two digits per byte.
pub open spec fn decode_hex_digits(t: Seq<u8>) -> Seq<u8>
    recommends
        t.len() == 32,
        forall|i: int| 0 <= i < 32 ==> is_hex_digit(t[i]),
{
    Seq::new(16, |i: int| (hex_val(t[2 * i]) * 16 + hex_val(t[2 * i + 1])) as u8)
}

/// Decodes 32 hex digit bytes into the 16 bytes they spell.
pub(crate) fn decode_hex_pairs(d: &Vec<u8>) -> (r: [u8; 16])
    requires
        d@.len() == 32,
        forall|i: int| 0 <= i < 32 ==> is_hex_digit(d@[i]),
    ensures
        r@ == decode_hex_digits(d@),
{
    let mut out: [u8; 16] = [0u8; 16];
    let mut i: usize = 0;
    while i < 16
        invariant
            i <= 16,
            d@.len() == 32,
            forall|k: int| 0 <= k < 32 ==> is_hex_digit(d@[k]),
            forall|k: int| 0 <= k < i ==> out@[k] == decode_hex_digits(d@)[k],
        decreases 16 - i,
    {
        let hi = hex_val_of(d[2 * i]);
        let lo = hex_val_of(d[2 * i + 1]);
        out[i] = hi * 16 + lo;
        i += 1;
    }
    proof {
        assert(out@ =~= decode_hex_digits(d@));
    }
    out
}

/// A hex digit's value is recovered from the digit the formatter writes.
pub proof fn lemma_nibble_char_round_trip(n: u8)
    requires
        n < 16,
    ensures
        is_hex_digit(nibble_char(n)),
        hex_val(nibble_char(n)) == n,
        nibble_char(n) < 0x80,
{
}

} // verus!
