//! The normalization pipeline: raw hex text in the mixed-endian layout of
//! the platform-native identifier type is decoded, permuted into RFC 4122
//! network order, and rendered compact-uppercase. It deliberately bypasses
//! the grammar of `parse`: only a length and a hex check apply.

use vstd::prelude::*;

use vstd::string::StringSliceAdditionalSpecFns;

use crate::codec::ascii_view;
use crate::codec::decode_hex_digits;
use crate::codec::decode_hex_pairs;
use crate::codec::is_hex_digit;
use crate::codec::is_hex_digit_byte;
use crate::codec::upper_seq;
use crate::formatters::Format;
use crate::formatters::FormatOptions;
use crate::formatters::compact_of;
use crate::formatters::format_uuid;
use crate::identifier::UuidValue;
use crate::parser::clean_bounds;
use crate::parser::cleaned_of;

verus! {

/// The index of the input byte that lands at position `i` after the layout
/// conversion: the first three fields are byte-reversed, the rest copied.
pub open spec fn native_perm_idx(i: int) -> int {
    if i == 0 {
        3
    } else if i == 1 {
        2
    } else if i == 2 {
        1
    } else if i == 3 {
        0
    } else if i == 4 {
        5
    } else if i == 5 {
        4
    } else if i == 6 {
        7
    } else if i == 7 {
        6
    } else {
        i
    }
}

/// The layout conversion between RFC 4122 order and the mixed-endian
/// native order, as a permutation of 16 bytes.
pub open spec fn native_perm(s: Seq<u8>) -> Seq<u8>
    recommends
        s.len() == 16,
{
    Seq::new(16, |i: int| s[native_perm_idx(i)])
}

/// The sequence with every hyphen byte removed.
pub open spec fn strip_dashes(s: Seq<u8>) -> Seq<u8>
    decreases s.len(),
{
    if s.len() == 0 {
        Seq::empty()
    } else {
        let rest = strip_dashes(s.drop_last());
        if s.last() == 0x2D {
            rest
        } else {
            rest.push(s.last())
        }
    }
}

/// The hex payload the pipeline judges: the input trimmed, stripped of an
/// optional `0x`/`0X` prefix, and freed of hyphens.
pub open spec fn normalize_cleaned(s: Seq<u8>) -> Seq<u8> {
    strip_dashes(cleaned_of(s))
}

/// Whether pair `k` of a 32-byte payload is not two hex digits.
pub open spec fn bad_pair(s: Seq<u8>, k: int) -> bool
    recommends
        s.len() == 32,
        0 <= k < 16,
{
    !(is_hex_digit(s[2 * k]) && is_hex_digit(s[2 * k + 1]))
}

/// The first pair of a 32-byte payload that is not two hex digits, counted
/// from `k`; 16 when every pair from `k` on is hex.
pub open spec fn first_bad_pair_from(s: Seq<u8>, k: int) -> int
    recommends
        s.len() == 32,
        0 <= k <= 16,
    decreases 16 - k,
{
    if k >= 16 {
        16
    } else if bad_pair(s, k) {
        k
    } else {
        first_bad_pair_from(s, k + 1)
    }
}

/// Why a payload was rejected: a cleaned length other than 32, or a
/// two-character chunk that is not hex, carried as its two bytes.
#[derive(Debug, Clone, Copy, PartialEq, Eq)]
pub enum NormalizeError {
    WrongLength { got: usize },
    InvalidChunk { chunk: [u8; 2] },
}

proof fn lemma_first_bad_pair_step(s: Seq<u8>, i: int, k: int)
    requires
        s.len() == 32,
        0 <= i <= k <= 16,
        forall|j: int| i <= j < k ==> !bad_pair(s, j),
        k == 16 || bad_pair(s, k),
    ensures
        first_bad_pair_from(s, i) == k,
    decreases k - i,
{
    if i < k {
        lemma_first_bad_pair_step(s, i + 1, k);
    }
}

/// Checks that a 32-byte payload is hex throughout and decodes it; a bad
/// pair is reported by its first occurrence.
fn decode_checked_pairs(d: &Vec<u8>) -> (r: Result<[u8; 16], NormalizeError>)
    requires
        d@.len() == 32,
    ensures
        match r {
            Ok(b) => first_bad_pair_from(d@, 0) == 16 && b@ == decode_hex_digits(d@),
            Err(e) => {
                let k = first_bad_pair_from(d@, 0);
                &&& k < 16
                &&& e matches NormalizeError::InvalidChunk { chunk }
                &&& chunk@ == seq![d@[2 * k], d@[2 * k + 1]]
            },
        },
{
    let mut k: usize = 0;
    while k < 16
        invariant
            k <= 16,
            d@.len() == 32,
            forall|j: int| 0 <= j < k ==> !bad_pair(d@, j),
        decreases 16 - k,
    {
        let hi = d[2 * k];
        let lo = d[2 * k + 1];
        if !(is_hex_digit_byte(hi) && is_hex_digit_byte(lo)) {
            let chunk: [u8; 2] = [hi, lo];
            proof {
                assert(bad_pair(d@, k as int));
                lemma_first_bad_pair_step(d@, 0, k as int);
                assert(chunk@ =~= seq![d@[2 * k as int], d@[2 * k as int + 1]]);
            }
            return Err(NormalizeError::InvalidChunk { chunk });
        }
        k += 1;
    }
    proof {
        lemma_first_bad_pair_step(d@, 0, 16);
        assert forall|i: int| 0 <= i < 32 implies is_hex_digit(#[trigger] d@[i]) by {
            let j = i / 2;
            assert(!bad_pair(d@, j));
            assert(i == 2 * j || i == 2 * j + 1);
        }
    }
    Ok(decode_hex_pairs(d))
}

/// Converts 16 bytes from the platform-native mixed-endian layout to
/// RFC 4122 network order: the 4-byte field is reversed, the two 2-byte
/// fields are swapped, bytes 8-15 are copied. Its own inverse.
pub fn normalize_guid_bytes(bytes: [u8; 16]) -> (r: [u8; 16])
    ensures
        r@ == native_perm(bytes@),
{
    let r: [u8; 16] = [
        bytes[3],
        bytes[2],
        bytes[1],
        bytes[0],
        bytes[5],
        bytes[4],
        bytes[7],
        bytes[6],
        bytes[8],
        bytes[9],
        bytes[10],
        bytes[11],
        bytes[12],
        bytes[13],
        bytes[14],
        bytes[15],
    ];
    proof {
        assert(r@ =~= native_perm(bytes@));
    }
    r
}

/// Decodes exactly 32 hex characters into 16 bytes, reporting a wrong
/// length or the first chunk that is not hex.
pub fn hex_to_bytes(hex: &str) -> (r: Result<[u8; 16], NormalizeError>)
    ensures
        match r {
            Ok(b) => hex.spec_bytes().len() == 32 && first_bad_pair_from(hex.spec_bytes(), 0)
                == 16 && b@ == decode_hex_digits(hex.spec_bytes()),
            Err(NormalizeError::WrongLength { got }) => hex.spec_bytes().len() != 32 && got
                == hex.spec_bytes().len(),
            Err(NormalizeError::InvalidChunk { chunk }) => {
                let s = hex.spec_bytes();
                let k = first_bad_pair_from(s, 0);
                s.len() == 32 && k < 16 && chunk@ == seq![s[2 * k], s[2 * k + 1]]
            },
        },
{
    let b = hex.as_bytes();
    if b.len() != 32 {
        return Err(NormalizeError::WrongLength { got: b.len() });
    }
    let mut d: Vec<u8> = Vec::new();
    let mut i: usize = 0;
    while i < 32
        invariant
            i <= 32,
            b@.len() == 32,
            b@ == hex.spec_bytes(),
            d@ =~= b@.subrange(0, i as int),
        decreases 32 - i,
    {
        d.push(b[i]);
        i += 1;
    }
    proof {
        assert(d@ =~= b@);
    }
    decode_checked_pairs(&d)
}

/// Runs the whole pipeline: trims, strips an optional `0x`/`0X` prefix,
/// removes hyphens, requires exactly 32 hex characters, decodes them,
/// permutes the bytes into RFC 4122 order and renders compact-uppercase.
pub fn normalize_native_order(input: &str) -> (r: Result<String, NormalizeError>)
    ensures
        ({
            let c = normalize_cleaned(input.spec_bytes());
            match r {
                Ok(out) => c.len() == 32 && first_bad_pair_from(c, 0) == 16 && out@
                    == ascii_view(upper_seq(compact_of(native_perm(decode_hex_digits(c))))),
                Err(NormalizeError::WrongLength { got }) => c.len() != 32 && got == c.len(),
                Err(NormalizeError::InvalidChunk { chunk }) => {
                    let k = first_bad_pair_from(c, 0);
                    c.len() == 32 && k < 16 && chunk@ == seq![c[2 * k], c[2 * k + 1]]
                },
            }
        }),
{
    let bytes = input.as_bytes();
    let (lo, hi) = clean_bounds(bytes);
    let ghost c = normalize_cleaned(input.spec_bytes());
    let mut d: Vec<u8> = Vec::new();
    let mut i: usize = lo;
    while i < hi
        invariant
            lo <= i <= hi <= bytes@.len(),
            bytes@ == input.spec_bytes(),
            bytes@.subrange(lo as int, hi as int) == cleaned_of(input.spec_bytes()),
            d@ == strip_dashes(bytes@.subrange(lo as int, i as int)),
        decreases hi - i,
    {
        let b = bytes[i];
        proof {
            let pre = bytes@.subrange(lo as int, i as int);
            let post = bytes@.subrange(lo as int, i + 1);
            assert(post.drop_last() =~= pre);
            assert(post.last() == bytes@[i as int]);
        }
        if b != 0x2D {
            d.push(b);
        }
        i += 1;
    }
    proof {
        assert(d@ == strip_dashes(cleaned_of(input.spec_bytes())));
    }
    if d.len() != 32 {
        return Err(NormalizeError::WrongLength { got: d.len() });
    }
    let decoded = match decode_checked_pairs(&d) {
        Ok(b) => b,
        Err(e) => {
            return Err(e);
        },
    };
    let value = UuidValue::from_bytes(normalize_guid_bytes(decoded));
    Ok(format_uuid(&value, FormatOptions { format: Format::Compact, uppercase: true }))
}

} // verus!
