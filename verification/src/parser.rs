//! Parsing an identifier from text: surrounding whitespace is trimmed, an
//! optional case-insensitive `0x` prefix is stripped, and the rest must be
//! either 32 contiguous hex digits or the 8-4-4-4-12 hyphenated grouping,
//! case-insensitive.

use vstd::prelude::*;

use vstd::string::StringSliceAdditionalSpecFns;

use crate::codec::decode_hex_digits;
use crate::codec::decode_hex_pairs;
use crate::codec::is_hex_digit;
use crate::codec::is_hex_digit_byte;
use crate::formatters::is_hyphen_pos;
use crate::identifier::UuidValue;

verus! {

/// Whether `b` is an ASCII whitespace byte, as trimming understands it.
pub open spec fn is_space(b: u8) -> bool {
    b == 0x20 || (0x09 <= b && b <= 0x0D)
}

/// The sequence with its leading whitespace removed.
pub open spec fn trim_front(s: Seq<u8>) -> Seq<u8>
    decreases s.len(),
{
    if s.len() > 0 && is_space(s[0]) {
        trim_front(s.drop_first())
    } else {
        s
    }
}

/// The sequence with its trailing whitespace removed.
pub open spec fn trim_back(s: Seq<u8>) -> Seq<u8>
    decreases s.len(),
{
    if s.len() > 0 && is_space(s.last()) {
        trim_back(s.drop_last())
    } else {
        s
    }
}

/// The sequence with whitespace removed from both ends.
pub open spec fn trim_spec(s: Seq<u8>) -> Seq<u8> {
    trim_back(trim_front(s))
}

/// The sequence with one leading `0x` or `0X` removed, if present.
pub open spec fn strip_hex_prefix(s: Seq<u8>) -> Seq<u8> {
    if s.len() >= 2 && s[0] == 0x30 && (s[1] == 0x78 || s[1] == 0x58) {
        s.subrange(2, s.len() as int)
    } else {
        s
    }
}

/// What remains of the input once trimmed and stripped of its prefix: the
/// text the grammar judges.
pub open spec fn cleaned_of(s: Seq<u8>) -> Seq<u8> {
    strip_hex_prefix(trim_spec(s))
}

/// The compact shape: exactly 32 hex digits.
pub open spec fn is_compact_text(t: Seq<u8>) -> bool {
    t.len() == 32 && forall|i: int| 0 <= i < 32 ==> is_hex_digit(t[i])
}

/// The canonical shape: 36 bytes, hyphens exactly at positions 8, 13, 18
/// and 23, hex digits everywhere else.
pub open spec fn is_canonical_text(t: Seq<u8>) -> bool {
    t.len() == 36 && forall|j: int|
        0 <= j < 36 ==> if is_hyphen_pos(j) {
            t[j] == 0x2D
        } else {
            is_hex_digit(#[trigger] t[j])
        }
}

/// The position in the canonical shape that digit `i` of the underlying
/// compact digit string occupies.
pub open spec fn canonical_pos(i: int) -> int {
    if i < 8 {
        i
    } else if i < 12 {
        i + 1
    } else if i < 16 {
        i + 2
    } else if i < 20 {
        i + 3
    } else {
        i + 4
    }
}

/// The 32 digits of a canonical-shaped text, hyphens left out.
pub open spec fn digits_of_canonical(t: Seq<u8>) -> Seq<u8>
    recommends
        t.len() == 36,
{
    Seq::new(32, |i: int| t[canonical_pos(i)])
}

/// What parsing a byte string yields: the 16 decoded bytes when the cleaned
/// text matches either accepted shape, nothing otherwise.
pub open spec fn parse_spec(s: Seq<u8>) -> Option<Seq<u8>> {
    let t = cleaned_of(s);
    if is_compact_text(t) {
        Some(decode_hex_digits(t))
    } else if is_canonical_text(t) {
        Some(decode_hex_digits(digits_of_canonical(t)))
    } else {
        None
    }
}

/// Why a cleaned text was rejected: a length other than the two accepted
/// ones, hyphens off their canonical positions, or a non-hex digit.
#[derive(Debug, Clone, Copy, PartialEq, Eq, Structural)]
pub enum ParseReason {
    WrongLength { got: usize },
    BadGrouping,
    InvalidHexDigit,
}

/// The reason reported for a cleaned text that matches neither shape.
pub open spec fn diagnose(t: Seq<u8>) -> ParseReason {
    if t.len() != 32 && t.len() != 36 {
        ParseReason::WrongLength { got: t.len() as usize }
    } else if t.len() == 36 && !(t[8] == 0x2D && t[13] == 0x2D && t[18] == 0x2D && t[23]
        == 0x2D) {
        ParseReason::BadGrouping
    } else {
        ParseReason::InvalidHexDigit
    }
}

/// A rejected input: the original text, untrimmed, with the reason.
#[derive(Debug, PartialEq, Eq)]
pub struct ParseError {
    pub input: String,
    pub reason: ParseReason,
}

proof fn lemma_trim_front_at(s: Seq<u8>, k: int)
    requires
        0 <= k <= s.len(),
        forall|j: int| 0 <= j < k ==> is_space(s[j]),
        k == s.len() || !is_space(s[k]),
    ensures
        trim_front(s) == s.subrange(0, s.len() as int).subrange(k, s.len() as int),
        trim_front(s) == s.subrange(k, s.len() as int),
    decreases k,
{
    assert(s.subrange(0, s.len() as int) =~= s);
    if k == 0 {
        assert(s.subrange(0, s.len() as int) =~= s);
        if s.len() > 0 {
            assert(!is_space(s[0]));
        }
    } else {
        assert(is_space(s[0]));
        let s2 = s.drop_first();
        assert(s2 =~= s.subrange(1, s.len() as int));
        lemma_trim_front_at(s2, k - 1);
        assert(s2.subrange(k - 1, s2.len() as int) =~= s.subrange(k, s.len() as int));
    }
}

proof fn lemma_trim_back_at(s: Seq<u8>, m: int)
    requires
        0 <= m <= s.len(),
        forall|j: int| m <= j < s.len() ==> is_space(s[j]),
        m == 0 || !is_space(s[m - 1]),
    ensures
        trim_back(s) == s.subrange(0, m),
    decreases s.len() - m,
{
    if m == s.len() {
        if s.len() > 0 {
            assert(!is_space(s.last()));
        }
        assert(s.subrange(0, m) =~= s);
    } else {
        assert(is_space(s.last()));
        let s2 = s.drop_last();
        assert(s2 =~= s.subrange(0, s.len() - 1));
        lemma_trim_back_at(s2, m);
        assert(s2.subrange(0, m) =~= s.subrange(0, m));
    }
}

/// Exec test for `is_space`.
fn is_space_byte(b: u8) -> (r: bool)
    ensures
        r == is_space(b),
{
    b == 0x20 || (0x09 <= b && b <= 0x0D)
}

/// Locates the cleaned text inside `input`: the bounds of the trimmed
/// region, moved past an optional `0x`/`0X` prefix.
pub(crate) fn clean_bounds(input: &[u8]) -> (r: (usize, usize))
    ensures
        r.0 <= r.1 <= input@.len(),
        input@.subrange(r.0 as int, r.1 as int) == cleaned_of(input@),
{
    let n = input.len();
    let mut lo: usize = 0;
    while lo < n && is_space_byte(input[lo])
        invariant
            lo <= n,
            n == input@.len(),
            forall|j: int| 0 <= j < lo ==> is_space(input@[j]),
        decreases n - lo,
    {
        lo += 1;
    }
    let mut hi: usize = n;
    while hi > lo && is_space_byte(input[hi - 1])
        invariant
            lo <= hi <= n,
            n == input@.len(),
            forall|j: int| hi <= j < n ==> is_space(input@[j]),
        decreases hi,
    {
        hi -= 1;
    }
    proof {
        lemma_trim_front_at(input@, lo as int);
        let tf = input@.subrange(lo as int, n as int);
        lemma_trim_back_at(tf, hi - lo);
        assert(tf.subrange(0, hi - lo) =~= input@.subrange(lo as int, hi as int));
    }
    let trimmed_len = hi - lo;
    if trimmed_len >= 2 && input[lo] == 0x30 && (input[lo + 1] == 0x78 || input[lo + 1]
        == 0x58) {
        proof {
            let t = input@.subrange(lo as int, hi as int);
            assert(strip_hex_prefix(t) =~= input@.subrange(lo + 2, hi as int));
        }
        (lo + 2, hi)
    } else {
        (lo, hi)
    }
}

/// Parses the byte encoding of an identifier's text.
pub fn parse_uuid_bytes(input: &[u8]) -> (r: Result<UuidValue, ParseReason>)
    ensures
        match r {
            Ok(v) => parse_spec(input@) == Some(v@),
            Err(reason) => parse_spec(input@) is None && reason == diagnose(
                cleaned_of(input@),
            ),
        },
{
    let (lo, hi) = clean_bounds(input);
    let ghost t = cleaned_of(input@);
    let m = hi - lo;
    if m != 32 && m != 36 {
        return Err(ParseReason::WrongLength { got: m });
    }
    let mut digits: Vec<u8> = Vec::new();
    if m == 36 {
        if !(input[lo + 8] == 0x2D && input[lo + 13] == 0x2D && input[lo + 18] == 0x2D
            && input[lo + 23] == 0x2D) {
            proof {
                assert(!is_canonical_text(t));
                assert(!is_compact_text(t));
            }
            return Err(ParseReason::BadGrouping);
        }
        proof {
            assert(t[8] == input@[lo + 8]);
            assert(t[13] == input@[lo + 13]);
            assert(t[18] == input@[lo + 18]);
            assert(t[23] == input@[lo + 23]);
        }
        let mut i: usize = 0;
        while i < 32
            invariant
                i <= 32,
                lo + 36 == hi <= input@.len(),
                t == cleaned_of(input@),
                t == input@.subrange(lo as int, hi as int),
                t[8] == 0x2D && t[13] == 0x2D && t[18] == 0x2D && t[23] == 0x2D,
                digits@.len() == i,
                forall|k: int| 0 <= k < i ==> digits@[k] == digits_of_canonical(t)[k]
                    && is_hex_digit(#[trigger] digits@[k]),
            decreases 32 - i,
        {
            let pos: usize = if i < 8 {
                i
            } else if i < 12 {
                i + 1
            } else if i < 16 {
                i + 2
            } else if i < 20 {
                i + 3
            } else {
                i + 4
            };
            let b = input[lo + pos];
            if !is_hex_digit_byte(b) {
                proof {
                    assert(!is_hyphen_pos(canonical_pos(i as int)));
                    assert(canonical_pos(i as int) == pos);
                    assert(t[pos as int] == input@[lo + pos]);
                    assert(!is_hex_digit(t[canonical_pos(i as int)]));
                    assert(!is_canonical_text(t));
                    assert(!is_compact_text(t));
                }
                return Err(ParseReason::InvalidHexDigit);
            }
            digits.push(b);
            i += 1;
        }
        proof {
            assert(digits@ =~= digits_of_canonical(t));
            assert forall|j: int| 0 <= j < 36 implies (if is_hyphen_pos(j) {
                t[j] == 0x2D
            } else {
                is_hex_digit(#[trigger] t[j])
            }) by {
                if !is_hyphen_pos(j) {
                    let i = if j < 8 {
                        j
                    } else if j < 13 {
                        j - 1
                    } else if j < 18 {
                        j - 2
                    } else if j < 23 {
                        j - 3
                    } else {
                        j - 4
                    };
                    assert(canonical_pos(i) == j);
                    assert(digits@[i] == t[j]);
                }
            }
            assert(is_canonical_text(t));
            assert(!is_compact_text(t));
        }
    } else {
        let mut i: usize = 0;
        while i < 32
            invariant
                i <= 32,
                lo + 32 == hi <= input@.len(),
                t == cleaned_of(input@),
                t == input@.subrange(lo as int, hi as int),
                digits@.len() == i,
                forall|k: int| 0 <= k < i ==> digits@[k] == t[k] && is_hex_digit(
                    #[trigger] digits@[k],
                ),
            decreases 32 - i,
        {
            let b = input[lo + i];
            if !is_hex_digit_byte(b) {
                proof {
                    assert(t[i as int] == input@[lo + i]);
                    assert(!is_hex_digit(t[i as int]));
                    assert(!is_compact_text(t));
                    assert(!is_canonical_text(t));
                }
                return Err(ParseReason::InvalidHexDigit);
            }
            digits.push(b);
            i += 1;
        }
        proof {
            assert(digits@ =~= t);
            assert(is_compact_text(t));
        }
    }
    let bytes = decode_hex_pairs(&digits);
    Ok(UuidValue::from_bytes(bytes))
}

/// Parses an identifier from text, tolerating surrounding whitespace and an
/// optional case-insensitive `0x` prefix; a rejected input comes back
/// unaltered inside the error.
pub fn parse_uuid(input: &str) -> (r: Result<UuidValue, ParseError>)
    ensures
        match r {
            Ok(v) => parse_spec(input.spec_bytes()) == Some(v@),
            Err(e) => parse_spec(input.spec_bytes()) is None && e.input@ == input@
                && e.reason == diagnose(cleaned_of(input.spec_bytes())),
        },
{
    match parse_uuid_bytes(input.as_bytes()) {
        Ok(v) => Ok(v),
        Err(reason) => Err(ParseError { input: input.to_owned(), reason }),
    }
}

} // verus!
