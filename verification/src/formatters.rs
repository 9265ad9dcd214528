//! Rendering an identifier as text: the hyphenated canonical shape, the
//! compact shape, and the compact shape behind a literal `0x` prefix, each
//! with an optional whole-string uppercase pass applied last.

use vstd::prelude::*;

use crate::codec::ascii_to_string;
use crate::codec::ascii_view;
use crate::codec::nibble_char;
use crate::codec::nibble_char_of;
use crate::codec::upper_byte;
use crate::codec::upper_bytes;
use crate::codec::upper_seq;
use crate::identifier::UuidValue;

verus! {

/// The textual shape of a rendered identifier.
#[derive(Debug, Clone, Copy, PartialEq, Eq, Structural)]
pub enum Format {
    Canonical,
    Compact,
    Hex,
}

impl Default for Format {
    /// The default shape is the hyphenated canonical one.
    fn default() -> (r: Format)
        ensures
            r == Format::Canonical,
    {
        Format::Canonical
    }
}

/// Per-call formatting configuration: a shape and a case flag.
#[derive(Debug, Clone, Copy, PartialEq, Eq, Structural)]
pub struct FormatOptions {
    pub format: Format,
    pub uppercase: bool,
}

impl Default for FormatOptions {
    /// The default is the canonical shape in lowercase.
    fn default() -> (r: FormatOptions)
        ensures
            r == (FormatOptions { format: Format::Canonical, uppercase: false }),
    {
        FormatOptions { format: Format::Canonical, uppercase: false }
    }
}

/// Chooses the output shape from the two exclusive flags, the `0x` prefix
/// taking precedence over the compact one.
pub fn select_format(compact: bool, hex: bool) -> (r: Format)
    ensures
        r == if hex {
            Format::Hex
        } else if compact {
            Format::Compact
        } else {
            Format::Canonical
        },
{
    if hex {
        Format::Hex
    } else if compact {
        Format::Compact
    } else {
        Format::Canonical
    }
}

/// The 32 lowercase hex digit bytes of a 16-byte identifier.
pub open spec fn compact_of(id: Seq<u8>) -> Seq<u8>
    recommends
        id.len() == 16,
{
    Seq::new(
        32,
        |i: int|
            if i % 2 == 0 {
                nibble_char((id[i / 2] / 16) as u8)
            } else {
                nibble_char((id[i / 2] % 16) as u8)
            },
    )
}

/// Whether position `j` of the canonical shape holds a hyphen.
pub open spec fn is_hyphen_pos(j: int) -> bool {
    j == 8 || j == 13 || j == 18 || j == 23
}

/// The index into the compact shape that position `j` of the canonical
/// shape draws from, for non-hyphen positions.
pub open spec fn compact_index(j: int) -> int {
    if j < 8 {
        j
    } else if j < 13 {
        j - 1
    } else if j < 18 {
        j - 2
    } else if j < 23 {
        j - 3
    } else {
        j - 4
    }
}

/// The 36 bytes of the canonical 8-4-4-4-12 hyphenated shape, lowercase.
pub open spec fn canonical_of(id: Seq<u8>) -> Seq<u8>
    recommends
        id.len() == 16,
{
    Seq::new(
        36,
        |j: int|
            if is_hyphen_pos(j) {
                0x2Du8
            } else {
                compact_of(id)[compact_index(j)]
            },
    )
}

/// The compact shape behind a literal lowercase `0x` prefix.
pub open spec fn hexform_of(id: Seq<u8>) -> Seq<u8>
    recommends
        id.len() == 16,
{
    seq![0x30u8, 0x78u8] + compact_of(id)
}

/// The bytes a formatting call produces: the chosen shape, uppercased as a
/// whole afterwards when the case flag is set (the `0x` prefix included).
pub open spec fn format_bytes(id: Seq<u8>, f: Format, uppercase: bool) -> Seq<u8>
    recommends
        id.len() == 16,
{
    let base = match f {
        Format::Canonical => canonical_of(id),
        Format::Compact => compact_of(id),
        Format::Hex => hexform_of(id),
    };
    if uppercase {
        upper_seq(base)
    } else {
        base
    }
}

/// Every byte of the compact shape is an ASCII hex digit, hence below 0x80.
pub proof fn lemma_compact_ascii(id: Seq<u8>)
    requires
        id.len() == 16,
    ensures
        forall|i: int| 0 <= i < 32 ==> #[trigger] compact_of(id)[i] < 0x80,
{
}

/// The 32 compact hex digit bytes of an identifier.
fn compact_digits(uuid: &UuidValue) -> (r: Vec<u8>)
    ensures
        r@ == compact_of(uuid@),
{
    let mut out: Vec<u8> = Vec::new();
    let mut i: usize = 0;
    while i < 16
        invariant
            i <= 16,
            out@ =~= compact_of(uuid@).subrange(0, 2 * i as int),
        decreases 16 - i,
    {
        let b = uuid.bytes[i];
        out.push(nibble_char_of(b / 16));
        out.push(nibble_char_of(b % 16));
        proof {
            assert(out@ =~= compact_of(uuid@).subrange(0, 2 * (i + 1)));
        }
        i += 1;
    }
    proof {
        assert(out@ =~= compact_of(uuid@));
    }
    out
}

/// The 36 canonical shape bytes of an identifier.
fn canonical_digits(uuid: &UuidValue) -> (r: Vec<u8>)
    ensures
        r@ == canonical_of(uuid@),
{
    let c = compact_digits(uuid);
    let mut out: Vec<u8> = Vec::new();
    let mut j: usize = 0;
    while j < 36
        invariant
            j <= 36,
            c@ == compact_of(uuid@),
            out@ =~= canonical_of(uuid@).subrange(0, j as int),
        decreases 36 - j,
    {
        if j == 8 || j == 13 || j == 18 || j == 23 {
            out.push(0x2D);
        } else {
            let k: usize = if j < 8 {
                j
            } else if j < 13 {
                j - 1
            } else if j < 18 {
                j - 2
            } else if j < 23 {
                j - 3
            } else {
                j - 4
            };
            out.push(c[k]);
        }
        proof {
            assert(out@ =~= canonical_of(uuid@).subrange(0, j + 1));
        }
        j += 1;
    }
    proof {
        assert(out@ =~= canonical_of(uuid@));
    }
    out
}

/// The `0x`-prefixed shape bytes of an identifier.
fn hexform_digits(uuid: &UuidValue) -> (r: Vec<u8>)
    ensures
        r@ == hexform_of(uuid@),
{
    let c = compact_digits(uuid);
    let mut out: Vec<u8> = Vec::new();
    out.push(0x30);
    out.push(0x78);
    let mut i: usize = 0;
    while i < c.len()
        invariant
            i <= c@.len(),
            c@ == compact_of(uuid@),
            out@ =~= seq![0x30u8, 0x78u8] + compact_of(uuid@).subrange(0, i as int),
        decreases c@.len() - i,
    {
        out.push(c[i]);
        i += 1;
    }
    proof {
        assert(out@ =~= hexform_of(uuid@));
    }
    out
}

/// Renders an identifier in the chosen shape, then applies the case flag to
/// the whole result, the `0x` prefix included.
pub fn format_uuid(uuid: &UuidValue, options: FormatOptions) -> (r: String)
    ensures
        r@ == ascii_view(format_bytes(uuid@, options.format, options.uppercase)),
{
    let base = match options.format {
        Format::Canonical => canonical_digits(uuid),
        Format::Compact => compact_digits(uuid),
        Format::Hex => hexform_digits(uuid),
    };
    let rendered = if options.uppercase {
        upper_bytes(&base)
    } else {
        base
    };
    proof {
        lemma_compact_ascii(uuid@);
        assert(forall|i: int|
            0 <= i < rendered@.len() ==> #[trigger] rendered@[i] < 0x80);
    }
    ascii_to_string(rendered)
}

/// The canonical hyphenated lowercase rendering.
pub fn canonical(uuid: &UuidValue) -> (r: String)
    ensures
        r@ == ascii_view(canonical_of(uuid@)),
{
    let digits = canonical_digits(uuid);
    proof {
        lemma_compact_ascii(uuid@);
        assert(forall|i: int| 0 <= i < digits@.len() ==> #[trigger] digits@[i] < 0x80);
    }
    ascii_to_string(digits)
}

/// The compact lowercase rendering: 32 contiguous hex digits.
pub fn compact(uuid: &UuidValue) -> (r: String)
    ensures
        r@ == ascii_view(compact_of(uuid@)),
{
    let digits = compact_digits(uuid);
    proof {
        lemma_compact_ascii(uuid@);
    }
    ascii_to_string(digits)
}

/// The compact rendering behind a literal `0x` prefix.
pub fn hex(uuid: &UuidValue) -> (r: String)
    ensures
        r@ == ascii_view(hexform_of(uuid@)),
{
    let digits = hexform_digits(uuid);
    proof {
        lemma_compact_ascii(uuid@);
        assert(forall|i: int| 0 <= i < digits@.len() ==> #[trigger] digits@[i] < 0x80);
    }
    ascii_to_string(digits)
}

} // verus!
