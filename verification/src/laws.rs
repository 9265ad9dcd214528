//! The laws that tie the codec's pieces together: formatting and parsing
//! invert each other in every shape and case, the case flag is a pure
//! post-transform, and the layout conversion is its own inverse.

use vstd::prelude::*;

use vstd::utf8::encode_utf8;
use vstd::utf8::is_ascii_chars;
use vstd::utf8::is_ascii_chars_encode_utf8;

use crate::codec::ascii_view;
use crate::codec::decode_hex_digits;
use crate::codec::hex_val;
use crate::codec::is_hex_digit;
use crate::codec::lemma_nibble_char_round_trip;
use crate::codec::lower_byte;
use crate::codec::lower_seq;
use crate::codec::upper_byte;
use crate::codec::upper_seq;
use crate::formatters::Format;
use crate::formatters::canonical_of;
use crate::formatters::compact_index;
use crate::formatters::compact_of;
use crate::formatters::format_bytes;
use crate::formatters::hexform_of;
use crate::formatters::is_hyphen_pos;
use crate::normalize::native_perm;
use crate::parser::canonical_pos;
use crate::parser::cleaned_of;
use crate::parser::digits_of_canonical;
use crate::parser::is_canonical_text;
use crate::parser::is_compact_text;
use crate::parser::is_space;
use crate::parser::parse_spec;
use crate::parser::strip_hex_prefix;
use crate::parser::trim_back;
use crate::parser::trim_front;
use crate::parser::trim_spec;

verus! {

/// Converting a 16-byte value to the native layout twice returns it
/// unchanged: the layout conversion is an involution.
pub proof fn lemma_native_order_involution(b: Seq<u8>)
    requires
        b.len() == 16,
    ensures
        native_perm(native_perm(b)) == b,
{
    assert(native_perm(native_perm(b)) =~= b);
}

/// An ASCII uppercased hex digit is still a hex digit of the same value.
proof fn lemma_upper_keeps_hex(b: u8)
    requires
        is_hex_digit(b),
    ensures
        is_hex_digit(upper_byte(b)),
        hex_val(upper_byte(b)) == hex_val(b),
{
}

/// The compact digit string of an identifier, in either case, is accepted
/// by the compact grammar and decodes back to the identifier.
proof fn lemma_compact_decode(id: Seq<u8>, up: bool)
    requires
        id.len() == 16,
    ensures
        ({
            let t = if up {
                upper_seq(compact_of(id))
            } else {
                compact_of(id)
            };
            is_compact_text(t) && decode_hex_digits(t) == id
        }),
{
    let c = compact_of(id);
    let t = if up {
        upper_seq(c)
    } else {
        c
    };
    assert forall|i: int| 0 <= i < 32 implies is_hex_digit(#[trigger] t[i]) && hex_val(t[i])
        == hex_val(c[i]) by {
        let n = if i % 2 == 0 {
            (id[i / 2] / 16) as u8
        } else {
            (id[i / 2] % 16) as u8
        };
        lemma_nibble_char_round_trip(n);
        lemma_upper_keeps_hex(c[i]);
    }
    assert forall|i: int| 0 <= i < 16 implies #[trigger] decode_hex_digits(t)[i] == id[i] by {
        let n_hi = (id[i] / 16) as u8;
        let n_lo = (id[i] % 16) as u8;
        lemma_nibble_char_round_trip(n_hi);
        lemma_nibble_char_round_trip(n_lo);
        assert(hex_val(t[2 * i]) == n_hi);
        assert(hex_val(t[2 * i + 1]) == n_lo);
    }
    assert(decode_hex_digits(t) =~= id);
}

/// A byte of a rendered shape is never whitespace.
proof fn lemma_shape_byte_not_space(b: u8)
    requires
        is_hex_digit(b) || b == 0x2D || b == 0x78 || b == 0x58,
    ensures
        !is_space(b),
        !is_space(upper_byte(b)),
    {
}

/// Formatting then parsing returns the identifier unchanged, in every
/// shape and either case: the byte-level round trip.
pub proof fn lemma_parse_format_round_trip(id: Seq<u8>, f: Format, up: bool)
    requires
        id.len() == 16,
    ensures
        parse_spec(format_bytes(id, f, up)) == Some(id),
{
    let s = format_bytes(id, f, up);
    let c = compact_of(id);
    let t = if up {
        upper_seq(c)
    } else {
        c
    };
    lemma_compact_decode(id, up);
    match f {
        Format::Compact => {
            assert(s == t);
            assert(is_hex_digit(c[0]) && is_hex_digit(c[31]) && is_hex_digit(c[1]));
            lemma_shape_byte_not_space(c[0]);
            lemma_shape_byte_not_space(c[31]);
            assert(!is_space(s[0]));
            assert(!is_space(s.last()));
            assert(trim_front(s) == s);
            assert(trim_back(s) == s);
            assert(trim_spec(s) == s);
            assert(is_hex_digit(t[1]));
            assert(t[1] != 0x78 && t[1] != 0x58);
            assert(strip_hex_prefix(s) == s);
            assert(cleaned_of(s) == t);
            assert(parse_spec(s) == Some(id));
        },
        Format::Canonical => {
            let base = canonical_of(id);
            assert(s == if up {
                upper_seq(base)
            } else {
                base
            });
            assert(s.len() == 36);
            assert forall|j: int| 0 <= j < 36 && !is_hyphen_pos(j) implies #[trigger] s[j]
                == t[compact_index(j)] && is_hex_digit(s[j]) by {
                assert(base[j] == c[compact_index(j)]);
            }
            assert forall|j: int| 0 <= j < 36 && is_hyphen_pos(j) implies #[trigger] s[j]
                == 0x2D by {
                assert(base[j] == 0x2Du8);
            }
            assert(is_canonical_text(s));
            assert(!is_hyphen_pos(0) && !is_hyphen_pos(35) && !is_hyphen_pos(1));
            lemma_shape_byte_not_space(s[0]);
            lemma_shape_byte_not_space(s[35]);
            assert(!is_space(s[0]));
            assert(!is_space(s.last()));
            assert(trim_front(s) == s);
            assert(trim_back(s) == s);
            assert(trim_spec(s) == s);
            assert(s[1] != 0x78 && s[1] != 0x58);
            assert(strip_hex_prefix(s) == s);
            assert(cleaned_of(s) == s);
            assert(!is_compact_text(s));
            assert forall|i: int| 0 <= i < 32 implies #[trigger] digits_of_canonical(s)[i]
                == t[i] by {
                assert(!is_hyphen_pos(canonical_pos(i)));
                assert(compact_index(canonical_pos(i)) == i);
                assert(s[canonical_pos(i)] == t[i]);
            }
            assert(digits_of_canonical(s) =~= t);
            assert(parse_spec(s) == Some(id));
        },
        Format::Hex => {
            let base = hexform_of(id);
            assert(s == if up {
                upper_seq(base)
            } else {
                base
            });
            assert(s.len() == 34);
            assert(base[0] == 0x30u8 && base[1] == 0x78u8);
            assert(s[0] == 0x30);
            assert(s[1] == 0x78 || s[1] == 0x58);
            assert(base[33] == c[31]);
            assert(is_hex_digit(c[31]));
            lemma_shape_byte_not_space(s[33]);
            assert(!is_space(s[0]));
            assert(!is_space(s.last()));
            assert(trim_front(s) == s);
            assert(trim_back(s) == s);
            assert(trim_spec(s) == s);
            assert(strip_hex_prefix(s) == s.subrange(2, 34));
            assert forall|i: int| 0 <= i < 32 implies #[trigger] s.subrange(2, 34)[i]
                == t[i] by {
                assert(base[i + 2] == c[i]);
            }
            assert(s.subrange(2, 34) =~= t);
            assert(cleaned_of(s) == t);
            assert(parse_spec(s) == Some(id));
        },
    }
}

/// The case flag is a pure post-transform: lowercasing the uppercase
/// rendering gives the lowercase rendering, lowercased, in every shape.
pub proof fn lemma_case_is_post_transform(id: Seq<u8>, f: Format)
    requires
        id.len() == 16,
    ensures
        lower_seq(format_bytes(id, f, true)) == lower_seq(format_bytes(id, f, false)),
        lower_seq(format_bytes(id, f, false)) == format_bytes(id, f, false),
{
    let base = format_bytes(id, f, false);
    assert(format_bytes(id, f, true) == upper_seq(base));
    assert forall|i: int| 0 <= i < base.len() implies #[trigger] lower_byte(upper_byte(base[i]))
        == lower_byte(base[i]) by {
    }
    assert(lower_seq(upper_seq(base)) =~= lower_seq(base));
    let c = compact_of(id);
    assert forall|i: int| 0 <= i < 32 implies #[trigger] lower_byte(c[i]) == c[i] by {
        let n = if i % 2 == 0 {
            (id[i / 2] / 16) as u8
        } else {
            (id[i / 2] % 16) as u8
        };
        lemma_nibble_char_round_trip(n);
    }
    assert forall|i: int| 0 <= i < base.len() implies #[trigger] lower_byte(base[i])
        == base[i] by {
        match f {
            Format::Canonical => {
                if !is_hyphen_pos(i) {
                    assert(base[i] == c[compact_index(i)]);
                }
            },
            Format::Compact => {
                assert(base[i] == c[i]);
            },
            Format::Hex => {
                if i >= 2 {
                    assert(base[i] == c[i - 2]);
                }
            },
        }
    }
    assert(lower_seq(base) =~= base);
}

/// A sequence of bytes below 0x80, read as characters, encodes in UTF-8
/// back to exactly those bytes.
pub proof fn lemma_ascii_bytes_encode(bs: Seq<u8>)
    requires
        forall|i: int| 0 <= i < bs.len() ==> bs[i] < 0x80,
    ensures
        encode_utf8(ascii_view(bs)) == bs,
{
    let cs = ascii_view(bs);
    assert forall|i: int| 0 <= i < cs.len() implies '\0' <= #[trigger] cs[i] <= '\u{7f}' by {
        assert(cs[i] == bs[i] as char);
    }
    assert(is_ascii_chars(cs));
    is_ascii_chars_encode_utf8(cs);
    assert forall|i: int| 0 <= i < bs.len() implies #[trigger] encode_utf8(cs)[i] == bs[i] by {
        assert(cs[i] as u8 == encode_utf8(cs)[i]);
        assert(cs[i] == bs[i] as char);
    }
    assert(encode_utf8(cs) =~= bs);
}

/// Every byte a formatting call produces is ASCII.
pub proof fn lemma_format_bytes_ascii(id: Seq<u8>, f: Format, up: bool)
    requires
        id.len() == 16,
    ensures
        forall|i: int| 0 <= i < format_bytes(id, f, up).len() ==> #[trigger] format_bytes(
            id,
            f,
            up,
        )[i] < 0x80,
{
    let c = compact_of(id);
    assert forall|i: int| 0 <= i < 32 implies #[trigger] c[i] < 0x80 by {
        let n = if i % 2 == 0 {
            (id[i / 2] / 16) as u8
        } else {
            (id[i / 2] % 16) as u8
        };
        lemma_nibble_char_round_trip(n);
    }
}

/// The string-level round trip: the text a formatting call produces, taken
/// as the UTF-8 bytes a parse call sees, parses back to the identifier.
pub proof fn lemma_round_trip_text(id: Seq<u8>, f: Format, up: bool)
    requires
        id.len() == 16,
    ensures
        parse_spec(encode_utf8(ascii_view(format_bytes(id, f, up)))) == Some(id),
{
    lemma_format_bytes_ascii(id, f, up);
    lemma_ascii_bytes_encode(format_bytes(id, f, up));
    lemma_parse_format_round_trip(id, f, up);
}

} // verus!

