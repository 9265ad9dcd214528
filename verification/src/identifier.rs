//! The identifier representation: an immutable 16-byte value in RFC 4122
//! network order, with accessors for the version nibble, the variant bits and
//! the embedded timestamp of the schemes that carry one.

use vstd::prelude::*;

verus! {

/// A 128-bit identifier, held as exactly 16 bytes in RFC 4122 network order.
#[derive(Debug, Clone, Copy, PartialEq, Eq)]
pub struct UuidValue {
    pub bytes: [u8; 16],
}

/// The standard variant families, classified from the top bits of byte 8.
#[derive(Debug, Clone, Copy, PartialEq, Eq, Structural)]
pub enum Variant {
    Ncs,
    Rfc4122,
    Microsoft,
    Future,
}

/// The version nibble: the high nibble of byte 6.
pub open spec fn version_of(s: Seq<u8>) -> u8
    recommends
        s.len() == 16,
{
    (s[6] / 16) as u8
}

/// The variant classification of byte 8: top bit `0` is NCS, top bits `10`
/// are RFC 4122, `110` is the reserved Microsoft family, `111` is reserved
/// for the future. The table is total over all byte values.
pub open spec fn variant_of(s: Seq<u8>) -> Variant
    recommends
        s.len() == 16,
{
    if s[8] < 0x80 {
        Variant::Ncs
    } else if s[8] < 0xC0 {
        Variant::Rfc4122
    } else if s[8] < 0xE0 {
        Variant::Microsoft
    } else {
        Variant::Future
    }
}

/// 100-nanosecond intervals between the 1582-10-15 gregorian epoch and the
/// Unix epoch.
pub const GREGORIAN_UNIX_OFFSET_TICKS: u64 = 122192928000000000;

/// The two's-complement companion of the offset: added to a tick count below
/// the offset, it yields the wrapped difference without leaving `u64`.
pub const GREGORIAN_UNIX_OFFSET_WRAP: u64 = 18324551145709551616;

/// The 60-bit count of 100-nanosecond intervals since 1582-10-15 that a
/// time-based (version 1) identifier spreads over its first eight bytes:
/// the low 12 bits of bytes 6-7, then bytes 4-5, then bytes 0-3.
pub open spec fn v1_ticks_of(s: Seq<u8>) -> u64
    recommends
        s.len() == 16,
{
    (((s[6] % 16) * 256 + s[7]) * 0x1000000000000 + (s[4] * 256 + s[5]) * 0x100000000 + (((s[0]
        * 256 + s[1]) * 256 + s[2]) * 256 + s[3])) as u64
}

/// The 48-bit count of milliseconds since the Unix epoch in the leading six
/// bytes of a time-ordered-random (version 7) identifier.
pub open spec fn v7_millis_of(s: Seq<u8>) -> u64
    recommends
        s.len() == 16,
{
    (((((s[0] * 256 + s[1]) * 256 + s[2]) * 256 + s[3]) * 256 + s[4]) * 256 + s[5]) as u64
}

/// A gregorian tick count shifted to the Unix epoch, wrapping below it,
/// split into whole seconds and a nanosecond remainder.
pub open spec fn unix_pair_of_ticks(ticks: u64) -> (u64, u32) {
    let d = if ticks >= GREGORIAN_UNIX_OFFSET_TICKS {
        (ticks - GREGORIAN_UNIX_OFFSET_TICKS) as u64
    } else {
        (ticks + GREGORIAN_UNIX_OFFSET_WRAP) as u64
    };
    ((d / 10000000) as u64, ((d % 10000000) * 100) as u32)
}

/// The embedded timestamp as `(seconds, nanoseconds)` since the Unix epoch:
/// present for the time-based and the time-ordered-random schemes, absent
/// for every other version.
pub open spec fn timestamp_of(s: Seq<u8>) -> Option<(u64, u32)>
    recommends
        s.len() == 16,
{
    if version_of(s) == 1 {
        Some(unix_pair_of_ticks(v1_ticks_of(s)))
    } else if version_of(s) == 7 {
        let ms = v7_millis_of(s);
        Some((((ms / 1000) as u64, ((ms % 1000) * 1000000) as u32)))
    } else {
        None
    }
}

/// The variant name reported for each classification.
pub open spec fn variant_name_of(v: Variant) -> Seq<char> {
    match v {
        Variant::Ncs => "NCS"@,
        Variant::Rfc4122 => "RFC4122"@,
        Variant::Microsoft => "Microsoft"@,
        Variant::Future => "Future"@,
    }
}

impl View for UuidValue {
    type V = Seq<u8>;

    open spec fn view(&self) -> Seq<u8> {
        self.bytes@
    }
}

impl UuidValue {
    /// Constructs an identifier from 16 bytes already in RFC 4122 order.
    pub fn from_bytes(bytes: [u8; 16]) -> (r: UuidValue)
        ensures
            r@ == bytes@,
    {
        UuidValue { bytes }
    }

    /// The nil identifier: all 16 bytes zero.
    pub fn nil() -> (r: UuidValue)
        ensures
            r@ == Seq::new(16, |i: int| 0u8),
    {
        let r = UuidValue { bytes: [0u8; 16] };
        proof {
            assert(r@ =~= Seq::new(16, |i: int| 0u8));
        }
        r
    }

    /// The 16 bytes of the identifier, in RFC 4122 order.
    pub fn as_bytes(&self) -> (r: [u8; 16])
        ensures
            r@ == self@,
    {
        self.bytes
    }

    /// Reads the 4-bit version field at its standard position.
    pub fn version_number(&self) -> (v: u8)
        ensures
            v == version_of(self@),
            v < 16,
    {
        self.bytes[6] / 16
    }

    /// Classifies the top bits of byte 8 per the standard variant table.
    pub fn variant(&self) -> (v: Variant)
        ensures
            v == variant_of(self@),
    {
        let b = self.bytes[8];
        if b < 0x80 {
            Variant::Ncs
        } else if b < 0xC0 {
            Variant::Rfc4122
        } else if b < 0xE0 {
            Variant::Microsoft
        } else {
            Variant::Future
        }
    }

    /// Decodes the embedded timestamp, when the version carries one, to
    /// whole seconds since the Unix epoch and a nanosecond remainder.
    pub fn timestamp(&self) -> (r: Option<(u64, u32)>)
        ensures
            r == timestamp_of(self@),
    {
        let version = self.version_number();
        if version == 1 {
            let b0 = self.bytes[0] as u64;
            let b1 = self.bytes[1] as u64;
            let b2 = self.bytes[2] as u64;
            let b3 = self.bytes[3] as u64;
            let b4 = self.bytes[4] as u64;
            let b5 = self.bytes[5] as u64;
            let b6 = self.bytes[6] as u64;
            let b7 = self.bytes[7] as u64;
            let ticks: u64 = ((b6 % 16) * 256 + b7) * 0x1000000000000 + (b4 * 256 + b5)
                * 0x100000000 + (((b0 * 256 + b1) * 256 + b2) * 256 + b3);
            let d: u64 = if ticks >= GREGORIAN_UNIX_OFFSET_TICKS {
                ticks - GREGORIAN_UNIX_OFFSET_TICKS
            } else {
                ticks + GREGORIAN_UNIX_OFFSET_WRAP
            };
            Some((d / 10000000, ((d % 10000000) * 100) as u32))
        } else if version == 7 {
            let b0 = self.bytes[0] as u64;
            let b1 = self.bytes[1] as u64;
            let b2 = self.bytes[2] as u64;
            let b3 = self.bytes[3] as u64;
            let b4 = self.bytes[4] as u64;
            let b5 = self.bytes[5] as u64;
            let ms: u64 = ((((b0 * 256 + b1) * 256 + b2) * 256 + b3) * 256 + b4) * 256 + b5;
            Some((ms / 1000, ((ms % 1000) * 1000000) as u32))
        } else {
            None
        }
    }
}

impl Variant {
    /// The name of the variant family, as the inspection report shows it.
    pub fn name(&self) -> (r: &'static str)
        ensures
            r@ == variant_name_of(*self),
    {
        match self {
            Variant::Ncs => "NCS",
            Variant::Rfc4122 => "RFC4122",
            Variant::Microsoft => "Microsoft",
            Variant::Future => "Future",
        }
    }
}

/// The variant name of an identifier's classification.
pub fn get_variant_name(uuid: &UuidValue) -> (r: &'static str)
    ensures
        r@ == variant_name_of(variant_of(uuid@)),
{
    uuid.variant().name()
}

} // verus!
