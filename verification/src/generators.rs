//! Selecting and invoking a generation scheme: the fully-random scheme and
//! the time-ordered-random scheme, supplied by an external primitive
//! generator, plus the case-insensitive version-token lookup.

use vstd::prelude::*;

use vstd::string::StringSliceAdditionalSpecFns;

use crate::identifier::UuidValue;
use crate::identifier::Variant;
use crate::identifier::variant_of;
use crate::identifier::version_of;

verus! {

/// The two supported generation schemes, by their version tag.
#[derive(Debug, Clone, Copy, PartialEq, Eq, Structural)]
pub enum Version {
    V4,
    V7,
}

impl Default for Version {
    /// The default scheme is the fully-random one.
    fn default() -> (r: Version)
        ensures
            r == Version::V4,
    {
        Version::V4
    }
}

/// The scheme a version token names: `v4`/`4` and `v7`/`7`, the letter in
/// either case; every other token names none.
pub open spec fn scheme_of(s: Seq<u8>) -> Option<Version> {
    if s.len() == 1 && s[0] == 0x34 {
        Some(Version::V4)
    } else if s.len() == 1 && s[0] == 0x37 {
        Some(Version::V7)
    } else if s.len() == 2 && (s[0] == 0x76 || s[0] == 0x56) && s[1] == 0x34 {
        Some(Version::V4)
    } else if s.len() == 2 && (s[0] == 0x76 || s[0] == 0x56) && s[1] == 0x37 {
        Some(Version::V7)
    } else {
        None
    }
}

impl Version {
    /// The total, case-insensitive token lookup: `Some` exactly on the four
    /// accepted spellings, `None` on everything else.
    pub fn from_str(s: &str) -> (r: Option<Version>)
        ensures
            r == scheme_of(s.spec_bytes()),
    {
        let b = s.as_bytes();
        if b.len() == 1 && b[0] == 0x34 {
            Some(Version::V4)
        } else if b.len() == 1 && b[0] == 0x37 {
            Some(Version::V7)
        } else if b.len() == 2 && (b[0] == 0x76 || b[0] == 0x56) && b[1] == 0x34 {
            Some(Version::V4)
        } else if b.len() == 2 && (b[0] == 0x76 || b[0] == 0x56) && b[1] == 0x37 {
            Some(Version::V7)
        } else {
            None
        }
    }
}

/// Relies on `uuid::Uuid::new_v4`: the generated bytes carry version
/// nibble 4 and the RFC 4122 variant bits; the rest is random.
#[verifier::external_body]
pub fn generate_v4() -> (r: UuidValue)
    ensures
        version_of(r@) == 4,
        variant_of(r@) == Variant::Rfc4122,
{
    UuidValue { bytes: uuid::Uuid::new_v4().into_bytes() }
}

/// Relies on `uuid::Uuid::now_v7`: the generated bytes carry version
/// nibble 7 and the RFC 4122 variant bits; the leading six bytes hold a
/// clock reading this contract says nothing about.
#[verifier::external_body]
pub fn generate_v7() -> (r: UuidValue)
    ensures
        version_of(r@) == 7,
        variant_of(r@) == Variant::Rfc4122,
{
    UuidValue { bytes: uuid::Uuid::now_v7().into_bytes() }
}

/// Dispatches to the scheme the tag names; the result carries that
/// scheme's version nibble and the RFC 4122 variant bits.
pub fn generate(version: Version) -> (r: UuidValue)
    ensures
        version == Version::V4 ==> version_of(r@) == 4,
        version == Version::V7 ==> version_of(r@) == 7,
        variant_of(r@) == Variant::Rfc4122,
{
    match version {
        Version::V4 => generate_v4(),
        Version::V7 => generate_v7(),
    }
}

} // verus!
