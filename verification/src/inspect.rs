//! The field inspector: a structured report of the semantic facts a parsed
//! identifier carries — version, variant classification, and the decoded
//! timestamp of the schemes that embed one.

use vstd::prelude::*;

use crate::identifier::UuidValue;
use crate::identifier::Variant;
use crate::identifier::timestamp_of;
use crate::identifier::v7_millis_of;
use crate::identifier::variant_of;
use crate::identifier::version_of;

verus! {

/// The whole milliseconds since the Unix epoch reported for the
/// time-ordered-random scheme, absent for every other version.
pub open spec fn millis_report_of(s: Seq<u8>) -> Option<u64>
    recommends
        s.len() == 16,
{
    if version_of(s) == 7 {
        Some(v7_millis_of(s))
    } else {
        None
    }
}

/// What inspection reports of an identifier. The timestamp is present for
/// the time-based and time-ordered-random schemes only; the millisecond
/// reading for the latter alone; the random tag marks the fully-random
/// scheme.
#[derive(Debug, Clone, Copy, PartialEq, Eq)]
pub struct InspectReport {
    pub version: u8,
    pub variant: Variant,
    pub random: bool,
    pub timestamp: Option<(u64, u32)>,
    pub timestamp_ms: Option<u64>,
}

/// Derives the report of semantic facts from a parsed identifier; a pure
/// read with no failure mode.
pub fn inspect(uuid: &UuidValue) -> (r: InspectReport)
    ensures
        r.version == version_of(uuid@),
        r.variant == variant_of(uuid@),
        r.random == (version_of(uuid@) == 4),
        r.timestamp == timestamp_of(uuid@),
        r.timestamp_ms == millis_report_of(uuid@),
{
    let version = uuid.version_number();
    let variant = uuid.variant();
    let timestamp = uuid.timestamp();
    let timestamp_ms: Option<u64> = if version == 7 {
        match timestamp {
            Some((seconds, nanos)) => Some(seconds * 1000 + (nanos / 1000000) as u64),
            None => None,
        }
    } else {
        None
    };
    InspectReport { version, variant, random: version == 4, timestamp, timestamp_ms }
}

} // verus!
