//! Verified routines for 128-bit universally-unique identifiers: parsing the
//! standard textual encodings, rendering them with shape and case control,
//! inspecting the version, variant and embedded timestamp fields, and
//! converting between the network byte layout and the mixed-endian layout of
//! one platform's native identifier type.

mod args;
mod codec;
mod formatters;
mod generators;
mod identifier;
mod inspect;
mod laws;
mod normalize;
mod parser;

pub use args::FmtArgs;
pub use args::GenArgs;
pub use args::InfoArgs;
pub use args::NilArgs;
pub use args::NormalizeArgs;
pub use formatters::Format;
pub use formatters::FormatOptions;
pub use formatters::canonical;
pub use formatters::compact;
pub use formatters::format_uuid;
pub use formatters::hex;
pub use formatters::select_format;
pub use generators::Version;
pub use generators::generate;
pub use generators::generate_v4;
pub use generators::generate_v7;
pub use identifier::UuidValue;
pub use identifier::get_variant_name;
pub use inspect::InspectReport;
pub use inspect::inspect;
pub use identifier::Variant;
pub use laws::lemma_case_is_post_transform;
pub use laws::lemma_native_order_involution;
pub use laws::lemma_parse_format_round_trip;
pub use laws::lemma_round_trip_text;
pub use normalize::NormalizeError;
pub use normalize::hex_to_bytes;
pub use normalize::normalize_guid_bytes;
pub use normalize::normalize_native_order;
pub use parser::ParseError;
pub use parser::ParseReason;
pub use parser::parse_uuid;
pub use parser::parse_uuid_bytes;
