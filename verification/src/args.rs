//! The plain argument records the command-line layer fills in and hands to
//! the library: one per subcommand, data only.

use vstd::prelude::*;

verus! {

/// Arguments of the formatting subcommand; a missing identifier means the
/// caller reads one from its input stream first.
pub struct FmtArgs {
    pub uuid: Option<String>,
    pub compact: bool,
    pub hex: bool,
    pub uppercase: bool,
}

/// Arguments of the generation subcommand.
pub struct GenArgs {
    pub version: String,
    pub uppercase: bool,
    pub compact: bool,
    pub hex: bool,
}

/// Arguments of the inspection subcommand.
pub struct InfoArgs {
    pub uuid: String,
}

/// Arguments of the nil-identifier subcommand.
pub struct NilArgs {
    pub uppercase: bool,
    pub compact: bool,
    pub hex: bool,
}

/// Arguments of the normalization subcommand.
pub struct NormalizeArgs {
    pub uuid: String,
}

} // verus!
