//! The typed failures of the resolution pipeline.

use vstd::prelude::*;

verus! {

/// Every way a resolution can fail; none of them aborts the process.
#[derive(Clone, Copy, Debug, PartialEq, Eq, Structural)]
pub enum WebiconError {
    /// The identifier is empty or cannot be read.
    InvalidInput,
    /// No emoji has the given shortcode.
    UnknownShortcode,
    /// The codepoint is valid Unicode but names no known emoji.
    UnknownEmoji,
    /// The identifier is not hexadecimal, or not a Unicode scalar value.
    InvalidCodepoint,
    /// The configuration holds no table for the family.
    UnknownFamily,
    /// The family's table holds no entry for the vendor.
    UnknownVendor,
    /// The family's table has no vendors at all.
    EmptyVendorTable,
    /// The configuration source could not be opened.
    ConfigUnreadable,
    /// The configuration source is not a well-formed configuration.
    ConfigMalformed,
}

} // verus!
