use vstd::prelude::*;

verus! {

/// Why a product could not be decoded.
#[derive(Debug, Clone, Copy, PartialEq, Eq, Structural)]
pub enum VadError {
    /// The stream ended before a read of `needed` bytes starting at `offset` could complete.
    TruncatedInput { offset: usize, needed: usize },
    /// The description block names a product other than the wind profile.
    ProductCodeMismatch { offset: usize, found: i16 },
    /// The block that should be the symbology block carries another id.
    SymbologyBlockMismatch { offset: usize, found: i16 },
    /// The block that should be the tabular block carries another id.
    TabularBlockMismatch { offset: usize, found: i16 },
    /// A data line lacks a numeric field, or the field is not a number.
    FieldParseError { line: usize, field: usize },
}

} // verus!
