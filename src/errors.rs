use vstd::prelude::*;

verus! {

/// The ways in which a suffixed offset or length can fail to parse.
#[derive(Debug, Clone, Copy, PartialEq, Eq, Structural)]
pub enum HexDumpError {
    /// The text after the digits is not one of the known multipliers.
    UnknownSuffix,
    /// There are no digits before the suffix.
    MalformedNumber,
    /// The value does not fit in 64 bits.
    NumberOverflow,
}

impl HexDumpError {
    /// A short human-readable description of the error.
    pub fn description(&self) -> (r: &'static str)
        ensures
            r@ == self.description_spec()@,
    {
        match self {
            HexDumpError::UnknownSuffix => "Unknown suffix",
            HexDumpError::MalformedNumber => "Malformed number",
            HexDumpError::NumberOverflow => "Number too large",
        }
    }

    pub open spec fn description_spec(&self) -> &'static str {
        match self {
            HexDumpError::UnknownSuffix => "Unknown suffix",
            HexDumpError::MalformedNumber => "Malformed number",
            HexDumpError::NumberOverflow => "Number too large",
        }
    }
}

} // verus!
