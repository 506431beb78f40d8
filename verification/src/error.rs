//! What can go wrong while decoding.
//!
//! Header faults are fatal to opening a stream; record faults are local to
//! the one line they occur on. A malformed QUAL value is deliberately not
//! an error: the column is semantically loose in the wire format, and a
//! value that is not a number decodes as "absent".

use vstd::prelude::*;

verus! {

/// Why a header could not be parsed or a record could not be decoded.
#[derive(Clone, Copy, Debug, PartialEq, Eq, Structural)]
pub enum VcfError {
    /// The first line of the stream does not declare the file format.
    MissingFormatMarker,
    /// The stream ended, or no column-header line follows the metadata.
    MissingHeaderLine,
    /// A record line has fewer tab-separated fields than the header shape
    /// requires.
    TruncatedRecord,
    /// The mandatory POS column does not hold an unsigned number.
    MalformedPosition,
}

impl VcfError {
    /// A short description, for callers that report errors as text.
    pub fn describe(&self) -> (r: &'static str)
        ensures
            match self {
                VcfError::MissingFormatMarker => r@ == ("missing file format identifier")@,
                VcfError::MissingHeaderLine => r@ == ("missing header line")@,
                VcfError::TruncatedRecord => r@ == ("record has too few fields")@,
                VcfError::MalformedPosition => r@ == ("record has a malformed POS entry")@,
            },
    {
        match self {
            VcfError::MissingFormatMarker => "missing file format identifier",
            VcfError::MissingHeaderLine => "missing header line",
            VcfError::TruncatedRecord => "record has too few fields",
            VcfError::MalformedPosition => "record has a malformed POS entry",
        }
    }
}

} // verus!
