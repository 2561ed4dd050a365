//! The closed error taxonomy of the library.

use vstd::prelude::*;
use vstd::string::StringExecFns;

verus! {

/// Why a font operation failed. Callers match on the variant; `message`
/// renders the human-readable text that embeds the offending path or name.
#[derive(Debug)]
pub enum FontError {
    /// The font file could not be read.
    IoError { path: String, cause: String },
    /// The bytes read from `path` are not a well-formed font.
    ParseError { path: String },
    /// No font is registered under `name`.
    NotFoundError { name: String },
    /// The consumer of the bitmap stream became unreachable.
    ChannelError { cause: String },
}

impl FontError {
    /// The human-readable description of the failure.
    pub fn message(&self) -> (r: String)
        ensures
            self matches FontError::IoError { path, cause } ==> r@ == "Failed to read font file '"@
                + path@ + "': "@ + cause@,
            self matches FontError::ParseError { path } ==> r@ == "Failed to parse font file '"@
                + path@ + "'"@,
            self matches FontError::NotFoundError { name } ==> r@ == "Font not found"@,
            self matches FontError::ChannelError { cause } ==> r@ == "Failed to send pixels: "@
                + cause@,
    {
        match self {
            FontError::IoError { path, cause } => "Failed to read font file '".to_owned().concat(
                path.as_str(),
            ).concat("': ").concat(cause.as_str()),
            FontError::ParseError { path } => "Failed to parse font file '".to_owned().concat(
                path.as_str(),
            ).concat("'"),
            FontError::NotFoundError { name: _ } => "Font not found".to_owned(),
            FontError::ChannelError { cause } => "Failed to send pixels: ".to_owned().concat(
                cause.as_str(),
            ),
        }
    }
}

} // verus!
