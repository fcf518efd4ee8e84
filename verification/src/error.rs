//! What can go wrong while encoding.

use vstd::prelude::*;
use vstd::string::StringExecFns;

verus! {

/// `std::io::Error`: the error of a byte sink. It is carried along as it
/// is; nothing is said of what it holds.
#[verifier::external_type_specification]
#[verifier::external_body]
pub struct ExIoError(std::io::Error);

/// An H.264 encoding error.
#[derive(Debug)]
pub enum Error {
    /// The strides, heights or widths of the image do not fit the encoder.
    DataShapeProblem { msg: &'static str },
    /// The format is not supported.
    UnsupportedFormat {  },
    /// The padding that the size asks for cannot be written as cropping.
    UnsupportedImageSize {  },
    /// A writer was used in the state that stands only while it writes a
    /// frame, and in which it holds no stream.
    InconsistentState {  },
    /// The byte sink to which a stream was written has failed. The encoder
    /// writes to no sink; who does, reports the failure with this.
    IoError { source: std::io::Error },
}

impl Error {
    /// The error in words.
    pub fn to_string(&self) -> (text: String)
        ensures
            self matches Error::DataShapeProblem { msg } ==> text@
                == "Image data shape is problematic: "@ + msg@,
            self is UnsupportedFormat ==> text@ == "unsupported format"@,
            self is UnsupportedImageSize ==> text@
                == "unsupported image size: even width and height required"@,
            self is InconsistentState ==> text@ == "internal error: inconsistent state"@,
            self is IoError ==> text@.len() >= "IO error: "@.len() && text@.subrange(
                0,
                "IO error: "@.len() as int,
            ) == "IO error: "@,
    {
        match self {
            Error::DataShapeProblem { msg } => {
                String::from_str("Image data shape is problematic: ").concat(msg)
            },
            Error::UnsupportedFormat {  } => String::from_str("unsupported format"),
            Error::UnsupportedImageSize {  } => {
                String::from_str("unsupported image size: even width and height required")
            },
            Error::InconsistentState {  } => String::from_str("internal error: inconsistent state"),
            Error::IoError { source } => {
                let detail: String = io_error_text(source);
                let text: String = String::from_str("IO error: ").concat(detail.as_str());
                text
            },
        }
    }
}

/// The `Display` text of an I/O error of std. The text is the operating
/// system's, so nothing is said of it.
#[verifier::external_body]
fn io_error_text(source: &std::io::Error) -> String {
    format!("{source}")
}

impl From<std::io::Error> for Error {
    fn from(source: std::io::Error) -> (e: Self) {
        Error::IoError { source }
    }
}

impl vstd::std_specs::convert::FromSpecImpl<std::io::Error> for Error {
    open spec fn obeys_from_spec() -> bool {
        true
    }

    open spec fn from_spec(source: std::io::Error) -> Self {
        Error::IoError { source }
    }
}

} // verus!
