//! The failures a file's pipeline can end in, and the configuration faults
//! that are found before any file is touched.

use vstd::prelude::*;

verus! {

/// `std::io::Error`, carried through untouched.
#[verifier::external_type_specification]
#[verifier::external_body]
pub struct ExIoError(std::io::Error);

/// `image::ImageError`, carried through untouched.
#[verifier::external_type_specification]
#[verifier::external_body]
pub struct ExImageError(image::ImageError);

/// Why the pipeline of one file stopped.
#[derive(Debug)]
pub enum Error {
    /// A stream codec failed while compressing.
    Io(std::io::Error),
    /// An image could not be decoded or encoded.
    Image(image::ImageError),
    /// The file does not lie under the input root.
    StripPrefixError,
    /// The file name has no extension.
    NoExtension,
    /// The path has no usable file name.
    NoFileName,
}

/// The kinds of `Error`, without what an error carries.
#[derive(Debug, Clone, Copy, PartialEq, Eq, Structural)]
pub enum Fault {
    Io,
    Image,
    StripPrefixError,
    NoExtension,
    NoFileName,
}

impl Error {
    /// The kind of this error.
    pub open spec fn fault_spec(&self) -> Fault {
        match *self {
            Error::Io(_) => Fault::Io,
            Error::Image(_) => Fault::Image,
            Error::StripPrefixError => Fault::StripPrefixError,
            Error::NoExtension => Fault::NoExtension,
            Error::NoFileName => Fault::NoFileName,
        }
    }

    /// The kind of this error.
    #[verifier::when_used_as_spec(fault_spec)]
    pub fn fault(&self) -> (r: Fault)
        ensures
            r == self.fault_spec(),
    {
        match self {
            Error::Io(_) => Fault::Io,
            Error::Image(_) => Fault::Image,
            Error::StripPrefixError => Fault::StripPrefixError,
            Error::NoExtension => Fault::NoExtension,
            Error::NoFileName => Fault::NoFileName,
        }
    }
}

/// A tunable that is read once at startup.
#[derive(Debug, Clone, Copy, PartialEq, Eq, Structural)]
pub enum Tunable {
    BrotliLevel,
    GzipLevel,
    DeflateLevel,
    ZstdLevel,
    WebpQuality,
}

/// Why a configuration was refused.
#[derive(Debug, Clone, Copy, PartialEq, Eq, Structural)]
pub enum ConfigError {
    /// The text given for the tunable is not a decimal integer of its type.
    NotAnInteger { tunable: Tunable },
    /// The value lies outside the closed range `min..=max`.
    OutOfRange { tunable: Tunable, min: i64, max: i64 },
    /// A resize tier has a label with a separator in it or a bound of zero,
    /// or two tiers share a label.
    InvalidTiers,
}

} // verus!
