use vstd::prelude::*;

verus! {

/// The ways in which opening a dictionary or looking up an entry can fail.
#[derive(Clone, Copy, Debug, PartialEq, Eq, Structural)]
pub enum MDictError {
    /// The caller's input cannot name a dictionary.
    InvalidInput,
    /// The file ends before a region that the format announces.
    Io,
    /// The header or one of the directory preludes is malformed.
    CorruptHeader,
    /// A compressed block does not decode to what its checksum covers.
    CorruptBlock,
    /// The keyword index contradicts the directories.
    CorruptIndex,
    /// The file was written by an engine this reader does not know.
    UnsupportedVersion,
    /// The header names a text encoding this reader does not know.
    UnsupportedEncoding,
    /// The content is encrypted and no key was supplied.
    EncryptionRequired,
    /// The key is not in the index.
    NotFound,
}

impl MDictError {
    /// A short description of the error.
    pub fn message(&self) -> (text: &'static str)
        ensures
            text@ == Self::message_text(*self)@,
    {
        match self {
            MDictError::InvalidInput => "invalid input",
            MDictError::Io => "unexpected end of file",
            MDictError::CorruptHeader => "corrupt header",
            MDictError::CorruptBlock => "corrupt block",
            MDictError::CorruptIndex => "corrupt index",
            MDictError::UnsupportedVersion => "unsupported version",
            MDictError::UnsupportedEncoding => "unsupported encoding",
            MDictError::EncryptionRequired => "encryption key required",
            MDictError::NotFound => "Not found in index",
        }
    }

    /// The text that [`MDictError::message`] returns.
    pub open spec fn message_text(e: MDictError) -> &'static str {
        match e {
            MDictError::InvalidInput => "invalid input",
            MDictError::Io => "unexpected end of file",
            MDictError::CorruptHeader => "corrupt header",
            MDictError::CorruptBlock => "corrupt block",
            MDictError::CorruptIndex => "corrupt index",
            MDictError::UnsupportedVersion => "unsupported version",
            MDictError::UnsupportedEncoding => "unsupported encoding",
            MDictError::EncryptionRequired => "encryption key required",
            MDictError::NotFound => "Not found in index",
        }
    }
}

} // verus!
