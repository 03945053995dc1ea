use vstd::prelude::*;

verus! {

/// Every way an encode or decode can fail. Decoding never panics and never
/// returns a partial record: the first violated condition surfaces as one of
/// these.
#[derive(Clone, Copy, PartialEq, Eq, Debug, Structural)]
pub enum Error {
    /// The buffer does not begin with the expected magic tag.
    InvalidHeader,
    /// The buffer's version differs from the expected version.
    VersionMismatch,
    /// The session's architecture byte is neither 0 nor 1.
    InvalidArchitectureTag,
    /// A size value was read before the architecture byte.
    ArchitectureNotSet,
    /// Fewer bytes remain than a fixed-width field needs.
    TruncatedBuffer,
    /// No zero terminator before the end of the buffer.
    UnterminatedString,
    /// The bytes before the terminator are not valid UTF-8.
    InvalidString,
    /// A size does not fit: decoding, the platform's native count type;
    /// encoding, the size field width that the architecture selects.
    SizeOverflow,
    /// A single-byte discriminant is outside its declared variant set.
    InvalidDiscriminant,
    /// Reconstruction received a decoded value of the wrong kind.
    TypeMismatch,
    /// A string to be encoded contains a zero byte, which would be read back
    /// as its terminator.
    StringContainsNul,
}

/// The failures that encoding alone can produce.
pub open spec fn encode_error(e: Error) -> bool {
    e == Error::StringContainsNul || e == Error::SizeOverflow
}

impl Error {
    /// A short description, for callers that report failures.
    pub fn describe(&self) -> &'static str {
        match self {
            Error::InvalidHeader => "buffer does not start with header",
            Error::VersionMismatch => "version does not match",
            Error::InvalidArchitectureTag => "invalid architecture",
            Error::ArchitectureNotSet => "no architecture specified",
            Error::TruncatedBuffer => "not enough bytes",
            Error::UnterminatedString => "unterminated c-string",
            Error::InvalidString => "string bytes are not valid utf-8",
            Error::SizeOverflow => "value does not fit in usize",
            Error::InvalidDiscriminant => "invalid discriminant",
            Error::TypeMismatch => "unexpected field type",
            Error::StringContainsNul => "string contains a zero byte",
        }
    }
}

} // verus!
