use vstd::prelude::*;

verus! {

/// The result type of this crate.
pub type WxResult<T> = Result<T, WxError>;

/// What went wrong, as plain values.
#[derive(Debug)]
pub enum WxErrorKind {
    /// A version whose memory layout this tool cannot read.
    UnsupportedOffset {
        /// The version at hand.
        version: String,
        /// The field that could not be read.
        field: String,
    },
    /// Page authentication failed on the first page of a database file:
    /// the supplied key is almost certainly wrong.
    InvalidKey {
        /// The 32-byte key that failed.
        key: Vec<u8>,
        /// The file (or tree) that was being decrypted.
        path: String,
    },
    /// A file's shape is wrong: too short, not a whole number of pages, or a
    /// WAL byte-order marker outside the two known values.
    Malformed {
        /// What was malformed.
        message: String,
    },
    /// A decoding step failed.
    DecodeError {
        /// The codec that rejected its input.
        algorithm: String,
        /// What it said.
        message: String,
    },
    /// Anything else, described in words.
    Custom {
        /// The description.
        message: String,
    },
}

/// An error of this crate; wraps a [`WxErrorKind`].
#[derive(Debug)]
pub struct WxError {
    /// What went wrong.
    pub kind: WxErrorKind,
}

impl WxError {
    /// An error described only by a message.
    pub fn custom(message: String) -> (e: WxError)
        ensures
            e.kind matches WxErrorKind::Custom { message: m } && m@ == message@,
    {
        WxError { kind: WxErrorKind::Custom { message } }
    }

    /// A malformed file, described in words.
    pub fn malformed(message: String) -> (e: WxError)
        ensures
            e.kind matches WxErrorKind::Malformed { message: m } && m@ == message@,
    {
        WxError { kind: WxErrorKind::Malformed { message } }
    }

    /// A version/field pair that cannot be read.
    pub fn unsupported_offset(version: String, field: String) -> (e: WxError)
        ensures
            e.kind matches WxErrorKind::UnsupportedOffset { version: v, field: f }
                && v@ == version@ && f@ == field@,
    {
        WxError { kind: WxErrorKind::UnsupportedOffset { version, field } }
    }

    /// The key failed to authenticate the first page of `path`.
    pub fn invalid_key(key: Vec<u8>, path: String) -> (e: WxError)
        ensures
            e.kind matches WxErrorKind::InvalidKey { key: k, path: p }
                && k@ == key@ && p@ == path@,
    {
        WxError { kind: WxErrorKind::InvalidKey { key, path } }
    }

    /// A decoding step failed in the named codec.
    pub fn decode(algorithm: String, message: String) -> (e: WxError)
        ensures
            e.kind matches WxErrorKind::DecodeError { algorithm: a, message: m }
                && a@ == algorithm@ && m@ == message@,
    {
        WxError { kind: WxErrorKind::DecodeError { algorithm, message } }
    }
}

} // verus!
