use vstd::prelude::*;

verus! {

/// Failure of stream resolution.
///
/// `NotFound` reports a requested locale or transport that is absent from the
/// stream set (recoverable: the caller may offer alternatives). `Decode`
/// reports malformed manifest or ciphertext bytes and carries the raw bytes
/// and the source URL for diagnosis. `Internal` reports an invariant
/// violation, such as using a variant with the wrong addressing mode.
#[derive(Debug, PartialEq)]
pub enum Error {
    NotFound { message: String },
    Decode { message: String, content: Vec<u8>, url: String },
    Internal { message: String },
}

/// Message of the `NotFound` error for a missing hardsub locale.
pub open spec fn msg_no_locale(locale: Seq<char>) -> Seq<char> {
    "no stream with hardsub locale "@ + locale
}

/// Message of the `NotFound` error for a locale without the requested transport.
pub open spec fn msg_no_stream() -> Seq<char> {
    "no stream available"@
}

/// Message of the `Internal` error when no sentinel locale exists.
pub open spec fn msg_no_supported() -> Seq<char> {
    "could not find supported stream"@
}

} // verus!
