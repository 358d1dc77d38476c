//! Resolution of an abstract playable-stream handle into a concrete,
//! ordered list of fetchable, decryptable media segments, across two
//! manifest families: segmented playlists (HLS) and template-based
//! adaptive streaming (MPEG-DASH).
//!
//! The library is pure logic: locale-based variant selection, manifest
//! interpretation, segment addressing and the stateful decryption-key
//! policy, each with a verified contract. Fetching bytes by URL is the
//! caller's concern and enters only as plain byte values.

pub mod cipher;
pub mod dash;
pub mod error;
pub mod fps;
pub mod hls;
pub mod stream;
pub mod strutil;
pub mod variant;
