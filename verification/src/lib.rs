//! Decoder for the fixed and extension portions of an RTP packet header.
//!
//! A single pass over a byte buffer yields either a fully populated
//! [`Header`] or one classified [`DecodeError`]; nothing is ever encoded
//! back to bytes and the payload after the header is never touched.

pub mod decoder;
pub mod header;
pub mod version;

pub use decoder::decode;
pub use decoder::DecodeError;
pub use header::Extension;
pub use header::Header;
pub use header::CSRC;
pub use header::SSRC;
pub use version::Version;
pub use version::VersionError;
