//! The 2-bit protocol-version field and its conversion from a raw value.

use vstd::prelude::*;

verus! {

/// One of the three assigned values of the 2-bit version field.
///
/// Ordered by the underlying raw rank: `RTP0 < RTP1 < RTP2`.
#[derive(Clone, Copy, Debug, Eq, Hash, Ord, PartialEq, PartialOrd, Structural)]
#[non_exhaustive]
pub enum Version {
    RTP0,
    RTP1,
    RTP2,
}

/// Why a raw value failed to convert into a [`Version`].
#[derive(Clone, Copy, Debug, Eq, Hash, PartialEq, Structural)]
#[non_exhaustive]
pub enum VersionError {
    /// The raw value lies outside the 2-bit domain `0..=3`.
    Invalid,
    /// The raw value is `3`: representable, but reserved/unassigned.
    Unknown,
}

/// What converting a raw version value yields: the assigned version for
/// `0..=2`, `Unknown` for the reserved value `3`, `Invalid` beyond the
/// 2-bit domain.
pub open spec fn spec_version_of(raw: u8) -> Result<Version, VersionError> {
    if raw == 0 {
        Ok(Version::RTP0)
    } else if raw == 1 {
        Ok(Version::RTP1)
    } else if raw == 2 {
        Ok(Version::RTP2)
    } else if raw == 3 {
        Err(VersionError::Unknown)
    } else {
        Err(VersionError::Invalid)
    }
}

impl Version {
    /// Converts a raw version value, classifying every failure.
    pub fn try_from(value: u8) -> (r: Result<Version, VersionError>)
        ensures
            r == spec_version_of(value),
    {
        match value {
            0 => Ok(Version::RTP0),
            1 => Ok(Version::RTP1),
            2 => Ok(Version::RTP2),
            3 => Err(VersionError::Unknown),
            _ => Err(VersionError::Invalid),
        }
    }

    /// Whether this is version 0.
    pub fn is_rtp0(self) -> (r: bool)
        ensures
            r <==> self == Version::RTP0,
    {
        match self {
            Version::RTP0 => true,
            _ => false,
        }
    }

    /// Whether this is version 1.
    pub fn is_rtp1(self) -> (r: bool)
        ensures
            r <==> self == Version::RTP1,
    {
        match self {
            Version::RTP1 => true,
            _ => false,
        }
    }

    /// Whether this is version 2, the one version the decoder accepts.
    pub fn is_rtp2(self) -> (r: bool)
        ensures
            r <==> self == Version::RTP2,
    {
        match self {
            Version::RTP2 => true,
            _ => false,
        }
    }
}

impl VersionError {
    /// The description `message` returns for each variant.
    pub open spec fn spec_message(self) -> Seq<char> {
        match self {
            VersionError::Invalid => "invalid version"@,
            VersionError::Unknown => "unknown version"@,
        }
    }

    /// A human-readable description of the error.
    pub fn message(self) -> (r: &'static str)
        ensures
            r@ == self.spec_message(),
    {
        match self {
            VersionError::Invalid => "invalid version",
            VersionError::Unknown => "unknown version",
        }
    }
}

} // verus!
