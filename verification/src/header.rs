//! The decoded header and its value types.

use crate::version::Version;
use vstd::prelude::*;

verus! {

/// Synchronization source identifier: a 32-bit value naming the origin of
/// the stream. A distinct type, so it cannot be confused with a timestamp
/// or a [`CSRC`].
#[derive(Clone, Copy, Debug, Eq, PartialEq, Structural)]
pub struct SSRC(pub u32);

/// Contributing source identifier: a 32-bit value naming an upstream
/// source mixed into the stream.
#[derive(Clone, Copy, Debug, Eq, PartialEq, Structural)]
pub struct CSRC(pub u32);

/// Profile-specific header extension: an opaque 16-bit parameter field and
/// a body whose length is a whole number of 32-bit words.
#[derive(Debug)]
pub struct Extension {
    pub body: Vec<u8>,
    pub parameters: u16,
}

/// Mathematical model of an [`Extension`].
#[verifier::ext_equal]
pub ghost struct ExtensionModel {
    pub body: Seq<u8>,
    pub parameters: u16,
}

impl View for Extension {
    type V = ExtensionModel;

    open spec fn view(&self) -> ExtensionModel {
        ExtensionModel { body: self.body@, parameters: self.parameters }
    }
}

/// The decoded RTP header: a terminal, immutable value owning all its
/// storage, produced only by a successful decode.
#[derive(Debug)]
pub struct Header {
    pub csrcs: Vec<CSRC>,
    pub extension: Option<Extension>,
    pub has_extension: bool,
    pub has_marker: bool,
    pub has_padding: bool,
    pub payload_type: u8,
    pub sequence_number: u16,
    pub ssrc: SSRC,
    pub timestamp: u32,
    pub version: Version,
}

/// Mathematical model of a [`Header`]: every field as a plain value, the
/// CSRC list as a sequence of 32-bit identifiers.
#[verifier::ext_equal]
pub ghost struct HeaderModel {
    pub csrcs: Seq<u32>,
    pub extension: Option<ExtensionModel>,
    pub has_extension: bool,
    pub has_marker: bool,
    pub has_padding: bool,
    pub payload_type: u8,
    pub sequence_number: u16,
    pub ssrc: u32,
    pub timestamp: u32,
    pub version: Version,
}

impl View for Header {
    type V = HeaderModel;

    open spec fn view(&self) -> HeaderModel {
        HeaderModel {
            csrcs: self.csrcs@.map_values(|c: CSRC| c.0),
            extension: match self.extension {
                Some(e) => Some(e@),
                None => None,
            },
            has_extension: self.has_extension,
            has_marker: self.has_marker,
            has_padding: self.has_padding,
            payload_type: self.payload_type,
            sequence_number: self.sequence_number,
            ssrc: self.ssrc.0,
            timestamp: self.timestamp,
            version: self.version,
        }
    }
}

impl HeaderModel {
    /// The structural invariants of every decoded header: the payload type
    /// fits in 7 bits, at most 15 contributing sources, the extension is
    /// present exactly when its flag is set, and an extension body is a
    /// whole number of 32-bit words.
    pub open spec fn wf(self) -> bool {
        &&& self.payload_type <= 127
        &&& self.csrcs.len() <= 15
        &&& (self.has_extension <==> self.extension is Some)
        &&& (self.extension matches Some(e) ==> e.body.len() % 4 == 0)
    }
}

} // verus!
