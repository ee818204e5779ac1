//! The single-pass header decoder and its error taxonomy.

use crate::header::{CSRC, Extension, ExtensionModel, Header, HeaderModel, SSRC};
use crate::version::{Version, VersionError, spec_version_of};
use vstd::prelude::*;

verus! {

/// Everything a decode can fail with.
#[derive(Clone, Copy, Debug, Eq, Hash, PartialEq, Structural)]
#[non_exhaustive]
pub enum DecodeError {
    /// The raw version value could not be converted into a [`Version`].
    Version(VersionError),
    /// The buffer ran out before a required field could be fully read.
    UnexpectedEOF,
    /// The version parsed, but is not the one version this decoder accepts.
    UnsupportedVersion,
}

impl DecodeError {
    /// The description `message` returns for each variant.
    pub open spec fn spec_message(self) -> Seq<char> {
        match self {
            DecodeError::Version(error) => error.spec_message(),
            DecodeError::UnexpectedEOF => "unexpected EOF"@,
            DecodeError::UnsupportedVersion => "unsupported version"@,
        }
    }

    /// A human-readable description of the error.
    pub fn message(self) -> (r: &'static str)
        ensures
            r@ == self.spec_message(),
    {
        match self {
            DecodeError::Version(error) => error.message(),
            DecodeError::UnexpectedEOF => "unexpected EOF",
            DecodeError::UnsupportedVersion => "unsupported version",
        }
    }
}

/// The big-endian 16-bit integer spelled by the two bytes at offset `i`.
pub open spec fn spec_u16_be(b: Seq<u8>, i: int) -> u16
    recommends
        0 <= i,
        i + 2 <= b.len(),
{
    (b[i] as int * 0x100 + b[i + 1] as int) as u16
}

/// The big-endian 32-bit integer spelled by the four bytes at offset `i`.
pub open spec fn spec_u32_be(b: Seq<u8>, i: int) -> u32
    recommends
        0 <= i,
        i + 4 <= b.len(),
{
    (b[i] as int * 0x1000000 + b[i + 1] as int * 0x10000 + b[i + 2] as int * 0x100 + b[
        i + 3
    ] as int) as u32
}

/// Where the fixed header and the CSRC list end for a first byte `b0`:
/// 12 fixed bytes plus 4 for each contributing source.
pub open spec fn spec_csrc_end(b0: u8) -> int {
    12 + 4 * ((b0 >> 4) as int)
}

/// The CSRC identifiers of a buffer, in transmission order.
pub open spec fn spec_csrcs(b: Seq<u8>, count: int) -> Seq<u32> {
    Seq::new(count as nat, |i: int| spec_u32_be(b, 12 + 4 * i))
}

/// The header a buffer spells, given the version already parsed and the
/// extension already read; every other field comes straight off the bytes.
pub open spec fn spec_header(b: Seq<u8>, version: Version, extension: Option<
    ExtensionModel,
>) -> HeaderModel {
    HeaderModel {
        csrcs: spec_csrcs(b, (b[0] >> 4) as int),
        extension,
        has_extension: b[0] & 0x8 != 0,
        has_marker: b[1] & 0x1 != 0,
        has_padding: b[0] & 0x4 != 0,
        payload_type: b[1] >> 1,
        sequence_number: spec_u16_be(b, 2),
        ssrc: spec_u32_be(b, 8),
        timestamp: spec_u32_be(b, 4),
        version,
    }
}

/// What decoding a buffer yields, field for field: the value `decode`
/// returns. Reads are strictly sequential, so the version checks on byte 0
/// come before any demand on the rest of the buffer, and every shortfall
/// surfaces as `UnexpectedEOF`.
pub open spec fn spec_decode(b: Seq<u8>) -> Result<HeaderModel, DecodeError> {
    if b.len() < 1 {
        Err(DecodeError::UnexpectedEOF)
    } else {
        match spec_version_of(b[0] & 0x3) {
            Err(e) => Err(DecodeError::Version(e)),
            Ok(version) => {
                if version != Version::RTP2 {
                    Err(DecodeError::UnsupportedVersion)
                } else {
                    let end = spec_csrc_end(b[0]);
                    if b.len() < end {
                        Err(DecodeError::UnexpectedEOF)
                    } else if b[0] & 0x8 == 0 {
                        Ok(spec_header(b, version, None))
                    } else if b.len() < end + 4 {
                        Err(DecodeError::UnexpectedEOF)
                    } else {
                        let words = spec_u16_be(b, end + 2) as int;
                        if b.len() < end + 4 + 4 * words {
                            Err(DecodeError::UnexpectedEOF)
                        } else {
                            Ok(
                                spec_header(
                                    b,
                                    version,
                                    Some(
                                        ExtensionModel {
                                            body: b.subrange(end + 4, end + 4 + 4 * words),
                                            parameters: spec_u16_be(b, end),
                                        },
                                    ),
                                ),
                            )
                        }
                    }
                }
            },
        }
    }
}

impl core::convert::From<VersionError> for DecodeError {
    /// Wraps a version-conversion failure in the decoder's taxonomy.
    fn from(value: VersionError) -> (r: Self) {
        DecodeError::Version(value)
    }
}

impl vstd::std_specs::convert::FromSpecImpl<VersionError> for DecodeError {
    open spec fn obeys_from_spec() -> bool {
        true
    }

    open spec fn from_spec(value: VersionError) -> Self {
        DecodeError::Version(value)
    }
}

/// Reads the big-endian 16-bit integer at byte offset `i`.
fn read_u16_be(b: &[u8], i: usize) -> (r: u16)
    requires
        i + 2 <= b@.len(),
    ensures
        r == spec_u16_be(b@, i as int),
{
    (b[i] as u16) * 0x100 + (b[i + 1] as u16)
}

/// Reads the big-endian 32-bit integer at byte offset `i`.
fn read_u32_be(b: &[u8], i: usize) -> (r: u32)
    requires
        i + 4 <= b@.len(),
    ensures
        r == spec_u32_be(b@, i as int),
{
    (b[i] as u32) * 0x1000000 + (b[i + 1] as u32) * 0x10000 + (b[i + 2] as u32) * 0x100 + (b[i
        + 3] as u32)
}

/// Decodes the fixed and extension portions of an RTP header from the
/// front of `buffer`, exactly as [`spec_decode`] describes: one sequential
/// pass, big-endian fields, version 2 only, every shortfall an
/// `UnexpectedEOF`. Bytes past the header are left untouched.
pub fn decode(buffer: &[u8]) -> (r: Result<Header, DecodeError>)
    ensures
        r matches Ok(h) ==> spec_decode(buffer@) == Ok::<HeaderModel, DecodeError>(h@) && h@.wf(),
        r matches Err(e) ==> spec_decode(buffer@) == Err::<HeaderModel, DecodeError>(e),
{
    let n = buffer.len();
    if n < 1 {
        return Err(DecodeError::UnexpectedEOF);
    }
    let b0 = buffer[0];
    let version = match Version::try_from(b0 & 0x3) {
        Ok(v) => v,
        Err(e) => {
            return Err(DecodeError::Version(e));
        },
    };
    if !version.is_rtp2() {
        return Err(DecodeError::UnsupportedVersion);
    }
    let has_padding = b0 & 0x4 != 0;
    let has_extension = b0 & 0x8 != 0;
    let csrc_count = b0 >> 4;
    proof {
        assert(b0 >> 4 <= 15) by (bit_vector);
    }
    let end: usize = 12 + 4 * (csrc_count as usize);
    if n < end {
        return Err(DecodeError::UnexpectedEOF);
    }
    let b1 = buffer[1];
    let has_marker = b1 & 0x1 != 0;
    let payload_type = b1 >> 1;
    proof {
        assert(b1 >> 1 <= 127) by (bit_vector);
    }
    let sequence_number = read_u16_be(buffer, 2);
    let timestamp = read_u32_be(buffer, 4);
    let ssrc = SSRC(read_u32_be(buffer, 8));
    let mut csrcs: Vec<CSRC> = Vec::new();
    let mut i: usize = 0;
    while i < csrc_count as usize
        invariant
            i <= csrc_count as usize,
            csrc_count <= 15,
            end == 12 + 4 * (csrc_count as usize),
            end <= n,
            n == buffer@.len(),
            csrcs@.len() == i,
            forall|j: int| 0 <= j < i ==> csrcs@[j].0 == spec_u32_be(buffer@, 12 + 4 * j),
        decreases csrc_count as usize - i,
    {
        let c = read_u32_be(buffer, 12 + 4 * i);
        csrcs.push(CSRC(c));
        i += 1;
    }
    let extension = if has_extension {
        if n < end + 4 {
            return Err(DecodeError::UnexpectedEOF);
        }
        let parameters = read_u16_be(buffer, end);
        let words = read_u16_be(buffer, end + 2);
        let byte_len: usize = 4 * (words as usize);
        if n < end + 4 + byte_len {
            return Err(DecodeError::UnexpectedEOF);
        }
        let mut body: Vec<u8> = Vec::new();
        let mut j: usize = 0;
        while j < byte_len
            invariant
                j <= byte_len,
                end + 4 + byte_len <= n,
                n == buffer@.len(),
                body@.len() == j,
                forall|k: int| 0 <= k < j ==> body@[k] == buffer@[end + 4 + k],
            decreases byte_len - j,
        {
            let v = buffer[end + 4 + j];
            body.push(v);
            j += 1;
        }
        proof {
            assert(body@ =~= buffer@.subrange(end as int + 4, end as int + 4 + byte_len as int));
        }
        Some(Extension { body, parameters })
    } else {
        None
    };
    let header = Header {
        csrcs,
        extension,
        has_extension,
        has_marker,
        has_padding,
        payload_type,
        sequence_number,
        ssrc,
        timestamp,
        version,
    };
    proof {
        assert(header@.csrcs =~= spec_csrcs(buffer@, (b0 >> 4) as int));
    }
    Ok(header)
}

/// Every successfully decoded header satisfies the structural invariants
/// of [`HeaderModel::wf`], and its CSRC list is exactly as long as the
/// 4-bit count field of the first byte says.
pub proof fn lemma_decoded_header_wf(b: Seq<u8>)
    requires
        spec_decode(b) is Ok,
    ensures
        spec_decode(b) matches Ok(h) && h.wf() && h.csrcs.len() == (b[0] >> 4) as int,
{
    let b0 = b[0];
    let b1 = b[1];
    assert(b0 >> 4 <= 15) by (bit_vector);
    assert(b1 >> 1 <= 127) by (bit_vector);
}

/// A buffer holding exactly the 12-byte fixed header and the advertised
/// CSRC list, with the accepted version and the extension flag clear,
/// decodes successfully; the contributing sources come out in
/// transmission order, one per 4-byte group.
pub proof fn lemma_decode_fixed_and_csrcs(b: Seq<u8>)
    requires
        b.len() >= 1,
        b[0] & 0x3 == 2,
        b[0] & 0x8 == 0,
        b.len() == 12 + 4 * ((b[0] >> 4) as int),
    ensures
        spec_decode(b) matches Ok(h) && {
            &&& h == spec_header(b, Version::RTP2, None)
            &&& h.csrcs.len() == (b[0] >> 4) as int
            &&& forall|i: int|
                0 <= i < h.csrcs.len() ==> h.csrcs[i] == spec_u32_be(b, 12 + 4 * i)
            &&& h.extension is None
        },
{
}

/// With the accepted version, the extension flag set, and exactly
/// `4 * length` bytes after the 4-byte extension header, decoding
/// succeeds and the extension body holds exactly those bytes.
pub proof fn lemma_decode_extension_exact(b: Seq<u8>)
    requires
        b.len() >= 1,
        b[0] & 0x3 == 2,
        b[0] & 0x8 != 0,
        b.len() == spec_csrc_end(b[0]) + 4 + 4 * (spec_u16_be(b, spec_csrc_end(b[0]) + 2) as int),
    ensures
        spec_decode(b) matches Ok(h) && {
            &&& h.extension matches Some(e)
            &&& e.body.len() == 4 * (spec_u16_be(b, spec_csrc_end(b[0]) + 2) as int)
            &&& e.body == b.subrange(spec_csrc_end(b[0]) + 4, b.len() as int)
            &&& e.parameters == spec_u16_be(b, spec_csrc_end(b[0]))
        },
{
}

/// With the extension flag set and fewer bytes after the extension header
/// than the advertised body length, decoding fails with `UnexpectedEOF`.
pub proof fn lemma_decode_extension_truncated(b: Seq<u8>)
    requires
        b[0] & 0x3 == 2,
        b[0] & 0x8 != 0,
        spec_csrc_end(b[0]) + 4 <= b.len(),
        b.len() < spec_csrc_end(b[0]) + 4 + 4 * (spec_u16_be(b, spec_csrc_end(b[0]) + 2) as int),
    ensures
        spec_decode(b) == Err::<HeaderModel, DecodeError>(DecodeError::UnexpectedEOF),
{
}

/// A buffer shorter than the 12-byte fixed header fails with
/// `UnexpectedEOF` wherever decoding reaches the length checks: the
/// version field sits in the first byte and is examined before anything
/// else, so this asks that the first byte, if there is one, carry the
/// accepted version.
pub proof fn lemma_decode_short_buffer(b: Seq<u8>)
    requires
        b.len() < 12,
        b.len() == 0 || b[0] & 0x3 == 2,
    ensures
        spec_decode(b) == Err::<HeaderModel, DecodeError>(DecodeError::UnexpectedEOF),
{
}

/// The reserved raw version value `3` fails as a version error, whatever
/// else the buffer holds.
pub proof fn lemma_decode_reserved_version(b: Seq<u8>)
    requires
        b.len() >= 1,
        b[0] & 0x3 == 3,
    ensures
        spec_decode(b) == Err::<HeaderModel, DecodeError>(
            DecodeError::Version(VersionError::Unknown),
        ),
{
}

/// A legally parsed version other than 2 is rejected as a policy matter,
/// whatever else the buffer holds.
pub proof fn lemma_decode_unsupported_version(b: Seq<u8>)
    requires
        b.len() >= 1,
        b[0] & 0x3 == 0 || b[0] & 0x3 == 1,
    ensures
        spec_decode(b) == Err::<HeaderModel, DecodeError>(DecodeError::UnsupportedVersion),
{
}

/// Bytes past the complete header (and extension, if present) are
/// ignored: appending anything to a buffer that decodes successfully
/// changes neither success nor any decoded field.
pub proof fn lemma_decode_ignores_trailing(b: Seq<u8>, extra: Seq<u8>)
    requires
        spec_decode(b) is Ok,
    ensures
        spec_decode(b + extra) == spec_decode(b),
{
    let c = b + extra;
    assert(c[0] == b[0]);
    let b0 = b[0];
    let cc = (b0 >> 4) as int;
    let end = spec_csrc_end(b0);
    assert(b.len() >= end);
    assert(c[1] == b[1]);
    assert forall|i: int| 0 <= i < cc implies #[trigger] spec_u32_be(c, 12 + 4 * i)
        == spec_u32_be(b, 12 + 4 * i) by {
        assert(12 + 4 * i + 4 <= end);
    }
    assert(spec_csrcs(c, cc) =~= spec_csrcs(b, cc));
    if b0 & 0x8 != 0 {
        let words = spec_u16_be(b, end + 2) as int;
        assert(b.len() >= end + 4 + 4 * words);
        assert(spec_u16_be(c, end) == spec_u16_be(b, end));
        assert(spec_u16_be(c, end + 2) == spec_u16_be(b, end + 2));
        assert(c.subrange(end + 4, end + 4 + 4 * words) =~= b.subrange(end + 4, end + 4 + 4
            * words));
        assert(spec_header(c, Version::RTP2, spec_decode(b)->Ok_0.extension) == spec_header(
            b,
            Version::RTP2,
            spec_decode(b)->Ok_0.extension,
        ));
    } else {
        assert(spec_header(c, Version::RTP2, None) == spec_header(b, Version::RTP2, None));
    }
}

} // verus!
