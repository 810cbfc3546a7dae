//! The data carried through an upload: size ranges, parts, and the service's
//! acknowledgment of an uploaded part.

use vstd::prelude::*;

verus! {

/// An inclusive range of allowed part sizes, in bytes.  Every part except the
/// last one emitted for an upload must have a length inside this range; the
/// last one may be shorter, but never longer.
pub struct PartSizeRange {
    pub min: usize,
    pub max: usize,
}

impl PartSizeRange {
    /// A range is valid when the minimum is positive and does not exceed the
    /// maximum.
    pub open spec fn wf(self) -> bool {
        0 < self.min <= self.max
    }

    /// Builds a range, rejecting a zero minimum and an inverted pair.
    pub fn new(min: usize, max: usize) -> (r: Option<PartSizeRange>)
        ensures
            r is Some <==> 0 < min <= max,
            r matches Some(pr) ==> pr.min == min && pr.max == max && pr.wf(),
    {
        if 0 < min && min <= max {
            Some(PartSizeRange { min, max })
        } else {
            None
        }
    }
}

/// One numbered slice of the payload, ready to be uploaded as a unit.
pub struct Part {
    /// Position of this part, starting at 1 and strictly increasing in
    /// emission order.
    pub part_number: usize,
    /// The exact byte content of this part.
    pub bytes: Vec<u8>,
    /// Byte count of `bytes`.
    pub content_length: usize,
    /// Integrity digest computed over exactly `bytes`.
    pub content_digest: Vec<u8>,
}

impl Part {
    /// A part is well formed when its recorded length matches its bytes and
    /// its digest is the digest of exactly those bytes.
    pub open spec fn wf(self) -> bool {
        &&& self.part_number >= 1
        &&& self.content_length == self.bytes@.len()
        &&& self.content_digest@ == crate::digest::md5_of(self.bytes@)
    }
}

/// The service's acknowledgment for one successfully uploaded part.
#[derive(Debug)]
pub struct CompletedPart {
    pub part_number: usize,
    pub remote_tag: String,
}

/// The fields of one upload-part call, ready for transmission: the digest is
/// already rendered in the encoding the protocol wants in its header.
pub struct PartUploadRequest {
    pub part_number: usize,
    pub content_length: usize,
    pub content_md5: String,
    pub body: Vec<u8>,
}

/// Turns an emitted part into the fields of its upload call.  Nothing is
/// recomputed over the body: the length and digest are the part's own, and
/// the header value is exactly the encoding of that digest.
pub fn prepare_part_upload(part: Part) -> (r: PartUploadRequest)
    ensures
        r.part_number == part.part_number,
        r.content_length == part.content_length,
        r.body@ == part.bytes@,
        r.content_md5@ == crate::digest::base64_of(part.content_digest@),
        part.wf() ==> r.content_md5@ == crate::digest::base64_of(
            crate::digest::md5_of(part.bytes@),
        ),
{
    let content_md5 = crate::digest::encode_base64(&part.content_digest);
    PartUploadRequest {
        part_number: part.part_number,
        content_length: part.content_length,
        content_md5,
        body: part.bytes,
    }
}

} // verus!
