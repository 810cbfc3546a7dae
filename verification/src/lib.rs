//! Concurrency-bounded multipart upload of a byte stream to an object store.
//!
//! The payload is cut into numbered, size-conforming parts by an incremental
//! splitter, the part uploads are run under a bounded-concurrency dispatcher,
//! and a transaction state machine wires begin, upload, complete and abort
//! together.  The remote calls themselves are performed by the surrounding
//! application; everything this crate decides about them is verified.

use vstd::prelude::*;

pub mod digest;
pub mod dispatch;
pub mod orchestrate;
pub mod part;
pub mod split;

verus! {

/// The inputs of one multipart upload: the payload (already gathered into
/// buffers), and the bucket and key naming the object to create.
pub struct MultipartUploadRequest {
    pub body: Vec<Vec<u8>>,
    pub bucket: String,
    pub key: String,
}

/// Lays out an upload whose payload is fully gathered: a fresh transaction
/// state machine for the named object, and a valid split of the payload
/// into size-conforming, consecutively numbered parts.  The remote calls
/// the machine asks for are then performed by the caller.
pub fn plan_upload<E>(request: MultipartUploadRequest, range: part::PartSizeRange) -> (r: (
    orchestrate::Orchestrator<E>,
    Vec<part::Part>,
))
    requires
        range.wf(),
        split::payload_of(request.body@).len() < usize::MAX,
    ensures
        r.0.wf(),
        r.0.phase_spec() == orchestrate::UploadPhase::Beginning,
        r.0.bucket_spec() == request.bucket@,
        r.0.key_spec() == request.key@,
        split::is_valid_split(r.1@, split::payload_of(request.body@), range),
        forall|i: int|
            0 <= i < r.1@.len() - 1 ==> (#[trigger] r.1@[i]).bytes@.len() == range.max,
{
    let MultipartUploadRequest { body, bucket, key } = request;
    let orchestrator = orchestrate::Orchestrator::new(bucket, key);
    let parts = split::split_all(body, range);
    (orchestrator, parts)
}

} // verus!
