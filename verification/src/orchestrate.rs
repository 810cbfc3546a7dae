//! The upload transaction state machine: begin, upload the parts, complete
//! — or abort on the first failure and surface that failure, never the
//! abort's own outcome.
//!
//! The remote calls themselves (begin, upload-part, complete, abort) are
//! performed by the surrounding application; this machine decides which call
//! comes next, holds the transaction id, keeps the first failure, and orders
//! the completed parts before completion.

use vstd::prelude::*;
use vstd::pervasive::unreached;
use vstd::seq_lib::group_to_multiset_ensures;
use crate::part::CompletedPart;

verus! {

/// Where an upload stands.
#[derive(Clone, Copy, Debug, PartialEq, Eq, Structural)]
pub enum UploadPhase {
    /// The begin call is being issued; no transaction exists yet.
    Beginning,
    /// The begin call succeeded; the transaction id is held.
    Initiated,
    /// Parts are being split and dispatched.
    Uploading,
    /// All parts uploaded; the complete call is being issued.
    Completing,
    /// The complete call succeeded.  Terminal.
    Completed,
    /// A failure was recorded and the abort call is being issued.
    Aborting,
    /// The upload failed; the original failure was surfaced.  Terminal.
    Failed,
}

/// True of every sequence of acknowledgments that is ordered by ascending
/// part number.
pub open spec fn sorted_by_part_number(s: Seq<CompletedPart>) -> bool {
    forall|i: int, j: int| 0 <= i < j < s.len() ==> s[i].part_number <= s[j].part_number
}

/// Orders acknowledgments by ascending part number.  The result is a
/// reordering of the input: same acknowledgments, as a multiset, nothing
/// added, dropped, or changed.
pub fn sort_completed_parts(parts: Vec<CompletedPart>) -> (sorted: Vec<CompletedPart>)
    ensures
        sorted_by_part_number(sorted@),
        sorted@.to_multiset() == parts@.to_multiset(),
        sorted@.len() == parts@.len(),
{
    broadcast use group_to_multiset_ensures;

    let mut rest = parts;
    let mut sorted: Vec<CompletedPart> = Vec::new();
    proof {
        assert(sorted@.to_multiset().add(rest@.to_multiset()) =~= parts@.to_multiset());
    }
    while rest.len() > 0
        invariant
            sorted_by_part_number(sorted@),
            sorted@.to_multiset().add(rest@.to_multiset()) == parts@.to_multiset(),
            sorted@.len() + rest@.len() == parts@.len(),
        decreases rest.len(),
    {
        broadcast use group_to_multiset_ensures;

        let ghost rest0 = rest@;
        let ghost sorted0 = sorted@;
        let x = match rest.pop() {
            Some(x) => x,
            None => unreached(),
        };
        proof {
            assert(rest0 =~= rest@.push(x));
            assert(rest0.to_multiset() == rest@.to_multiset().insert(x));
        }
        let mut j: usize = 0;
        while j < sorted.len() && sorted[j].part_number <= x.part_number
            invariant
                j <= sorted@.len(),
                forall|k: int| 0 <= k < j ==> sorted@[k].part_number <= x.part_number,
            decreases sorted@.len() - j,
        {
            j = j + 1;
        }
        sorted.insert(j, x);
        proof {
            sorted0.insert_ensures(j as int, x);
            assert(sorted@.to_multiset() == sorted0.to_multiset().insert(x));
            assert(sorted0.to_multiset().insert(x).add(rest@.to_multiset())
                =~= sorted0.to_multiset().add(rest@.to_multiset().insert(x)));
            assert forall|a: int, b: int| 0 <= a < b < sorted@.len() implies sorted@[a].part_number
                <= sorted@[b].part_number by {
                if b < j {
                    assert(sorted@[a] == sorted0[a] && sorted@[b] == sorted0[b]);
                } else if a > j {
                    assert(sorted@[a] == sorted0[a - 1] && sorted@[b] == sorted0[b - 1]);
                } else if a < j && b == j {
                    assert(sorted@[a] == sorted0[a] && sorted@[b] == x);
                } else if a < j && b > j {
                    assert(sorted@[a] == sorted0[a] && sorted@[b] == sorted0[b - 1]);
                } else if a == j && b > j {
                    assert(sorted@[a] == x && sorted@[b] == sorted0[b - 1]);
                    assert(j < sorted0.len() ==> x.part_number < sorted0[j as int].part_number);
                }
            }
        }
    }
    sorted
}

/// The transaction state machine.  `E` is the caller's error domain; every
/// failure of the begin, upload or complete calls arrives here already
/// converted into it, and leaves it verbatim.
pub struct Orchestrator<E> {
    phase: UploadPhase,
    bucket: String,
    key: String,
    transaction_id: Option<String>,
    pending_failure: Option<E>,
}

impl<E> Orchestrator<E> {
    /// The phase the upload is in.
    pub closed spec fn phase_spec(self) -> UploadPhase {
        self.phase
    }

    /// The bucket this upload writes to.
    pub closed spec fn bucket_spec(self) -> Seq<char> {
        self.bucket@
    }

    /// The key this upload writes to.
    pub closed spec fn key_spec(self) -> Seq<char> {
        self.key@
    }

    /// The transaction id obtained from the begin call, once there is one.
    pub closed spec fn transaction_id_spec(self) -> Option<String> {
        self.transaction_id
    }

    /// The failure waiting to be surfaced once the abort call has been
    /// attempted.
    pub closed spec fn pending_failure_spec(self) -> Option<E> {
        self.pending_failure
    }

    /// The machine's invariant: from `Initiated` on, a transaction id is
    /// held (it is what the upload, complete and abort calls reference);
    /// while aborting, the failure to surface afterwards is held.
    pub open spec fn wf(self) -> bool {
        &&& match self.phase_spec() {
            UploadPhase::Initiated
            | UploadPhase::Uploading
            | UploadPhase::Completing
            | UploadPhase::Aborting => self.transaction_id_spec() is Some,
            _ => true,
        }
        &&& self.phase_spec() == UploadPhase::Aborting ==> self.pending_failure_spec() is Some
    }

    /// The phase the upload is in, observably.
    pub fn phase(&self) -> (p: UploadPhase)
        ensures
            p == self.phase_spec(),
    {
        self.phase
    }

    /// The held transaction id, observably.
    pub fn transaction_id(&self) -> (r: &Option<String>)
        ensures
            *r == self.transaction_id_spec(),
    {
        &self.transaction_id
    }

    /// A fresh upload for the given object: the begin call is next.
    pub fn new(bucket: String, key: String) -> (o: Orchestrator<E>)
        ensures
            o.wf(),
            o.phase_spec() == UploadPhase::Beginning,
            o.bucket_spec() == bucket@,
            o.key_spec() == key@,
            o.transaction_id_spec() is None,
            o.pending_failure_spec() is None,
    {
        Orchestrator {
            phase: UploadPhase::Beginning,
            bucket,
            key,
            transaction_id: None,
            pending_failure: None,
        }
    }

    /// The begin call succeeded: hold its transaction id; the upload may
    /// proceed.
    pub fn on_begin_ok(&mut self, transaction_id: String)
        requires
            old(self).wf(),
            old(self).phase_spec() == UploadPhase::Beginning,
        ensures
            final(self).wf(),
            final(self).phase_spec() == UploadPhase::Initiated,
            final(self).transaction_id_spec() == Some(transaction_id),
            final(self).bucket_spec() == old(self).bucket_spec(),
            final(self).key_spec() == old(self).key_spec(),
            final(self).pending_failure_spec() == old(self).pending_failure_spec(),
    {
        self.transaction_id = Some(transaction_id);
        self.phase = UploadPhase::Initiated;
    }

    /// The begin call failed: no transaction was created, so there is
    /// nothing to abort; the failure goes straight back to the caller,
    /// exactly as it arrived.
    pub fn on_begin_err(&mut self, e: E) -> (r: E)
        requires
            old(self).wf(),
            old(self).phase_spec() == UploadPhase::Beginning,
        ensures
            final(self).wf(),
            final(self).phase_spec() == UploadPhase::Failed,
            r == e,
    {
        self.phase = UploadPhase::Failed;
        e
    }

    /// The parts are now being split and dispatched.
    pub fn start_uploading(&mut self)
        requires
            old(self).wf(),
            old(self).phase_spec() == UploadPhase::Initiated,
        ensures
            final(self).wf(),
            final(self).phase_spec() == UploadPhase::Uploading,
            final(self).transaction_id_spec() == old(self).transaction_id_spec(),
            final(self).bucket_spec() == old(self).bucket_spec(),
            final(self).key_spec() == old(self).key_spec(),
    {
        self.phase = UploadPhase::Uploading;
    }

    /// Every part upload succeeded: order the acknowledgments by part number
    /// — the dispatcher returns them in completion order — and move on to
    /// the complete call, which receives exactly this ordered list.
    pub fn on_upload_ok(&mut self, completed: Vec<CompletedPart>) -> (sorted: Vec<CompletedPart>)
        requires
            old(self).wf(),
            old(self).phase_spec() == UploadPhase::Uploading,
        ensures
            final(self).wf(),
            final(self).phase_spec() == UploadPhase::Completing,
            final(self).transaction_id_spec() == old(self).transaction_id_spec(),
            sorted_by_part_number(sorted@),
            sorted@.to_multiset() == completed@.to_multiset(),
            sorted@.len() == completed@.len(),
    {
        self.phase = UploadPhase::Completing;
        sort_completed_parts(completed)
    }

    /// The complete call succeeded: the upload is done.
    pub fn on_complete_ok(&mut self)
        requires
            old(self).wf(),
            old(self).phase_spec() == UploadPhase::Completing,
        ensures
            final(self).wf(),
            final(self).phase_spec() == UploadPhase::Completed,
    {
        self.phase = UploadPhase::Completed;
    }

    /// A failure after begin succeeded — a part upload, the task source, or
    /// the complete call: keep the failure verbatim and issue a best-effort
    /// abort for the held transaction id, which the returned value names.
    pub fn on_failure(&mut self, e: E) -> (transaction_id: String)
        requires
            old(self).wf(),
            old(self).phase_spec() == UploadPhase::Initiated || old(self).phase_spec()
                == UploadPhase::Uploading || old(self).phase_spec() == UploadPhase::Completing,
        ensures
            final(self).wf(),
            final(self).phase_spec() == UploadPhase::Aborting,
            final(self).pending_failure_spec() == Some(e),
            Some(transaction_id) == old(self).transaction_id_spec(),
            final(self).transaction_id_spec() == old(self).transaction_id_spec(),
    {
        self.pending_failure = Some(e);
        self.phase = UploadPhase::Aborting;
        match &self.transaction_id {
            Some(id) => id.clone(),
            None => unreached(),
        }
    }

    /// The abort call came back.  Whatever it reported — success or its own
    /// failure — its outcome is discarded: the caller receives exactly the
    /// original failure that triggered the abort.
    pub fn on_abort_done(&mut self, abort_succeeded: bool) -> (r: E)
        requires
            old(self).wf(),
            old(self).phase_spec() == UploadPhase::Aborting,
        ensures
            final(self).wf(),
            final(self).phase_spec() == UploadPhase::Failed,
            Some(r) == old(self).pending_failure_spec(),
    {
        let _ = abort_succeeded;
        self.phase = UploadPhase::Failed;
        let mut taken: Option<E> = None;
        core::mem::swap(&mut self.pending_failure, &mut taken);
        match taken {
            Some(e) => e,
            None => unreached(),
        }
    }
}

} // verus!
