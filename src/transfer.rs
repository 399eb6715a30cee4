use vstd::prelude::*;
use crate::error::Error;
use crate::retry::{Progress, all_failed, errors_of, lemma_retry_exhaustion, lemma_retry_success, retry_run};

verus! {

/// The stages of streaming one download into its destination file.
#[derive(PartialEq, Eq, Structural, Clone, Copy, Debug)]
pub enum WritePhase {
    /// The destination has not been created yet.
    NotCreated,
    /// The destination exists and holds every chunk received so far.
    Writing,
    /// A step failed; the partial file must be removed.
    CleaningUp,
    /// Every chunk was written and flushed.
    Complete,
    /// The write failed.
    Failed,
}

/// What the caller must do next.
#[derive(Debug)]
pub enum WriteStep {
    /// Go on: read the next chunk, write it, or flush at the end.
    Continue,
    /// Remove the partially written destination, then report the outcome.
    RemovePartialFile,
    /// The file is complete.
    Finished,
    /// The write failed with this error; nothing is left to clean up.
    Failed(Error),
}

/// Decides the steps of one streamed download and keeps, as a model, what the
/// destination holds after each step the caller reports.
pub struct FileWrite {
    phase: WritePhase,
    error: Option<Error>,
    on_disk: Ghost<Option<Seq<u8>>>,
    received: Ghost<Seq<u8>>,
    removal_failed: Ghost<bool>,
    failure: Ghost<Error>,
}

impl FileWrite {
    pub closed spec fn phase(&self) -> WritePhase {
        self.phase
    }

    /// The destination's content: `None` when it does not exist.
    pub closed spec fn on_disk(&self) -> Option<Seq<u8>> {
        self.on_disk@
    }

    /// Every byte received and written so far, in order.
    pub closed spec fn received(&self) -> Seq<u8> {
        self.received@
    }

    /// The failure that ended the write, once it has failed.
    pub closed spec fn cause(&self) -> Error {
        self.failure@
    }

    /// The caller could not remove the partial file.
    pub closed spec fn removal_failed(&self) -> bool {
        self.removal_failed@
    }

    pub closed spec fn wf(&self) -> bool {
        &&& self.phase == WritePhase::NotCreated ==> self.on_disk@ is None && self.received@.len() == 0
        &&& (self.phase == WritePhase::Writing || self.phase == WritePhase::Complete) ==> self.on_disk@
            == Some(self.received@)
        &&& self.phase == WritePhase::CleaningUp ==> self.error == Some(self.failure@) && self.on_disk@ is Some
        &&& self.phase == WritePhase::Failed ==> (self.on_disk@ is None <==> !self.removal_failed@)
        &&& self.phase != WritePhase::Failed ==> !self.removal_failed@
    }

    /// A write that has not started; the destination does not exist yet.
    pub fn new() -> (r: FileWrite)
        ensures
            r.wf(),
            r.phase() == WritePhase::NotCreated,
            r.on_disk() is None,
            r.received() == Seq::<u8>::empty(),
    {
        FileWrite {
            phase: WritePhase::NotCreated,
            error: None,
            on_disk: Ghost(None),
            received: Ghost(Seq::empty()),
            removal_failed: Ghost(false),
            failure: Ghost(arbitrary()),
        }
    }

    pub fn current_phase(&self) -> (r: WritePhase)
        ensures
            r == self.phase(),
    {
        self.phase
    }

    /// The caller tried to create (or truncate) the destination.
    pub fn created(&mut self, outcome: Result<(), Error>) -> (r: WriteStep)
        requires
            old(self).wf(),
            old(self).phase() == WritePhase::NotCreated,
        ensures
            final(self).wf(),
            final(self).received() == old(self).received(),
            outcome is Ok ==> final(self).phase() == WritePhase::Writing && r is Continue
                && final(self).on_disk() == Some(Seq::<u8>::empty()),
            outcome matches Err(e) ==> final(self).phase() == WritePhase::Failed && r == WriteStep::Failed(e)
                && final(self).on_disk() is None && final(self).cause() == e,
    {
        match outcome {
            Ok(()) => {
                assert(self.received@ =~= Seq::<u8>::empty());
                self.phase = WritePhase::Writing;
                self.on_disk = Ghost(Some(Seq::empty()));
                WriteStep::Continue
            },
            Err(e) => {
                self.phase = WritePhase::Failed;
                self.failure = Ghost(e);
                WriteStep::Failed(e)
            },
        }
    }

    /// The caller received `chunk` and wrote all of it to the destination.
    pub fn chunk_written(&mut self, chunk: &[u8])
        requires
            old(self).wf(),
            old(self).phase() == WritePhase::Writing,
        ensures
            final(self).wf(),
            final(self).phase() == WritePhase::Writing,
            final(self).received() == old(self).received() + chunk@,
            final(self).on_disk() == Some(final(self).received()),
    {
        self.received = Ghost(self.received@ + chunk@);
        self.on_disk = Ghost(Some(self.received@));
    }

    /// The caller flushed the destination after the last chunk.
    pub fn flushed(&mut self) -> (r: WriteStep)
        requires
            old(self).wf(),
            old(self).phase() == WritePhase::Writing,
        ensures
            final(self).wf(),
            final(self).phase() == WritePhase::Complete,
            final(self).received() == old(self).received(),
            final(self).on_disk() == Some(old(self).received()),
            r is Finished,
    {
        self.phase = WritePhase::Complete;
        WriteStep::Finished
    }

    /// The request, a chunk read, a chunk write or the flush failed after the
    /// destination was created: the partial file has to go.
    pub fn failed(&mut self, e: Error) -> (r: WriteStep)
        requires
            old(self).wf(),
            old(self).phase() == WritePhase::Writing,
        ensures
            final(self).wf(),
            final(self).phase() == WritePhase::CleaningUp,
            final(self).received() == old(self).received(),
            final(self).on_disk() == old(self).on_disk(),
            final(self).cause() == e,
            r is RemovePartialFile,
    {
        self.phase = WritePhase::CleaningUp;
        self.failure = Ghost(e);
        self.error = Some(e);
        WriteStep::RemovePartialFile
    }

    /// The caller tried to remove the partial file. The failure that caused
    /// the removal is reported either way.
    pub fn removed(&mut self, outcome: Result<(), Error>) -> (r: WriteStep)
        requires
            old(self).wf(),
            old(self).phase() == WritePhase::CleaningUp,
        ensures
            final(self).wf(),
            final(self).phase() == WritePhase::Failed,
            final(self).received() == old(self).received(),
            r == WriteStep::Failed(old(self).cause()),
            final(self).cause() == old(self).cause(),
            outcome is Ok ==> final(self).on_disk() is None && !final(self).removal_failed(),
            outcome is Err ==> final(self).removal_failed() && final(self).on_disk() == old(self).on_disk(),
    {
        self.phase = WritePhase::Failed;
        match outcome {
            Ok(()) => {
                self.on_disk = Ghost(None);
            },
            Err(_) => {
                self.removal_failed = Ghost(true);
            },
        }
        let mut cause: Option<Error> = None;
        std::mem::swap(&mut cause, &mut self.error);
        match cause {
            Some(e) => WriteStep::Failed(e),
            None => WriteStep::Failed(Error::FileError(String::from_str("write failed"))),
        }
    }
}

/// A failed write whose partial file was removed leaves nothing at the
/// destination, and a completed write leaves exactly the bytes received.
pub proof fn lemma_no_partial_file(w: FileWrite)
    requires
        w.wf(),
    ensures
        w.phase() == WritePhase::Failed && !w.removal_failed() ==> w.on_disk() is None,
        w.phase() == WritePhase::Complete ==> w.on_disk() == Some(w.received()),
{
}

/// What a finished write attempt hands the retry decision: the bytes it
/// stored when complete, else the failure that ended it.
pub open spec fn attempt_outcome(w: FileWrite) -> Result<Seq<u8>, Error> {
    if w.phase() == WritePhase::Complete {
        Ok(w.received())
    } else {
        Err(w.cause())
    }
}

pub open spec fn attempt_outcomes(ws: Seq<FileWrite>) -> Seq<Result<Seq<u8>, Error>> {
    ws.map_values(|w: FileWrite| attempt_outcome(w))
}

/// The attempt failed and its partial file, if any, was removed.
pub open spec fn failed_and_cleaned(w: FileWrite) -> bool {
    w.wf() && w.phase() == WritePhase::Failed && !w.removal_failed()
}

/// A download whose every attempt fails is attempted exactly `max` times; the
/// retry gives up with the failure of each attempt, in order, and no attempt
/// leaves a file behind.
pub proof fn lemma_download_exhaustion(max: nat, attempts: Seq<FileWrite>)
    requires
        max >= 1,
        attempts.len() >= max,
        forall|i: int| 0 <= i < attempts.len() ==> failed_and_cleaned(#[trigger] attempts[i]),
    ensures
        retry_run(max, Seq::<Error>::empty(), attempt_outcomes(attempts)) == (
            max,
            Progress::<Seq<u8>, Error>::GaveUp(errors_of(attempt_outcomes(attempts).subrange(0, max as int))),
        ),
        forall|i: int| 0 <= i < max ==> (#[trigger] attempts[i]).on_disk() is None,
        forall|i: int| 0 <= i < max ==> errors_of(attempt_outcomes(attempts).subrange(0, max as int))[i]
            == (#[trigger] attempts[i]).cause(),
{
    let outcomes = attempt_outcomes(attempts);
    assert(all_failed(outcomes)) by {
        assert forall|i: int| 0 <= i < outcomes.len() implies (#[trigger] outcomes[i]) is Err by {
            assert(failed_and_cleaned(attempts[i]));
        }
    }
    lemma_retry_exhaustion(max, outcomes);
    assert forall|i: int| 0 <= i < max implies (#[trigger] attempts[i]).on_disk() is None by {
        assert(failed_and_cleaned(attempts[i]));
        lemma_no_partial_file(attempts[i]);
    }
}

/// A download whose first `k` attempts fail and are cleaned up, `k` below the
/// budget, and whose next attempt completes is attempted exactly `k + 1`
/// times and succeeds; the file then holds exactly the bytes that attempt
/// received, and the failed attempts left no file.
pub proof fn lemma_download_recovers(max: nat, attempts: Seq<FileWrite>, k: nat)
    requires
        k < max,
        k < attempts.len(),
        forall|i: int| 0 <= i < k ==> failed_and_cleaned(#[trigger] attempts[i]),
        attempts[k as int].wf(),
        attempts[k as int].phase() == WritePhase::Complete,
    ensures
        retry_run(max, Seq::<Error>::empty(), attempt_outcomes(attempts)) == (
            k + 1,
            Progress::<Seq<u8>, Error>::Done(attempts[k as int].received()),
        ),
        attempts[k as int].on_disk() == Some(attempts[k as int].received()),
        forall|i: int| 0 <= i < k ==> (#[trigger] attempts[i]).on_disk() is None,
{
    let outcomes = attempt_outcomes(attempts);
    assert(all_failed(outcomes.subrange(0, k as int))) by {
        assert forall|i: int| 0 <= i < k implies (#[trigger] outcomes.subrange(0, k as int)[i]) is Err by {
            assert(failed_and_cleaned(attempts[i]));
        }
    }
    lemma_retry_success(max, outcomes, k);
    lemma_no_partial_file(attempts[k as int]);
    assert forall|i: int| 0 <= i < k implies (#[trigger] attempts[i]).on_disk() is None by {
        assert(failed_and_cleaned(attempts[i]));
        lemma_no_partial_file(attempts[i]);
    }
}

} // verus!
