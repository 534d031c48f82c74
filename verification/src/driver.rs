//! The per-worker run state machine. One generation attempt walks the fixed
//! sequence Clean, Inject, Execute, Classify, an optional Archive on a crash,
//! then Done, with no branching back. The surrounding runtime performs each
//! phase's outside work (deleting transient artifacts, copying the template,
//! spawning the simulation binary, reading the log, writing the crash record)
//! and reports back; every decision between phases is made and verified here.
//!
//! The external process's exit status and streams are documented as
//! unreliable, so finishing the Execute phase carries no data at all: only
//! the log text decides the outcome.

use vstd::prelude::*;

use crate::gen::{
    classify, get_gen_results, has_block, log_seeds, GenError, WorldGenResult, WorldGenResults,
    WorldGenSeeds,
};

verus! {

/// Where one run attempt stands.
#[derive(PartialEq, Eq, Structural, Clone, Copy, Debug)]
pub enum RunPhase {
    /// Transient artifacts of the previous run are being removed,
    /// best-effort.
    Clean,
    /// The parameter template is being copied into the sandbox.
    Inject,
    /// The simulation binary is running.
    Execute,
    /// The run's log is being read.
    Classify,
    /// The run crashed and archiving is enabled: the crash record is being
    /// written.
    Archive,
    /// The attempt finished with an outcome.
    Done,
    /// The attempt finished without an outcome.
    Failed,
}

/// One run attempt in one worker sandbox.
pub struct RunDriver {
    pub archive_on_crash: bool,
    pub phase: RunPhase,
    pub outcome: Option<WorldGenResults>,
    pub error: Option<GenError>,
}

impl RunDriver {
    /// The driver's invariant: an outcome exactly with Done, an error exactly
    /// with Failed, and the Archive phase only for a crash that is to be
    /// archived.
    pub open spec fn wf(self) -> bool {
        &&& (self.phase is Done ==> self.outcome is Some && self.error is None)
        &&& (self.phase is Failed ==> self.error is Some)
        &&& (self.phase is Archive ==> self.outcome is Some && self.outcome.unwrap().result
            is Crash && self.archive_on_crash && self.error is None)
        &&& ((self.phase is Clean || self.phase is Inject || self.phase is Execute || self.phase
            is Classify) ==> self.outcome is None && self.error is None)
    }

    /// Start one attempt: the sandbox is cleaned first.
    pub fn new(archive_on_crash: bool) -> (r: RunDriver)
        ensures
            r.wf(),
            r.phase is Clean,
            r.archive_on_crash == archive_on_crash,
    {
        RunDriver { archive_on_crash, phase: RunPhase::Clean, outcome: None, error: None }
    }

    /// Cleanup finished. It is best-effort: its errors are ignored and carry
    /// no data, so a new attempt is never blocked by leftover state.
    pub fn on_cleaned(&mut self)
        requires
            old(self).wf(),
            old(self).phase is Clean,
        ensures
            final(self).wf(),
            final(self).phase is Inject,
            final(self).archive_on_crash == old(self).archive_on_crash,
    {
        self.phase = RunPhase::Inject;
    }

    /// The template copy finished or failed; a failed injection ends the
    /// attempt.
    pub fn on_injected(&mut self, ok: bool)
        requires
            old(self).wf(),
            old(self).phase is Inject,
        ensures
            final(self).wf(),
            final(self).archive_on_crash == old(self).archive_on_crash,
            ok ==> final(self).phase is Execute,
            !ok ==> final(self).phase is Failed && final(self).error == Some(
                GenError::InjectFailed,
            ),
    {
        if ok {
            self.phase = RunPhase::Execute;
        } else {
            self.phase = RunPhase::Failed;
            self.error = Some(GenError::InjectFailed);
        }
    }

    /// The external process exited. Its exit code and streams are untrusted
    /// and carry no decision: classification always follows.
    pub fn on_executed(&mut self)
        requires
            old(self).wf(),
            old(self).phase is Execute,
        ensures
            final(self).wf(),
            final(self).phase is Classify,
            final(self).archive_on_crash == old(self).archive_on_crash,
    {
        self.phase = RunPhase::Classify;
    }

    /// The driver classified the log `l` of a completed run: the outcome is
    /// fixed, and a crash moves to archiving exactly when archiving is
    /// enabled.
    pub open spec fn classified(self, l: Seq<u8>, was: RunDriver) -> bool {
        &&& self.outcome matches Some(res) && res.result == classify(l) && res.seeds@
            == log_seeds(l)
        &&& (classify(l) is Crash && was.archive_on_crash ==> self.phase is Archive)
        &&& (!(classify(l) is Crash && was.archive_on_crash) ==> self.phase is Done)
    }

    /// The log was read (or could not be): classify. A missing log or one
    /// without a seed block ends the attempt without an outcome; otherwise
    /// the outcome is fixed here, and a crash moves to archiving exactly when
    /// archiving is enabled.
    pub fn on_log(&mut self, log: Option<&Vec<u8>>)
        requires
            old(self).wf(),
            old(self).phase is Classify,
        ensures
            final(self).wf(),
            final(self).archive_on_crash == old(self).archive_on_crash,
            log is None ==> final(self).phase is Failed && final(self).error == Some(
                GenError::LogMissing,
            ),
            log matches Some(l) ==> (!has_block(l@) ==> final(self).phase is Failed
                && final(self).error == Some(GenError::NoSeeds)),
            log matches Some(l) ==> (has_block(l@) ==> final(self).classified(l@, *old(self))),
    {
        match log {
            None => {
                self.phase = RunPhase::Failed;
                self.error = Some(GenError::LogMissing);
            },
            Some(l) => {
                match get_gen_results(l) {
                    Err(e) => {
                        self.phase = RunPhase::Failed;
                        self.error = Some(e);
                    },
                    Ok(res) => {
                        let crash = matches!(res.result, WorldGenResult::Crash);
                        self.outcome = Some(res);
                        if crash && self.archive_on_crash {
                            self.phase = RunPhase::Archive;
                        } else {
                            self.phase = RunPhase::Done;
                        }
                    },
                }
            },
        }
    }

    /// The seed tuple to archive, available while archiving.
    pub fn crash_seeds(&self) -> (r: &WorldGenSeeds)
        requires
            self.wf(),
            self.phase is Archive,
        ensures
            r@ == self.outcome.unwrap().seeds@,
    {
        match &self.outcome {
            Some(res) => &res.seeds,
            None => vstd::pervasive::unreached(),
        }
    }

    /// The crash record was written or could not be. A failed write is
    /// surfaced as the attempt's error, as injection failures are; the crash
    /// itself was still real, so the outcome is kept beside the error.
    pub fn on_archived(&mut self, ok: bool)
        requires
            old(self).wf(),
            old(self).phase is Archive,
        ensures
            final(self).wf(),
            final(self).archive_on_crash == old(self).archive_on_crash,
            final(self).outcome == old(self).outcome,
            ok ==> final(self).phase is Done && final(self).error is None,
            !ok ==> final(self).phase is Failed && final(self).error == Some(
                GenError::ArchiveFailed,
            ),
    {
        if ok {
            self.phase = RunPhase::Done;
        } else {
            self.phase = RunPhase::Failed;
            self.error = Some(GenError::ArchiveFailed);
        }
    }

    /// Hand out the attempt's result once it finished.
    pub fn into_result(self) -> (r: Result<WorldGenResults, GenError>)
        requires
            self.wf(),
            self.phase is Done || self.phase is Failed,
        ensures
            self.phase is Done ==> (r matches Ok(res) && Some(res) == self.outcome),
            self.phase is Failed ==> (r matches Err(e) && Some(e) == self.error),
    {
        match self.phase {
            RunPhase::Done => {
                match self.outcome {
                    Some(res) => Ok(res),
                    None => vstd::pervasive::unreached(),
                }
            },
            _ => {
                match self.error {
                    Some(e) => Err(e),
                    None => vstd::pervasive::unreached(),
                }
            },
        }
    }
}

} // verus!
