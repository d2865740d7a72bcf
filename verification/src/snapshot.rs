//! The latest report, shared between one writer and many readers.
//!
//! [`LatestReport`] is the slot itself: it holds exactly one report, and
//! publishing replaces it whole. [`SharedSnapshot`] puts the slot behind a
//! reader-writer lock, so that a reader copies the report out under the
//! read lock and the writer replaces it under the write lock. Whatever a
//! reader gets was therefore published in one piece.

use crate::report::BufferReport;
use crate::report::ReportView;
use vstd::prelude::*;
use vstd::rwlock::RwLock;

verus! {

/// A slot for one report: the latest that was published, or the initial
/// report before the first.
#[derive(Debug)]
pub struct LatestReport {
    report: BufferReport,
}

impl View for LatestReport {
    type V = ReportView;

    closed spec fn view(&self) -> ReportView {
        self.report@
    }
}

impl LatestReport {
    /// A slot that holds the initial report.
    pub fn new() -> (slot: LatestReport)
        ensures
            slot@.is_initial(),
            slot@.well_formed(),
    {
        LatestReport { report: BufferReport::empty() }
    }

    /// Replaces the report in the slot. Nothing of the report that was
    /// there is kept.
    pub fn publish(&mut self, report: BufferReport)
        ensures
            final(self)@ == report@,
    {
        self.report = report;
    }

    /// Copies out the report in the slot.
    pub fn read(&self) -> (report: BufferReport)
        ensures
            report@ == self@,
            report@.well_formed(),
    {
        let report = self.report.clone();
        proof {
            use_type_invariant(&report);
        }
        report
    }
}

/// A slot for the latest report behind a reader-writer lock. The lock is
/// made with the rule that it keeps of the slot: the report in the slot is
/// well formed.
pub struct SharedSnapshot {
    lock: RwLock<LatestReport, spec_fn(LatestReport) -> bool>,
}

impl SharedSnapshot {
    /// Whether the lock lets `slot` stand behind it: what may be published
    /// into this snapshot, and what may be read from it.
    pub closed spec fn admits(&self, slot: LatestReport) -> bool {
        self.lock.inv(slot)
    }

    /// Whether the lock guards well-formedness, and nothing else: it lets
    /// a slot stand behind it if and only if the report in it is well
    /// formed.
    pub open spec fn guards_well_formed(&self) -> bool {
        forall|slot: LatestReport| #[trigger] self.admits(slot) <==> slot@.well_formed()
    }

    #[verifier::type_invariant]
    spec fn checked(self) -> bool {
        self.guards_well_formed()
    }

    /// A shared slot that holds the initial report, behind a lock that
    /// guards the well-formedness of whatever report is in the slot.
    pub fn new() -> (snapshot: SharedSnapshot)
        ensures
            snapshot.guards_well_formed(),
    {
        let slot = LatestReport::new();
        let ghost keeps = |held: LatestReport| held@.well_formed();
        SharedSnapshot { lock: RwLock::new(slot, Ghost(keeps)) }
    }

    /// Replaces the report in the slot, under the write lock.
    pub fn publish(&self, report: BufferReport) {
        proof {
            use_type_invariant(self);
            use_type_invariant(&report);
        }
        let (mut slot, handle) = self.lock.acquire_write();
        slot.publish(report);
        assert(self.admits(slot));
        handle.release_write(slot);
    }

    /// Copies the report out of the slot, under the read lock. It is a
    /// report that was published whole, or the initial one: it has as many
    /// measurements as its channel count says, each under its own index.
    pub fn read(&self) -> (report: BufferReport)
        ensures
            report@.well_formed(),
    {
        proof {
            use_type_invariant(self);
        }
        let handle = self.lock.acquire_read();
        assert(self.admits(handle.view()));
        let report = handle.borrow().read();
        handle.release_read();
        report
    }
}

} // verus!
