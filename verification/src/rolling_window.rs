//! Rolling-window misbehavior bookkeeping.
//!
//! Similar to a simple moving average except that it reports the number of
//! occurrences in the window instead of calculating an average: it keeps
//! track of misbehavior reports and only takes the last `window_length`
//! sessions of a kind into account. Footprints of reported misbehaviors are
//! kept for the whole bonding duration, which is unbounded (insert only), so
//! that the same misconduct is never counted twice.

use vstd::prelude::*;

verus! {

/// A kind of misbehavior, together with its window length: the number of
/// most recent sessions whose reports of this kind are retained.
#[derive(Clone, Copy, Debug, PartialEq, Eq, Structural)]
pub struct Kind {
    /// Identifies the kind.
    pub id: u32,
    /// Number of sessions a report of this kind stays in the window.
    pub window_length: u32,
}

/// One retained misbehavior report.
#[derive(Clone, Copy, Debug, PartialEq, Eq, Structural)]
pub struct Report {
    /// The kind that was reported.
    pub kind: Kind,
    /// The session in which it was reported.
    pub session: u32,
}

/// One recorded footprint: the unique fingerprint of a misbehavior and the
/// session in which it was first reported.
#[derive(Clone, Copy, Debug, PartialEq, Eq, Structural)]
pub struct Footprint {
    /// The misbehavior's unique fingerprint.
    pub hash: u64,
    /// The session in which it was reported.
    pub session: u32,
}

/// Whether a report is still within its kind's window when session `ending`
/// ends. Session numbers wrap around, and a report always happened in the
/// same session as `ending` or before it, so a report's age is the wrapping
/// difference of the two session numbers.
pub open spec fn in_window(ending: u32, r: Report) -> bool {
    ending.wrapping_sub(r.session) < r.kind.window_length
}

/// The reports of `s` that are still within their window when session
/// `ending` ends, in their original order.
pub open spec fn retained(s: Seq<Report>, ending: u32) -> Seq<Report>
    decreases s.len(),
{
    if s.len() == 0 {
        Seq::empty()
    } else {
        retained(s.drop_last(), ending) + (if in_window(ending, s.last()) {
            seq![s.last()]
        } else {
            Seq::empty()
        })
    }
}

/// Number of reports of `kind` among `s`.
pub open spec fn count_of(s: Seq<Report>, kind: Kind) -> nat
    decreases s.len(),
{
    if s.len() == 0 {
        0
    } else {
        count_of(s.drop_last(), kind) + (if s.last().kind == kind {
            1nat
        } else {
            0nat
        })
    }
}

/// Whether `footprint` occurs in `s`.
pub open spec fn contains_footprint(s: Seq<Footprint>, footprint: u64) -> bool {
    exists|i: int| 0 <= i < s.len() && s[i].hash == footprint
}

/// Trait for getting the number of misbehaviors in the current window.
pub trait GetMisbehaviors {
    /// Number of reports of `kind` currently within the window.
    spec fn misbehaviors(&self, kind: Kind) -> nat;

    /// Get the number of misbehaviors in the current window for a kind.
    fn get_misbehaviors(&self, kind: Kind) -> (n: u64)
        ensures
            n == self.misbehaviors(kind),
    ;
}

/// Trait for reporting misbehaviors.
pub trait MisbehaviorReporter {
    /// Validity of the store: no footprint is recorded twice.
    spec fn inv(&self) -> bool;

    /// Whether a footprint was ever reported during the bonding duration.
    spec fn footprint_known(&self, footprint: u64) -> bool;

    /// The reports retained so far, in the order received.
    spec fn report_log(&self) -> Seq<Report>;

    /// Report a misbehavior of a kind, identified by a unique footprint, in
    /// `current_session`. Fails, changing nothing, exactly when the
    /// footprint was already reported at some point of the bonding duration;
    /// otherwise the footprint is recorded and the report is appended.
    fn report_misbehavior(&mut self, kind: Kind, footprint: u64, current_session: u32) -> (r:
        Result<(), ()>)
        requires
            old(self).inv(),
        ensures
            final(self).inv(),
            r is Err <==> old(self).footprint_known(footprint),
            r is Err ==> final(self).report_log() == old(self).report_log() && (forall|f: u64|
                final(self).footprint_known(f) == old(self).footprint_known(f)),
            r is Ok ==> final(self).report_log() == old(self).report_log().push(
                (Report { kind: kind, session: current_session }),
            ) && (forall|f: u64|
                final(self).footprint_known(f) == (old(self).footprint_known(f) || f
                    == footprint)),
    ;
}

/// Whether `footprint` occurs among the recorded footprints.
fn footprint_recorded(fps: &Vec<Footprint>, footprint: u64) -> (r: bool)
    ensures
        r == contains_footprint(fps@, footprint),
{
    let mut i: usize = 0;
    while i < fps.len()
        invariant
            i <= fps@.len(),
            forall|k: int| 0 <= k < i ==> fps@[k].hash != footprint,
        decreases fps@.len() - i,
    {
        if fps[i].hash == footprint {
            return true;
        }
        i = i + 1;
    }
    false
}

/// In-memory store of misbehavior reports with session-indexed expiry.
pub struct RollingWindow {
    /// Every retained misbehavior report, in the order received.
    pub reports: Vec<Report>,
    /// Every footprint ever reported, with its session; insert-only over the
    /// whole bonding duration.
    pub footprints: Vec<Footprint>,
}

impl RollingWindow {
    /// An empty store: nothing reported, no footprint known.
    pub fn new() -> (r: RollingWindow)
        ensures
            r.report_log() == Seq::<Report>::empty(),
            forall|f: u64| !r.footprint_known(f),
            r.inv(),
    {
        RollingWindow { reports: Vec::new(), footprints: Vec::new() }
    }

    /// Session `ending` ends: prune every report that is no longer within
    /// its kind's window. The footprints are untouched: bonding uniqueness
    /// outlives the window.
    pub fn on_session_ending(&mut self, ending: u32, _applied_at: u32)
        ensures
            final(self).reports@ == retained(old(self).reports@, ending),
            final(self).footprints@ == old(self).footprints@,
            old(self).inv() ==> final(self).inv(),
    {
        let mut kept: Vec<Report> = Vec::new();
        let mut i: usize = 0;
        while i < self.reports.len()
            invariant
                i <= self.reports@.len(),
                kept@ == retained(self.reports@.take(i as int), ending),
            decreases self.reports@.len() - i,
        {
            let r = self.reports[i];
            if ending.wrapping_sub(r.session) < r.kind.window_length {
                kept.push(r);
            }
            proof {
                let s = self.reports@;
                assert(s.take(i as int + 1).drop_last() =~= s.take(i as int));
                assert(s.take(i as int + 1).last() == s[i as int]);
                if in_window(ending, r) {
                    assert(retained(s.take(i as int), ending) + seq![r] =~= retained(
                        s.take(i as int),
                        ending,
                    ).push(r));
                } else {
                    assert(retained(s.take(i as int), ending) + Seq::<Report>::empty() =~= retained(
                        s.take(i as int),
                        ending,
                    ));
                }
            }
            i = i + 1;
        }
        proof {
            assert(self.reports@.take(self.reports@.len() as int) =~= self.reports@);
        }
        self.reports = kept;
        proof {
            if old(self).inv() {
                assert forall|i: int, j: int|
                    0 <= i < j < self.footprints@.len() implies self.footprints@[i].hash
                    != self.footprints@[j].hash by {
                    assert(old(self).footprints@[i].hash != old(self).footprints@[j].hash);
                }
            }
        }
    }
}

impl GetMisbehaviors for RollingWindow {
    open spec fn misbehaviors(&self, kind: Kind) -> nat {
        count_of(self.reports@, kind)
    }

    fn get_misbehaviors(&self, kind: Kind) -> (n: u64) {
        let mut count: u64 = 0;
        let mut i: usize = 0;
        while i < self.reports.len()
            invariant
                i <= self.reports@.len(),
                count <= i,
                count == count_of(self.reports@.take(i as int), kind),
            decreases self.reports@.len() - i,
        {
            proof {
                let s = self.reports@;
                assert(s.take(i as int + 1).drop_last() =~= s.take(i as int));
                assert(s.take(i as int + 1).last() == s[i as int]);
            }
            if self.reports[i].kind == kind {
                count = count + 1;
            }
            i = i + 1;
        }
        proof {
            assert(self.reports@.take(self.reports@.len() as int) =~= self.reports@);
        }
        count
    }
}

impl MisbehaviorReporter for RollingWindow {
    open spec fn inv(&self) -> bool {
        forall|i: int, j: int|
            0 <= i < j < self.footprints@.len() ==> self.footprints@[i].hash
                != self.footprints@[j].hash
    }

    open spec fn footprint_known(&self, footprint: u64) -> bool {
        contains_footprint(self.footprints@, footprint)
    }

    open spec fn report_log(&self) -> Seq<Report> {
        self.reports@
    }

    fn report_misbehavior(&mut self, kind: Kind, footprint: u64, current_session: u32) -> (r:
        Result<(), ()>) {
        if footprint_recorded(&self.footprints, footprint) {
            Err(())
        } else {
            self.footprints.push(Footprint { hash: footprint, session: current_session });
            self.reports.push(Report { kind, session: current_session });
            proof {
                let old_fps = old(self).footprints@;
                let new_fps = self.footprints@;
                assert forall|f: u64|
                    self.footprint_known(f) == (old(self).footprint_known(f) || f
                        == footprint) by {
                    if self.footprint_known(f) {
                        let i = choose|i: int| 0 <= i < new_fps.len() && new_fps[i].hash == f;
                        if i < old_fps.len() {
                            assert(old_fps[i].hash == f);
                        }
                    }
                    if old(self).footprint_known(f) {
                        let i = choose|i: int| 0 <= i < old_fps.len() && old_fps[i].hash == f;
                        assert(new_fps[i].hash == f);
                    }
                    if f == footprint {
                        assert(new_fps[old_fps.len() as int].hash == f);
                    }
                }
                assert forall|i: int, j: int|
                    0 <= i < j < new_fps.len() implies new_fps[i].hash != new_fps[j].hash by {
                    if j < old_fps.len() {
                        assert(old_fps[i].hash != old_fps[j].hash);
                    } else {
                        assert(!contains_footprint(old_fps, footprint));
                        assert(old_fps[i].hash != footprint);
                    }
                }
            }
            Ok(())
        }
    }
}

} // verus!
