use vstd::prelude::*;

verus! {

/// What the emitting task should do next.
#[derive(Debug, Clone, Copy, PartialEq, Eq, Structural)]
pub enum PaceAction {
    /// Suspend until this instant (milliseconds on the monotonic clock).
    WaitUntil(u64),
    /// Build and send the next packet now.
    Emit,
    /// Every packet has gone out and the last frame has played out.
    Finished,
    /// Emission was cancelled; nothing more is sent.
    Cancelled,
}

/// Absolute-schedule pacing: packet `i` is due at `start + i * frame`,
/// computed from the start instant rather than from the previous packet.
pub struct PacingScheduler {
    start_ms: u64,
    frame_ms: u64,
    total: u64,
    emitted: u64,
    cancelled: bool,
}

/// What a scheduler holds.
pub struct PacingView {
    pub start_ms: nat,
    pub frame_ms: nat,
    pub total: nat,
    pub emitted: nat,
    pub cancelled: bool,
}

/// The instant at which packet `i` is due.
pub open spec fn due_at(start_ms: nat, frame_ms: nat, i: nat) -> nat {
    start_ms + i * frame_ms
}

impl View for PacingScheduler {
    type V = PacingView;

    closed spec fn view(&self) -> PacingView {
        PacingView {
            start_ms: self.start_ms as nat,
            frame_ms: self.frame_ms as nat,
            total: self.total as nat,
            emitted: self.emitted as nat,
            cancelled: self.cancelled,
        }
    }
}

/// The action a scheduler in state `s` takes at instant `now`.
pub open spec fn spec_decide(s: PacingView, now: nat) -> PaceAction {
    if s.cancelled {
        PaceAction::Cancelled
    } else if s.emitted < s.total {
        if now < due_at(s.start_ms, s.frame_ms, s.emitted) {
            PaceAction::WaitUntil(due_at(s.start_ms, s.frame_ms, s.emitted) as u64)
        } else {
            PaceAction::Emit
        }
    } else if now < due_at(s.start_ms, s.frame_ms, s.total) {
        PaceAction::WaitUntil(due_at(s.start_ms, s.frame_ms, s.total) as u64)
    } else {
        PaceAction::Finished
    }
}

impl PacingScheduler {
    /// The whole schedule fits the clock's range and no more packets have
    /// gone out than were planned.
    pub open spec fn wf(&self) -> bool {
        &&& self@.frame_ms > 0
        &&& due_at(self@.start_ms, self@.frame_ms, self@.total) <= u64::MAX
        &&& self@.emitted <= self@.total
    }

    /// Plans `total` packets of `frame_ms` each from instant `start_ms`.
    pub fn new(start_ms: u64, frame_ms: u64, total: u64) -> (r: PacingScheduler)
        requires
            frame_ms > 0,
            due_at(start_ms as nat, frame_ms as nat, total as nat) <= u64::MAX,
        ensures
            r.wf(),
            r@ == (PacingView {
                start_ms: start_ms as nat,
                frame_ms: frame_ms as nat,
                total: total as nat,
                emitted: 0,
                cancelled: false,
            }),
    {
        PacingScheduler { start_ms, frame_ms, total, emitted: 0, cancelled: false }
    }

    /// Decides what to do at instant `now_ms`: wait for the next due instant,
    /// emit, or stop. A late packet is emitted at once, and the schedule
    /// stays anchored at the start instant.
    pub fn decide(&self, now_ms: u64) -> (r: PaceAction)
        requires
            self.wf(),
        ensures
            r == spec_decide(self@, now_ms as nat),
    {
        if self.cancelled {
            return PaceAction::Cancelled;
        }
        proof {
            lemma_due_monotone(self.start_ms as nat, self.frame_ms as nat, self.emitted as nat, self.total as nat);
        }
        if self.emitted < self.total {
            let due = self.start_ms + self.emitted * self.frame_ms;
            if now_ms < due {
                PaceAction::WaitUntil(due)
            } else {
                PaceAction::Emit
            }
        } else {
            let end = self.start_ms + self.total * self.frame_ms;
            if now_ms < end {
                PaceAction::WaitUntil(end)
            } else {
                PaceAction::Finished
            }
        }
    }

    /// Records that the packet due now has been sent.
    pub fn mark_emitted(&mut self)
        requires
            old(self).wf(),
            old(self)@.emitted < old(self)@.total,
        ensures
            final(self).wf(),
            final(self)@ == (PacingView { emitted: old(self)@.emitted + 1, ..old(self)@ }),
    {
        self.emitted = self.emitted + 1;
    }

    /// Cancels the remaining emission; every later decision is `Cancelled`.
    pub fn cancel(&mut self)
        requires
            old(self).wf(),
        ensures
            final(self).wf(),
            final(self)@ == (PacingView { cancelled: true, ..old(self)@ }),
    {
        self.cancelled = true;
    }

    /// Number of packets sent so far.
    pub fn emitted(&self) -> (r: u64)
        ensures
            r as nat == self@.emitted,
    {
        self.emitted
    }
}

/// Due instants grow with the packet index, by at least one frame per packet.
pub proof fn lemma_due_monotone(start_ms: nat, frame_ms: nat, i: nat, j: nat)
    requires
        i <= j,
    ensures
        due_at(start_ms, frame_ms, i) + (j - i) * frame_ms == due_at(start_ms, frame_ms, j),
        due_at(start_ms, frame_ms, i) <= due_at(start_ms, frame_ms, j),
{
    assert(i * frame_ms + (j - i) * frame_ms == j * frame_ms) by (nonlinear_arith)
        requires
            i <= j,
    ;
    assert(0 <= (j - i) * frame_ms) by (nonlinear_arith)
        requires
            i <= j,
    ;
}

/// Pacing law: a packet is never emitted before its due instant, two emitted
/// packets `i < j` are due at least `(j - i)` frames apart, and emission of
/// `n` packets only finishes once `n` frames have elapsed since the start.
pub proof fn lemma_paced_emission(s: PacingView, now: nat, i: nat, j: nat)
    requires
        s.frame_ms > 0,
        s.emitted <= s.total,
        i < j,
    ensures
        spec_decide(s, now) == PaceAction::Emit ==> now >= due_at(s.start_ms, s.frame_ms, s.emitted),
        spec_decide(s, now) == PaceAction::Finished ==> now >= s.start_ms + s.total * s.frame_ms
            && s.emitted == s.total,
        due_at(s.start_ms, s.frame_ms, j) >= due_at(s.start_ms, s.frame_ms, i) + s.frame_ms,
{
    lemma_due_monotone(s.start_ms, s.frame_ms, i, j);
    assert((j - i) * s.frame_ms >= s.frame_ms) by (nonlinear_arith)
        requires
            i < j,
            s.frame_ms > 0,
    ;
}

} // verus!
