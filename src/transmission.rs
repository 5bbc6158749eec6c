use vstd::prelude::*;

use crate::codec::{samples_per_frame, CodecProfile};
use crate::frames::{frame_at, frame_count, FrameSegmenter};
use crate::packet::{encode, lemma_counters_advance, sequence_after, timestamp_after, Session, SessionView};
use crate::pacing::{due_at, PaceAction, PacingScheduler, PacingView};

verus! {

/// What the driving task does next.
pub enum Step {
    /// Suspend until this instant (milliseconds on the monotonic clock).
    WaitUntil(u64),
    /// Hand these wire bytes to the sink now.
    Send(Vec<u8>),
    /// The whole source went out and the last frame has played out.
    Finished,
    /// Emission was cancelled; nothing more is sent.
    Cancelled,
}

/// One broadcast in progress: a resident audio source, its session and its
/// pacing schedule. Exactly one packet is built per emitted frame.
pub struct Transmission {
    frames: FrameSegmenter,
    session: Session,
    pacer: PacingScheduler,
    first: Ghost<SessionView>,
}

/// What a transmission holds.
pub struct TransmissionView {
    /// The audio source.
    pub data: Seq<u8>,
    /// The session as it was opened.
    pub first: SessionView,
    /// The pacing state; `emitted` counts the packets handed out.
    pub pacing: PacingView,
}

/// The wire bytes of packet `k` of a broadcast of `data` in session `s`.
pub open spec fn wire_packet(data: Seq<u8>, s: SessionView, k: nat) -> Seq<u8> {
    encode(
        Session::packet_of(
            s,
            frame_at(data, s.profile.bytes_per_frame as nat, k),
            sequence_after(s.sequence, k),
            timestamp_after(s.timestamp, samples_per_frame(s.profile), k),
            k == 0 && !s.started,
        ),
    )
}

/// Whether a source of `data_len` bytes, framed by `profile` and starting at
/// `start_ms`, fits the machine integers that a [`Transmission`] counts in.
pub fn plan_fits(data_len: usize, profile: &CodecProfile, start_ms: u64) -> (r: bool)
    requires
        profile.bytes_per_frame > 0,
    ensures
        r == (data_len + profile.bytes_per_frame <= usize::MAX && due_at(
            start_ms as nat,
            profile.frame_duration_ms as nat,
            frame_count(data_len as nat, profile.bytes_per_frame as nat),
        ) <= u64::MAX),
{
    let f = profile.bytes_per_frame;
    if data_len > usize::MAX - f {
        return false;
    }
    let count = ((data_len + f - 1) / f) as u64;
    match count.checked_mul(profile.frame_duration_ms) {
        Some(span) => span <= u64::MAX - start_ms,
        None => false,
    }
}

impl View for Transmission {
    type V = TransmissionView;

    closed spec fn view(&self) -> TransmissionView {
        TransmissionView { data: self.frames@.data, first: self.first@, pacing: self.pacer@ }
    }
}

impl Transmission {
    /// Internal consistency: the segmenter, the session counters and the
    /// schedule all stand at the same packet.
    pub closed spec fn wf(&self) -> bool {
        let k = self.pacer@.emitted;
        &&& self.frames.wf()
        &&& self.session.wf()
        &&& self.pacer.wf()
        &&& self.frames@.frame_size == self.first@.profile.bytes_per_frame
        &&& self.frames@.next_index == k
        &&& self.pacer@.total == frame_count(self.frames@.data.len(), self.frames@.frame_size)
        &&& self.session@ == (SessionView {
            sequence: sequence_after(self.first@.sequence, k),
            timestamp: timestamp_after(
                self.first@.timestamp,
                samples_per_frame(self.first@.profile),
                k,
            ),
            started: self.first@.started || k > 0,
            ..self.first@
        })
    }

    /// Plans the broadcast of `data` in `session`, its first frame due at
    /// `start_ms` and each later one a frame duration after the previous.
    pub fn new(data: Vec<u8>, session: Session, start_ms: u64) -> (r: Transmission)
        requires
            session.wf(),
            data@.len() + session@.profile.bytes_per_frame <= usize::MAX,
            due_at(
                start_ms as nat,
                session@.profile.frame_duration_ms as nat,
                frame_count(data@.len(), session@.profile.bytes_per_frame as nat),
            ) <= u64::MAX,
        ensures
            r.wf(),
            r@.data == data@,
            r@.first == session@,
            r@.pacing == (PacingView {
                start_ms: start_ms as nat,
                frame_ms: session@.profile.frame_duration_ms as nat,
                total: frame_count(data@.len(), session@.profile.bytes_per_frame as nat),
                emitted: 0,
                cancelled: false,
            }),
    {
        proof {
            session.lemma_wf();
        }
        let profile = session.profile();
        let f = profile.bytes_per_frame;
        let total = ((data.len() + f - 1) / f) as u64;
        let frames = FrameSegmenter::new(data, f);
        let pacer = PacingScheduler::new(start_ms, profile.frame_duration_ms, total);
        let first = Ghost(session@);
        proof {
            lemma_counters_advance(session@.sequence, session@.timestamp, samples_per_frame(session@.profile), 0);
        }
        Transmission { frames, session, pacer, first }
    }

    /// Decides at instant `now_ms`: wait for the next due instant, or build
    /// and hand out the next packet, or stop. A packet handed out is the
    /// encoding of the next frame with the session's next counters, and the
    /// start-of-talk marker only on the session's first packet.
    pub fn step(&mut self, now_ms: u64) -> (r: Step)
        requires
            old(self).wf(),
        ensures
            final(self).wf(),
            final(self)@.data == old(self)@.data,
            final(self)@.first == old(self)@.first,
            match r {
                Step::WaitUntil(t) => {
                    &&& crate::pacing::spec_decide(old(self)@.pacing, now_ms as nat) == PaceAction::WaitUntil(t)
                    &&& final(self)@ == old(self)@
                },
                Step::Send(bytes) => {
                    &&& crate::pacing::spec_decide(old(self)@.pacing, now_ms as nat) == PaceAction::Emit
                    &&& bytes@ == wire_packet(old(self)@.data, old(self)@.first, old(self)@.pacing.emitted)
                    &&& final(self)@.pacing == (PacingView {
                        emitted: old(self)@.pacing.emitted + 1,
                        ..old(self)@.pacing
                    })
                },
                Step::Finished => {
                    &&& crate::pacing::spec_decide(old(self)@.pacing, now_ms as nat) == PaceAction::Finished
                    &&& final(self)@ == old(self)@
                },
                Step::Cancelled => {
                    &&& crate::pacing::spec_decide(old(self)@.pacing, now_ms as nat) == PaceAction::Cancelled
                    &&& final(self)@ == old(self)@
                },
            },
    {
        match self.pacer.decide(now_ms) {
            PaceAction::WaitUntil(t) => Step::WaitUntil(t),
            PaceAction::Finished => Step::Finished,
            PaceAction::Cancelled => Step::Cancelled,
            PaceAction::Emit => {
                let ghost k = self.pacer@.emitted;
                let ghost s0 = self.first@;
                let ghost step = samples_per_frame(s0.profile);
                proof {
                    lemma_counters_advance(s0.sequence, s0.timestamp, step, k);
                }
                match self.frames.next_frame() {
                    Some(frame) => {
                        let p = self.session.build(&frame);
                        self.pacer.mark_emitted();
                        let bytes = p.to_bytes();
                        Step::Send(bytes)
                    },
                    None => {
                        proof {
                            assert(false);
                        }
                        Step::Finished
                    },
                }
            },
        }
    }

    /// Cancels the rest of the broadcast; every later step is `Cancelled`.
    pub fn cancel(&mut self)
        requires
            old(self).wf(),
        ensures
            final(self).wf(),
            final(self)@ == (TransmissionView {
                pacing: PacingView { cancelled: true, ..old(self)@.pacing },
                ..old(self)@
            }),
    {
        self.pacer.cancel();
    }

    /// Number of packets handed out so far.
    pub fn emitted(&self) -> (r: u64)
        requires
            self.wf(),
        ensures
            r as nat == self@.pacing.emitted,
    {
        self.pacer.emitted()
    }
}

} // verus!
