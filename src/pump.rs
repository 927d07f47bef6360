//! Transmit pump: the decisions that feed a frame's words into the co-processor's input
//! queue. The caller performs each action on the hardware and reports whether the queue
//! has room; the pump never pushes into a full queue, pauses after every word, and ends
//! the frame with the latch gap.
use vstd::prelude::*;
use crate::encoder::{EncodeError, FrameEncoder, frame_words};

verus! {

/// Pause after each pushed word, in microseconds.
pub const WORD_GAP_US: u32 = 50;

/// Idle time after the last word of a frame, in microseconds.
pub const LATCH_US: u32 = 10_000;

/// The shortest idle time that latches a frame into the LEDs, in microseconds.
pub const MIN_LATCH_US: u32 = 50;

/// What the caller does next.
#[derive(Debug, Clone, Copy, PartialEq, Eq, Structural)]
pub enum PumpAction {
    /// Write this word into the input queue.
    Push(u32),
    /// The queue is full: wait, then ask again.
    WaitForRoom,
    /// Sleep this many microseconds before the next word.
    Pause(u32),
    /// Hold the line idle this many microseconds: the frame is latched.
    Latch(u32),
    /// The frame has been sent and latched.
    FrameDone,
}

/// The state of a pump, as a value.
pub struct PumpView {
    /// The words of the frame being sent.
    pub frame: Seq<u32>,
    /// How many of them are in the queue already.
    pub sent: nat,
    /// A word was pushed and the pause after it has not been taken yet.
    pub gap_due: bool,
    /// The latch gap has been taken: the frame is complete.
    pub latched: bool,
}

/// The state in which sending `frame` starts.
pub open spec fn fresh(frame: Seq<u32>) -> PumpView {
    PumpView { frame, sent: 0, gap_due: false, latched: false }
}

/// The states a pump can reach from a fresh one.
pub open spec fn reachable(v: PumpView) -> bool {
    &&& v.sent <= v.frame.len()
    &&& v.latched ==> v.sent == v.frame.len() && !v.gap_due
}

/// The action a pump in state `v` asks for, given whether the queue has room.
pub open spec fn action(v: PumpView, has_room: bool) -> PumpAction {
    if v.latched {
        PumpAction::FrameDone
    } else if v.gap_due {
        PumpAction::Pause(WORD_GAP_US)
    } else if v.sent < v.frame.len() {
        if has_room {
            PumpAction::Push(v.frame[v.sent as int])
        } else {
            PumpAction::WaitForRoom
        }
    } else {
        PumpAction::Latch(LATCH_US)
    }
}

/// The state after that action.
pub open spec fn next(v: PumpView, has_room: bool) -> PumpView {
    if v.latched {
        v
    } else if v.gap_due {
        PumpView { gap_due: false, ..v }
    } else if v.sent < v.frame.len() {
        if has_room {
            PumpView { sent: v.sent + 1, gap_due: true, ..v }
        } else {
            v
        }
    } else {
        PumpView { latched: true, ..v }
    }
}

/// The actions a pump asks for from state `v`, one for each report of the queue in `rooms`.
pub open spec fn run_actions(v: PumpView, rooms: Seq<bool>) -> Seq<PumpAction>
    decreases rooms.len(),
{
    if rooms.len() == 0 {
        Seq::empty()
    } else {
        seq![action(v, rooms[0])] + run_actions(next(v, rooms[0]), rooms.drop_first())
    }
}

/// The state after those actions.
pub open spec fn run_state(v: PumpView, rooms: Seq<bool>) -> PumpView
    decreases rooms.len(),
{
    if rooms.len() == 0 {
        v
    } else {
        run_state(next(v, rooms[0]), rooms.drop_first())
    }
}

/// The words pushed by a sequence of actions, in order.
pub open spec fn pushed(actions: Seq<PumpAction>) -> Seq<u32>
    decreases actions.len(),
{
    if actions.len() == 0 {
        Seq::empty()
    } else {
        let rest = pushed(actions.drop_first());
        match actions[0] {
            PumpAction::Push(w) => seq![w] + rest,
            _ => rest,
        }
    }
}

/// Each step keeps the pump's pacing rules: it never pushes into a full queue, it pauses
/// after every word it pushes, and it latches only once every word is in the queue, for
/// at least the shortest latch time.
pub proof fn lemma_step_discipline(v: PumpView, has_room: bool, then_room: bool)
    requires
        reachable(v),
    ensures
        reachable(next(v, has_room)),
        next(v, has_room).frame == v.frame,
        !has_room ==> !(action(v, has_room) is Push),
        action(v, has_room) is Push ==> action(next(v, has_room), then_room) == PumpAction::Pause(
            WORD_GAP_US,
        ),
        action(v, has_room) matches PumpAction::Latch(us) ==> v.sent == v.frame.len() && us
            >= MIN_LATCH_US,
{
}

/// Over any run, the words pushed are exactly the frame's words from where the run
/// started to where it stopped, each once and in frame order; the frame itself does not change.
pub proof fn lemma_run_pushes_in_order(v: PumpView, rooms: Seq<bool>)
    requires
        reachable(v),
    ensures
        run_state(v, rooms).frame == v.frame,
        reachable(run_state(v, rooms)),
        v.sent <= run_state(v, rooms).sent,
        pushed(run_actions(v, rooms)) == v.frame.subrange(v.sent as int, run_state(v, rooms).sent as int),
    decreases rooms.len(),
{
    if rooms.len() == 0 {
        assert(v.frame.subrange(v.sent as int, v.sent as int) =~= Seq::<u32>::empty());
    } else {
        let w = next(v, rooms[0]);
        let rest = rooms.drop_first();
        lemma_run_pushes_in_order(w, rest);
        let end = run_state(w, rest).sent as int;
        let acts = run_actions(v, rooms);
        assert(acts.drop_first() =~= run_actions(w, rest));
        assert(acts[0] == action(v, rooms[0]));
        if action(v, rooms[0]) is Push {
            assert(v.frame.subrange(v.sent as int, end) =~= seq![v.frame[v.sent as int]]
                + v.frame.subrange(w.sent as int, end));
        }
    }
}

/// A run from the start of a frame pushes a prefix of the frame, in order; once the run has
/// latched the frame, it has pushed the whole frame and nothing else.
pub proof fn lemma_latched_run_sends_frame(frame: Seq<u32>, rooms: Seq<bool>)
    ensures
        pushed(run_actions(fresh(frame), rooms)).len() <= frame.len(),
        pushed(run_actions(fresh(frame), rooms)) == frame.subrange(
            0,
            pushed(run_actions(fresh(frame), rooms)).len() as int,
        ),
        run_state(fresh(frame), rooms).latched ==> pushed(run_actions(fresh(frame), rooms)) == frame,
{
    lemma_run_pushes_in_order(fresh(frame), rooms);
    if run_state(fresh(frame), rooms).latched {
        assert(frame.subrange(0, frame.len() as int) =~= frame);
    }
}

/// Sending the same frame again after a restart asks for exactly the same actions as the
/// first time, whatever happened before: no state carries over from one frame to the next.
pub proof fn lemma_resend_is_identical(frame: Seq<u32>, first: Seq<bool>, again: Seq<bool>)
    ensures
        run_actions(fresh(run_state(fresh(frame), first).frame), again) == run_actions(
            fresh(frame),
            again,
        ),
{
    lemma_run_pushes_in_order(fresh(frame), first);
}

/// Drives the words of one frame into the co-processor's queue.
pub struct Pump {
    encoder: FrameEncoder,
    gap_due: bool,
    latched: bool,
}

impl View for Pump {
    type V = PumpView;

    closed spec fn view(&self) -> PumpView {
        PumpView {
            frame: self.encoder.frame(),
            sent: self.encoder.position(),
            gap_due: self.gap_due,
            latched: self.latched,
        }
    }
}

impl Pump {
    pub closed spec fn wf(&self) -> bool {
        &&& self.encoder.wf()
        &&& reachable(self@)
    }

    /// A pump at the start of the encoder's frame.
    pub fn new(encoder: FrameEncoder) -> (p: Pump)
        requires
            encoder.wf(),
        ensures
            p.wf(),
            p@ == fresh(encoder.frame()),
    {
        let mut encoder = encoder;
        encoder.restart();
        Pump { encoder, gap_due: false, latched: false }
    }

    /// A pump for a padded color buffer; a length that is not a multiple of four is refused.
    pub fn from_buffer(buf: Vec<u8>) -> (r: Result<Pump, EncodeError>)
        ensures
            buf@.len() % 4 == 0 <==> r is Ok,
            r matches Ok(p) ==> p.wf() && p@ == fresh(frame_words(buf@)),
            r matches Err(e) ==> e == (EncodeError::UnalignedLength { len: buf.len() }),
    {
        match FrameEncoder::new(buf) {
            Ok(e) => Ok(Pump::new(e)),
            Err(e) => Err(e),
        }
    }

    /// The next action, given whether the co-processor's input queue has room for a word.
    pub fn next_action(&mut self, has_room: bool) -> (r: PumpAction)
        requires
            old(self).wf(),
        ensures
            final(self).wf(),
            r == action(old(self)@, has_room),
            final(self)@ == next(old(self)@, has_room),
    {
        if self.latched {
            return PumpAction::FrameDone;
        }
        if self.gap_due {
            self.gap_due = false;
            return PumpAction::Pause(WORD_GAP_US);
        }
        if self.encoder.remaining() > 0 {
            if has_room {
                match self.encoder.next_word() {
                    Some(w) => {
                        self.gap_due = true;
                        PumpAction::Push(w)
                    },
                    None => PumpAction::WaitForRoom,
                }
            } else {
                PumpAction::WaitForRoom
            }
        } else {
            self.latched = true;
            PumpAction::Latch(LATCH_US)
        }
    }

    /// Whether the frame has been sent and latched.
    pub fn is_done(&self) -> (r: bool)
        requires
            self.wf(),
        ensures
            r == self@.latched,
    {
        self.latched
    }

    /// Starts the same frame again from its first word.
    pub fn restart(&mut self)
        requires
            old(self).wf(),
        ensures
            final(self).wf(),
            final(self)@ == fresh(old(self)@.frame),
    {
        self.encoder.restart();
        self.gap_due = false;
        self.latched = false;
    }
}

} // verus!
