//! Control state of a playing voice: its envelope stages and its sample
//! loop, with the decisions of note-off, kill and when the voice is done.

use vstd::prelude::*;

use crate::envelope::{
    call_spec, law_finished_only_after_release, law_note_off_releases, law_process_moves_forward, lemma_settle,
    run_calls, EnvelopeCall,
    enter_spec, initial_state, process_spec, settle, Envelope, EnvelopeState, EnvelopeTiming, Level,
    Stage, Step,
};
use crate::types::LoopMode;

verus! {

/// Loop and release state of a sample being played.
#[derive(Debug, Clone, Copy, PartialEq, Eq, Structural)]
pub struct LoopState {
    pub loop_mode: LoopMode,
    pub loop_start: u32,
    pub loop_end: u32,
    pub sample_end: u32,
    /// Whether note-off has ended a sustain loop.
    pub released: bool,
}

impl LoopState {
    /// Whether playback still wraps at the loop end: a continuous loop
    /// always, a sustain loop until note-off.
    pub open spec fn looping_spec(self) -> bool {
        self.loop_mode == LoopMode::LoopContinuous || (self.loop_mode == LoopMode::LoopSustain
            && !self.released)
    }

    /// Whether reads past the sample's end repeat its last frame: unless a
    /// continuous loop is still running.
    pub open spec fn clamps_spec(self) -> bool {
        self.loop_mode != LoopMode::LoopContinuous || self.released
    }

    pub fn new(loop_mode: LoopMode, loop_start: u32, loop_end: u32, sample_end: u32) -> (r: LoopState)
        ensures
            r == (LoopState { loop_mode, loop_start, loop_end, sample_end, released: false }),
    {
        LoopState { loop_mode, loop_start, loop_end, sample_end, released: false }
    }

    /// The loop state after note-off.
    pub open spec fn after_note_off(self) -> LoopState {
        LoopState { released: self.released || self.loop_mode == LoopMode::LoopSustain, ..self }
    }

    /// Note-off: a sustain loop stops looping; other modes are unchanged.
    pub fn release(&mut self)
        ensures
            *final(self) == old(self).after_note_off(),
    {
        if self.loop_mode == LoopMode::LoopSustain && !self.released {
            self.released = true;
        }
    }

    /// Whether playback wraps at the loop end.
    pub fn looping(&self) -> (b: bool)
        ensures
            b == self.looping_spec(),
    {
        self.loop_mode == LoopMode::LoopContinuous || (self.loop_mode == LoopMode::LoopSustain
            && !self.released)
    }

    /// Whether reaching the sample's end finishes playback: not while the
    /// sample loops.
    pub fn ends_at_sample_end(&self) -> (b: bool)
        ensures
            b == !self.looping_spec(),
    {
        !self.looping()
    }

    /// How far playback jumps back on reaching the loop end: the loop's
    /// length while looping, nothing otherwise.
    pub fn loop_back(&self) -> (r: Option<u32>)
        requires
            self.looping_spec() ==> self.loop_start <= self.loop_end,
        ensures
            self.looping_spec() ==> r == Some((self.loop_end - self.loop_start) as u32),
            !self.looping_spec() ==> r is None,
    {
        if self.looping() {
            Some(self.loop_end - self.loop_start)
        } else {
            None
        }
    }

    /// The frame to read for position `idx`: past the sample's end, the last
    /// frame, unless a continuous loop is running.
    pub fn read_index(&self, idx: usize) -> (r: usize)
        requires
            self.clamps_spec() && idx >= self.sample_end ==> self.sample_end > 0,
        ensures
            self.clamps_spec() && idx >= self.sample_end ==> r == self.sample_end - 1,
            !(self.clamps_spec() && idx >= self.sample_end) ==> r == idx,
    {
        if (self.loop_mode != LoopMode::LoopContinuous || self.released) && idx >= self.sample_end as usize {
            (self.sample_end - 1) as usize
        } else {
            idx
        }
    }
}

/// Whether a voice may release on note-off: one-shot samples play to
/// their end.
pub open spec fn allows_release_spec(mode: LoopMode) -> bool {
    mode != LoopMode::OneShot
}

pub fn allows_release(mode: LoopMode) -> (b: bool)
    ensures
        b == allows_release_spec(mode),
{
    mode != LoopMode::OneShot
}

/// The control state of one voice: its envelope stages and the note it
/// plays.
pub struct VoiceControl {
    pub envelope: Envelope,
    pub exclusive_class: Option<u8>,
    /// MIDI note number this voice is playing.
    pub key: u8,
    /// MIDI velocity.
    pub velocity: u8,
    /// Whether the damper pedal holds this voice.
    pub damper_sustained: bool,
}

impl VoiceControl {
    /// A voice starting its envelope; returns the level its amplitude
    /// starts at. Releases are allowed unless the sample is one-shot.
    pub fn new(
        timing: EnvelopeTiming,
        loop_mode: LoopMode,
        exclusive_class: Option<u8>,
        key: u8,
        velocity: u8,
    ) -> (r: (VoiceControl, Level))
        ensures
            ({
                let s = settle(initial_state(timing, allows_release_spec(loop_mode)), None);
                &&& r.0.envelope@ == s.0
                &&& r.1 == (match s.1 {
                    Some(l) => l,
                    None => Level::Zero,
                })
            }),
            r.0.exclusive_class == exclusive_class,
            r.0.key == key,
            r.0.velocity == velocity,
            !r.0.damper_sustained,
    {
        let (envelope, level) = Envelope::new(timing, allows_release(loop_mode));
        (VoiceControl { envelope, exclusive_class, key, velocity, damper_sustained: false }, level)
    }

    /// Whether the voice is done: its envelope finished, or, before
    /// release, its sample finished playing.
    pub fn finished(&self, sample_finished: bool) -> (b: bool)
        ensures
            b == (self.envelope@.stage == Stage::Finished || (!self.envelope@.is_releasing()
                && sample_finished)),
    {
        if self.envelope.finished() {
            return true;
        }
        !self.envelope.is_releasing() && sample_finished
    }

    /// Whether the voice is releasing.
    pub fn is_releasing(&self) -> (b: bool)
        ensures
            b == self.envelope@.is_releasing(),
    {
        self.envelope.is_releasing()
    }

    /// Note-off for the envelope. Returns the level the amplitude is set
    /// to, if any.
    pub fn note_off(&mut self) -> (r: Option<Level>)
        ensures
            (old(self).envelope@.allow_release || old(self).envelope@.killed) ==> ({
                let e = enter_spec(old(self).envelope@, Stage::Release);
                final(self).envelope@ == e.0 && r == e.1
            }),
            !(old(self).envelope@.allow_release || old(self).envelope@.killed) ==> (final(self).envelope@
                == old(self).envelope@ && r is None),
            final(self).key == old(self).key,
            final(self).velocity == old(self).velocity,
            final(self).exclusive_class == old(self).exclusive_class,
            final(self).damper_sustained == old(self).damper_sustained,
    {
        self.envelope.release()
    }

    /// Voice stealing: the envelope takes its short kill release.
    pub fn kill(&mut self) -> (r: Option<Level>)
        ensures
            ({
                let st = EnvelopeState {
                    release: old(self).envelope@.kill_release,
                    killed: true,
                    ..old(self).envelope@
                };
                let e = enter_spec(st, Stage::Release);
                final(self).envelope@ == e.0 && r == e.1
            }),
            final(self).key == old(self).key,
            final(self).velocity == old(self).velocity,
            final(self).exclusive_class == old(self).exclusive_class,
            final(self).damper_sustained == old(self).damper_sustained,
    {
        self.envelope.kill()
    }

    /// Advances the envelope one sample.
    pub fn process(&mut self) -> (s: Step)
        ensures
            final(self).envelope@ == process_spec(old(self).envelope@).0,
            s == process_spec(old(self).envelope@).1,
            final(self).key == old(self).key,
            final(self).velocity == old(self).velocity,
            final(self).exclusive_class == old(self).exclusive_class,
            final(self).damper_sustained == old(self).damper_sustained,
    {
        self.envelope.process()
    }
}

proof fn lemma_calls_keep_permission(st: EnvelopeState, calls: Seq<EnvelopeCall>)
    requires
        st.wf(),
    ensures
        run_calls(st, calls).allow_release == st.allow_release,
        run_calls(st, calls).wf(),
        !st.killed && (forall|k: int| 0 <= k < calls.len() ==> calls[k] != EnvelopeCall::Kill) ==> !run_calls(st, calls).killed,
    decreases calls.len(),
{
    if calls.len() > 0 {
        let pre = calls.drop_last();
        lemma_calls_keep_permission(st, pre);
        let s0 = run_calls(st, pre);
        law_finished_only_after_release(s0, calls.last());
        match calls.last() {
            EnvelopeCall::Process => law_process_moves_forward(s0),
            EnvelopeCall::Release => if s0.stage != Stage::Finished {
                lemma_settle(s0.with_stage(Stage::Release), None);
            },
            EnvelopeCall::Kill => if s0.stage != Stage::Finished {
                lemma_settle(EnvelopeState { release: s0.kill_release, killed: true, ..s0 }.with_stage(Stage::Release), None);
            },
        }
        if !st.killed && (forall|k: int| 0 <= k < calls.len() ==> calls[k] != EnvelopeCall::Kill) {
            assert forall|k: int| 0 <= k < pre.len() implies pre[k] != EnvelopeCall::Kill by {
                assert(pre[k] == calls[k]);
            }
            assert(calls[calls.len() - 1] != EnvelopeCall::Kill);
        }
    }
}

/// Note-off releases a voice unless its sample is one-shot: whatever calls
/// (processing, note-offs, kills) a voice started by [`VoiceControl::new`]
/// has seen, a note-off puts an unfinished envelope into its release stage
/// for every loop mode other than `OneShot` (`NoLoop`, `LoopContinuous`
/// and `LoopSustain` alike), while a one-shot voice that was not killed
/// ignores it.
pub proof fn law_note_off_releases_unless_one_shot(timing: EnvelopeTiming, mode: LoopMode, calls: Seq<EnvelopeCall>)
    ensures
        ({
            let start = settle(initial_state(timing, allows_release_spec(mode)), None).0;
            let st = run_calls(start, calls);
            &&& start.allow_release == (mode != LoopMode::OneShot)
            &&& mode != LoopMode::OneShot && st.stage != Stage::Finished ==> call_spec(st, EnvelopeCall::Release).is_releasing()
            &&& mode == LoopMode::OneShot && (forall|k: int| 0 <= k < calls.len() ==> calls[k] != EnvelopeCall::Kill)
                ==> call_spec(st, EnvelopeCall::Release) == st
        }),
{
    let init = initial_state(timing, allows_release_spec(mode));
    lemma_settle(init, None);
    let start = settle(init, None).0;
    lemma_calls_keep_permission(start, calls);
    let st = run_calls(start, calls);
    if st.stage != Stage::Finished {
        law_note_off_releases(st);
    }
}

/// Note-off and looping: a sustain loop loops until note-off and not
/// after; a continuous loop always loops, note-off or not; no-loop and
/// one-shot samples never loop. While looping, playback jumps back by the
/// loop's length; past the sample's end, reads repeat the last frame unless
/// a continuous loop runs.
pub proof fn law_loop_follows_mode(l: LoopState)
    ensures
        l.loop_mode == LoopMode::LoopSustain ==> l.looping_spec() == !l.released,
        l.loop_mode == LoopMode::LoopContinuous ==> l.looping_spec(),
        l.loop_mode == LoopMode::NoLoop || l.loop_mode == LoopMode::OneShot ==> !l.looping_spec(),
        l.loop_mode == LoopMode::LoopSustain ==> !l.after_note_off().looping_spec(),
        l.loop_mode != LoopMode::LoopSustain ==> l.after_note_off() == l,
        l.loop_mode == LoopMode::LoopContinuous ==> l.after_note_off().looping_spec(),
        l.after_note_off().loop_start == l.loop_start && l.after_note_off().loop_end == l.loop_end
            && l.after_note_off().sample_end == l.sample_end,
        l.clamps_spec() == !(l.loop_mode == LoopMode::LoopContinuous && !l.released),
{
}

} // verus!
