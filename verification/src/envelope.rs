//! DAHDSR envelope stage machine.
//!
//! The envelope moves Delay → Attack → Hold → Decay → Sustain, and from any
//! stage to Release on note-off, then to Finished. This module owns every
//! decision about stages and sample counts; each call reports, as a [`Step`],
//! how the amplitude moves, so that the amplitude itself can be computed by
//! whoever renders audio.

use vstd::prelude::*;

verus! {

/// Envelope stages, in the order the envelope passes through them.
#[derive(Debug, Clone, Copy, PartialEq, Eq, Structural)]
pub enum Stage {
    Delay,
    Attack,
    Hold,
    Decay,
    Sustain,
    Release,
    Finished,
}

/// Amplitude levels that a stage ramps towards.
#[derive(Debug, Clone, Copy, PartialEq, Eq, Structural)]
pub enum Level {
    /// Amplitude 0.
    Zero,
    /// Full amplitude 1.
    Peak,
    /// The sustain level of the envelope descriptor.
    Sustain,
    /// The silence threshold (1/32768) that a release ramps towards.
    Silence,
}

/// Shape of the ramp within a stage.
#[derive(Debug, Clone, Copy, PartialEq, Eq, Structural)]
pub enum Curve {
    /// `start + (target - start) * t`.
    Linear,
    /// `start + (target - start) * (1 - (1 - t)^2)`.
    Concave,
    /// `start * (target / start)^t` when `start` is above 0.001, else linear.
    Exponential,
}

/// How the amplitude changes in one call.
#[derive(Debug, Clone, Copy, PartialEq, Eq, Structural)]
pub enum Step {
    /// The amplitude keeps its value.
    Unchanged,
    /// The amplitude moves from its current value along `curve` towards
    /// `target`, at `t = elapsed / duration`.
    Ramp { curve: Curve, elapsed: u32, duration: u32, target: Level },
    /// The amplitude is set to this level.
    Settle(Level),
}

/// Stage lengths in samples at the output rate.
#[derive(Debug, Clone, Copy, PartialEq, Eq, Structural)]
pub struct EnvelopeTiming {
    pub delay: u32,
    pub attack: u32,
    pub hold: u32,
    pub decay: u32,
    pub release: u32,
    /// Release length used after [`Envelope::kill`].
    pub kill_release: u32,
}

/// Abstract state of an envelope.
pub struct EnvelopeState {
    pub stage: Stage,
    pub elapsed: u32,
    pub delay: u32,
    pub attack: u32,
    pub hold: u32,
    pub decay: u32,
    pub release: u32,
    pub kill_release: u32,
    pub allow_release: bool,
    pub killed: bool,
}

/// Position of a stage in the stage order.
pub open spec fn stage_index(s: Stage) -> int {
    match s {
        Stage::Delay => 0,
        Stage::Attack => 1,
        Stage::Hold => 2,
        Stage::Decay => 3,
        Stage::Sustain => 4,
        Stage::Release => 5,
        Stage::Finished => 6,
    }
}

/// The stage that follows `s` when `s` runs out.
pub open spec fn next_stage(s: Stage) -> Stage {
    match s {
        Stage::Delay => Stage::Attack,
        Stage::Attack => Stage::Hold,
        Stage::Hold => Stage::Decay,
        Stage::Decay => Stage::Sustain,
        Stage::Sustain => Stage::Sustain,
        Stage::Release => Stage::Finished,
        Stage::Finished => Stage::Finished,
    }
}

/// The level each stage ramps towards.
pub open spec fn stage_target(s: Stage) -> Level {
    match s {
        Stage::Delay => Level::Zero,
        Stage::Attack => Level::Peak,
        Stage::Hold => Level::Peak,
        Stage::Decay => Level::Sustain,
        Stage::Sustain => Level::Sustain,
        Stage::Release => Level::Silence,
        Stage::Finished => Level::Zero,
    }
}

/// The ramp shape of each stage.
pub open spec fn stage_curve(s: Stage) -> Curve {
    match s {
        Stage::Attack => Curve::Concave,
        Stage::Decay => Curve::Exponential,
        Stage::Release => Curve::Exponential,
        _ => Curve::Linear,
    }
}

/// The level the amplitude holds when stage `s` is left: its target, except
/// that leaving the release (at the silence threshold) gives exact zero.
pub open spec fn leaving_level(s: Stage) -> Level {
    if next_stage(s) == Stage::Finished {
        Level::Zero
    } else {
        stage_target(s)
    }
}

/// Whether the stage runs until note-off or forever, not for a fixed count.
pub open spec fn is_open_ended(s: Stage) -> bool {
    s == Stage::Sustain || s == Stage::Finished
}

impl EnvelopeState {
    /// Length in samples of stage `s`.
    pub open spec fn duration(self, s: Stage) -> u32 {
        match s {
            Stage::Delay => self.delay,
            Stage::Attack => self.attack,
            Stage::Hold => self.hold,
            Stage::Decay => self.decay,
            Stage::Release => self.release,
            _ => 0,
        }
    }

    /// A timed stage always has samples left; open-ended stages count none.
    pub open spec fn wf(self) -> bool {
        if is_open_ended(self.stage) {
            self.elapsed == 0
        } else {
            self.elapsed < self.duration(self.stage)
        }
    }

    pub open spec fn with_stage(self, s: Stage) -> EnvelopeState {
        EnvelopeState { stage: s, elapsed: 0, ..self }
    }

    pub open spec fn is_releasing(self) -> bool {
        self.stage == Stage::Release || self.stage == Stage::Finished
    }
}

/// Skips every zero-length timed stage from the current one on. Returns the
/// state reached and the last level the amplitude was set to on the way.
pub open spec fn settle(st: EnvelopeState, last: Option<Level>) -> (EnvelopeState, Option<Level>)
    decreases 6 - stage_index(st.stage),
{
    if is_open_ended(st.stage) || st.duration(st.stage) > 0 {
        (st, last)
    } else {
        settle(st.with_stage(next_stage(st.stage)), Some(leaving_level(st.stage)))
    }
}

/// One sample of envelope time: the state after it and the amplitude step.
pub open spec fn process_spec(st: EnvelopeState) -> (EnvelopeState, Step) {
    if st.stage == Stage::Sustain {
        (st, Step::Unchanged)
    } else if st.stage == Stage::Finished {
        (st, Step::Settle(Level::Zero))
    } else {
        let d = st.duration(st.stage);
        if d > 0 && st.elapsed + 1 < d {
            (
                EnvelopeState { elapsed: (st.elapsed + 1) as u32, ..st },
                Step::Ramp {
                    curve: stage_curve(st.stage),
                    elapsed: (st.elapsed + 1) as u32,
                    duration: d,
                    target: stage_target(st.stage),
                },
            )
        } else {
            let r = settle(st.with_stage(next_stage(st.stage)), Some(leaving_level(st.stage)));
            (r.0, Step::Settle(r.1.unwrap()))
        }
    }
}

/// Enters stage `s` unless the envelope has finished. Returns the state
/// reached and, if the amplitude was set on the way, the level.
pub open spec fn enter_spec(st: EnvelopeState, s: Stage) -> (EnvelopeState, Option<Level>) {
    if st.stage == Stage::Finished {
        (st, None)
    } else {
        settle(st.with_stage(s), None)
    }
}

/// The state after `n` calls of `process`.
pub open spec fn run(st: EnvelopeState, n: nat) -> EnvelopeState
    decreases n,
{
    if n == 0 {
        st
    } else {
        run(process_spec(st).0, (n - 1) as nat)
    }
}

/// The state right after construction.
pub open spec fn initial_state(timing: EnvelopeTiming, allow_release: bool) -> EnvelopeState {
    EnvelopeState {
        stage: Stage::Delay,
        elapsed: 0,
        delay: timing.delay,
        attack: timing.attack,
        hold: timing.hold,
        decay: timing.decay,
        release: timing.release,
        kill_release: timing.kill_release,
        allow_release,
        killed: false,
    }
}

/// `settle` moves forward only, stops at an open-ended or a timed stage with
/// samples left, keeps every stored length, and sets a level whenever it
/// moves.
pub proof fn lemma_settle(st: EnvelopeState, last: Option<Level>)
    requires
        st.elapsed == 0,
    ensures
        ({
            let (r, l) = settle(st, last);
            &&& r.wf()
            &&& stage_index(r.stage) >= stage_index(st.stage)
            &&& r.delay == st.delay && r.attack == st.attack && r.hold == st.hold
            &&& r.decay == st.decay && r.release == st.release
            &&& r.kill_release == st.kill_release && r.allow_release == st.allow_release
            &&& r.killed == st.killed
            &&& (r.stage == st.stage ==> r == st && l == last)
            &&& (r.stage != st.stage ==> l is Some)
            &&& (r.stage == Stage::Finished && r.stage != st.stage ==> l == Some(Level::Zero))
        }),
    decreases 6 - stage_index(st.stage),
{
    if is_open_ended(st.stage) || st.duration(st.stage) > 0 {
    } else {
        let nx = st.with_stage(next_stage(st.stage));
        lemma_settle(nx, Some(leaving_level(st.stage)));
    }
}


/// A well-formed state stays well formed under `process`, keeps every stored
/// length, and never moves back in the stage order.
pub proof fn law_process_moves_forward(st: EnvelopeState)
    requires
        st.wf(),
    ensures
        process_spec(st).0.wf(),
        stage_index(process_spec(st).0.stage) >= stage_index(st.stage),
        process_spec(st).0.delay == st.delay,
        process_spec(st).0.attack == st.attack,
        process_spec(st).0.hold == st.hold,
        process_spec(st).0.decay == st.decay,
        process_spec(st).0.release == st.release,
        process_spec(st).0.kill_release == st.kill_release,
        process_spec(st).0.allow_release == st.allow_release,
        process_spec(st).0.killed == st.killed,
{
    if !is_open_ended(st.stage) {
        let d = st.duration(st.stage);
        if !(d > 0 && st.elapsed + 1 < d) {
            lemma_settle(st.with_stage(next_stage(st.stage)), Some(leaving_level(st.stage)));
        }
    }
}

/// A finished envelope stays finished: `process` keeps it and sets the
/// amplitude to zero, and neither note-off nor kill changes its stage.
pub proof fn law_finished_is_absorbing(st: EnvelopeState, n: nat)
    requires
        st.stage == Stage::Finished,
    ensures
        process_spec(st) == (st, Step::Settle(Level::Zero)),
        run(st, n) == st,
        enter_spec(st, Stage::Release) == (st, Option::<Level>::None),
    decreases n,
{
    if n > 0 {
        law_finished_is_absorbing(st, (n - 1) as nat);
    }
}

/// The sustain stage holds until note-off: `process` changes nothing.
pub proof fn law_sustain_holds(st: EnvelopeState, n: nat)
    requires
        st.stage == Stage::Sustain,
    ensures
        process_spec(st) == (st, Step::Unchanged),
        run(st, n) == st,
    decreases n,
{
    if n > 0 {
        law_sustain_holds(st, (n - 1) as nat);
    }
}

/// A timed stage of length `d` with `e` samples elapsed lasts exactly
/// `d - e` more calls of `process`: the earlier calls stay in it, counting
/// up, and the last one leaves it for a later stage.
pub proof fn law_timed_stage_length(st: EnvelopeState, k: nat)
    requires
        st.wf(),
        !is_open_ended(st.stage),
        k <= st.duration(st.stage) - st.elapsed,
    ensures
        k < st.duration(st.stage) - st.elapsed ==> run(st, k) == (EnvelopeState {
            elapsed: (st.elapsed + k) as u32,
            ..st
        }),
        k == st.duration(st.stage) - st.elapsed ==> stage_index(run(st, k).stage) > stage_index(
            st.stage,
        ),
        run(st, k).wf(),
    decreases k,
{
    if k > 0 {
        let nx = process_spec(st).0;
        law_process_moves_forward(st);
        let d = st.duration(st.stage);
        if st.elapsed + 1 < d {
            law_timed_stage_length(nx, (k - 1) as nat);
            assert(nx == EnvelopeState { elapsed: (st.elapsed + 1) as u32, ..st });
        } else {
            lemma_settle(st.with_stage(next_stage(st.stage)), Some(leaving_level(st.stage)));
            assert(k == 1);
            assert(run(nx, 0) == nx);
        }
    }
}

/// A release of length `d` finishes the envelope after exactly `d` calls of
/// `process` (counting from its start).
pub proof fn law_release_finishes(st: EnvelopeState)
    requires
        st.wf(),
        st.stage == Stage::Release,
    ensures
        run(st, (st.release - st.elapsed) as nat).stage == Stage::Finished,
        forall|k: nat| k < st.release - st.elapsed ==> #[trigger] run(st, k).stage == Stage::Release,
{
    law_timed_stage_length(st, (st.release - st.elapsed) as nat);
    assert forall|k: nat| k < st.release - st.elapsed implies #[trigger] run(st, k).stage
        == Stage::Release by {
        law_timed_stage_length(st, k);
    }
}

/// Note-off on an unfinished envelope that allows releases puts it in the
/// release stage, or straight into the finished stage when the release has
/// no length (setting the amplitude to zero).
pub proof fn law_note_off_releases(st: EnvelopeState)
    requires
        st.stage != Stage::Finished,
    ensures
        st.release > 0 ==> enter_spec(st, Stage::Release) == (
            st.with_stage(Stage::Release),
            Option::<Level>::None,
        ),
        st.release == 0 ==> enter_spec(st, Stage::Release) == (
            st.with_stage(Stage::Finished),
            Some(Level::Zero),
        ),
        enter_spec(st, Stage::Release).0.is_releasing(),
{
    let a = st.with_stage(Stage::Release);
    if st.release == 0 {
        let b = a.with_stage(Stage::Finished);
        assert(settle(a, None) == settle(b, Some(Level::Zero)));
        assert(b == st.with_stage(Stage::Finished));
    }
}

/// Killing an unfinished envelope puts it in a release of the kill length
/// (or straight into the finished stage when that length is zero), and it
/// then finishes after exactly that many calls of `process`.
pub proof fn law_kill_is_short_release(st: EnvelopeState)
    requires
        st.stage != Stage::Finished,
    ensures
        ({
            let k = EnvelopeState { release: st.kill_release, killed: true, ..st };
            let e = enter_spec(k, Stage::Release).0;
            &&& e.release == st.kill_release
            &&& e.killed
            &&& e.is_releasing()
            &&& st.kill_release > 0 ==> e.stage == Stage::Release && e.elapsed == 0 && run(
                e,
                st.kill_release as nat,
            ).stage == Stage::Finished
        }),
{
    let k = EnvelopeState { release: st.kill_release, killed: true, ..st };
    law_note_off_releases(k);
    let e = enter_spec(k, Stage::Release).0;
    if st.kill_release > 0 {
        law_release_finishes(e);
    }
}

/// A call a user makes on an envelope.
#[derive(Debug, Clone, Copy, PartialEq, Eq, Structural)]
pub enum EnvelopeCall {
    /// [`Envelope::process`].
    Process,
    /// [`Envelope::release`].
    Release,
    /// [`Envelope::kill`].
    Kill,
}

/// The state after one call, as the methods of [`Envelope`] state it.
pub open spec fn call_spec(st: EnvelopeState, c: EnvelopeCall) -> EnvelopeState {
    match c {
        EnvelopeCall::Process => process_spec(st).0,
        EnvelopeCall::Release => if st.allow_release || st.killed {
            enter_spec(st, Stage::Release).0
        } else {
            st
        },
        EnvelopeCall::Kill => enter_spec(
            EnvelopeState { release: st.kill_release, killed: true, ..st },
            Stage::Release,
        ).0,
    }
}

/// The state after a sequence of calls.
pub open spec fn run_calls(st: EnvelopeState, calls: Seq<EnvelopeCall>) -> EnvelopeState
    decreases calls.len(),
{
    if calls.len() == 0 {
        st
    } else {
        call_spec(run_calls(st, calls.drop_last()), calls.last())
    }
}

proof fn lemma_settle_before_release(st: EnvelopeState, last: Option<Level>)
    requires
        stage_index(st.stage) <= 4,
    ensures
        stage_index(settle(st, last).0.stage) <= 4,
    decreases 6 - stage_index(st.stage),
{
    if !(is_open_ended(st.stage) || st.duration(st.stage) > 0) {
        lemma_settle_before_release(st.with_stage(next_stage(st.stage)), Some(leaving_level(st.stage)));
    }
}

/// Every call keeps a well-formed envelope well formed, and the finished
/// stage is reached only by a release: either the release stage runs out
/// under `process`, or a note-off or kill enters a release of length zero.
pub proof fn law_finished_only_after_release(st: EnvelopeState, c: EnvelopeCall)
    requires
        st.wf(),
    ensures
        call_spec(st, c).wf(),
        st.stage != Stage::Finished && call_spec(st, c).stage == Stage::Finished ==> (c
            == EnvelopeCall::Process && st.stage == Stage::Release) || (c != EnvelopeCall::Process
            && call_spec(st, c).release == 0),
{
    match c {
        EnvelopeCall::Process => {
            law_process_moves_forward(st);
            if st.stage != Stage::Finished && st.stage != Stage::Sustain && st.stage != Stage::Release {
                let d = st.duration(st.stage);
                if !(d > 0 && st.elapsed + 1 < d) {
                    lemma_settle_before_release(st.with_stage(next_stage(st.stage)), Some(leaving_level(st.stage)));
                }
            }
        },
        EnvelopeCall::Release => {
            if st.stage != Stage::Finished && (st.allow_release || st.killed) {
                lemma_settle(st.with_stage(Stage::Release), None);
                law_note_off_releases(st);
            }
        },
        EnvelopeCall::Kill => {
            let k = EnvelopeState { release: st.kill_release, killed: true, ..st };
            if st.stage != Stage::Finished {
                lemma_settle(k.with_stage(Stage::Release), None);
                law_note_off_releases(k);
            }
        },
    }
}

/// Once finished, an envelope stays finished whatever calls follow, and it
/// counts as releasing; every `process` on it sets the amplitude to zero.
pub proof fn law_finished_is_permanent(st: EnvelopeState, calls: Seq<EnvelopeCall>)
    requires
        st.stage == Stage::Finished,
    ensures
        run_calls(st, calls).stage == Stage::Finished,
        run_calls(st, calls).is_releasing(),
        process_spec(run_calls(st, calls)).1 == Step::Settle(Level::Zero),
    decreases calls.len(),
{
    if calls.len() > 0 {
        law_finished_is_permanent(st, calls.drop_last());
    }
}

/// Every state that calls reach from a constructed envelope is well formed.
pub proof fn law_calls_keep_wf(st: EnvelopeState, calls: Seq<EnvelopeCall>)
    requires
        st.wf(),
    ensures
        run_calls(st, calls).wf(),
    decreases calls.len(),
{
    if calls.len() > 0 {
        law_calls_keep_wf(st, calls.drop_last());
        law_finished_only_after_release(run_calls(st, calls.drop_last()), calls.last());
    }
}

/// What each timed stage does to the amplitude before it runs out: the
/// delay holds it at zero, the attack rises to full along the concave curve,
/// the hold keeps it full, the decay falls exponentially to the sustain
/// level and the release exponentially towards the silence threshold, each
/// at `t = elapsed / duration`. When the release runs out the amplitude is
/// set to zero and the envelope finishes.
pub proof fn law_stage_ramps(st: EnvelopeState)
    requires
        st.wf(),
    ensures
        st.stage == Stage::Delay && st.elapsed + 1 < st.delay ==> process_spec(st).1 == (Step::Ramp {
            curve: Curve::Linear, elapsed: (st.elapsed + 1) as u32, duration: st.delay, target: Level::Zero,
        }),
        st.stage == Stage::Attack && st.elapsed + 1 < st.attack ==> process_spec(st).1 == (Step::Ramp {
            curve: Curve::Concave, elapsed: (st.elapsed + 1) as u32, duration: st.attack, target: Level::Peak,
        }),
        st.stage == Stage::Hold && st.elapsed + 1 < st.hold ==> process_spec(st).1 == (Step::Ramp {
            curve: Curve::Linear, elapsed: (st.elapsed + 1) as u32, duration: st.hold, target: Level::Peak,
        }),
        st.stage == Stage::Decay && st.elapsed + 1 < st.decay ==> process_spec(st).1 == (Step::Ramp {
            curve: Curve::Exponential, elapsed: (st.elapsed + 1) as u32, duration: st.decay, target: Level::Sustain,
        }),
        st.stage == Stage::Release && st.elapsed + 1 < st.release ==> process_spec(st).1 == (Step::Ramp {
            curve: Curve::Exponential, elapsed: (st.elapsed + 1) as u32, duration: st.release, target: Level::Silence,
        }),
        st.stage == Stage::Release && st.elapsed + 1 == st.release ==> process_spec(st).1 == Step::Settle(Level::Zero)
            && process_spec(st).0.stage == Stage::Finished,
        st.stage == Stage::Attack && st.elapsed + 1 == st.attack && st.hold > 0 ==> process_spec(st).1 == Step::Settle(Level::Peak)
            && process_spec(st).0.stage == Stage::Hold,
        st.stage == Stage::Decay && st.elapsed + 1 == st.decay ==> process_spec(st).1 == Step::Settle(Level::Sustain)
            && process_spec(st).0.stage == Stage::Sustain,
{
}

/// The envelope stage machine.
pub struct Envelope {
    stage: Stage,
    elapsed: u32,
    delay: u32,
    attack: u32,
    hold: u32,
    decay: u32,
    release: u32,
    kill_release: u32,
    allow_release: bool,
    killed: bool,
}

impl View for Envelope {
    type V = EnvelopeState;

    closed spec fn view(&self) -> EnvelopeState {
        EnvelopeState {
            stage: self.stage,
            elapsed: self.elapsed,
            delay: self.delay,
            attack: self.attack,
            hold: self.hold,
            decay: self.decay,
            release: self.release,
            kill_release: self.kill_release,
            allow_release: self.allow_release,
            killed: self.killed,
        }
    }
}

impl Envelope {
    #[verifier::type_invariant]
    closed spec fn inv(self) -> bool {
        self@.wf()
    }

    fn duration_of(&self, s: Stage) -> (d: u32)
        ensures
            d == self@.duration(s),
    {
        match s {
            Stage::Delay => self.delay,
            Stage::Attack => self.attack,
            Stage::Hold => self.hold,
            Stage::Decay => self.decay,
            Stage::Release => self.release,
            _ => 0,
        }
    }

    fn from_state(
        stage: Stage,
        elapsed: u32,
        like: &Envelope,
        release: u32,
        killed: bool,
    ) -> (e: Envelope)
        requires
            (EnvelopeState { stage, elapsed, release, killed, ..like@ }).wf(),
        ensures
            e@ == (EnvelopeState { stage, elapsed, release, killed, ..like@ }),
    {
        Envelope {
            stage,
            elapsed,
            delay: like.delay,
            attack: like.attack,
            hold: like.hold,
            decay: like.decay,
            release,
            kill_release: like.kill_release,
            allow_release: like.allow_release,
            killed,
        }
    }

    /// Skips zero-length timed stages starting at `stage` (with nothing
    /// elapsed); returns the stage reached and the last level set.
    fn settle_from(&self, stage: Stage, last: Option<Level>) -> (r: (Stage, Option<Level>))
        ensures
            ({
                let s = settle(EnvelopeState { stage, elapsed: 0, ..self@ }, last);
                r.0 == s.0.stage && r.1 == s.1 && s.0 == EnvelopeState { stage: r.0, elapsed: 0, ..self@ }
            }),
    {
        let mut cur = stage;
        let mut lvl = last;
        proof {
            lemma_settle(EnvelopeState { stage, elapsed: 0, ..self@ }, last);
        }
        loop
            invariant
                settle(EnvelopeState { stage: cur, elapsed: 0, ..self@ }, lvl) == settle(
                    EnvelopeState { stage, elapsed: 0, ..self@ },
                    last,
                ),
            decreases 6 - stage_index(cur),
        {
            let d = self.duration_of(cur);
            if d > 0 || cur == Stage::Sustain || cur == Stage::Finished {
                proof {
                    lemma_settle(EnvelopeState { stage: cur, elapsed: 0, ..self@ }, lvl);
                }
                return (cur, lvl);
            }
            let next = match cur {
                Stage::Delay => Stage::Attack,
                Stage::Attack => Stage::Hold,
                Stage::Hold => Stage::Decay,
                Stage::Decay => Stage::Sustain,
                Stage::Sustain => Stage::Sustain,
                Stage::Release => Stage::Finished,
                Stage::Finished => Stage::Finished,
            };
            let level = match cur {
                Stage::Delay => Level::Zero,
                Stage::Attack => Level::Peak,
                Stage::Hold => Level::Peak,
                Stage::Decay => Level::Sustain,
                Stage::Sustain => Level::Sustain,
                Stage::Release => Level::Zero,
                Stage::Finished => Level::Zero,
            };
            lvl = Some(level);
            cur = next;
        }
    }

    /// Creates an envelope in its first stage with samples to run, and the
    /// level the amplitude starts at.
    pub fn new(timing: EnvelopeTiming, allow_release: bool) -> (r: (Envelope, Level))
        ensures
            r.0@.wf(),
            ({
                let s = settle(initial_state(timing, allow_release), None);
                &&& r.0@ == s.0
                &&& r.1 == (match s.1 {
                    Some(l) => l,
                    None => Level::Zero,
                })
            }),
    {
        let start = Envelope {
            stage: Stage::Sustain,
            elapsed: 0,
            delay: timing.delay,
            attack: timing.attack,
            hold: timing.hold,
            decay: timing.decay,
            release: timing.release,
            kill_release: timing.kill_release,
            allow_release,
            killed: false,
        };
        let ghost st0 = initial_state(timing, allow_release);
        proof {
            lemma_settle(st0, None);
        }
        let (stage, lvl) = start.settle_from(Stage::Delay, None);
        proof {
            assert(EnvelopeState { stage: Stage::Delay, elapsed: 0, ..start@ } == st0);
            lemma_settle(st0, None);
        }
        let env = Envelope::from_state(stage, 0, &start, timing.release, false);
        let level = match lvl {
            Some(l) => l,
            None => Level::Zero,
        };
        (env, level)
    }

    /// The current stage.
    pub fn stage(&self) -> (s: Stage)
        ensures
            s == self@.stage,
    {
        self.stage
    }

    /// Whether the envelope has finished.
    pub fn finished(&self) -> (b: bool)
        ensures
            b == (self@.stage == Stage::Finished),
    {
        self.stage == Stage::Finished
    }

    /// Whether the envelope is in its release or finished stage.
    pub fn is_releasing(&self) -> (b: bool)
        ensures
            b == self@.is_releasing(),
    {
        self.stage == Stage::Release || self.stage == Stage::Finished
    }

    /// Note-off: enters the release stage when releases are allowed or the
    /// envelope was killed. Returns the level the amplitude is set to, if any.
    pub fn release(&mut self) -> (r: Option<Level>)
        ensures
            final(self)@.wf(),
            (old(self)@.allow_release || old(self)@.killed) ==> ({
                let e = enter_spec(old(self)@, Stage::Release);
                final(self)@ == e.0 && r == e.1
            }),
            !(old(self)@.allow_release || old(self)@.killed) ==> final(self)@ == old(self)@ && r
                is None,
    {
        proof {
            use_type_invariant(&*self);
        }
        if self.allow_release || self.killed {
            self.enter_release(self.release, self.killed)
        } else {
            None
        }
    }

    /// Voice stealing: switches to the short kill release and enters the
    /// release stage. Returns the level the amplitude is set to, if any.
    pub fn kill(&mut self) -> (r: Option<Level>)
        ensures
            final(self)@.wf(),
            ({
                let st = EnvelopeState { release: old(self)@.kill_release, killed: true, ..old(self)@ };
                let e = enter_spec(st, Stage::Release);
                final(self)@ == e.0 && r == e.1
            }),
    {
        self.enter_release(self.kill_release, true)
    }

    fn enter_release(&mut self, release: u32, killed: bool) -> (r: Option<Level>)
        ensures
            final(self)@.wf(),
            ({
                let st = EnvelopeState { release, killed, ..old(self)@ };
                let e = enter_spec(st, Stage::Release);
                final(self)@ == e.0 && r == e.1
            }),
    {
        proof {
            use_type_invariant(&*self);
        }
        let ghost st = EnvelopeState { release, killed, ..self@ };
        if self.stage == Stage::Finished {
            let e = Envelope::from_state(Stage::Finished, 0, self, release, killed);
            *self = e;
            return None;
        }
        let tmp = Envelope::from_state(Stage::Sustain, 0, self, release, killed);
        let (stage, lvl) = tmp.settle_from(Stage::Release, None);
        proof {
            lemma_settle(st.with_stage(Stage::Release), None);
        }
        let e = Envelope::from_state(stage, 0, &tmp, release, killed);
        *self = e;
        lvl
    }

    /// Advances the envelope by one sample and reports the amplitude step.
    pub fn process(&mut self) -> (step: Step)
        ensures
            final(self)@.wf(),
            final(self)@ == process_spec(old(self)@).0,
            step == process_spec(old(self)@).1,
    {
        proof {
            use_type_invariant(&*self);
            law_process_moves_forward(self@);
        }
        match self.stage {
            Stage::Sustain => Step::Unchanged,
            Stage::Finished => Step::Settle(Level::Zero),
            _ => {
                let d = self.duration_of(self.stage);
                let e = self.elapsed + 1;
                if e < d {
                    let curve = match self.stage {
                        Stage::Attack => Curve::Concave,
                        Stage::Decay => Curve::Exponential,
                        Stage::Release => Curve::Exponential,
                        _ => Curve::Linear,
                    };
                    let target = match self.stage {
                        Stage::Delay => Level::Zero,
                        Stage::Attack => Level::Peak,
                        Stage::Hold => Level::Peak,
                        Stage::Decay => Level::Sustain,
                        Stage::Sustain => Level::Sustain,
                        Stage::Release => Level::Silence,
                        Stage::Finished => Level::Zero,
                    };
                    let nx = Envelope::from_state(self.stage, e, self, self.release, self.killed);
                    *self = nx;
                    Step::Ramp { curve, elapsed: e, duration: d, target }
                } else {
                    let (next, leaving) = match self.stage {
                        Stage::Delay => (Stage::Attack, Level::Zero),
                        Stage::Attack => (Stage::Hold, Level::Peak),
                        Stage::Hold => (Stage::Decay, Level::Peak),
                        Stage::Decay => (Stage::Sustain, Level::Sustain),
                        Stage::Sustain => (Stage::Sustain, Level::Sustain),
                        Stage::Release => (Stage::Finished, Level::Zero),
                        Stage::Finished => (Stage::Finished, Level::Zero),
                    };
                    let (stage, lvl) = self.settle_from(next, Some(leaving));
                    proof {
                        lemma_settle(self@.with_stage(next), Some(leaving));
                    }
                    let nx = Envelope::from_state(stage, 0, self, self.release, self.killed);
                    *self = nx;
                    Step::Settle(lvl.unwrap())
                }
            }
        }
    }
}

} // verus!
