use dysonphere::envelope::{Curve, Envelope, EnvelopeTiming, Level, Stage, Step};
use dysonphere::synth::{make_room, retire_if_finished, steal_voice, voices_with_key, NoteEvent, NoteQueue, MAX_VOICES};
use dysonphere::types::LoopMode;
use dysonphere::voice::{allows_release, LoopState, VoiceControl};

fn timing(delay: u32, attack: u32, hold: u32, decay: u32, release: u32) -> EnvelopeTiming {
    EnvelopeTiming { delay, attack, hold, decay, release, kill_release: 3 }
}

#[test]
fn zero_length_stages_are_skipped_at_start() {
    let (env, level) = Envelope::new(timing(0, 0, 0, 0, 10), true);
    assert_eq!(env.stage(), Stage::Sustain);
    assert_eq!(level, Level::Sustain);
    let (env, level) = Envelope::new(timing(0, 4, 0, 0, 10), true);
    assert_eq!(env.stage(), Stage::Attack);
    assert_eq!(level, Level::Zero);
    let (env, _) = Envelope::new(timing(2, 4, 0, 0, 10), true);
    assert_eq!(env.stage(), Stage::Delay);
}

#[test]
fn attack_ramps_concavely_then_settles_at_peak() {
    let (mut env, _) = Envelope::new(timing(0, 3, 0, 5, 10), true);
    assert_eq!(
        env.process(),
        Step::Ramp { curve: Curve::Concave, elapsed: 1, duration: 3, target: Level::Peak }
    );
    assert_eq!(
        env.process(),
        Step::Ramp { curve: Curve::Concave, elapsed: 2, duration: 3, target: Level::Peak }
    );
    assert_eq!(env.process(), Step::Settle(Level::Peak));
    assert_eq!(env.stage(), Stage::Decay);
    assert_eq!(
        env.process(),
        Step::Ramp { curve: Curve::Exponential, elapsed: 1, duration: 5, target: Level::Sustain }
    );
}

#[test]
fn sustain_holds_until_release() {
    let (mut env, _) = Envelope::new(timing(0, 1, 0, 0, 4), true);
    assert_eq!(env.process(), Step::Settle(Level::Sustain));
    assert_eq!(env.stage(), Stage::Sustain);
    for _ in 0..100 {
        assert_eq!(env.process(), Step::Unchanged);
    }
    assert!(!env.is_releasing());
    assert_eq!(env.release(), None);
    assert_eq!(env.stage(), Stage::Release);
    assert!(env.is_releasing());
    let mut n: u32 = 0;
    while !env.finished() {
        env.process();
        n += 1;
    }
    assert_eq!(n, 4);
    assert_eq!(env.process(), Step::Settle(Level::Zero));
    assert!(env.finished());
}

#[test]
fn release_is_refused_without_permission_and_kill_is_short() {
    let (mut env, _) = Envelope::new(timing(0, 0, 0, 0, 100), false);
    assert_eq!(env.release(), None);
    assert_eq!(env.stage(), Stage::Sustain);
    env.kill();
    assert_eq!(env.stage(), Stage::Release);
    let mut n: u32 = 0;
    while !env.finished() {
        env.process();
        n += 1;
    }
    assert_eq!(n, 3);
    assert_eq!(env.release(), None);
    assert!(env.finished());
}

#[test]
fn loop_state_follows_mode_and_note_off() {
    let mut s = LoopState::new(LoopMode::LoopSustain, 10, 50, 100);
    assert!(s.looping());
    assert_eq!(s.loop_back(), Some(40));
    assert_eq!(s.read_index(50), 50);
    s.release();
    assert!(!s.looping());
    assert!(s.ends_at_sample_end());
    assert_eq!(s.loop_back(), None);
    assert_eq!(s.read_index(150), 99);
    let mut c = LoopState::new(LoopMode::LoopContinuous, 0, 8, 8);
    c.release();
    assert!(c.looping());
    let n = LoopState::new(LoopMode::NoLoop, 0, 0, 5);
    assert!(!n.looping());
    assert_eq!(n.read_index(3), 3);
}

#[test]
fn voice_control_note_off_and_finish() {
    assert!(!allows_release(LoopMode::OneShot));
    assert!(allows_release(LoopMode::LoopSustain));
    let (mut v, level) = VoiceControl::new(timing(0, 2, 0, 0, 5), LoopMode::OneShot, Some(1), 60, 100);
    assert_eq!(level, Level::Zero);
    assert_eq!((v.key, v.velocity, v.exclusive_class, v.damper_sustained), (60, 100, Some(1), false));
    assert_eq!(v.note_off(), None);
    assert!(!v.is_releasing());
    assert!(v.finished(true));
    assert!(!v.finished(false));
    let (mut w, _) = VoiceControl::new(timing(0, 2, 0, 0, 5), LoopMode::NoLoop, None, 61, 90);
    w.note_off();
    assert!(w.is_releasing());
    assert!(!w.finished(true));
    w.kill();
    for _ in 0..3 {
        w.process();
    }
    assert!(w.finished(false));
}

#[test]
fn note_queue_keeps_order_and_empties() {
    let mut q = NoteQueue::new();
    q.note_on(60, 100);
    q.note_off(62);
    q.note_on(64, 90);
    q.note_off(60);
    let (offs, ons) = q.take();
    assert_eq!(offs, vec![62, 60]);
    assert_eq!(ons, vec![(60, 100), (64, 90)]);
    let (offs, ons) = q.take();
    assert!(offs.is_empty() && ons.is_empty());
}

#[test]
fn stealing_takes_the_quietest_releasing_voice() {
    let mut voices = vec!['a', 'b', 'c', 'd', 'e'];
    steal_voice(&mut voices, &vec![None, Some(90), None, Some(40), Some(70)]);
    assert_eq!(voices, vec!['a', 'b', 'c', 'e']);
    let mut voices = vec!['a', 'b', 'c', 'd'];
    steal_voice(&mut voices, &vec![Some(5), None, Some(5), None]);
    assert_eq!(voices, vec!['d', 'b', 'c']);
    let mut voices = vec!['a', 'b', 'c'];
    steal_voice(&mut voices, &vec![None, None, None]);
    assert_eq!(voices, vec!['b', 'c']);
}

#[test]
fn make_room_only_at_the_limit() {
    let mut voices: Vec<usize> = (0..MAX_VOICES - 1).collect();
    let levels = vec![None; voices.len()];
    make_room(&mut voices, &levels);
    assert_eq!(voices.len(), MAX_VOICES - 1);
    voices.push(MAX_VOICES - 1);
    let mut levels = vec![None; voices.len()];
    levels[7] = Some(3);
    levels[9] = Some(1);
    make_room(&mut voices, &levels);
    assert_eq!(voices.len(), MAX_VOICES - 1);
    assert_eq!(voices[9], MAX_VOICES - 1);
    assert_eq!(voices[7], 7);
    assert_eq!(MAX_VOICES, 256);
}

#[test]
fn block_events_put_note_offs_first() {
    let mut q = NoteQueue::new();
    q.note_on(60, 100);
    q.note_off(62);
    q.note_on(64, 90);
    q.note_off(60);
    let events = q.take_events();
    assert_eq!(
        events,
        vec![NoteEvent::Off(62), NoteEvent::Off(60), NoteEvent::On(60, 100), NoteEvent::On(64, 90)]
    );
    assert!(q.take_events().is_empty());
}

#[test]
fn retiring_finished_voices() {
    let mut voices = vec!['a', 'b', 'c', 'd'];
    assert_eq!(retire_if_finished(&mut voices, 1, false), 2);
    assert_eq!(voices, vec!['a', 'b', 'c', 'd']);
    assert_eq!(retire_if_finished(&mut voices, 1, true), 1);
    assert_eq!(voices, vec!['a', 'd', 'c']);
    assert_eq!(retire_if_finished(&mut voices, 2, true), 2);
    assert_eq!(voices, vec!['a', 'd']);
}

#[test]
fn finished_envelope_ignores_later_calls() {
    let (mut env, _) = Envelope::new(timing(0, 1, 0, 0, 2), true);
    env.release();
    env.process();
    env.process();
    assert!(env.finished() && env.is_releasing());
    for _ in 0..5 {
        assert_eq!(env.process(), Step::Settle(Level::Zero));
        assert_eq!(env.release(), None);
        assert_eq!(env.kill(), None);
        assert!(env.finished());
    }
}

#[test]
fn note_off_finds_every_voice_of_the_key() {
    assert_eq!(voices_with_key(&vec![60, 62, 60, 64, 60], 60), vec![0, 2, 4]);
    assert_eq!(voices_with_key(&vec![60, 62], 61), Vec::<usize>::new());
    assert_eq!(voices_with_key(&Vec::new(), 61), Vec::<usize>::new());
}
