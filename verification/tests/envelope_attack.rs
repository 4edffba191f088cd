//! Attack-curve measurements and DAHDSR behaviour of the envelope, driven
//! through the stage machine with a floating-point amplitude.

use dysonphere::envelope::{Curve, Envelope as Stages, EnvelopeTiming, Level, Step};

const SILENCE_THRESHOLD: f32 = 1.0 / 32768.0;

#[derive(Debug, Clone, Copy)]
struct EnvelopeDescriptor {
    delay: f32,
    attack: f32,
    hold: f32,
    decay: f32,
    sustain: f32,
    release: f32,
}

impl Default for EnvelopeDescriptor {
    fn default() -> Self {
        Self { delay: 0.0, attack: 0.01, hold: 0.0, decay: 0.0, sustain: 1.0, release: 0.01 }
    }
}

fn timing(d: &EnvelopeDescriptor, sample_rate: u32, vel: u8) -> EnvelopeTiming {
    let sr = sample_rate as f32;
    let vel_norm = vel as f32 / 127.0;
    let release = (d.release * (0.2 + vel_norm * 0.8)).max(0.05);
    EnvelopeTiming {
        delay: (d.delay * sr).round() as u32,
        attack: (d.attack.max(0.001) * sr).round() as u32,
        hold: (d.hold * sr).round() as u32,
        decay: (d.decay * sr).round() as u32,
        release: (release.max(0.001) * sr).round() as u32,
        kill_release: (0.005 * sr).round() as u32,
    }
}

/// The stage machine with the amplitude its steps move.
struct Envelope {
    stages: Stages,
    sustain: f32,
    value: f32,
}

impl Envelope {
    fn new(d: EnvelopeDescriptor, sample_rate: u32, allow_release: bool, vel: u8) -> Self {
        let (stages, start) = Stages::new(timing(&d, sample_rate, vel), allow_release);
        let mut e = Self { stages, sustain: d.sustain, value: 0.0 };
        e.value = e.level(start);
        e
    }

    fn level(&self, l: Level) -> f32 {
        match l {
            Level::Zero => 0.0,
            Level::Peak => 1.0,
            Level::Sustain => self.sustain,
            Level::Silence => SILENCE_THRESHOLD,
        }
    }

    fn value(&self) -> f32 {
        self.value
    }

    fn finished(&self) -> bool {
        self.stages.finished()
    }

    fn release(&mut self) {
        if let Some(l) = self.stages.release() {
            self.value = self.level(l);
        }
    }

    fn kill(&mut self) {
        if let Some(l) = self.stages.kill() {
            self.value = self.level(l);
        }
    }

    fn process(&mut self) {
        match self.stages.process() {
            Step::Unchanged => {}
            Step::Settle(l) => self.value = self.level(l),
            Step::Ramp { curve, elapsed, duration, target } => {
                let t = elapsed as f32 / duration as f32;
                let start = self.value;
                let target = self.level(target);
                self.value = match curve {
                    Curve::Exponential if start > 0.001 => {
                        let eff = if target > 0.0 { target } else { SILENCE_THRESHOLD };
                        start * (eff / start).powf(t)
                    }
                    Curve::Concave => start + (target - start) * (1.0 - (1.0 - t).powi(2)),
                    _ => start + (target - start) * t,
                };
            }
        }
    }
}

fn attack_only(attack_sec: f32) -> EnvelopeDescriptor {
    EnvelopeDescriptor { delay: 0.0, attack: attack_sec, hold: 0.0, decay: 0.0, sustain: 1.0, release: 1.0 }
}

fn concave_curve(t: f32) -> f32 {
    1.0 - (1.0 - t).powi(2)
}

// ── Sample-by-sample attack trace ───────────────────────────────────

#[derive(Debug, Clone)]
struct StepDebugInfo {
    sample_index: usize,
    elapsed: u32,
    t_raw: f32,
    curved_t: f32,
    actual_value: f32,
}

struct EnvelopeDebugReport {
    theoretical_attack_sec: f32,
    sample_rate: u32,
    duration_samples: u32,
    steps: Vec<StepDebugInfo>,
}

impl EnvelopeDebugReport {
    fn find_value_time(&self, target: f32) -> f32 {
        for i in 1..self.steps.len() {
            let prev = &self.steps[i - 1];
            let curr = &self.steps[i];
            if prev.actual_value <= target && curr.actual_value >= target {
                let t_prev = prev.sample_index as f32 / self.sample_rate as f32;
                let t_curr = curr.sample_index as f32 / self.sample_rate as f32;
                let fraction = (target - prev.actual_value) / (curr.actual_value - prev.actual_value);
                return t_prev + fraction * (t_curr - t_prev);
            }
        }
        0.0
    }

    fn print_detailed_analysis(&self) {
        println!("attack {:.4} ms at {} Hz: {} samples", self.theoretical_attack_sec * 1000.0, self.sample_rate, self.duration_samples);
        for target in [0.10f32, 0.25, 0.50, 0.75, 0.90, 0.99] {
            if let Some(s) = self.steps.iter().find(|s| s.actual_value >= target) {
                println!("  {:>5} {:>5} {:.4} {:.4} {:.4}", s.sample_index, s.elapsed, s.t_raw, s.curved_t, s.actual_value);
            }
        }
        let t10 = self.find_value_time(0.10);
        let t90 = self.find_value_time(0.90);
        println!("  T10 {:.4} ms, T90 {:.4} ms, 10%-90% {:.4} ms", t10 * 1000.0, t90 * 1000.0, (t90 - t10) * 1000.0);
    }
}

fn debug_envelope_attack(attack_sec: f32, sample_rate: u32) -> EnvelopeDebugReport {
    let mut env = Envelope::new(attack_only(attack_sec), sample_rate, true, 127);
    let duration_samples = (attack_sec.max(0.001) * sample_rate as f32).round() as u32;
    let mut steps = vec![StepDebugInfo { sample_index: 0, elapsed: 0, t_raw: 0.0, curved_t: 0.0, actual_value: env.value() }];
    let max_samples: usize = duration_samples as usize + 100;
    let mut sample_index: usize = 0;
    while sample_index < max_samples {
        let next_elapsed = sample_index as u32 + 1;
        let t_raw = next_elapsed as f32 / duration_samples as f32;
        let curved_t = if t_raw < 1.0 { concave_curve(t_raw) } else { 1.0 };
        env.process();
        sample_index += 1;
        steps.push(StepDebugInfo {
            sample_index,
            elapsed: next_elapsed,
            t_raw: t_raw.min(1.0),
            curved_t,
            actual_value: env.value(),
        });
    }
    EnvelopeDebugReport { theoretical_attack_sec: attack_sec, sample_rate, duration_samples, steps }
}

fn run_complete_debug_analysis() {
    let report = debug_envelope_attack(0.01, 44100);
    report.print_detailed_analysis();
    println!("sample,elapsed,t_raw,curved_t,actual_value");
    for step in report.steps.iter().take(50) {
        println!("{},{},{:.6},{:.6},{:.6}", step.sample_index, step.elapsed, step.t_raw, step.curved_t, step.actual_value);
    }
}

#[test]
fn test_envelope_debug_10ms() {
    let report = debug_envelope_attack(0.01, 44100);
    report.print_detailed_analysis();
    assert_eq!(report.duration_samples, 441, "10ms @ 44.1kHz = 441 samples");
    assert!(report.steps.len() >= 441, "应有至少441个采样点，实际有{}", report.steps.len());
    let last = report.steps.last().unwrap();
    assert!(last.actual_value >= 0.99, "最后值应接近1.0");
}

#[test]
fn test_envelope_debug_1ms() {
    let report = debug_envelope_attack(0.001, 44100);
    report.print_detailed_analysis();
    assert_eq!(report.duration_samples, 44, "1ms @ 44.1kHz = 44 samples");
}

#[test]
fn test_curve_formula_correctness() {
    for t in [0.0f32, 0.25, 0.5, 0.75, 1.0] {
        let curved = concave_curve(t);
        let expected = 2.0 * t - t * t;
        assert!((curved - expected).abs() < 0.0001, "t={}: curved={} != expected={}", t, curved, expected);
    }
}

#[test]
fn test_complete_analysis() {
    run_complete_debug_analysis();
}

// ── Curve comparisons ───────────────────────────────────────────────

fn analyze_curve_types() {
    println!("   t    concave  linear   convex");
    for t in [0.0f32, 0.1, 0.25, 0.5, 0.75, 0.9, 1.0] {
        println!("{:>5.2} {:>8.4} {:>8.4} {:>8.4}", t, concave_curve(t), t, t.powi(2));
    }
}

fn simulate_attack_curves(attack_sec: f32, sample_rate: u32) {
    let duration_samples = (attack_sec.max(0.001) * sample_rate as f32).round() as usize;
    println!("attack {:.2} ms, {} samples", attack_sec * 1000.0, duration_samples);
    for target in [0.10f32, 0.50, 0.90] {
        let t_concave = 1.0 - (1.0 - target).sqrt();
        let t_convex = target.sqrt();
        println!(
            "{:>4.0}%: {:>8.3} ms {:>8.3} ms {:>8.3} ms",
            target * 100.0,
            t_concave * attack_sec * 1000.0,
            target * attack_sec * 1000.0,
            t_convex * attack_sec * 1000.0
        );
    }
    let attack_concave = ((1.0 - (1.0f32 - 0.90).sqrt()) - (1.0 - (1.0f32 - 0.10).sqrt())) * attack_sec * 1000.0;
    let attack_convex = (0.90f32.sqrt() - 0.10f32.sqrt()) * attack_sec * 1000.0;
    println!("10%-90%: concave {:.3} ms, linear {:.3} ms, convex {:.3} ms", attack_concave, 0.80 * attack_sec * 1000.0, attack_convex);
}

fn generate_fixed_code() -> String {
    r#"Stage::Attack => {
    let curved = t;
    self.value = start + (params.target - start) * curved;
}
"#
    .to_string()
}

#[test]
fn test_curve_comparison() {
    analyze_curve_types();
}

#[test]
fn test_attack_simulation() {
    simulate_attack_curves(0.01, 44100);
}

#[test]
fn test_linear_vs_concave() {
    let sample_rate: u32 = 44100;
    let attack_sec = 0.01f32;
    let duration: usize = (attack_sec * sample_rate as f32) as usize;
    println!("\n前10个采样点的包络值对比:");
    for i in 1..=10usize {
        let t = i as f32 / duration as f32;
        let concave = concave_curve(t);
        println!("│ {:>6} │ {:>11.6} │ {:>11.6} │ {:>11.6} │", i, concave, t, concave - t);
    }
    let sample_10pct: usize = (0.1f32 * duration as f32) as usize;
    let t = sample_10pct as f32 / duration as f32;
    let concave_at_10pct = concave_curve(t);
    println!("    凹曲线已达到: {:.2}%", concave_at_10pct * 100.0);
    println!("    线性只达到:   {:.2}%", t * 100.0);
    println!("    差异:         {:.2}%", (concave_at_10pct - t) * 100.0);
}

#[test]
fn test_proposed_fix() {
    println!("\n【修复代码】\n{}", generate_fixed_code());
}

// ── Attack values as the envelope produces them ─────────────────────

fn verify_fix() {
    let sample_rate: u32 = 44100;
    let attack_sec = 0.01f32;
    let mut env = Envelope::new(attack_only(attack_sec), sample_rate, true, 127);
    let duration: usize = (attack_sec * sample_rate as f32) as usize;
    println!("{:>6} {:>11.4} {:>11.6} {:>11.6}", 0, 0.0, env.value(), 0.0);
    for i in 1..=duration {
        env.process();
        if i <= 20 || i >= duration - 5 {
            let time_ms = i as f32 / sample_rate as f32 * 1000.0;
            println!("{:>6} {:>11.4} {:>11.6} {:>11.6}", i, time_ms, env.value(), i as f32 / duration as f32);
        }
    }
}

#[test]
fn test_fix_verification() {
    verify_fix();
}

#[test]
fn test_compare_before_after() {
    let sample_rate: u32 = 44100;
    let attack_sec = 0.01f32;
    let duration: usize = (attack_sec * sample_rate as f32) as usize;
    for i in 1..=10usize {
        let t = i as f32 / duration as f32;
        println!("│ {:>6} │ {:>15.6} │ {:>15.6} │ {:>15.6} │", i, concave_curve(t), t, t);
    }
    let sample_10pct: usize = (0.1f32 * duration as f32) as usize;
    let t = sample_10pct as f32 / duration as f32;
    let before_10pct = concave_curve(t);
    println!("    修复前(凹曲线): {:.2}%", before_10pct * 100.0);
    println!("    修复后(线性):   {:.2}%", t * 100.0);
    println!("    改善:           {:.2}%", (before_10pct - t) * 100.0);
}

fn precise_numeric_verification() {
    let sample_rate: u32 = 44100;
    let attack_sec = 0.01f32;
    let duration: usize = (attack_sec * sample_rate as f32) as usize;
    let mut env = Envelope::new(attack_only(attack_sec), sample_rate, true, 127);
    let mut linear_count: usize = 0;
    let mut concave_count: usize = 0;
    let mut other_count: usize = 0;
    for i in 0..=duration {
        let t = i as f32 / duration as f32;
        let actual = env.value();
        if (actual - t).abs() < 0.001 {
            linear_count += 1;
        } else if (actual - concave_curve(t)).abs() < 0.001 {
            concave_count += 1;
        } else {
            other_count += 1;
        }
        if i <= 20 {
            println!("{:>6} {:>11.6} {:>11.6} {:>11.6}", i, concave_curve(t), t, actual);
        }
        if i < duration {
            env.process();
        }
    }
    println!("linear {}, concave {}, other {} of {}", linear_count, concave_count, other_count, duration + 1);
}

#[test]
fn test_precise_verification() {
    precise_numeric_verification();
}

// ── 10%–90% rise-time tracker ───────────────────────────────────────

#[derive(Debug, Clone)]
struct EnvelopeSample {
    sample_index: usize,
    value: f32,
}

struct CurveAnalysis {
    t10_to_t50_ms: f32,
    t50_to_t90_ms: f32,
    ratio: f32,
    curve_type: &'static str,
}

struct AttackMeasurement {
    theoretical_attack_sec: f32,
    measured_attack_sec: f32,
    t10_sec: f32,
    t50_sec: f32,
    t90_sec: f32,
    t99_sec: f32,
    curve_analysis: CurveAnalysis,
}

impl AttackMeasurement {
    fn print_report(&self) {
        println!(
            "attack {:.4} ms: T10 {:.4} T50 {:.4} T90 {:.4} T99 {:.4} ms, measured {:.4} ms, {} ({:.4} / {:.4} = {:.2})",
            self.theoretical_attack_sec * 1000.0,
            self.t10_sec * 1000.0,
            self.t50_sec * 1000.0,
            self.t90_sec * 1000.0,
            self.t99_sec * 1000.0,
            self.measured_attack_sec * 1000.0,
            self.curve_analysis.curve_type,
            self.curve_analysis.t10_to_t50_ms,
            self.curve_analysis.t50_to_t90_ms,
            self.curve_analysis.ratio
        );
    }
}

struct EnvelopeTracker {
    samples: Vec<EnvelopeSample>,
    sample_rate: u32,
}

impl EnvelopeTracker {
    fn find_time_at_level(&self, target: f32) -> Option<f32> {
        for i in 1..self.samples.len() {
            let prev = &self.samples[i - 1];
            let curr = &self.samples[i];
            if (prev.value <= target && curr.value >= target) || (prev.value >= target && curr.value <= target) {
                let t_prev = prev.sample_index as f32 / self.sample_rate as f32;
                let t_curr = curr.sample_index as f32 / self.sample_rate as f32;
                let fraction = if curr.value != prev.value { (target - prev.value) / (curr.value - prev.value) } else { 0.0 };
                return Some(t_prev + fraction * (t_curr - t_prev));
            }
        }
        None
    }

    fn measure_attack(&self, theoretical_attack_sec: f32) -> AttackMeasurement {
        let t10 = self.find_time_at_level(0.10).unwrap_or(0.0);
        let t50 = self.find_time_at_level(0.50).unwrap_or(0.0);
        let t90 = self.find_time_at_level(0.90).unwrap_or(0.0);
        let t99 = self.find_time_at_level(0.99).unwrap_or(0.0);
        let t10_to_t50 = (t50 - t10) * 1000.0;
        let t50_to_t90 = (t90 - t50) * 1000.0;
        let ratio = if t50_to_t90 > 0.0 { t10_to_t50 / t50_to_t90 } else { 1.0 };
        let curve_type = if ratio < 0.8 {
            "凹曲线(快起)"
        } else if ratio > 1.2 {
            "凸曲线(慢起)"
        } else {
            "近似线性"
        };
        AttackMeasurement {
            theoretical_attack_sec,
            measured_attack_sec: t90 - t10,
            t10_sec: t10,
            t50_sec: t50,
            t90_sec: t90,
            t99_sec: t99,
            curve_analysis: CurveAnalysis { t10_to_t50_ms: t10_to_t50, t50_to_t90_ms: t50_to_t90, ratio, curve_type },
        }
    }
}

fn track_attack(attack_sec: f32, sample_rate: u32) -> AttackMeasurement {
    let mut env = Envelope::new(attack_only(attack_sec), sample_rate, true, 127);
    let mut tracker = EnvelopeTracker { samples: vec![EnvelopeSample { sample_index: 0, value: env.value() }], sample_rate };
    let attack_samples: usize = (attack_sec * sample_rate as f32).ceil() as usize + 100;
    for i in 1..=attack_samples {
        env.process();
        tracker.samples.push(EnvelopeSample { sample_index: i, value: env.value() });
        if env.value() >= 0.9999 {
            break;
        }
    }
    tracker.measure_attack(attack_sec)
}

fn analyze_curve_mathematically(theoretical_attack_sec: f32) {
    for y in [0.10f32, 0.50, 0.90, 0.99] {
        let t_normalized = 1.0 - (1.0 - y).sqrt();
        println!("{:>4.0}%: {:>8.4} {:>10.4} ms", y * 100.0, t_normalized, t_normalized * theoretical_attack_sec * 1000.0);
    }
    let span = (1.0 - (1.0f32 - 0.90).sqrt()) - (1.0 - (1.0f32 - 0.10).sqrt());
    println!("10%-90%: {:.4} of the attack, {:.4} ms", span, span * theoretical_attack_sec * 1000.0);
}

#[test]
fn test_attack_measurement_detailed() {
    let result = track_attack(0.01, 44100);
    println!("\n✅ 详细Attack测量结果:");
    result.print_report();
    assert!(
        result.curve_analysis.ratio < 0.9,
        "Attack应该是凹曲线（开始快），ratio应<0.9，实际={:.2}",
        result.curve_analysis.ratio
    );
    assert!(result.t10_sec < result.t50_sec, "T10应<T50");
    assert!(result.t50_sec < result.t90_sec, "T50应<T90");
    assert!(result.t90_sec < result.t99_sec, "T90应<T99");
}

#[test]
fn test_fast_attack_1ms() {
    let result = track_attack(0.001, 44100);
    println!("\n✅ 1ms快速Attack测试:");
    result.print_report();
    assert!(result.measured_attack_sec > 0.0, "Attack时间必须大于0");
    assert!(result.t90_sec > result.t10_sec, "T90必须大于T10");
}

#[test]
fn test_slow_attack_100ms() {
    let result = track_attack(0.1, 44100);
    println!("\n✅ 100ms慢Attack测试:");
    result.print_report();
    assert!(result.t99_sec > result.t90_sec, "应能测量到T99");
}

#[test]
fn test_attack_curve_consistency() {
    for attack in [0.001f32, 0.01, 0.1] {
        let result = track_attack(attack, 44100);
        println!(
            "│   {:>6.1}ms  │ {:>6.2} │ {:>6.2} │ {:>6.2} │",
            attack * 1000.0,
            result.curve_analysis.t10_to_t50_ms,
            result.curve_analysis.t50_to_t90_ms,
            result.curve_analysis.ratio
        );
        assert!(result.curve_analysis.ratio > 0.6 && result.curve_analysis.ratio < 0.9, "凹曲线ratio应在0.6-0.9之间");
    }
}

#[test]
fn test_mathematical_analysis() {
    analyze_curve_mathematically(0.01);
}

// ── Stage behaviour ─────────────────────────────────────────────────

fn samples_until_finished(env: &mut Envelope) -> usize {
    let mut count: usize = 0;
    while !env.finished() {
        env.process();
        count += 1;
        if count > 1_000_000 {
            panic!("envelope never finished");
        }
    }
    count
}

#[test]
fn basic_envelope_stages() {
    let desc = EnvelopeDescriptor { delay: 0.0, attack: 0.01, hold: 0.01, decay: 0.05, sustain: 0.7, release: 0.2 };
    let sr: u32 = 44100;
    let mut env = Envelope::new(desc, sr, true, 127);
    assert!(env.value() < 0.01);
    for _ in 0..((0.01 * sr as f32) as usize) {
        env.process();
    }
    for _ in 0..((0.01 * sr as f32) as usize) {
        env.process();
    }
    assert!(env.value() > 0.9, "value after attack+hold: {}", env.value());
    for _ in 0..((0.05 * sr as f32) as usize) {
        env.process();
    }
    assert!((env.value() - 0.7).abs() < 0.05, "value after decay: {} (expected ~0.7)", env.value());
    env.release();
    let release_samples = samples_until_finished(&mut env);
    let expected: usize = (0.2 * sr as f32) as usize;
    let epsilon: usize = (0.02 * sr as f32) as usize;
    assert!(
        release_samples >= expected - epsilon && release_samples <= expected + epsilon,
        "release samples: {} (expected ~{})",
        release_samples,
        expected
    );
}

#[test]
fn release_exponential_curve() {
    let desc = EnvelopeDescriptor { delay: 0.0, attack: 0.0, hold: 0.0, decay: 0.0, sustain: 1.0, release: 0.1 };
    let sr: u32 = 44100;
    let mut env = Envelope::new(desc, sr, true, 100);
    let mut reached = false;
    for _ in 0..1000 {
        env.process();
        if env.value() > 0.99 {
            reached = true;
            break;
        }
    }
    assert!(reached, "envelope should reach 1.0 in sustain");
    env.release();
    let total: usize = (0.1 * sr as f32) as usize;
    let p25 = total / 4;
    let p50 = total / 2;
    let p75 = 3 * total / 4;
    for _ in 0..p25 {
        env.process();
    }
    let v25 = env.value();
    for _ in 0..(p50 - p25) {
        env.process();
    }
    let v50 = env.value();
    for _ in 0..(p75 - p50) {
        env.process();
    }
    let v75 = env.value();
    let ratio1 = v50 / v25;
    let ratio2 = v75 / v50;
    assert!(
        (ratio1 - ratio2).abs() < 0.3,
        "release should be exponential: v25={v25:.4} v50={v50:.4} v75={v75:.4} r1={ratio1:.4} r2={ratio2:.4}"
    );
    assert!(v25 < 0.9, "exponential decay should drop quickly initially: v25={v25:.4}");
}

#[test]
fn velocity_affects_release() {
    let sr: u32 = 44100;
    let desc = EnvelopeDescriptor { delay: 0.0, attack: 0.0, hold: 0.0, decay: 0.0, sustain: 1.0, release: 0.5 };
    let mut env_soft = Envelope::new(desc, sr, true, 1);
    let mut env_loud = Envelope::new(desc, sr, true, 127);
    for _ in 0..100 {
        env_soft.process();
        env_loud.process();
    }
    env_soft.release();
    env_loud.release();
    let soft_dur = samples_until_finished(&mut env_soft);
    let loud_dur = samples_until_finished(&mut env_loud);
    let ratio = soft_dur as f32 / loud_dur as f32;
    assert!(ratio < 0.8, "soft release ({soft_dur} samples) should be shorter than loud ({loud_dur} samples), ratio={ratio:.2}");
    assert!(ratio > 0.1, "soft release should not be too short");
}

#[test]
fn release_floor_protects_against_zero() {
    let sr: u32 = 44100;
    let desc = EnvelopeDescriptor { delay: 0.0, attack: 0.0, hold: 0.0, decay: 0.0, sustain: 1.0, release: 0.0 };
    let mut env = Envelope::new(desc, sr, true, 100);
    for _ in 0..50 {
        env.process();
    }
    env.release();
    let dur = samples_until_finished(&mut env);
    let expected_min: usize = (0.05 * sr as f32) as usize;
    assert!(dur >= expected_min, "release with zero descriptor should have floor: got {dur} samples, expected >= {expected_min}");
}

#[test]
fn kill_release_is_short() {
    let sr: u32 = 44100;
    let desc = EnvelopeDescriptor { release: 2.0, ..EnvelopeDescriptor::default() };
    let mut env = Envelope::new(desc, sr, true, 100);
    for _ in 0..50 {
        env.process();
    }
    env.kill();
    let dur = samples_until_finished(&mut env);
    let expected: usize = (0.005 * sr as f32) as usize;
    let epsilon: usize = (0.002 * sr as f32) as usize;
    assert!(
        (dur as isize - expected as isize).unsigned_abs() <= epsilon,
        "kill release: got {dur} samples, expected ~{expected}"
    );
}
