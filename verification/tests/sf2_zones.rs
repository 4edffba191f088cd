use dysonphere::sf2::{
    apply_fixed, apply_generator, build_presets, intersect_ranges, parse_instruments, parse_zones,
    presets_buildable, resolve_zone, sum_option, sum_sample_offset, sustain_merge, timecents_merge, Sf2Generator,
    Sf2Amount, GeneratorKind, InstrumentZones, PresetZones, RawZone, SampleInfo, SampleLinkType, Sf2Zone,
};
use dysonphere::types::{KeyRange, LoopMode};

fn g(ty: GeneratorKind, amount: Sf2Amount) -> Sf2Generator {
    Sf2Generator { ty: Some(ty), amount }
}

fn zone(gens: Vec<Sf2Generator>) -> Sf2Zone {
    Sf2Zone { gen_list: gens }
}

fn sample(len: usize) -> SampleInfo {
    SampleInfo::from_header(1000, 1000 + len as u32, 1010, 1090, 22050, 60, -5, SampleLinkType::Mono, 7, len * 2)
}

#[test]
fn sample_info_relative_positions() {
    let s = sample(100);
    assert_eq!(s.original_length, 100);
    assert_eq!((s.loop_start, s.loop_end), (10, 90));
    assert_eq!(s.linked_sample, None);
    assert_eq!(s.data_len, 200);
    let linked = SampleInfo::from_header(0, 10, 0, 5, 44100, 60, 0, SampleLinkType::Left, 3, 10);
    assert_eq!(linked.linked_sample, Some(3));
}

#[test]
fn apply_generator_sets_fields() {
    let mut z = RawZone::empty();
    apply_generator(&mut z, GeneratorKind::KeyRange, &Sf2Amount::Range(10, 20));
    apply_generator(&mut z, GeneratorKind::SampleModes, &Sf2Amount::I16(3));
    apply_generator(&mut z, GeneratorKind::Keynum, &Sf2Amount::I16(300));
    apply_generator(&mut z, GeneratorKind::ExclusiveClass, &Sf2Amount::I16(-4));
    apply_generator(&mut z, GeneratorKind::SampleID, &Sf2Amount::U16(2));
    apply_generator(&mut z, GeneratorKind::Pan, &Sf2Amount::I16(-200));
    apply_generator(&mut z, GeneratorKind::Other, &Sf2Amount::I16(1));
    assert_eq!(z.keyrange, Some(KeyRange { lo: 10, hi: 20 }));
    assert_eq!(z.loop_mode, Some(LoopMode::LoopSustain));
    assert_eq!(z.fixed_key, Some(127));
    assert_eq!(z.exclusive_class, Some(0));
    assert_eq!(z.index, Some(2));
    assert_eq!(z.pan, Some(-200));
    apply_generator(&mut z, GeneratorKind::SampleModes, &Sf2Amount::I16(2));
    assert_eq!(z.loop_mode, Some(LoopMode::NoLoop));
    apply_generator(&mut z, GeneratorKind::Pan, &Sf2Amount::U16(5));
    assert_eq!(z.pan, None);
}

#[test]
fn parse_zones_uses_first_zone_as_global() {
    let zones = vec![
        zone(vec![g(GeneratorKind::InitialAttenuation, Sf2Amount::I16(30))]),
        zone(vec![g(GeneratorKind::SampleID, Sf2Amount::U16(0))]),
        zone(vec![
            g(GeneratorKind::InitialAttenuation, Sf2Amount::I16(5)),
            g(GeneratorKind::SampleID, Sf2Amount::U16(1)),
        ]),
        zone(vec![Sf2Generator { ty: None, amount: Sf2Amount::I16(9) }]),
    ];
    let out = parse_zones(&zones);
    assert_eq!(out.len(), 3);
    assert_eq!((out[0].index, out[0].attenuation), (Some(0), Some(30)));
    assert_eq!((out[1].index, out[1].attenuation), (Some(1), Some(5)));
    assert_eq!((out[2].index, out[2].attenuation), (None, Some(30)));
}

#[test]
fn parse_zones_keeps_first_zone_with_index() {
    let zones = vec![zone(vec![g(GeneratorKind::Instrument, Sf2Amount::U16(4))])];
    let out = parse_zones(&zones);
    assert_eq!(out.len(), 1);
    assert_eq!(out[0].index, Some(4));
}

#[test]
fn range_helpers() {
    assert_eq!(intersect_ranges(KeyRange { lo: 10, hi: 60 }, KeyRange { lo: 40, hi: 90 }), KeyRange { lo: 40, hi: 60 });
    assert_eq!(apply_fixed(KeyRange { lo: 10, hi: 60 }, Some(30)), KeyRange { lo: 30, hi: 30 });
    let empty = apply_fixed(KeyRange { lo: 10, hi: 60 }, Some(70));
    assert!(empty.lo > empty.hi);
    assert!(!empty.contains(70));
    assert_eq!(apply_fixed(KeyRange { lo: 10, hi: 60 }, None), KeyRange { lo: 10, hi: 60 });
}

#[test]
fn merge_helpers() {
    assert_eq!(sum_option(Some(3), None), 3);
    assert_eq!(sum_option(Some(-3), Some(10)), 7);
    assert_eq!(sum_sample_offset(Some(5), Some(1), None, Some(1)), 5 + 2 * 32768);
    assert_eq!(timecents_merge(0, None, None), -12000);
    assert_eq!(timecents_merge(0, Some(100), Some(-2000)), -1900);
    assert_eq!(timecents_merge(0, Some(100), None), -11900);
    assert_eq!(sustain_merge(0, Some(100), None), 100);
    assert_eq!(sustain_merge(0, Some(-10), Some(300)), 290);
}

#[test]
fn resolve_zone_combines_preset_and_instrument() {
    let mut p = RawZone::empty();
    p.keyrange = Some(KeyRange { lo: 30, hi: 80 });
    p.attenuation = Some(10);
    p.pan = Some(400);
    p.coarse_tune = Some(1);
    p.env_attack = Some(100);
    let mut i = RawZone::empty();
    i.keyrange = Some(KeyRange { lo: 50, hi: 100 });
    i.attenuation = Some(20);
    i.pan = Some(300);
    i.fine_tune = Some(7);
    i.loop_mode = Some(LoopMode::LoopContinuous);
    i.offset = Some(4);
    i.end_offset = Some(-20);
    i.root_override = Some(64);
    i.exclusive_class = Some(2);
    let s = sample(100);
    let r = resolve_zone(&p, &i, &s, 3, 44100);
    assert_eq!(r.key_range, KeyRange { lo: 50, hi: 80 });
    assert_eq!(r.vel_range, KeyRange { lo: 0, hi: 127 });
    assert_eq!(r.root_key, 64);
    assert_eq!(r.original_sample_rate, 22050);
    assert_eq!(r.offset, 8);
    assert_eq!(r.sample_end, 160);
    assert_eq!(r.loop_start, 20);
    assert_eq!(r.loop_end, 160);
    assert_eq!(r.loop_mode, LoopMode::LoopContinuous);
    assert_eq!(r.exclusive_class, Some(2));
    assert_eq!(r.sound.sample, 3);
    assert_eq!(r.sound.attenuation, 30);
    assert_eq!(r.sound.pan, 500);
    assert_eq!(r.sound.attack, -11900);
    assert_eq!(r.sound.delay, -12000);
    assert_eq!(r.sound.sustain, 0);
    assert_eq!(r.sound.fine_tune_cents, 7 - 5 + 100);
}

#[test]
fn resolve_zone_drops_empty_loop() {
    let p = RawZone::empty();
    let mut i = RawZone::empty();
    i.loop_mode = Some(LoopMode::LoopContinuous);
    i.loop_start_offset = Some(80);
    let s = sample(100);
    let r = resolve_zone(&p, &i, &s, 0, 22050);
    assert_eq!((r.loop_start, r.loop_end), (90, 90));
    assert_eq!(r.loop_mode, LoopMode::NoLoop);
    assert_eq!(r.root_key, 60);
}

#[test]
fn build_presets_resolves_every_pair() {
    let inst_zones = vec![InstrumentZones {
        zones: vec![
            zone(vec![g(GeneratorKind::InitialAttenuation, Sf2Amount::I16(6))]),
            zone(vec![
                g(GeneratorKind::KeyRange, Sf2Amount::Range(0, 59)),
                g(GeneratorKind::SampleID, Sf2Amount::U16(0)),
            ]),
            zone(vec![
                g(GeneratorKind::KeyRange, Sf2Amount::Range(60, 127)),
                g(GeneratorKind::SampleID, Sf2Amount::U16(1)),
            ]),
        ],
    }];
    let instruments = parse_instruments(&inst_zones);
    assert_eq!(instruments.len(), 1);
    assert_eq!(instruments[0].len(), 2);
    let samples = vec![sample(100), SampleInfo::from_header(0, 0, 0, 0, 44100, 60, 0, SampleLinkType::Mono, 0, 0)];
    let presets = vec![PresetZones {
        bank: 0,
        preset: 5,
        name: "Piano".to_string(),
        zones: vec![zone(vec![g(GeneratorKind::Instrument, Sf2Amount::U16(0))])],
    }];
    assert!(presets_buildable(&presets, &instruments, &samples));
    let built = build_presets(&presets, &instruments, &samples, 44100);
    assert_eq!(built.len(), 1);
    assert_eq!((built[0].bank, built[0].program), (0, 5));
    assert_eq!(built[0].name, "Piano");
    assert_eq!(built[0].regions.len(), 1);
    assert_eq!(built[0].regions[0].key_range, KeyRange { lo: 0, hi: 59 });
    assert_eq!(built[0].regions[0].sound.attenuation, 6);
}

#[test]
fn presets_buildable_rejects_missing_instrument_or_sample() {
    let instruments = parse_instruments(&vec![InstrumentZones {
        zones: vec![zone(vec![g(GeneratorKind::SampleID, Sf2Amount::U16(5))])],
    }]);
    let samples = vec![sample(100)];
    let to_inst = |k: u16| {
        vec![PresetZones {
            bank: 0,
            preset: 0,
            name: String::new(),
            zones: vec![zone(vec![g(GeneratorKind::Instrument, Sf2Amount::U16(k))])],
        }]
    };
    assert!(!presets_buildable(&to_inst(3), &instruments, &samples));
    assert!(!presets_buildable(&to_inst(0), &instruments, &samples));
    assert!(presets_buildable(&Vec::new(), &instruments, &samples));
}
