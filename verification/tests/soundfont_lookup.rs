use dysonphere::soundfont::{
    format_of_path, single_preset_soundfont, LoadError, SampleSoundfont, SoundFontWrapper, SoundfontFormat,
};
use dysonphere::types::{
    convert_sample_index, AudioStreamParams, ChannelCount, KeyRange, LoopMode, PresetRegions, Region, SoundFont,
};

fn region(keys: (u8, u8), vels: (u8, u8), tag: u32) -> Region<u32> {
    Region {
        key_range: KeyRange { lo: keys.0, hi: keys.1 },
        vel_range: KeyRange { lo: vels.0, hi: vels.1 },
        root_key: 60,
        original_sample_rate: 44100,
        loop_mode: LoopMode::NoLoop,
        loop_start: 0,
        loop_end: 0,
        sample_end: 10,
        offset: 0,
        exclusive_class: None,
        sound: tag,
    }
}

fn preset(bank: u16, program: u16, name: &str, regions: Vec<Region<u32>>) -> PresetRegions<u32> {
    PresetRegions { bank, program, name: name.to_string(), regions }
}

fn font() -> SoundFont<u32, ()> {
    SoundFont {
        presets: vec![
            preset(0, 1, "Strings", vec![region((0, 127), (0, 127), 9)]),
            preset(0, 0, "Piano", vec![
                region((0, 59), (0, 127), 1),
                region((60, 127), (0, 63), 2),
                region((60, 127), (64, 127), 3),
                region((50, 70), (0, 127), 4),
            ]),
            preset(0, 0, "Shadowed", vec![region((0, 127), (0, 127), 5)]),
            preset(256, 128, "Wrapped", vec![region((0, 127), (0, 127), 6)]),
        ],
        sample_buffers: vec![],
    }
}

const PARAMS: AudioStreamParams = AudioStreamParams { sample_rate: 48000, channels: ChannelCount::Stereo };

#[test]
fn convert_sample_index_values() {
    assert_eq!(convert_sample_index(100, 44100, 44100), 100);
    assert_eq!(convert_sample_index(1, 44100, 22050), 1);
    assert_eq!(convert_sample_index(3, 2, 1), 2);
    assert_eq!(convert_sample_index(1, 3, 1), 0);
    assert_eq!(convert_sample_index(1000, 44100, 48000), 1088);
    assert_eq!(convert_sample_index(u32::MAX, 1, 2), u32::MAX);
    assert_eq!(convert_sample_index(5, 0, 44100), u32::MAX);
    assert_eq!(convert_sample_index(0, 0, 44100), 0);
    assert_eq!(convert_sample_index(0, 22050, 44100), 0);
}

#[test]
fn find_preset_takes_first_match() {
    let sf = font();
    assert_eq!(sf.find_preset(0, 0), Some(1));
    assert_eq!(sf.find_preset(0, 1), Some(0));
    assert_eq!(sf.find_preset(0, 128), Some(3));
    assert_eq!(sf.find_preset(1, 0), None);
}

#[test]
fn matching_regions_filters_by_key_and_velocity() {
    let sf = font();
    assert_eq!(sf.matching_regions(0, 0, 65, 100), Some((1, vec![2, 3])));
    assert_eq!(sf.matching_regions(0, 0, 40, 10), Some((1, vec![0])));
    assert_eq!(sf.matching_regions(0, 0, 60, 63), Some((1, vec![1, 3])));
    assert_eq!(sf.matching_regions(0, 7, 60, 63), None);
}

#[test]
fn wrapper_lists_presets_with_source() {
    let w = SoundFontWrapper::new(font(), PARAMS, "bank.sf2".to_string());
    let list = w.presets();
    assert_eq!(list.len(), 4);
    assert_eq!(list[1].name, "Piano");
    assert_eq!((list[3].bank, list[3].program), (256, 128));
    assert!(list.iter().all(|p| p.source_file == "bank.sf2"));
    assert_eq!(w.stream_params(), PARAMS);
    assert_eq!(w.source_name(), "bank.sf2");
    assert_eq!(w.soundfont().presets.len(), 4);
}

#[test]
fn formats_by_extension() {
    assert_eq!(format_of_path("piano.sf2"), Some(SoundfontFormat::Sf2));
    assert_eq!(format_of_path("dir/PIANO.SF2"), Some(SoundfontFormat::Sf2));
    assert_eq!(format_of_path("a.b/kit.sfz"), Some(SoundfontFormat::Sfz));
    assert_eq!(format_of_path("kit.SFZ"), Some(SoundfontFormat::Sfz));
    assert_eq!(format_of_path("kit.Sfz"), None);
    assert_eq!(format_of_path("sfz"), None);
    assert_eq!(format_of_path(".sf2"), None);
    assert_eq!(format_of_path("readme.txt"), None);
}

#[test]
fn sample_soundfont_dispatches_on_format() {
    let ok = SampleSoundfont::new("kit.sfz", PARAMS, |f: SoundfontFormat, rate: u32| {
        assert_eq!(f, SoundfontFormat::Sfz);
        assert_eq!(rate, 48000);
        Ok(font())
    })
    .unwrap();
    assert_eq!(ok.wrapper().presets().len(), 4);
    assert_eq!(ok.wrapper().source_name(), "kit.sfz");

    let err = SampleSoundfont::<u32, ()>::new("kit.sf2", PARAMS, |_f: SoundfontFormat, _r: u32| {
        Err("bad header".to_string())
    });
    assert!(matches!(err, Err(LoadError::Parse(ref m)) if m == "bad header"));

    let unsupported = SampleSoundfont::<u32, ()>::new("kit.wav", PARAMS, |_f: SoundfontFormat, _r: u32| {
        panic!("loader must not run")
    });
    assert!(matches!(unsupported, Err(LoadError::UnsupportedFormat)));
}

#[test]
fn single_preset_soundfont_shape() {
    let sf = single_preset_soundfont(vec![region((0, 127), (0, 127), 1)], vec![7u8]);
    assert_eq!(sf.presets.len(), 1);
    assert_eq!((sf.presets[0].bank, sf.presets[0].program), (0, 0));
    assert_eq!(sf.presets[0].name, "SFZ Preset");
    assert_eq!(sf.presets[0].regions.len(), 1);
    assert_eq!(sf.sample_buffers, vec![7u8]);
}
