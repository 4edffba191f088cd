use dysonphere::sfz::{
    apply_opcode, classify_line, parse_regions, plan_sample_buffers, require_regions, sfz_region, tokenize, Error, FloatOpcode,
    LineKind, PendingRegion, Token,
};
use dysonphere::types::LoopMode;

fn header(t: &Token) -> Option<&str> {
    match t {
        Token::Header(h) => Some(h.as_str()),
        Token::Opcode(..) => None,
    }
}

fn opcode(t: &Token) -> Option<(&str, &str)> {
    match t {
        Token::Opcode(k, v) => Some((k.as_str(), v.as_str())),
        Token::Header(_) => None,
    }
}

fn set(r: &mut PendingRegion, k: &str, v: &str) {
    apply_opcode(r, &k.to_string(), &v.to_string());
}

#[test]
fn tokenize_reads_headers_opcodes_and_comments() {
    let text = "<Region>\n  sample=piano.wav // main sample\r\n LoKey = 10 \n// a comment\n\nnot an opcode\n<group>\n";
    let toks = tokenize(text);
    assert_eq!(toks.len(), 4);
    assert_eq!(header(&toks[0]), Some("region"));
    assert_eq!(opcode(&toks[1]), Some(("sample", "piano.wav")));
    assert_eq!(opcode(&toks[2]), Some(("lokey", "10")));
    assert_eq!(header(&toks[3]), Some("group"));
}

#[test]
fn tokenize_keeps_value_case_and_inner_equals() {
    let toks = tokenize("Sample=Dir\\A=B.wav");
    assert_eq!(toks.len(), 1);
    assert_eq!(opcode(&toks[0]), Some(("sample", "Dir\\A=B.wav")));
}

#[test]
fn new_region_has_defaults() {
    let r = PendingRegion::new();
    assert_eq!(r.sample_filename, "");
    assert!(r.default_path.is_none());
    assert_eq!((r.lokey, r.hikey, r.lovel, r.hivel, r.pitch_keycenter), (0, 127, 0, 127, 60));
    assert_eq!((r.volume, r.pan, r.tune), (0, 0, 0));
    assert_eq!(r.loop_mode, LoopMode::NoLoop);
    assert_eq!((r.loop_start, r.loop_end, r.offset), (0, 0, 0));
    assert!(r.float_opcodes.is_empty());
}

#[test]
fn apply_opcode_sets_integer_fields() {
    let mut r = PendingRegion::new();
    set(&mut r, "key", "64");
    assert_eq!((r.lokey, r.hikey, r.pitch_keycenter), (64, 64, 64));
    set(&mut r, "lovel", "20");
    set(&mut r, "hivel", "+100");
    assert_eq!((r.lovel, r.hivel), (20, 100));
    set(&mut r, "volume", "-6");
    set(&mut r, "pan", "-100");
    set(&mut r, "tune", "25");
    assert_eq!((r.volume, r.pan, r.tune), (-6, -100, 25));
    set(&mut r, "loop_start", "4000000000");
    set(&mut r, "loop_end", "12");
    set(&mut r, "offset", "7");
    assert_eq!((r.loop_start, r.loop_end, r.offset), (4000000000, 12, 7));
}

#[test]
fn apply_opcode_ignores_unparsable_values() {
    let mut r = PendingRegion::new();
    set(&mut r, "lokey", "200");
    set(&mut r, "hikey", "abc");
    set(&mut r, "lovel", "-1");
    set(&mut r, "volume", "1.5");
    set(&mut r, "pan", "-");
    set(&mut r, "loop_start", "");
    set(&mut r, "unknown", "5");
    assert_eq!((r.lokey, r.hikey, r.lovel, r.volume, r.pan, r.loop_start), (0, 127, 0, 0, 0, 0));
}

#[test]
fn apply_opcode_paths_and_modes() {
    let mut r = PendingRegion::new();
    set(&mut r, "sample", "dir\\sub\\a.wav");
    assert_eq!(r.sample_filename, "dir/sub/a.wav");
    set(&mut r, "default_path", "samples\\");
    assert_eq!(r.default_path.as_deref(), Some("samples/"));
    set(&mut r, "loop_mode", "loop_sustain");
    assert_eq!(r.loop_mode, LoopMode::LoopSustain);
    set(&mut r, "loop_mode", "one_shot");
    assert_eq!(r.loop_mode, LoopMode::OneShot);
    set(&mut r, "loop_mode", "whatever");
    assert_eq!(r.loop_mode, LoopMode::NoLoop);
}

#[test]
fn apply_opcode_keeps_fractional_opcodes_in_order() {
    let mut r = PendingRegion::new();
    set(&mut r, "ampeg_attack", "0.5");
    set(&mut r, "cutoff", "x");
    set(&mut r, "ampeg_sustain", "80");
    assert_eq!(r.float_opcodes.len(), 3);
    assert_eq!(r.float_opcodes[0].0, FloatOpcode::AmpegAttack);
    assert_eq!(r.float_opcodes[0].1, "0.5");
    assert_eq!(r.float_opcodes[1].0, FloatOpcode::Cutoff);
    assert_eq!(r.float_opcodes[2].0, FloatOpcode::AmpegSustain);
    assert_eq!(r.float_opcodes[2].1, "80");
}

#[test]
fn parse_regions_inherits_from_headers() {
    let text = "<global>\nvolume=3\n<group>\nlokey=40\n<region>\nsample=a.wav\n<region>\nhikey=50\n<region>\nsample=b.wav\nkey=70\n<region>\nsample=c.wav\n";
    let regions = parse_regions(&tokenize(text));
    assert_eq!(regions.len(), 3);
    assert_eq!(regions[0].sample_filename, "a.wav");
    assert_eq!((regions[0].volume, regions[0].lokey, regions[0].hikey), (3, 40, 127));
    assert_eq!(regions[1].sample_filename, "b.wav");
    assert_eq!((regions[1].volume, regions[1].lokey, regions[1].hikey, regions[1].pitch_keycenter), (3, 70, 70, 70));
    assert_eq!(regions[2].sample_filename, "c.wav");
    assert_eq!((regions[2].volume, regions[2].lokey, regions[2].hikey), (3, 40, 127));
}

#[test]
fn region_open_at_a_group_header_is_discarded() {
    let text = "<region>\nsample=a.wav\n<group>\nlokey=1\n<region>\nsample=b.wav\n";
    let regions = parse_regions(&tokenize(text));
    assert_eq!(regions.len(), 1);
    assert_eq!(regions[0].sample_filename, "b.wav");
    assert_eq!(regions[0].lokey, 1);
}

#[test]
fn parse_regions_control_takes_only_default_path() {
    let text = "<control>\ndefault_path=samples\\\nlokey=5\n<region>\nsample=x.wav\n";
    let regions = parse_regions(&tokenize(text));
    assert_eq!(regions.len(), 1);
    assert_eq!(regions[0].default_path.as_deref(), Some("samples/"));
    assert_eq!(regions[0].lokey, 0);
}

#[test]
fn parse_regions_without_region_header_is_empty() {
    assert!(parse_regions(&tokenize("<group>\nsample=a.wav\n")).is_empty());
    assert!(parse_regions(&tokenize("")).is_empty());
}

#[test]
fn unknown_header_ends_control_section() {
    let text = "<control>\n<curve>\nlokey=9\n<region>\nsample=y.wav\n";
    let regions = parse_regions(&tokenize(text));
    assert_eq!(regions.len(), 1);
    assert_eq!(regions[0].lokey, 9);
}

#[test]
fn require_regions_errors_on_none() {
    assert!(require_regions(2).is_ok());
    match require_regions(0) {
        Err(Error::Parse(m)) => assert_eq!(m, "No regions found in SFZ file"),
        _ => panic!("expected a parse error"),
    }
}

#[test]
fn sfz_region_converts_and_caps_positions() {
    let mut r = PendingRegion::new();
    set(&mut r, "lokey", "-1");
    set(&mut r, "loop_start", "100");
    set(&mut r, "loop_end", "60");
    set(&mut r, "offset", "10");
    set(&mut r, "loop_mode", "loop_continuous");
    let region = sfz_region(&r, 150, 22050, 44100, ());
    assert_eq!(region.key_range.lo, 255);
    assert_eq!(region.loop_start, 150);
    assert_eq!(region.loop_end, 120);
    assert_eq!(region.offset, 20);
    assert_eq!(region.sample_end, 150);
    assert_eq!(region.original_sample_rate, 22050);
    assert_eq!(region.loop_mode, LoopMode::LoopContinuous);
    assert_eq!(region.root_key, 60);
    assert!(region.exclusive_class.is_none());
}

#[test]
fn classify_line_reads_preprocessor_lines() {
    match classify_line("   #include \"inc\\a.sfz\"  ") {
        LineKind::Include(p) => assert_eq!(p, "inc/a.sfz"),
        _ => panic!("expected an include"),
    }
    assert!(matches!(classify_line("#define $X 10"), LineKind::Define));
    assert!(matches!(classify_line("sample=a.wav"), LineKind::Text));
    assert!(matches!(classify_line(""), LineKind::Text));
    match classify_line("#include") {
        LineKind::Include(p) => assert_eq!(p, ""),
        _ => panic!("expected an include"),
    }
}

#[test]
fn sample_buffers_one_per_distinct_file() {
    let keys: Vec<Vec<u8>> = vec![b"a".to_vec(), b"b".to_vec(), b"a".to_vec(), b"c".to_vec(), b"b".to_vec()];
    let (slots, firsts) = plan_sample_buffers(&keys);
    assert_eq!(firsts, vec![0, 1, 3]);
    assert_eq!(slots, vec![0, 1, 0, 2, 1]);
    let (slots, firsts) = plan_sample_buffers(&Vec::new());
    assert!(slots.is_empty() && firsts.is_empty());
}
