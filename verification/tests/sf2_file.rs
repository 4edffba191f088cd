use dysonphere::sf2::{Error, GeneratorKind, SampleLinkType, Sf2Amount};
use dysonphere::sf2file::{check_sf2_layout, chunk_range, load_sf2, sm24_frames, ChunkError, ChunkInfo};

fn chunk(id: &[u8; 4], body: &[u8]) -> Vec<u8> {
    let mut v = id.to_vec();
    v.extend_from_slice(&(body.len() as u32).to_le_bytes());
    v.extend_from_slice(body);
    if body.len() % 2 == 1 {
        v.push(0);
    }
    v
}

fn list(kind: &[u8; 4], chunks: &[Vec<u8>]) -> Vec<u8> {
    let mut body = kind.to_vec();
    for c in chunks {
        body.extend_from_slice(c);
    }
    chunk(b"LIST", &body)
}

fn name(s: &str) -> Vec<u8> {
    let mut v = s.as_bytes().to_vec();
    v.resize(20, 0);
    v
}

fn u16s(vals: &[u16]) -> Vec<u8> {
    vals.iter().flat_map(|v| v.to_le_bytes()).collect()
}

fn phdr(n: &str, preset: u16, bank: u16, bag: u16) -> Vec<u8> {
    let mut v = name(n);
    v.extend(u16s(&[preset, bank, bag]));
    v.extend_from_slice(&[0u8; 12]);
    v
}

fn shdr(n: &str, start: u32, end: u32, ls: u32, le: u32, rate: u32, link_type: u16) -> Vec<u8> {
    let mut v = name(n);
    for x in [start, end, ls, le, rate] {
        v.extend_from_slice(&x.to_le_bytes());
    }
    v.extend_from_slice(&[60u8, 0u8]);
    v.extend(u16s(&[0, link_type]));
    v
}

/// A small SF2 file: presets "B" (bank 1, program 0) and "A" (bank 0,
/// program 5), in that order, both on one instrument whose zone covers keys
/// 0-60 with sample 0.
fn small_sf2() -> Vec<u8> {
    sf2_with_bags(1, 1)
}

/// The same file with preset "A" and instrument "I" starting at the given
/// bag indices.
fn sf2_with_bags(preset_a_bag: u16, inst_bag: u16) -> Vec<u8> {
    let mut ifil = u16s(&[2, 1]);
    ifil.resize(4, 0);
    let info = list(b"INFO", &[chunk(b"ifil", &ifil)]);
    let sdta = list(b"sdta", &[chunk(b"smpl", &u16s(&[0, 1000, 2000, 3000]))]);
    let mut presets = phdr("B", 0, 1, 0);
    presets.extend(phdr("A", 5, 0, preset_a_bag));
    presets.extend(phdr("EOP", 0, 0, 2));
    let mut inst = name("I");
    inst.extend(u16s(&[0]));
    inst.extend(name("EOI"));
    inst.extend(u16s(&[inst_bag]));
    let mut samples = shdr("S", 0, 4, 1, 3, 22050, 1);
    samples.extend(shdr("EOS", 0, 0, 0, 0, 0, 0));
    let pdta = list(
        b"pdta",
        &[
            chunk(b"phdr", &presets),
            chunk(b"pbag", &u16s(&[0, 0, 1, 0, 2, 0])),
            chunk(b"pmod", &[0u8; 10]),
            chunk(b"pgen", &u16s(&[41, 0, 41, 0, 0, 0])),
            chunk(b"inst", &inst),
            chunk(b"ibag", &u16s(&[0, 0, 2, 0])),
            chunk(b"imod", &[0u8; 10]),
            chunk(b"igen", &[u16s(&[43]), vec![0, 60], u16s(&[53, 0, 0, 0])].concat()),
            chunk(b"shdr", &samples),
        ],
    );
    let mut body = b"sfbk".to_vec();
    body.extend(info);
    body.extend(sdta);
    body.extend(pdta);
    chunk(b"RIFF", &body)
}

#[test]
fn load_sf2_reads_and_orders_presets() {
    let bytes = small_sf2();
    let c = load_sf2(&bytes).unwrap();
    assert_eq!(c.presets.len(), 2);
    assert_eq!((c.presets[0].name.as_str(), c.presets[0].bank, c.presets[0].preset), ("A", 0, 5));
    assert_eq!((c.presets[1].name.as_str(), c.presets[1].bank, c.presets[1].preset), ("B", 1, 0));
    assert_eq!(c.presets[0].zones.len(), 1);
    let g = &c.presets[0].zones[0].gen_list;
    assert_eq!(g.len(), 1);
    assert_eq!(g[0].ty, Some(GeneratorKind::Instrument));
    assert_eq!(g[0].amount, Sf2Amount::U16(0));
    // The crate drops only an instrument named "EOS", so the "EOI" record stays.
    assert_eq!(c.instruments.len(), 2);
    assert_eq!(c.instruments[1].zones.len(), 1);
    assert!(c.instruments[1].zones[0].gen_list.is_empty());
    let ig = &c.instruments[0].zones[0].gen_list;
    assert_eq!(ig[0].ty, Some(GeneratorKind::KeyRange));
    assert_eq!(ig[0].amount, Sf2Amount::Range(0, 60));
    assert_eq!(ig[1].ty, Some(GeneratorKind::SampleID));
    assert_eq!(c.samples.len(), 1);
    let s = c.samples[0];
    assert_eq!((s.start, s.end, s.loop_start, s.loop_end, s.sample_rate), (0, 4, 1, 3, 22050));
    assert_eq!(s.link_type, SampleLinkType::Mono);
    let smpl = c.smpl.unwrap();
    assert_eq!(smpl.len, 8);
    let (a, b) = chunk_range(bytes.len(), c.smpl).unwrap();
    assert_eq!(&bytes[a..b], &u16s(&[0, 1000, 2000, 3000])[..]);
    assert!(c.sm24.is_none());
}

#[test]
fn load_sf2_reports_parse_errors() {
    match load_sf2(&[0u8; 4]) {
        Err(Error::Parse(m)) => assert!(m.starts_with("Failed to parse SF2: "), "{m}"),
        _ => panic!("expected a parse error"),
    }
}

#[test]
fn chunk_ranges() {
    assert_eq!(chunk_range(100, None), Err(ChunkError::Missing));
    assert_eq!(chunk_range(100, Some(ChunkInfo { offset: 10, len: 20 })), Ok((10, 30)));
    assert_eq!(chunk_range(100, Some(ChunkInfo { offset: 90, len: 10 })), Ok((90, 100)));
    assert_eq!(chunk_range(100, Some(ChunkInfo { offset: 90, len: 11 })), Err(ChunkError::PastEnd));
    assert_eq!(chunk_range(100, Some(ChunkInfo { offset: 500, len: 0 })), Ok((0, 0)));
}

#[test]
fn sm24_length_check() {
    assert_eq!(sm24_frames(10, 5).unwrap(), 5);
    assert_eq!(sm24_frames(11, 6).unwrap(), 5);
    match sm24_frames(10, 4) {
        Err(Error::Parse(m)) => assert_eq!(m, "sm24 chunk too short"),
        _ => panic!("expected a parse error"),
    }
}

fn layout_error(bytes: &[u8]) -> bool {
    matches!(load_sf2(bytes), Err(Error::Parse(ref m)) if m == "Malformed SF2 file layout")
}

#[test]
fn layout_check_accepts_a_sound_file() {
    assert!(check_sf2_layout(&small_sf2()));
    assert!(check_sf2_layout(&[]));
    assert!(check_sf2_layout(b"RIFF"));
}

#[test]
fn layout_check_rejects_what_the_parser_asserts() {
    let mut bad_riff = small_sf2();
    bad_riff[3] = b'X';
    assert!(!check_sf2_layout(&bad_riff));
    assert!(layout_error(&bad_riff));
    let mut bad_type = small_sf2();
    bad_type[8] = b'S';
    assert!(!check_sf2_layout(&bad_type));
    let mut bad_child = small_sf2();
    bad_child[12] = b'l';
    assert!(!check_sf2_layout(&bad_child));
    assert!(layout_error(&bad_child));
}

#[test]
fn layout_check_rejects_zones_past_the_bag_list() {
    // Preset "A" at bag 9 with 3 bags: "B"'s zones would run to bag 9.
    let bytes = sf2_with_bags(9, 1);
    assert!(!check_sf2_layout(&bytes));
    assert!(layout_error(&bytes));
    // The "EOI" header at bag 5 with 2 instrument bags.
    let bytes = sf2_with_bags(1, 5);
    assert!(!check_sf2_layout(&bytes));
    assert!(layout_error(&bytes));
    // Indices that go down leave the zone list empty, which the parser accepts.
    assert!(check_sf2_layout(&sf2_with_bags(0, 1)));
}
