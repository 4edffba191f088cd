//! SF2 files: reading the file with the `soundfont` crate and turning its
//! presets, instruments and sample headers into the values that zone
//! resolution works on, with the presets in the crate's bank/program order.

use vstd::prelude::*;


use crate::wav::{le16, le32, read_le16, read_le32, tag_at};
use crate::sf2::{
    zone_gens, Error, GeneratorKind, InstrumentZones, PresetZones, SampleLinkType, Sf2Amount, Sf2Generator,
    Sf2Zone,
};

verus! {

/// `soundfont::SoundFont2`: a parsed SF2 file.
#[verifier::external_type_specification]
pub struct ExSoundFont2(soundfont::SoundFont2);

/// `soundfont::raw::Info`: the INFO list, which nothing here reads.
#[verifier::external_type_specification]
#[verifier::external_body]
pub struct ExInfo(soundfont::raw::Info);

/// `soundfont::Preset`: a preset header with its zones.
#[verifier::external_type_specification]
pub struct ExPreset(soundfont::Preset);

/// `soundfont::Instrument`: an instrument header with its zones.
#[verifier::external_type_specification]
pub struct ExInstrument(soundfont::Instrument);

/// `soundfont::raw::PresetHeader`.
#[verifier::external_type_specification]
pub struct ExPresetHeader(soundfont::raw::PresetHeader);

/// `soundfont::raw::InstrumentHeader`.
#[verifier::external_type_specification]
pub struct ExInstrumentHeader(soundfont::raw::InstrumentHeader);

/// `soundfont::Zone`: modulators and generators of a zone.
#[verifier::external_type_specification]
pub struct ExZone(soundfont::Zone);

/// `soundfont::raw::Modulator`, which nothing here reads.
#[verifier::external_type_specification]
#[verifier::external_body]
pub struct ExModulator(soundfont::raw::Modulator);

/// `soundfont::raw::Generator`: a generator type (known or raw id) and its amount.
#[verifier::external_type_specification]
pub struct ExGenerator(soundfont::raw::Generator);

/// `soundfont::SfEnum`: a known enum value or an unknown raw value.
#[verifier::external_type_specification]
#[verifier::reject_recursive_types(T)]
#[verifier::reject_recursive_types(RAW)]
pub struct ExSfEnum<T, RAW>(soundfont::SfEnum<T, RAW>);

/// `soundfont::raw::GeneratorType`.
#[verifier::external_type_specification]
pub struct ExGeneratorType(soundfont::raw::GeneratorType);

/// `soundfont::raw::GeneratorAmount`.
#[verifier::external_type_specification]
pub struct ExGeneratorAmount(soundfont::raw::GeneratorAmount);

/// `soundfont::raw::GeneratorAmountRange`.
#[verifier::external_type_specification]
pub struct ExGeneratorAmountRange(soundfont::raw::GeneratorAmountRange);

/// `soundfont::raw::SampleHeader`.
#[verifier::external_type_specification]
pub struct ExSampleHeader(soundfont::raw::SampleHeader);

/// `soundfont::raw::SampleLink`.
#[verifier::external_type_specification]
pub struct ExSampleLink(soundfont::raw::SampleLink);

/// `soundfont::raw::SampleData`: where the sample chunks lie in the file.
#[verifier::external_type_specification]
pub struct ExSampleData(soundfont::raw::SampleData);

/// `soundfont::raw::SampleChunk`.
#[verifier::external_type_specification]
pub struct ExSampleChunk(soundfont::raw::SampleChunk);

/// Where a sample chunk lies in the file.
#[derive(Debug, Clone, Copy, PartialEq, Eq, Structural)]
pub struct ChunkInfo {
    pub offset: u64,
    pub len: u32,
}

/// The values of a sample header that playback uses; `start`, `end` and
/// the loop points are frame numbers in the sample data.
#[derive(Debug, Clone, Copy, PartialEq, Eq, Structural)]
pub struct SampleHeaderInfo {
    pub start: u32,
    pub end: u32,
    pub loop_start: u32,
    pub loop_end: u32,
    pub sample_rate: u32,
    pub origpitch: u8,
    pub pitchadj: i8,
    pub sample_link: u16,
    pub link_type: SampleLinkType,
}

/// A preset's header values and zones, as values.
pub struct PresetView {
    pub bank: u16,
    pub preset: u16,
    pub name: Seq<char>,
    pub zones: Seq<Seq<Sf2Generator>>,
}

impl View for PresetZones {
    type V = PresetView;

    open spec fn view(&self) -> PresetView {
        PresetView { bank: self.bank, preset: self.preset, name: self.name@, zones: zone_gens(self.zones@) }
    }
}

/// What zone resolution reads of an SF2 file.
pub struct Sf2View {
    pub presets: Seq<PresetView>,
    pub instruments: Seq<Seq<Seq<Sf2Generator>>>,
    pub samples: Seq<SampleHeaderInfo>,
    pub smpl: Option<ChunkInfo>,
    pub sm24: Option<ChunkInfo>,
}

/// The presets, instruments and sample headers of an SF2 file.
pub struct Sf2Contents {
    pub presets: Vec<PresetZones>,
    pub instruments: Vec<InstrumentZones>,
    pub samples: Vec<SampleHeaderInfo>,
    /// The 16-bit sample data chunk.
    pub smpl: Option<ChunkInfo>,
    /// The chunk with the low bytes of 24-bit samples.
    pub sm24: Option<ChunkInfo>,
}

impl View for Sf2Contents {
    type V = Sf2View;

    open spec fn view(&self) -> Sf2View {
        Sf2View {
            presets: self.presets@.map_values(|p: PresetZones| p@),
            instruments: self.instruments@.map_values(|i: InstrumentZones| zone_gens(i.zones@)),
            samples: self.samples@,
            smpl: self.smpl,
            sm24: self.sm24,
        }
    }
}

/// The generator kind of a generator type the crate knows.
pub open spec fn generator_kind_of(t: soundfont::raw::GeneratorType) -> GeneratorKind {
    match t {
        soundfont::raw::GeneratorType::StartAddrsOffset => GeneratorKind::StartAddrsOffset,
        soundfont::raw::GeneratorType::EndAddrsOffset => GeneratorKind::EndAddrsOffset,
        soundfont::raw::GeneratorType::StartAddrsCoarseOffset => GeneratorKind::StartAddrsCoarseOffset,
        soundfont::raw::GeneratorType::EndAddrsCoarseOffset => GeneratorKind::EndAddrsCoarseOffset,
        soundfont::raw::GeneratorType::StartloopAddrsOffset => GeneratorKind::StartloopAddrsOffset,
        soundfont::raw::GeneratorType::StartloopAddrsCoarseOffset => GeneratorKind::StartloopAddrsCoarseOffset,
        soundfont::raw::GeneratorType::EndloopAddrsOffset => GeneratorKind::EndloopAddrsOffset,
        soundfont::raw::GeneratorType::EndloopAddrsCoarseOffset => GeneratorKind::EndloopAddrsCoarseOffset,
        soundfont::raw::GeneratorType::Pan => GeneratorKind::Pan,
        soundfont::raw::GeneratorType::DelayVolEnv => GeneratorKind::DelayVolEnv,
        soundfont::raw::GeneratorType::AttackVolEnv => GeneratorKind::AttackVolEnv,
        soundfont::raw::GeneratorType::HoldVolEnv => GeneratorKind::HoldVolEnv,
        soundfont::raw::GeneratorType::DecayVolEnv => GeneratorKind::DecayVolEnv,
        soundfont::raw::GeneratorType::SustainVolEnv => GeneratorKind::SustainVolEnv,
        soundfont::raw::GeneratorType::ReleaseVolEnv => GeneratorKind::ReleaseVolEnv,
        soundfont::raw::GeneratorType::KeyRange => GeneratorKind::KeyRange,
        soundfont::raw::GeneratorType::VelRange => GeneratorKind::VelRange,
        soundfont::raw::GeneratorType::InitialAttenuation => GeneratorKind::InitialAttenuation,
        soundfont::raw::GeneratorType::CoarseTune => GeneratorKind::CoarseTune,
        soundfont::raw::GeneratorType::FineTune => GeneratorKind::FineTune,
        soundfont::raw::GeneratorType::SampleID => GeneratorKind::SampleID,
        soundfont::raw::GeneratorType::Instrument => GeneratorKind::Instrument,
        soundfont::raw::GeneratorType::SampleModes => GeneratorKind::SampleModes,
        soundfont::raw::GeneratorType::Keynum => GeneratorKind::Keynum,
        soundfont::raw::GeneratorType::Velocity => GeneratorKind::Velocity,
        soundfont::raw::GeneratorType::ScaleTuning => GeneratorKind::ScaleTuning,
        soundfont::raw::GeneratorType::ExclusiveClass => GeneratorKind::ExclusiveClass,
        soundfont::raw::GeneratorType::OverridingRootKey => GeneratorKind::OverridingRootKey,
        _ => GeneratorKind::Other,
    }
}

pub open spec fn generator_view(g: soundfont::raw::Generator) -> Sf2Generator {
    Sf2Generator {
        ty: match g.ty {
            soundfont::SfEnum::Value(t) => Some(generator_kind_of(t)),
            soundfont::SfEnum::Unknown(_) => None,
        },
        amount: match g.amount {
            soundfont::raw::GeneratorAmount::I16(v) => Sf2Amount::I16(v),
            soundfont::raw::GeneratorAmount::U16(v) => Sf2Amount::U16(v),
            soundfont::raw::GeneratorAmount::Range(r) => Sf2Amount::Range(r.low, r.high),
        },
    }
}

pub open spec fn zone_view(z: soundfont::Zone) -> Seq<Sf2Generator> {
    z.gen_list@.map_values(|g: soundfont::raw::Generator| generator_view(g))
}

pub open spec fn zones_view(zs: Seq<soundfont::Zone>) -> Seq<Seq<Sf2Generator>> {
    zs.map_values(|z: soundfont::Zone| zone_view(z))
}

pub open spec fn preset_view(p: soundfont::Preset) -> PresetView {
    PresetView { bank: p.header.bank, preset: p.header.preset, name: p.header.name@, zones: zones_view(p.zones@) }
}

pub open spec fn preset_views(ps: Seq<soundfont::Preset>) -> Seq<PresetView> {
    ps.map_values(|p: soundfont::Preset| preset_view(p))
}

/// The stereo role of a sample link (ROM and Vorbis samples as their plain
/// counterparts).
pub open spec fn link_type_of(l: soundfont::raw::SampleLink) -> SampleLinkType {
    match l {
        soundfont::raw::SampleLink::LeftSample | soundfont::raw::SampleLink::RomLeftSample | soundfont::raw::SampleLink::VorbisLeftSample => SampleLinkType::Left,
        soundfont::raw::SampleLink::RightSample | soundfont::raw::SampleLink::RomRightSample | soundfont::raw::SampleLink::VorbisRightSample => SampleLinkType::Right,
        soundfont::raw::SampleLink::LinkedSample | soundfont::raw::SampleLink::RomLinkedSample | soundfont::raw::SampleLink::VorbisLinkedSample => SampleLinkType::Linked,
        _ => SampleLinkType::Mono,
    }
}

pub open spec fn header_view(h: soundfont::raw::SampleHeader) -> SampleHeaderInfo {
    SampleHeaderInfo {
        start: h.start,
        end: h.end,
        loop_start: h.loop_start,
        loop_end: h.loop_end,
        sample_rate: h.sample_rate,
        origpitch: h.origpitch,
        pitchadj: h.pitchadj,
        sample_link: h.sample_link,
        link_type: link_type_of(h.sample_type),
    }
}

pub open spec fn chunk_view(c: Option<soundfont::raw::SampleChunk>) -> Option<ChunkInfo> {
    match c {
        Some(c) => Some(ChunkInfo { offset: c.offset, len: c.len }),
        None => None,
    }
}

/// What zone resolution reads of a parsed file, in the file's order.
pub open spec fn sf2_view(sf: soundfont::SoundFont2) -> Sf2View {
    Sf2View {
        presets: preset_views(sf.presets@),
        instruments: sf.instruments@.map_values(|i: soundfont::Instrument| zones_view(i.zones@)),
        samples: sf.sample_headers@.map_values(|h: soundfont::raw::SampleHeader| header_view(h)),
        smpl: chunk_view(sf.sample_data.smpl),
        sm24: chunk_view(sf.sample_data.sm24),
    }
}

/// What `SoundFont2::load` reads from the bytes of a file, or the text of
/// its error (`Debug` form).
pub uninterp spec fn sf2_file(bytes: Seq<u8>) -> Result<Sf2View, Seq<char>>;

/// Calls `soundfont::SoundFont2::load` on the bytes of a file. The result
/// is a function of the bytes alone. The crate panics where its chunk-id
/// assertions fail or a header's zones run past its bag list;
/// [`sf2_layout_sound`] excludes those files. Left unsaid: a chunk whose
/// declared length runs past the file has the crate allocate that many
/// bytes before its read fails.
#[verifier::external_body]
fn read_sf2(bytes: &[u8]) -> (r: Result<soundfont::SoundFont2, String>)
    requires
        sf2_layout_sound(bytes@),
    ensures
        match r {
            Ok(sf) => sf2_file(bytes@) == Ok::<Sf2View, Seq<char>>(sf2_view(sf)),
            Err(m) => sf2_file(bytes@) == Err::<Sf2View, Seq<char>>(m@),
        },
{
    soundfont::SoundFont2::load(&mut std::io::Cursor::new(bytes)).map_err(|e| format!("{e:?}"))
}

/// The number the crate orders presets by: `(bank as i32) << 16 | preset`.
pub open spec fn preset_key(p: PresetView) -> int {
    if p.bank < 32768 {
        p.bank * 65536 + p.preset
    } else {
        p.bank * 65536 + p.preset - 0x1_0000_0000
    }
}

/// Whether the crate's comparison (the `i32` difference of two keys) can be
/// computed for every pair of presets.
pub open spec fn presets_orderable(ps: Seq<PresetView>) -> bool {
    forall|i: int, j: int| 0 <= i < ps.len() && 0 <= j < ps.len() ==> preset_key(ps[i]) - preset_key(ps[j]) <= 0x7fff_ffff
}

/// The items whose key is `k`.
pub open spec fn with_key<T>(key: spec_fn(T) -> int, k: int) -> spec_fn(T) -> bool {
    |x: T| key(x) == k
}

/// Whether `r` is `s` sorted by `key`, keeping the order of items with equal keys.
pub open spec fn stable_sorted_by<T>(r: Seq<T>, s: Seq<T>, key: spec_fn(T) -> int) -> bool {
    &&& r.len() == s.len()
    &&& forall|i: int, j: int| 0 <= i < j < r.len() ==> key(r[i]) <= key(r[j])
    &&& forall|k: int| #[trigger] r.filter(with_key(key, k)) == s.filter(with_key(key, k))
}

/// Calls `SoundFont2::sort_presets`, a stable sort of the presets by
/// [`preset_key`]; everything else is kept.
#[verifier::external_body]
fn sort_sf2(sf: soundfont::SoundFont2) -> (r: soundfont::SoundFont2)
    requires
        presets_orderable(preset_views(sf.presets@)),
    ensures
        r.instruments@ == sf.instruments@,
        r.sample_headers@ == sf.sample_headers@,
        r.sample_data == sf.sample_data,
        stable_sorted_by(preset_views(r.presets@), preset_views(sf.presets@), |p: PresetView| preset_key(p)),
{
    sf.sort_presets()
}

fn preset_key_of(p: &soundfont::Preset) -> (r: i64)
    ensures
        r == preset_key(preset_view(*p)),
{
    let b = p.header.bank as i64;
    let k = b * 65536 + p.header.preset as i64;
    if b < 32768 {
        k
    } else {
        k - 0x1_0000_0000
    }
}

fn orderable(ps: &Vec<soundfont::Preset>) -> (r: bool)
    ensures
        r == presets_orderable(preset_views(ps@)),
{
    let ghost v = preset_views(ps@);
    if ps.len() == 0 {
        return true;
    }
    let mut lo = preset_key_of(&ps[0]);
    let mut hi = lo;
    let ghost mut la: int = 0;
    let ghost mut ha: int = 0;
    assert(v[0] == preset_view(ps@[0]));
    let mut i: usize = 1;
    while i < ps.len()
        invariant
            1 <= i <= ps@.len(),
            v == preset_views(ps@),
            v.len() == ps@.len(),
            0 <= la < i && preset_key(v[la]) == lo,
            0 <= ha < i && preset_key(v[ha]) == hi,
            forall|a: int| 0 <= a < i ==> lo <= preset_key(#[trigger] v[a]) <= hi,
        decreases ps@.len() - i,
    {
        let k = preset_key_of(&ps[i]);
        assert(v[i as int] == preset_view(ps@[i as int]));
        if k < lo {
            lo = k;
            proof {
                la = i as int;
            }
        }
        if k > hi {
            hi = k;
            proof {
                ha = i as int;
            }
        }
        i = i + 1;
    }
    assert(preset_key(v[ha]) - preset_key(v[la]) == hi - lo);
    hi - lo <= 0x7fff_ffff
}

fn generator_kind(t: soundfont::raw::GeneratorType) -> (r: GeneratorKind)
    ensures
        r == generator_kind_of(t),
{
    match t {
        soundfont::raw::GeneratorType::StartAddrsOffset => GeneratorKind::StartAddrsOffset,
        soundfont::raw::GeneratorType::EndAddrsOffset => GeneratorKind::EndAddrsOffset,
        soundfont::raw::GeneratorType::StartAddrsCoarseOffset => GeneratorKind::StartAddrsCoarseOffset,
        soundfont::raw::GeneratorType::EndAddrsCoarseOffset => GeneratorKind::EndAddrsCoarseOffset,
        soundfont::raw::GeneratorType::StartloopAddrsOffset => GeneratorKind::StartloopAddrsOffset,
        soundfont::raw::GeneratorType::StartloopAddrsCoarseOffset => GeneratorKind::StartloopAddrsCoarseOffset,
        soundfont::raw::GeneratorType::EndloopAddrsOffset => GeneratorKind::EndloopAddrsOffset,
        soundfont::raw::GeneratorType::EndloopAddrsCoarseOffset => GeneratorKind::EndloopAddrsCoarseOffset,
        soundfont::raw::GeneratorType::Pan => GeneratorKind::Pan,
        soundfont::raw::GeneratorType::DelayVolEnv => GeneratorKind::DelayVolEnv,
        soundfont::raw::GeneratorType::AttackVolEnv => GeneratorKind::AttackVolEnv,
        soundfont::raw::GeneratorType::HoldVolEnv => GeneratorKind::HoldVolEnv,
        soundfont::raw::GeneratorType::DecayVolEnv => GeneratorKind::DecayVolEnv,
        soundfont::raw::GeneratorType::SustainVolEnv => GeneratorKind::SustainVolEnv,
        soundfont::raw::GeneratorType::ReleaseVolEnv => GeneratorKind::ReleaseVolEnv,
        soundfont::raw::GeneratorType::KeyRange => GeneratorKind::KeyRange,
        soundfont::raw::GeneratorType::VelRange => GeneratorKind::VelRange,
        soundfont::raw::GeneratorType::InitialAttenuation => GeneratorKind::InitialAttenuation,
        soundfont::raw::GeneratorType::CoarseTune => GeneratorKind::CoarseTune,
        soundfont::raw::GeneratorType::FineTune => GeneratorKind::FineTune,
        soundfont::raw::GeneratorType::SampleID => GeneratorKind::SampleID,
        soundfont::raw::GeneratorType::Instrument => GeneratorKind::Instrument,
        soundfont::raw::GeneratorType::SampleModes => GeneratorKind::SampleModes,
        soundfont::raw::GeneratorType::Keynum => GeneratorKind::Keynum,
        soundfont::raw::GeneratorType::Velocity => GeneratorKind::Velocity,
        soundfont::raw::GeneratorType::ScaleTuning => GeneratorKind::ScaleTuning,
        soundfont::raw::GeneratorType::ExclusiveClass => GeneratorKind::ExclusiveClass,
        soundfont::raw::GeneratorType::OverridingRootKey => GeneratorKind::OverridingRootKey,
        _ => GeneratorKind::Other,
    }
}

fn convert_generator(g: &soundfont::raw::Generator) -> (r: Sf2Generator)
    ensures
        r == generator_view(*g),
{
    let ty = match &g.ty {
        soundfont::SfEnum::Value(t) => Some(generator_kind(*t)),
        soundfont::SfEnum::Unknown(_) => None,
    };
    let amount = match &g.amount {
        soundfont::raw::GeneratorAmount::I16(v) => Sf2Amount::I16(*v),
        soundfont::raw::GeneratorAmount::U16(v) => Sf2Amount::U16(*v),
        soundfont::raw::GeneratorAmount::Range(r) => Sf2Amount::Range(r.low, r.high),
    };
    Sf2Generator { ty, amount }
}

fn convert_zones(zs: &Vec<soundfont::Zone>) -> (r: Vec<Sf2Zone>)
    ensures
        zone_gens(r@) == zones_view(zs@),
{
    let mut out: Vec<Sf2Zone> = Vec::new();
    let mut i: usize = 0;
    while i < zs.len()
        invariant
            i <= zs@.len(),
            out@.len() == i,
            forall|k: int| 0 <= k < i ==> (#[trigger] out@[k]).gen_list@ == zone_view(zs@[k]),
        decreases zs@.len() - i,
    {
        let gens = &zs[i].gen_list;
        let mut g: Vec<Sf2Generator> = Vec::new();
        let mut j: usize = 0;
        while j < gens.len()
            invariant
                j <= gens@.len(),
                g@.len() == j,
                forall|k: int| 0 <= k < j ==> g@[k] == generator_view(#[trigger] gens@[k]),
            decreases gens@.len() - j,
        {
            g.push(convert_generator(&gens[j]));
            j = j + 1;
        }
        assert(g@ =~= zone_view(zs@[i as int]));
        out.push(Sf2Zone { gen_list: g });
        i = i + 1;
    }
    assert(zone_gens(out@) =~= zones_view(zs@));
    out
}

fn link_type(l: soundfont::raw::SampleLink) -> (r: SampleLinkType)
    ensures
        r == link_type_of(l),
{
    match l {
        soundfont::raw::SampleLink::LeftSample | soundfont::raw::SampleLink::RomLeftSample | soundfont::raw::SampleLink::VorbisLeftSample => SampleLinkType::Left,
        soundfont::raw::SampleLink::RightSample | soundfont::raw::SampleLink::RomRightSample | soundfont::raw::SampleLink::VorbisRightSample => SampleLinkType::Right,
        soundfont::raw::SampleLink::LinkedSample | soundfont::raw::SampleLink::RomLinkedSample | soundfont::raw::SampleLink::VorbisLinkedSample => SampleLinkType::Linked,
        _ => SampleLinkType::Mono,
    }
}

fn chunk(c: &Option<soundfont::raw::SampleChunk>) -> (r: Option<ChunkInfo>)
    ensures
        r == chunk_view(*c),
{
    match c {
        Some(c) => Some(ChunkInfo { offset: c.offset, len: c.len }),
        None => None,
    }
}

/// The contents of a parsed file, in the file's order.
fn contents_of(sf: &soundfont::SoundFont2) -> (r: Sf2Contents)
    ensures
        r@ == sf2_view(*sf),
{
    let mut presets: Vec<PresetZones> = Vec::new();
    let mut i: usize = 0;
    while i < sf.presets.len()
        invariant
            i <= sf.presets@.len(),
            presets@.len() == i,
            forall|k: int| 0 <= k < i ==> (#[trigger] presets@[k])@ == preset_view(sf.presets@[k]),
        decreases sf.presets@.len() - i,
    {
        let p = &sf.presets[i];
        presets.push(PresetZones {
            bank: p.header.bank,
            preset: p.header.preset,
            name: p.header.name.clone(),
            zones: convert_zones(&p.zones),
        });
        i = i + 1;
    }
    let mut instruments: Vec<InstrumentZones> = Vec::new();
    let mut i: usize = 0;
    while i < sf.instruments.len()
        invariant
            i <= sf.instruments@.len(),
            instruments@.len() == i,
            forall|k: int| 0 <= k < i ==> zone_gens((#[trigger] instruments@[k]).zones@) == zones_view(sf.instruments@[k].zones@),
        decreases sf.instruments@.len() - i,
    {
        instruments.push(InstrumentZones { zones: convert_zones(&sf.instruments[i].zones) });
        i = i + 1;
    }
    let mut samples: Vec<SampleHeaderInfo> = Vec::new();
    let mut i: usize = 0;
    while i < sf.sample_headers.len()
        invariant
            i <= sf.sample_headers@.len(),
            samples@.len() == i,
            forall|k: int| 0 <= k < i ==> #[trigger] samples@[k] == header_view(sf.sample_headers@[k]),
        decreases sf.sample_headers@.len() - i,
    {
        let h = &sf.sample_headers[i];
        samples.push(SampleHeaderInfo {
            start: h.start,
            end: h.end,
            loop_start: h.loop_start,
            loop_end: h.loop_end,
            sample_rate: h.sample_rate,
            origpitch: h.origpitch,
            pitchadj: h.pitchadj,
            sample_link: h.sample_link,
            link_type: link_type(h.sample_type),
        });
        i = i + 1;
    }
    let r = Sf2Contents {
        presets,
        instruments,
        samples,
        smpl: chunk(&sf.sample_data.smpl),
        sm24: chunk(&sf.sample_data.sm24),
    };
    assert(r@.presets =~= preset_views(sf.presets@));
    assert(r@.instruments =~= sf2_view(*sf).instruments);
    assert(r@.samples =~= sf2_view(*sf).samples);
    r
}

/// Reads an SF2 file from its bytes: the crate's parse, with the presets
/// put in the crate's order (see [`sort_sf2`]). A parse error becomes
/// `Failed to parse SF2: ` and the error's text; presets whose order keys
/// the crate cannot compare are an error as well. A file on which the
/// crate's parser would panic (see [`sf2_layout_sound`]) is a parse error
/// before the crate is called.
pub fn load_sf2(bytes: &[u8]) -> (r: Result<Sf2Contents, Error>)
    ensures
        !sf2_layout_sound(bytes@) ==> (r matches Err(Error::Parse(e)) && e@ == "Malformed SF2 file layout"@),
        sf2_layout_sound(bytes@) ==> match sf2_file(bytes@) {
            Err(m) => r matches Err(Error::Parse(e)) && e@ == "Failed to parse SF2: "@ + m,
            Ok(v) => if presets_orderable(v.presets) {
                r matches Ok(c) && ({
                    &&& c@.instruments == v.instruments
                    &&& c@.samples == v.samples
                    &&& c@.smpl == v.smpl
                    &&& c@.sm24 == v.sm24
                    &&& stable_sorted_by(c@.presets, v.presets, |p: PresetView| preset_key(p))
                })
            } else {
                r matches Err(Error::Parse(e)) && e@ == "SF2 preset numbers cannot be ordered"@
            },
        },
{
    if !check_sf2_layout(bytes) {
        return Err(Error::Parse("Malformed SF2 file layout".to_owned()));
    }
    match read_sf2(bytes) {
        Err(m) => {
            let mut msg: Vec<char> = crate::text::chars_of("Failed to parse SF2: ");
            let mut rest: Vec<char> = crate::text::chars_of(m.as_str());
            let ghost p = msg@;
            let ghost q = rest@;
            msg.append(&mut rest);
            assert(msg@ == p + q);
            Err(Error::Parse(crate::text::string_from_chars(msg.as_slice())))
        },
        Ok(sf) => {
            if !orderable(&sf.presets) {
                return Err(Error::Parse("SF2 preset numbers cannot be ordered".to_owned()));
            }
            let sorted = sort_sf2(sf);
            let c = contents_of(&sorted);
            Ok(c)
        },
    }
}

/// Why a sample chunk cannot be read from the file's bytes.
#[derive(Debug, Clone, Copy, PartialEq, Eq, Structural)]
pub enum ChunkError {
    /// The file has no such chunk.
    Missing,
    /// The chunk runs past the end of the file.
    PastEnd,
}

/// The byte range of a sample chunk in a file of `file_len` bytes, as
/// seeking to its offset and reading its length gives it: an empty chunk
/// reads as nothing wherever it lies, any other must end within the file.
pub fn chunk_range(file_len: usize, chunk: Option<ChunkInfo>) -> (r: Result<(usize, usize), ChunkError>)
    ensures
        match chunk {
            None => r == Err::<(usize, usize), ChunkError>(ChunkError::Missing),
            Some(c) => if c.len == 0 {
                r == Ok::<(usize, usize), ChunkError>((0usize, 0usize))
            } else if c.offset + c.len <= file_len {
                r == Ok::<(usize, usize), ChunkError>((c.offset as usize, (c.offset + c.len) as usize))
            } else {
                r == Err::<(usize, usize), ChunkError>(ChunkError::PastEnd)
            },
        },
{
    match chunk {
        None => Err(ChunkError::Missing),
        Some(c) => {
            if c.len == 0 {
                Ok((0, 0))
            } else if (c.offset as u128) + (c.len as u128) <= file_len as u128 {
                Ok((c.offset as usize, (c.offset + c.len as u64) as usize))
            } else {
                Err(ChunkError::PastEnd)
            }
        },
    }
}

/// The number of 24-bit frames when an `sm24` chunk of `sm24_len` bytes
/// completes an `smpl` chunk of `smpl_len` bytes: one low byte per 16-bit
/// frame, and the chunk may not be shorter than that.
pub fn sm24_frames(smpl_len: usize, sm24_len: usize) -> (r: Result<usize, Error>)
    ensures
        sm24_len >= smpl_len / 2 ==> r == Ok::<usize, Error>(smpl_len / 2),
        sm24_len < smpl_len / 2 ==> (r matches Err(Error::Parse(m)) && m@ == "sm24 chunk too short"@),
{
    let count = smpl_len / 2;
    if sm24_len < count {
        Err(Error::Parse("sm24 chunk too short".to_owned()))
    } else {
        Ok(count)
    }
}

/// How the parser's walk over the RIFF list of a file ends.
pub enum WalkEnd {
    /// The walk reaches one of the parser's assertions, which panics.
    Panics,
    /// The parser returns an error before anything else.
    Errs,
    /// The list was read to its end: the position of the last `pdta` list.
    Done(Option<int>),
}

/// Where the next chunk starts after the chunk at `cur` (chunks are
/// padded to an even length).
pub open spec fn next_chunk(d: Seq<u8>, cur: int) -> int {
    cur + 8 + le32(d, cur + 4) + le32(d, cur + 4) % 2
}

/// The parser's walk over the children of the `RIFF` chunk from `cur` to
/// `end`: each must be a `LIST` (else its assertion panics) of type
/// `INFO`, `sdta` or `pdta` (else an error); a chunk it cannot read is an
/// error.
pub open spec fn riff_walk(d: Seq<u8>, cur: int, end: int, last: Option<int>) -> WalkEnd
    decreases (if 0 <= cur <= d.len() {
        d.len() - cur
    } else {
        0
    }),
{
    if cur >= end {
        WalkEnd::Done(last)
    } else if cur < 0 || cur + 8 > d.len() {
        WalkEnd::Errs
    } else if !tag_at(d, cur, 0x4c, 0x49, 0x53, 0x54) {
        WalkEnd::Panics
    } else if cur + 12 > d.len() {
        WalkEnd::Errs
    } else if tag_at(d, cur + 8, 0x70, 0x64, 0x74, 0x61) {
        riff_walk(d, next_chunk(d, cur), end, Some(cur))
    } else if tag_at(d, cur + 8, 0x49, 0x4e, 0x46, 0x4f) || tag_at(d, cur + 8, 0x73, 0x64, 0x74, 0x61) {
        riff_walk(d, next_chunk(d, cur), end, last)
    } else {
        WalkEnd::Errs
    }
}

/// The last `phdr`, `pbag`, `inst` and `ibag` chunks of a `pdta` list:
/// their positions.
pub struct HydraChunks {
    pub phdr: Option<int>,
    pub pbag: Option<int>,
    pub inst: Option<int>,
    pub ibag: Option<int>,
}

/// Whether a chunk of `rec`-byte records lies whole within the file and
/// holds at least one record (else the parser returns an error).
pub open spec fn records_readable(d: Seq<u8>, cur: int, rec: int) -> bool {
    let len = le32(d, cur + 4);
    len % rec == 0 && len != 0 && cur + 8 + len <= d.len()
}

/// The parser's walk over the children of a `pdta` list; `None` when it
/// returns an error (a chunk it cannot read, a record chunk of a bad size
/// or past the end of the file, or a chunk of another kind).
pub open spec fn hydra_walk(d: Seq<u8>, cur: int, end: int, st: HydraChunks) -> Option<HydraChunks>
    decreases (if 0 <= cur <= d.len() {
        d.len() - cur
    } else {
        0
    }),
{
    if cur >= end {
        Some(st)
    } else if cur < 0 || cur + 8 > d.len() {
        None
    } else {
        let next = next_chunk(d, cur);
        if tag_at(d, cur, 0x70, 0x68, 0x64, 0x72) {
            if records_readable(d, cur, 38) {
                hydra_walk(d, next, end, HydraChunks { phdr: Some(cur), ..st })
            } else {
                None
            }
        } else if tag_at(d, cur, 0x70, 0x62, 0x61, 0x67) {
            if records_readable(d, cur, 4) {
                hydra_walk(d, next, end, HydraChunks { pbag: Some(cur), ..st })
            } else {
                None
            }
        } else if tag_at(d, cur, 0x69, 0x6e, 0x73, 0x74) {
            if records_readable(d, cur, 22) {
                hydra_walk(d, next, end, HydraChunks { inst: Some(cur), ..st })
            } else {
                None
            }
        } else if tag_at(d, cur, 0x69, 0x62, 0x61, 0x67) {
            if records_readable(d, cur, 4) {
                hydra_walk(d, next, end, HydraChunks { ibag: Some(cur), ..st })
            } else {
                None
            }
        } else if tag_at(d, cur, 0x70, 0x6d, 0x6f, 0x64) || tag_at(d, cur, 0x70, 0x67, 0x65, 0x6e)
            || tag_at(d, cur, 0x69, 0x6d, 0x6f, 0x64) || tag_at(d, cur, 0x69, 0x67, 0x65, 0x6e)
            || tag_at(d, cur, 0x73, 0x68, 0x64, 0x72) {
            hydra_walk(d, next, end, st)
        } else {
            None
        }
    }
}

/// The bag index of preset header `k` in the `phdr` chunk at `c`.
pub open spec fn preset_bag_at(d: Seq<u8>, c: int, k: int) -> int {
    le16(d, c + 8 + 38 * k + 24)
}

/// The bag index of instrument header `k` in the `inst` chunk at `c`.
pub open spec fn inst_bag_at(d: Seq<u8>, c: int, k: int) -> int {
    le16(d, c + 8 + 22 * k + 20)
}

/// Whether the zones of every preset header lie within the bag list of
/// `nbags` bags: a header's zones run from its bag index up to the next
/// header's, and the parser unwraps each bag in that range.
pub open spec fn preset_bags_in_range(d: Seq<u8>, c: int, nbags: int) -> bool {
    forall|k: int|
        0 <= k && k + 1 < le32(d, c + 4) / 38 && preset_bag_at(d, c, k) < #[trigger] preset_bag_at(d, c, k + 1)
            ==> preset_bag_at(d, c, k + 1) <= nbags
}

/// The same for instrument headers.
pub open spec fn inst_bags_in_range(d: Seq<u8>, c: int, nbags: int) -> bool {
    forall|k: int|
        0 <= k && k + 1 < le32(d, c + 4) / 22 && inst_bag_at(d, c, k) < #[trigger] inst_bag_at(d, c, k + 1)
            ==> inst_bag_at(d, c, k + 1) <= nbags
}

pub open spec fn empty_hydra() -> HydraChunks {
    HydraChunks { phdr: None, pbag: None, inst: None, ibag: None }
}

/// Whether the `pdta` list at `p` keeps every zone within its bag list.
pub open spec fn pdta_sound(d: Seq<u8>, p: int) -> bool {
    match hydra_walk(d, p + 12, p + 4 + le32(d, p + 4), empty_hydra()) {
        None => true,
        Some(st) => match (st.phdr, st.pbag, st.inst, st.ibag) {
            (Some(ph), Some(pb), Some(ih), Some(ib)) => preset_bags_in_range(d, ph, le32(d, pb + 4) / 4)
                && inst_bags_in_range(d, ih, le32(d, ib + 4) / 4),
            _ => true,
        },
    }
}

/// Whether `SoundFont2::load` reads these bytes without reaching a panic:
/// the file starts with `RIFF` and `sfbk`, every chunk of the RIFF list it
/// reads is a `LIST`, and the headers of the last `pdta` list keep their
/// zones within the bag lists. Where the parser would return an error
/// first, nothing more is asked.
pub open spec fn sf2_layout_sound(d: Seq<u8>) -> bool {
    if d.len() < 8 {
        true
    } else if !tag_at(d, 0, 0x52, 0x49, 0x46, 0x46) {
        false
    } else if d.len() < 12 {
        true
    } else if !tag_at(d, 8, 0x73, 0x66, 0x62, 0x6b) {
        false
    } else {
        match riff_walk(d, 12, 4 + le32(d, 4), None) {
            WalkEnd::Panics => false,
            WalkEnd::Errs => true,
            WalkEnd::Done(None) => true,
            WalkEnd::Done(Some(p)) => pdta_sound(d, p),
        }
    }
}

fn tag_is(d: &[u8], i: usize, a: u8, b: u8, c: u8, e: u8) -> (r: bool)
    requires
        i + 4 <= d@.len(),
    ensures
        r == tag_at(d@, i as int, a, b, c, e),
{
    d[i] == a && d[i + 1] == b && d[i + 2] == c && d[i + 3] == e
}

fn preset_bags_ok(d: &[u8], c: usize, nbags: u32) -> (r: bool)
    requires
        c + 8 <= d@.len(),
        c + 8 + le32(d@, c + 4) <= d@.len(),
    ensures
        r == preset_bags_in_range(d@, c as int, nbags as int),
{
    let dl = d.len();
    let n = read_le32(d, c + 4) as usize / 38;
    assert(38 * n <= le32(d@, c + 4)) by (nonlinear_arith)
        requires n == le32(d@, c + 4) / 38, le32(d@, c + 4) >= 0;
    let mut k: usize = 0;
    while k + 1 < n
        invariant
            dl == d@.len(),
            k <= n,
            38 * n <= le32(d@, c + 4),
            c + 8 <= d@.len(),
            n == le32(d@, c + 4) / 38,
            c + 8 + le32(d@, c + 4) <= d@.len(),
            forall|j: int|
                0 <= j < k && preset_bag_at(d@, c as int, j) < #[trigger] preset_bag_at(d@, c as int, j + 1)
                    ==> preset_bag_at(d@, c as int, j + 1) <= nbags,
        decreases n - k,
    {
        let a = read_le16(d, c + 8 + 38 * k + 24);
        let b = read_le16(d, c + 8 + 38 * (k + 1) + 24);
        if a < b && b as u32 > nbags {
            assert(preset_bag_at(d@, c as int, k as int) < preset_bag_at(d@, c as int, k + 1));
            return false;
        }
        k = k + 1;
    }
    true
}

fn inst_bags_ok(d: &[u8], c: usize, nbags: u32) -> (r: bool)
    requires
        c + 8 <= d@.len(),
        c + 8 + le32(d@, c + 4) <= d@.len(),
    ensures
        r == inst_bags_in_range(d@, c as int, nbags as int),
{
    let dl = d.len();
    let n = read_le32(d, c + 4) as usize / 22;
    assert(22 * n <= le32(d@, c + 4)) by (nonlinear_arith)
        requires n == le32(d@, c + 4) / 22, le32(d@, c + 4) >= 0;
    let mut k: usize = 0;
    while k + 1 < n
        invariant
            dl == d@.len(),
            k <= n,
            22 * n <= le32(d@, c + 4),
            c + 8 <= d@.len(),
            n == le32(d@, c + 4) / 22,
            c + 8 + le32(d@, c + 4) <= d@.len(),
            forall|j: int|
                0 <= j < k && inst_bag_at(d@, c as int, j) < #[trigger] inst_bag_at(d@, c as int, j + 1)
                    ==> inst_bag_at(d@, c as int, j + 1) <= nbags,
        decreases n - k,
    {
        let a = read_le16(d, c + 8 + 22 * k + 20);
        let b = read_le16(d, c + 8 + 22 * (k + 1) + 20);
        if a < b && b as u32 > nbags {
            assert(inst_bag_at(d@, c as int, k as int) < inst_bag_at(d@, c as int, k + 1));
            return false;
        }
        k = k + 1;
    }
    true
}

fn records_ok(d: &[u8], cur: usize, rec: u32) -> (r: bool)
    requires
        cur + 8 <= d@.len(),
        rec > 0,
    ensures
        r == records_readable(d@, cur as int, rec as int),
{
    let _dl = d.len();
    let len = read_le32(d, cur + 4);
    len % rec == 0 && len != 0 && (cur as u128) + 8 + (len as u128) <= d.len() as u128
}

/// Checks the `pdta` list at `p` (see [`pdta_sound`]).
fn check_pdta(d: &[u8], p: usize) -> (r: bool)
    requires
        p + 12 <= d@.len(),
    ensures
        r == pdta_sound(d@, p as int),
{
    let ghost dd = d@;
    let len = d.len();
    let end: u128 = p as u128 + 4 + read_le32(d, p + 4) as u128;
    let mut cur: u128 = p as u128 + 12;
    let mut phdr: Option<usize> = None;
    let mut pbag: Option<usize> = None;
    let mut inst: Option<usize> = None;
    let mut ibag: Option<usize> = None;
    let ghost mut st = empty_hydra();
    while cur < end
        invariant
            dd == d@,
            len == d@.len(),
            p + 12 <= len,
            end == p + 4 + le32(dd, p + 4),
            cur >= 12,
            st.phdr == (match phdr { Some(x) => Some(x as int), None => None::<int> }),
            st.pbag == (match pbag { Some(x) => Some(x as int), None => None::<int> }),
            st.inst == (match inst { Some(x) => Some(x as int), None => None::<int> }),
            st.ibag == (match ibag { Some(x) => Some(x as int), None => None::<int> }),
            (match phdr { Some(x) => x + 8 + le32(dd, x + 4) <= len && x + 8 <= len, None => true }),
            (match inst { Some(x) => x + 8 + le32(dd, x + 4) <= len && x + 8 <= len, None => true }),
            (match pbag { Some(x) => x + 8 <= len, None => true }),
            (match ibag { Some(x) => x + 8 <= len, None => true }),
            hydra_walk(dd, cur as int, end as int, st) == hydra_walk(dd, p + 12, end as int, empty_hydra()),
        decreases len as int + 0x2_0000_0010 - cur as int,
    {
        if cur + 8 > len as u128 {
            return true;
        }
        let c = cur as usize;
        let clen = read_le32(d, c + 4) as u128;
        let next: u128 = cur + 8 + clen + clen % 2;
        assert(next == next_chunk(dd, c as int));
        if tag_is(d, c, 0x70, 0x68, 0x64, 0x72) {
            if !records_ok(d, c, 38) {
                return true;
            }
            phdr = Some(c);
            proof {
                st = HydraChunks { phdr: Some(c as int), ..st };
            }
        } else if tag_is(d, c, 0x70, 0x62, 0x61, 0x67) {
            if !records_ok(d, c, 4) {
                return true;
            }
            pbag = Some(c);
            proof {
                st = HydraChunks { pbag: Some(c as int), ..st };
            }
        } else if tag_is(d, c, 0x69, 0x6e, 0x73, 0x74) {
            if !records_ok(d, c, 22) {
                return true;
            }
            inst = Some(c);
            proof {
                st = HydraChunks { inst: Some(c as int), ..st };
            }
        } else if tag_is(d, c, 0x69, 0x62, 0x61, 0x67) {
            if !records_ok(d, c, 4) {
                return true;
            }
            ibag = Some(c);
            proof {
                st = HydraChunks { ibag: Some(c as int), ..st };
            }
        } else if !(tag_is(d, c, 0x70, 0x6d, 0x6f, 0x64) || tag_is(d, c, 0x70, 0x67, 0x65, 0x6e)
            || tag_is(d, c, 0x69, 0x6d, 0x6f, 0x64) || tag_is(d, c, 0x69, 0x67, 0x65, 0x6e)
            || tag_is(d, c, 0x73, 0x68, 0x64, 0x72)) {
            return true;
        }
        cur = next;
    }
    match (phdr, pbag, inst, ibag) {
        (Some(ph), Some(pb), Some(ih), Some(ib)) => {
            let np = read_le32(d, pb + 4) / 4;
            let ni = read_le32(d, ib + 4) / 4;
            preset_bags_ok(d, ph, np) && inst_bags_ok(d, ih, ni)
        },
        _ => true,
    }
}

/// Whether `SoundFont2::load` reads these bytes without a panic (see
/// [`sf2_layout_sound`]).
pub fn check_sf2_layout(d: &[u8]) -> (r: bool)
    ensures
        r == sf2_layout_sound(d@),
{
    let ghost dd = d@;
    let len = d.len();
    if len < 8 {
        return true;
    }
    if !tag_is(d, 0, 0x52, 0x49, 0x46, 0x46) {
        return false;
    }
    if len < 12 {
        return true;
    }
    if !tag_is(d, 8, 0x73, 0x66, 0x62, 0x6b) {
        return false;
    }
    let end: u128 = 4 + read_le32(d, 4) as u128;
    let mut cur: u128 = 12;
    let mut last: Option<usize> = None;
    let ghost mut lastg: Option<int> = None;
    while cur < end
        invariant
            dd == d@,
            len == d@.len(),
            len >= 12,
            end == 4 + le32(dd, 4),
            cur >= 12,
            lastg == (match last { Some(x) => Some(x as int), None => None::<int> }),
            (match last { Some(x) => x + 12 <= len, None => true }),
            tag_at(dd, 0, 0x52, 0x49, 0x46, 0x46),
            tag_at(dd, 8, 0x73, 0x66, 0x62, 0x6b),
            riff_walk(dd, cur as int, end as int, lastg) == riff_walk(dd, 12, end as int, None),
        decreases len as int + 0x2_0000_0010 - cur as int,
    {
        if cur + 8 > len as u128 {
            return true;
        }
        let c = cur as usize;
        if !tag_is(d, c, 0x4c, 0x49, 0x53, 0x54) {
            return false;
        }
        if cur + 12 > len as u128 {
            return true;
        }
        let clen = read_le32(d, c + 4) as u128;
        let next: u128 = cur + 8 + clen + clen % 2;
        assert(next == next_chunk(dd, c as int));
        if tag_is(d, c + 8, 0x70, 0x64, 0x74, 0x61) {
            last = Some(c);
            proof {
                lastg = Some(c as int);
            }
        } else if !(tag_is(d, c + 8, 0x49, 0x4e, 0x46, 0x4f) || tag_is(d, c + 8, 0x73, 0x64, 0x74, 0x61)) {
            return true;
        }
        cur = next;
    }
    match last {
        None => true,
        Some(p) => check_pdta(d, p),
    }
}

/// The generator number the SF2 file format gives each kind (the
/// operator field of a generator record); `-1` for kinds the format
/// numbers but zone resolution does not read.
pub open spec fn sf2_generator_number(k: GeneratorKind) -> int {
    match k {
        GeneratorKind::StartAddrsOffset => 0,
        GeneratorKind::EndAddrsOffset => 1,
        GeneratorKind::StartloopAddrsOffset => 2,
        GeneratorKind::EndloopAddrsOffset => 3,
        GeneratorKind::StartAddrsCoarseOffset => 4,
        GeneratorKind::EndAddrsCoarseOffset => 12,
        GeneratorKind::Pan => 17,
        GeneratorKind::DelayVolEnv => 33,
        GeneratorKind::AttackVolEnv => 34,
        GeneratorKind::HoldVolEnv => 35,
        GeneratorKind::DecayVolEnv => 36,
        GeneratorKind::SustainVolEnv => 37,
        GeneratorKind::ReleaseVolEnv => 38,
        GeneratorKind::Instrument => 41,
        GeneratorKind::KeyRange => 43,
        GeneratorKind::VelRange => 44,
        GeneratorKind::StartloopAddrsCoarseOffset => 45,
        GeneratorKind::Keynum => 46,
        GeneratorKind::Velocity => 47,
        GeneratorKind::InitialAttenuation => 48,
        GeneratorKind::EndloopAddrsCoarseOffset => 50,
        GeneratorKind::CoarseTune => 51,
        GeneratorKind::FineTune => 52,
        GeneratorKind::SampleID => 53,
        GeneratorKind::SampleModes => 54,
        GeneratorKind::ScaleTuning => 56,
        GeneratorKind::ExclusiveClass => 57,
        GeneratorKind::OverridingRootKey => 58,
        GeneratorKind::Other => -1,
    }
}

/// Presets come out in bank/program order: a list sorted by [`preset_key`]
/// (as [`load_sf2`] returns it) has its banks ascending, read as signed
/// 16-bit numbers, and within one bank its program numbers ascending.
pub proof fn law_presets_in_bank_program_order(r: Seq<PresetView>, s: Seq<PresetView>)
    requires
        stable_sorted_by(r, s, |p: PresetView| preset_key(p)),
    ensures
        forall|i: int, j: int| #![trigger r[i], r[j]] 0 <= i < j < r.len() ==> ({
            let bi = if r[i].bank < 32768 { r[i].bank as int } else { r[i].bank - 65536 };
            let bj = if r[j].bank < 32768 { r[j].bank as int } else { r[j].bank - 65536 };
            bi < bj || (bi == bj && r[i].preset <= r[j].preset)
        }),
{
    assert forall|i: int, j: int| #![trigger r[i], r[j]] 0 <= i < j < r.len() implies ({
        let bi = if r[i].bank < 32768 { r[i].bank as int } else { r[i].bank - 65536 };
        let bj = if r[j].bank < 32768 { r[j].bank as int } else { r[j].bank - 65536 };
        bi < bj || (bi == bj && r[i].preset <= r[j].preset)
    }) by {
        let key = |p: PresetView| preset_key(p);
        assert(key(r[i]) <= key(r[j]));
    }
}

/// Reading a generator keeps its type: a generator type the crate reads
/// from the file becomes the kind with the same SF2 generator number, and
/// every kind that zone resolution reads comes exactly from the type with
/// its number. Distinct types thus give distinct kinds (apart from `Other`).
pub proof fn law_generator_kind_keeps_number(t: soundfont::raw::GeneratorType, k: GeneratorKind)
    ensures
        generator_kind_of(t) == GeneratorKind::Other || sf2_generator_number(generator_kind_of(t)) == t as int,
        k != GeneratorKind::Other && sf2_generator_number(k) == t as int ==> generator_kind_of(t) == k,
{
}

/// Converting a generator keeps its amount and its type: the amount's
/// form and values are those read from the file, and a type the crate does
/// not know gives no kind.
pub proof fn law_generator_view_keeps_values(g: soundfont::raw::Generator)
    ensures
        (match g.amount {
            soundfont::raw::GeneratorAmount::I16(v) => generator_view(g).amount == Sf2Amount::I16(v),
            soundfont::raw::GeneratorAmount::U16(v) => generator_view(g).amount == Sf2Amount::U16(v),
            soundfont::raw::GeneratorAmount::Range(r) => generator_view(g).amount == Sf2Amount::Range(r.low, r.high),
        }),
        (match g.ty {
            soundfont::SfEnum::Value(t) => generator_view(g).ty is Some && (generator_view(g).ty->0 == GeneratorKind::Other
                || sf2_generator_number(generator_view(g).ty->0) == t as int),
            soundfont::SfEnum::Unknown(_) => generator_view(g).ty is None,
        }),
{
    match g.ty {
        soundfont::SfEnum::Value(t) => law_generator_kind_keeps_number(t, GeneratorKind::Other),
        soundfont::SfEnum::Unknown(_) => {},
    }
}

/// Files the parser would stop on with an assertion are not sound: one
/// that does not start with `RIFF`, one whose RIFF type is not `sfbk`, and
/// one whose first chunk inside the RIFF list is not a `LIST`. A file too
/// short to hold a chunk header makes the parser return an error, and is
/// sound.
pub proof fn law_layout_rejects_asserted_files(d: Seq<u8>)
    ensures
        d.len() >= 8 && !tag_at(d, 0, 0x52, 0x49, 0x46, 0x46) ==> !sf2_layout_sound(d),
        d.len() >= 12 && tag_at(d, 0, 0x52, 0x49, 0x46, 0x46) && !tag_at(d, 8, 0x73, 0x66, 0x62, 0x6b)
            ==> !sf2_layout_sound(d),
        d.len() >= 20 && tag_at(d, 0, 0x52, 0x49, 0x46, 0x46) && tag_at(d, 8, 0x73, 0x66, 0x62, 0x6b)
            && 4 + le32(d, 4) > 12 && !tag_at(d, 12, 0x4c, 0x49, 0x53, 0x54) ==> !sf2_layout_sound(d),
        d.len() < 8 ==> sf2_layout_sound(d),
{
}

/// A header whose zones run past the bag list makes the file unsound:
/// when the last `pdta` list's chunks are found and two neighbouring
/// preset headers have bag indices `a < b` with `b` beyond the number of
/// preset bags, the parser would unwrap a missing bag.
pub proof fn law_layout_rejects_bag_overrun(d: Seq<u8>, p: int, k: int)
    requires
        d.len() >= 12,
        tag_at(d, 0, 0x52, 0x49, 0x46, 0x46),
        tag_at(d, 8, 0x73, 0x66, 0x62, 0x6b),
        riff_walk(d, 12, 4 + le32(d, 4), None) == WalkEnd::Done(Some(p)),
        hydra_walk(d, p + 12, p + 4 + le32(d, p + 4), empty_hydra()) matches Some(st) && st.phdr is Some
            && st.pbag is Some && st.inst is Some && st.ibag is Some && {
            let ph = st.phdr->0;
            let nb = le32(d, st.pbag->0 + 4) / 4;
            &&& 0 <= k && k + 1 < le32(d, ph + 4) / 38
            &&& preset_bag_at(d, ph, k) < preset_bag_at(d, ph, k + 1)
            &&& preset_bag_at(d, ph, k + 1) > nb
        },
    ensures
        !sf2_layout_sound(d),
{
}

} // verus!
