//! SF2 zone resolution: generator lists become raw zones, and preset zones
//! combined with instrument zones and sample headers become regions.

use vstd::prelude::*;

use crate::types::{convert_sample_index, spec_convert_sample_index, KeyRange, LoopMode, PresetRegions, Region};

verus! {

/// Errors from loading an SF2 soundfont.
#[derive(Debug)]
pub enum Error {
    Io(std::io::Error, std::path::PathBuf),
    Parse(String),
}

/// The SF2 generator types that zone resolution reads; every other known
/// generator type is `Other`.
#[derive(Debug, Clone, Copy, PartialEq, Eq, Structural)]
pub enum GeneratorKind {
    StartAddrsOffset,
    EndAddrsOffset,
    StartAddrsCoarseOffset,
    EndAddrsCoarseOffset,
    StartloopAddrsOffset,
    StartloopAddrsCoarseOffset,
    EndloopAddrsOffset,
    EndloopAddrsCoarseOffset,
    Pan,
    DelayVolEnv,
    AttackVolEnv,
    HoldVolEnv,
    DecayVolEnv,
    SustainVolEnv,
    ReleaseVolEnv,
    KeyRange,
    VelRange,
    InitialAttenuation,
    CoarseTune,
    FineTune,
    SampleID,
    Instrument,
    SampleModes,
    Keynum,
    Velocity,
    ScaleTuning,
    ExclusiveClass,
    OverridingRootKey,
    Other,
}

/// A generator's amount, in the form its type stores.
#[derive(Debug, Clone, Copy, PartialEq, Eq, Structural)]
pub enum Sf2Amount {
    I16(i16),
    U16(u16),
    Range(u8, u8),
}

/// One generator of a zone; `ty` is `None` for an id that names no
/// generator type.
#[derive(Debug, Clone, Copy, PartialEq, Eq, Structural)]
pub struct Sf2Generator {
    pub ty: Option<GeneratorKind>,
    pub amount: Sf2Amount,
}

/// A preset or instrument zone: its generators in file order.
pub struct Sf2Zone {
    pub gen_list: Vec<Sf2Generator>,
}

/// A preset header with its zones.
pub struct PresetZones {
    pub bank: u16,
    pub preset: u16,
    pub name: String,
    pub zones: Vec<Sf2Zone>,
}

/// Sf2Generator values collected for one zone.
#[derive(Debug, Clone, Copy, PartialEq, Eq, Structural)]
pub struct RawZone {
    pub index: Option<u16>,
    pub offset: Option<i16>,
    pub end_offset: Option<i16>,
    pub offset_coarse: Option<i16>,
    pub end_offset_coarse: Option<i16>,
    pub loop_start_offset: Option<i16>,
    pub loop_start_offset_coarse: Option<i16>,
    pub loop_end_offset: Option<i16>,
    pub loop_end_offset_coarse: Option<i16>,
    pub attenuation: Option<i16>,
    pub pan: Option<i16>,
    pub loop_mode: Option<LoopMode>,
    pub keyrange: Option<KeyRange>,
    pub velrange: Option<KeyRange>,
    pub exclusive_class: Option<u8>,
    pub root_override: Option<i16>,
    pub fixed_key: Option<u8>,
    pub fixed_velocity: Option<u8>,
    pub scale_tuning: Option<i16>,
    pub fine_tune: Option<i16>,
    pub coarse_tune: Option<i16>,
    pub env_delay: Option<i16>,
    pub env_attack: Option<i16>,
    pub env_hold: Option<i16>,
    pub env_decay: Option<i16>,
    pub env_sustain: Option<i16>,
    pub env_release: Option<i16>,
}

/// A zone with no generator values.
pub open spec fn empty_zone() -> RawZone {
    RawZone {
        index: None,
        offset: None,
        end_offset: None,
        offset_coarse: None,
        end_offset_coarse: None,
        loop_start_offset: None,
        loop_start_offset_coarse: None,
        loop_end_offset: None,
        loop_end_offset_coarse: None,
        attenuation: None,
        pan: None,
        loop_mode: None,
        keyrange: None,
        velrange: None,
        exclusive_class: None,
        root_override: None,
        fixed_key: None,
        fixed_velocity: None,
        scale_tuning: None,
        fine_tune: None,
        coarse_tune: None,
        env_delay: None,
        env_attack: None,
        env_hold: None,
        env_decay: None,
        env_sustain: None,
        env_release: None,
    }
}

impl RawZone {
    pub fn empty() -> (z: RawZone)
        ensures
            z == empty_zone(),
    {
        RawZone {
            index: None,
            offset: None,
            end_offset: None,
            offset_coarse: None,
            end_offset_coarse: None,
            loop_start_offset: None,
            loop_start_offset_coarse: None,
            loop_end_offset: None,
            loop_end_offset_coarse: None,
            attenuation: None,
            pan: None,
            loop_mode: None,
            keyrange: None,
            velrange: None,
            exclusive_class: None,
            root_override: None,
            fixed_key: None,
            fixed_velocity: None,
            scale_tuning: None,
            fine_tune: None,
            coarse_tune: None,
            env_delay: None,
            env_attack: None,
            env_hold: None,
            env_decay: None,
            env_sustain: None,
            env_release: None,
        }
    }
}

/// The signed amount, when the amount is signed.
pub open spec fn amount_i16(a: Sf2Amount) -> Option<i16> {
    match a {
        Sf2Amount::I16(v) => Some(v),
        _ => None,
    }
}

/// The unsigned amount, when the amount is unsigned.
pub open spec fn amount_u16(a: Sf2Amount) -> Option<u16> {
    match a {
        Sf2Amount::U16(v) => Some(v),
        _ => None,
    }
}

/// The range, when the amount is a range.
pub open spec fn amount_range(a: Sf2Amount) -> Option<KeyRange> {
    match a {
        Sf2Amount::Range(lo, hi) => Some(KeyRange { lo, hi }),
        _ => None,
    }
}

/// `v` limited to `lo..=hi` (for `lo <= hi`).
pub open spec fn clamp(v: int, lo: int, hi: int) -> int {
    if v < lo {
        lo
    } else if v > hi {
        hi
    } else {
        v
    }
}

/// The loop mode of an SF2 `sampleModes` value.
pub open spec fn sample_mode(v: i16) -> LoopMode {
    if v == 1 {
        LoopMode::LoopContinuous
    } else if v == 3 {
        LoopMode::LoopSustain
    } else {
        LoopMode::NoLoop
    }
}

pub open spec fn map_clamped_u8(v: Option<i16>, hi: int) -> Option<u8> {
    match v {
        Some(x) => Some(clamp(x as int, 0, hi) as u8),
        None => None,
    }
}

/// Sets the field of a zone that a generator type names to the generator's
/// amount (read in the form the field needs; an amount of another form
/// unsets the field). Sf2Generator types that zones do not keep change nothing.
pub open spec fn apply_generator_spec(z: RawZone, ty: GeneratorKind, a: Sf2Amount) -> RawZone {
    match ty {
        GeneratorKind::StartAddrsOffset => RawZone { offset: amount_i16(a), ..z },
        GeneratorKind::EndAddrsOffset => RawZone { end_offset: amount_i16(a), ..z },
        GeneratorKind::StartAddrsCoarseOffset => RawZone { offset_coarse: amount_i16(a), ..z },
        GeneratorKind::EndAddrsCoarseOffset => RawZone { end_offset_coarse: amount_i16(a), ..z },
        GeneratorKind::StartloopAddrsOffset => RawZone { loop_start_offset: amount_i16(a), ..z },
        GeneratorKind::StartloopAddrsCoarseOffset => RawZone {
            loop_start_offset_coarse: amount_i16(a),
            ..z
        },
        GeneratorKind::EndloopAddrsOffset => RawZone { loop_end_offset: amount_i16(a), ..z },
        GeneratorKind::EndloopAddrsCoarseOffset => RawZone {
            loop_end_offset_coarse: amount_i16(a),
            ..z
        },
        GeneratorKind::Pan => RawZone { pan: amount_i16(a), ..z },
        GeneratorKind::DelayVolEnv => RawZone { env_delay: amount_i16(a), ..z },
        GeneratorKind::AttackVolEnv => RawZone { env_attack: amount_i16(a), ..z },
        GeneratorKind::HoldVolEnv => RawZone { env_hold: amount_i16(a), ..z },
        GeneratorKind::DecayVolEnv => RawZone { env_decay: amount_i16(a), ..z },
        GeneratorKind::SustainVolEnv => RawZone { env_sustain: amount_i16(a), ..z },
        GeneratorKind::ReleaseVolEnv => RawZone { env_release: amount_i16(a), ..z },
        GeneratorKind::KeyRange => RawZone { keyrange: amount_range(a), ..z },
        GeneratorKind::VelRange => RawZone { velrange: amount_range(a), ..z },
        GeneratorKind::InitialAttenuation => RawZone { attenuation: amount_i16(a), ..z },
        GeneratorKind::CoarseTune => RawZone { coarse_tune: amount_i16(a), ..z },
        GeneratorKind::FineTune => RawZone { fine_tune: amount_i16(a), ..z },
        GeneratorKind::SampleID => RawZone { index: amount_u16(a), ..z },
        GeneratorKind::Instrument => RawZone { index: amount_u16(a), ..z },
        GeneratorKind::SampleModes => RawZone {
            loop_mode: match amount_i16(a) {
                Some(v) => Some(sample_mode(v)),
                None => None,
            },
            ..z
        },
        GeneratorKind::Keynum => RawZone { fixed_key: map_clamped_u8(amount_i16(a), 127), ..z },
        GeneratorKind::Velocity => RawZone { fixed_velocity: map_clamped_u8(amount_i16(a), 127), ..z },
        GeneratorKind::ScaleTuning => RawZone { scale_tuning: amount_i16(a), ..z },
        GeneratorKind::ExclusiveClass => RawZone {
            exclusive_class: map_clamped_u8(amount_i16(a), 255),
            ..z
        },
        GeneratorKind::OverridingRootKey => RawZone { root_override: amount_i16(a), ..z },
        GeneratorKind::Other => z,
    }
}

fn as_i16(a: &Sf2Amount) -> (r: Option<i16>)
    ensures
        r == amount_i16(*a),
{
    match a {
        Sf2Amount::I16(v) => Some(*v),
        _ => None,
    }
}

fn as_u16(a: &Sf2Amount) -> (r: Option<u16>)
    ensures
        r == amount_u16(*a),
{
    match a {
        Sf2Amount::U16(v) => Some(*v),
        _ => None,
    }
}

fn as_range(a: &Sf2Amount) -> (r: Option<KeyRange>)
    ensures
        r == amount_range(*a),
{
    match a {
        Sf2Amount::Range(lo, hi) => Some(KeyRange { lo: *lo, hi: *hi }),
        _ => None,
    }
}

fn clamped_u8(v: Option<i16>, hi: i16) -> (r: Option<u8>)
    requires
        0 <= hi <= 255,
    ensures
        r == map_clamped_u8(v, hi as int),
{
    match v {
        Some(x) => {
            let c = if x < 0 {
                0
            } else if x > hi {
                hi
            } else {
                x
            };
            Some(c as u8)
        },
        None => None,
    }
}

/// Applies one generator to a zone (see [`apply_generator_spec`]).
pub fn apply_generator(zone: &mut RawZone, ty: GeneratorKind, amount: &Sf2Amount)
    ensures
        *final(zone) == apply_generator_spec(*old(zone), ty, *amount),
{
    match ty {
        GeneratorKind::StartAddrsOffset => zone.offset = as_i16(amount),
        GeneratorKind::EndAddrsOffset => zone.end_offset = as_i16(amount),
        GeneratorKind::StartAddrsCoarseOffset => zone.offset_coarse = as_i16(amount),
        GeneratorKind::EndAddrsCoarseOffset => zone.end_offset_coarse = as_i16(amount),
        GeneratorKind::StartloopAddrsOffset => zone.loop_start_offset = as_i16(amount),
        GeneratorKind::StartloopAddrsCoarseOffset => zone.loop_start_offset_coarse = as_i16(amount),
        GeneratorKind::EndloopAddrsOffset => zone.loop_end_offset = as_i16(amount),
        GeneratorKind::EndloopAddrsCoarseOffset => zone.loop_end_offset_coarse = as_i16(amount),
        GeneratorKind::Pan => zone.pan = as_i16(amount),
        GeneratorKind::DelayVolEnv => zone.env_delay = as_i16(amount),
        GeneratorKind::AttackVolEnv => zone.env_attack = as_i16(amount),
        GeneratorKind::HoldVolEnv => zone.env_hold = as_i16(amount),
        GeneratorKind::DecayVolEnv => zone.env_decay = as_i16(amount),
        GeneratorKind::SustainVolEnv => zone.env_sustain = as_i16(amount),
        GeneratorKind::ReleaseVolEnv => zone.env_release = as_i16(amount),
        GeneratorKind::KeyRange => zone.keyrange = as_range(amount),
        GeneratorKind::VelRange => zone.velrange = as_range(amount),
        GeneratorKind::InitialAttenuation => zone.attenuation = as_i16(amount),
        GeneratorKind::CoarseTune => zone.coarse_tune = as_i16(amount),
        GeneratorKind::FineTune => zone.fine_tune = as_i16(amount),
        GeneratorKind::SampleID => zone.index = as_u16(amount),
        GeneratorKind::Instrument => zone.index = as_u16(amount),
        GeneratorKind::SampleModes => {
            zone.loop_mode = match as_i16(amount) {
                Some(v) => Some(
                    if v == 1 {
                        LoopMode::LoopContinuous
                    } else if v == 3 {
                        LoopMode::LoopSustain
                    } else {
                        LoopMode::NoLoop
                    },
                ),
                None => None,
            }
        },
        GeneratorKind::Keynum => zone.fixed_key = clamped_u8(as_i16(amount), 127),
        GeneratorKind::Velocity => zone.fixed_velocity = clamped_u8(as_i16(amount), 127),
        GeneratorKind::ScaleTuning => zone.scale_tuning = as_i16(amount),
        GeneratorKind::ExclusiveClass => zone.exclusive_class = clamped_u8(as_i16(amount), 255),
        GeneratorKind::OverridingRootKey => zone.root_override = as_i16(amount),
        GeneratorKind::Other => {},
    }
}

/// A zone after applying generators in order; generators of unknown type
/// are skipped.
pub open spec fn apply_generators(z: RawZone, gens: Seq<Sf2Generator>) -> RawZone
    decreases gens.len(),
{
    if gens.len() == 0 {
        z
    } else {
        let z1 = apply_generators(z, gens.drop_last());
        match gens.last().ty {
            Some(t) => apply_generator_spec(z1, t, gens.last().amount),
            None => z1,
        }
    }
}

pub open spec fn zone_gens(zones: Seq<Sf2Zone>) -> Seq<Seq<Sf2Generator>> {
    zones.map_values(|z: Sf2Zone| z.gen_list@)
}

/// Reading zones in order: the global zone so far and the zones kept. Each
/// zone starts from the global zone; a first zone without a sample or
/// instrument index becomes the global zone, every other zone is kept.
pub open spec fn zones_state(zones: Seq<Seq<Sf2Generator>>) -> (RawZone, Seq<RawZone>)
    decreases zones.len(),
{
    if zones.len() == 0 {
        (empty_zone(), Seq::empty())
    } else {
        let (global, kept) = zones_state(zones.drop_last());
        let region = apply_generators(global, zones.last());
        if zones.len() == 1 && region.index is None {
            (region, kept)
        } else {
            (global, kept.push(region))
        }
    }
}

pub open spec fn parse_zones_spec(zones: Seq<Seq<Sf2Generator>>) -> Seq<RawZone> {
    zones_state(zones).1
}

/// Resolves a zone list: the global zone's values become defaults of the
/// zones after it (see [`zones_state`]).
pub fn parse_zones(zones: &Vec<Sf2Zone>) -> (r: Vec<RawZone>)
    ensures
        r@ == parse_zones_spec(zone_gens(zones@)),
{
    let ghost gz = zone_gens(zones@);
    let mut regions: Vec<RawZone> = Vec::new();
    let mut global = RawZone::empty();
    let mut i: usize = 0;
    while i < zones.len()
        invariant
            i <= zones@.len(),
            gz == zone_gens(zones@),
            (global, regions@) == zones_state(gz.take(i as int)),
        decreases zones@.len() - i,
    {
        let gens = &zones[i].gen_list;
        let mut region = global;
        let mut j: usize = 0;
        while j < gens.len()
            invariant
                j <= gens@.len(),
                region == apply_generators(global, gens@.take(j as int)),
            decreases gens@.len() - j,
        {
            let g = gens[j];
            proof {
                assert(gens@.take(j + 1).drop_last() =~= gens@.take(j as int));
            }
            match g.ty {
                Some(t) => apply_generator(&mut region, t, &g.amount),
                None => {},
            }
            j = j + 1;
        }
        proof {
            assert(gens@.take(j as int) =~= gens@);
            assert(gz.take(i + 1).drop_last() =~= gz.take(i as int));
            assert(gz.take(i + 1).last() == gens@);
        }
        if i == 0 && region.index.is_none() {
            global = region;
        } else {
            regions.push(region);
        }
        i = i + 1;
    }
    assert(gz.take(zones@.len() as int) =~= gz);
    regions
}

/// An instrument's zones.
pub struct InstrumentZones {
    pub zones: Vec<Sf2Zone>,
}

/// Resolves the zones of every instrument, in order.
pub fn parse_instruments(instruments: &Vec<InstrumentZones>) -> (r: Vec<Vec<RawZone>>)
    ensures
        r@.len() == instruments@.len(),
        forall|k: int|
            0 <= k < r@.len() ==> (#[trigger] r@[k])@ == parse_zones_spec(zone_gens(instruments@[k].zones@)),
{
    let mut out: Vec<Vec<RawZone>> = Vec::new();
    let mut i: usize = 0;
    while i < instruments.len()
        invariant
            i <= instruments@.len(),
            out@.len() == i,
            forall|k: int|
                0 <= k < i ==> (#[trigger] out@[k])@ == parse_zones_spec(zone_gens(instruments@[k].zones@)),
        decreases instruments@.len() - i,
    {
        out.push(parse_zones(&instruments[i].zones));
        i = i + 1;
    }
    out
}

/// How a sample is linked to another for stereo.
#[derive(Debug, Clone, Copy, PartialEq, Eq, Structural)]
pub enum SampleLinkType {
    Mono,
    Left,
    Right,
    Linked,
}

/// Sample header values that zone resolution reads. Loop points are
/// relative to the sample's start; `data_len` is the number of frames of
/// the sample at the output rate.
#[derive(Debug, Clone, Copy, PartialEq, Eq, Structural)]
pub struct SampleInfo {
    pub data_len: usize,
    pub link_type: SampleLinkType,
    pub linked_sample: Option<u16>,
    pub original_length: u32,
    pub loop_start: u32,
    pub loop_end: u32,
    pub sample_rate: u32,
    pub origpitch: u8,
    pub pitchadj: i8,
}

impl SampleInfo {
    /// The sample values of a header whose sample spans `start..end` of the
    /// sample data, with its loop points given in the same frame numbers.
    pub fn from_header(
        start: u32,
        end: u32,
        loop_start: u32,
        loop_end: u32,
        sample_rate: u32,
        origpitch: u8,
        pitchadj: i8,
        link_type: SampleLinkType,
        sample_link: u16,
        data_len: usize,
    ) -> (r: SampleInfo)
        requires
            start <= end,
            start <= loop_start,
            start <= loop_end,
        ensures
            r == (SampleInfo {
                data_len,
                link_type,
                linked_sample: if link_type == SampleLinkType::Mono {
                    None
                } else {
                    Some(sample_link)
                },
                original_length: (end - start) as u32,
                loop_start: (loop_start - start) as u32,
                loop_end: (loop_end - start) as u32,
                sample_rate,
                origpitch,
                pitchadj,
            }),
    {
        SampleInfo {
            data_len,
            link_type,
            linked_sample: match link_type {
                SampleLinkType::Mono => None,
                _ => Some(sample_link),
            },
            original_length: end - start,
            loop_start: loop_start - start,
            loop_end: loop_end - start,
            sample_rate,
            origpitch,
            pitchadj,
        }
    }
}

/// The integer sound parameters of an SF2 region: which sample plays, and
/// gain, pan, tuning and volume-envelope values in SF2 units.
#[derive(Debug, Clone, Copy, PartialEq, Eq, Structural)]
pub struct Sf2Sound {
    /// Index of the sample.
    pub sample: usize,
    /// Initial attenuation, centibels.
    pub attenuation: i16,
    /// Pan, -500 (left) to 500 (right).
    pub pan: i16,
    /// Envelope delay, attack, hold, decay and release, timecents.
    pub delay: i32,
    pub attack: i32,
    pub hold: i32,
    pub decay: i32,
    pub release: i32,
    /// Sustain attenuation, centibels.
    pub sustain: i32,
    /// Total tuning: fine tune plus the sample's pitch correction plus
    /// coarse tune, cents.
    pub fine_tune_cents: i32,
}

pub open spec fn unwrap_or_zero(a: Option<i16>) -> int {
    match a {
        Some(v) => v as int,
        None => 0,
    }
}

/// Sum of a preset and an instrument value, each 0 when absent.
pub open spec fn sum_opt(a: Option<i16>, b: Option<i16>) -> int {
    unwrap_or_zero(a) + unwrap_or_zero(b)
}

/// A sample offset in frames from fine and coarse (32768-frame) parts.
pub open spec fn offset_sum(fine_a: Option<i16>, coarse_a: Option<i16>, fine_b: Option<i16>, coarse_b: Option<i16>) -> int {
    sum_opt(fine_a, fine_b) + sum_opt(coarse_a, coarse_b) * 32768
}

pub open spec fn fits_i16(x: int) -> bool {
    -32768 <= x <= 32767
}

pub open spec fn fits_i32(x: int) -> bool {
    -0x8000_0000 <= x <= 0x7fff_ffff
}

pub open spec fn max_u8(a: u8, b: u8) -> u8 {
    if a >= b {
        a
    } else {
        b
    }
}

pub open spec fn min_u8(a: u8, b: u8) -> u8 {
    if a <= b {
        a
    } else {
        b
    }
}

pub open spec fn min_u32(a: u32, b: u32) -> u32 {
    if a <= b {
        a
    } else {
        b
    }
}

/// The overlap of two ranges: the larger start to the smaller end.
pub open spec fn intersect_spec(a: KeyRange, b: KeyRange) -> KeyRange {
    KeyRange { lo: max_u8(a.lo, b.lo), hi: min_u8(a.hi, b.hi) }
}

/// A range narrowed to a fixed value, if there is one.
pub open spec fn apply_fixed_spec(r: KeyRange, fixed: Option<u8>) -> KeyRange {
    match fixed {
        Some(v) => intersect_spec(r, KeyRange { lo: v, hi: v }),
        None => r,
    }
}

pub open spec fn full_range(r: Option<KeyRange>) -> KeyRange {
    match r {
        Some(k) => k,
        None => KeyRange { lo: 0, hi: 127 },
    }
}

/// An envelope time: the instrument's value (-12000 timecents when absent)
/// plus the preset's offset.
pub open spec fn timecents_merge_spec(preset: Option<i16>, instrument: Option<i16>) -> int {
    (match instrument {
        Some(v) => v as int,
        None => -12000,
    }) + unwrap_or_zero(preset)
}

/// The sustain attenuation: instrument value plus preset offset.
pub open spec fn sustain_merge_spec(preset: Option<i16>, instrument: Option<i16>) -> int {
    unwrap_or_zero(instrument) + unwrap_or_zero(preset)
}

pub open spec fn or_u8(a: Option<u8>, b: Option<u8>) -> Option<u8> {
    match a {
        Some(v) => Some(v),
        None => b,
    }
}

pub open spec fn or_i16(a: Option<i16>, b: Option<i16>) -> Option<i16> {
    match a {
        Some(v) => Some(v),
        None => b,
    }
}

/// Where the zone pair's sample playback ends, in source frames: the
/// sample's length moved by the end offsets, kept within the sample.
pub open spec fn end_raw(p: RawZone, i: RawZone, s: SampleInfo) -> int {
    let orig = (s.original_length as i32) as int;
    clamp(orig + offset_sum(p.end_offset, p.end_offset_coarse, i.end_offset, i.end_offset_coarse), 0, orig)
}

/// The values of a preset zone and an instrument zone, with their sample,
/// stay within the integer types that resolution computes in.
pub open spec fn pair_ok(p: RawZone, i: RawZone, s: SampleInfo) -> bool {
    &&& fits_i16(sum_opt(p.offset, i.offset))
    &&& fits_i16(sum_opt(p.offset_coarse, i.offset_coarse))
    &&& fits_i16(sum_opt(p.end_offset, i.end_offset))
    &&& fits_i16(sum_opt(p.end_offset_coarse, i.end_offset_coarse))
    &&& fits_i16(sum_opt(p.loop_start_offset, i.loop_start_offset))
    &&& fits_i16(sum_opt(p.loop_start_offset_coarse, i.loop_start_offset_coarse))
    &&& fits_i16(sum_opt(p.loop_end_offset, i.loop_end_offset))
    &&& fits_i16(sum_opt(p.loop_end_offset_coarse, i.loop_end_offset_coarse))
    &&& fits_i16(sum_opt(p.attenuation, i.attenuation))
    &&& fits_i16(sum_opt(p.pan, i.pan))
    &&& fits_i16(sum_opt(p.fine_tune, i.fine_tune))
    &&& fits_i16(sum_opt(p.coarse_tune, i.coarse_tune))
    &&& (s.original_length as i32) >= 0
    &&& fits_i32(
        (s.original_length as i32) as int + offset_sum(
            p.end_offset,
            p.end_offset_coarse,
            i.end_offset,
            i.end_offset_coarse,
        ),
    )
    &&& fits_i32(
        (s.loop_start as i32) as int + offset_sum(
            p.loop_start_offset,
            p.loop_start_offset_coarse,
            i.loop_start_offset,
            i.loop_start_offset_coarse,
        ),
    )
    &&& fits_i32(
        (s.loop_end as i32) as int + offset_sum(
            p.loop_end_offset,
            p.loop_end_offset_coarse,
            i.loop_end_offset,
            i.loop_end_offset_coarse,
        ),
    )
}

/// A sample position moved by an offset, kept within `0..=end`, converted
/// to the output rate.
pub open spec fn placed(base: int, off: int, end: int, from_rate: u32, to_rate: u32) -> u32 {
    spec_convert_sample_index(clamp(base + off, 0, end) as u32, from_rate, to_rate) as u32
}

/// The region that a preset zone and an instrument zone give for sample
/// number `si`.
pub open spec fn resolve_zone_spec(p: RawZone, i: RawZone, s: SampleInfo, si: usize, rate: u32) -> Region<Sf2Sound> {
    let er = end_raw(p, i, s);
    let offset = placed(
        0,
        offset_sum(p.offset, p.offset_coarse, i.offset, i.offset_coarse),
        er,
        s.sample_rate,
        rate,
    );
    let sample_end = min_u32(
        spec_convert_sample_index(er as u32, s.sample_rate, rate) as u32,
        s.data_len as u32,
    );
    let loop_start = min_u32(
        placed(
            (s.loop_start as i32) as int,
            offset_sum(p.loop_start_offset, p.loop_start_offset_coarse, i.loop_start_offset, i.loop_start_offset_coarse),
            er,
            s.sample_rate,
            rate,
        ),
        sample_end,
    );
    let loop_end = min_u32(
        placed(
            (s.loop_end as i32) as int,
            offset_sum(p.loop_end_offset, p.loop_end_offset_coarse, i.loop_end_offset, i.loop_end_offset_coarse),
            er,
            s.sample_rate,
            rate,
        ),
        sample_end,
    );
    let raw_mode = match p.loop_mode {
        Some(m) => m,
        None => match i.loop_mode {
            Some(m) => m,
            None => LoopMode::NoLoop,
        },
    };
    Region {
        key_range: apply_fixed_spec(
            intersect_spec(full_range(p.keyrange), full_range(i.keyrange)),
            or_u8(i.fixed_key, p.fixed_key),
        ),
        vel_range: apply_fixed_spec(
            intersect_spec(full_range(p.velrange), full_range(i.velrange)),
            or_u8(i.fixed_velocity, p.fixed_velocity),
        ),
        root_key: (match or_i16(i.root_override, p.root_override) {
            Some(v) => v,
            None => s.origpitch as i16,
        }) as u8,
        original_sample_rate: s.sample_rate,
        loop_mode: if loop_start == loop_end && raw_mode != LoopMode::NoLoop {
            LoopMode::NoLoop
        } else {
            raw_mode
        },
        loop_start,
        loop_end,
        sample_end,
        offset,
        exclusive_class: or_u8(i.exclusive_class, p.exclusive_class),
        sound: Sf2Sound {
            sample: si,
            attenuation: sum_opt(p.attenuation, i.attenuation) as i16,
            pan: clamp(sum_opt(p.pan, i.pan), -500, 500) as i16,
            delay: timecents_merge_spec(p.env_delay, i.env_delay) as i32,
            attack: timecents_merge_spec(p.env_attack, i.env_attack) as i32,
            hold: timecents_merge_spec(p.env_hold, i.env_hold) as i32,
            decay: timecents_merge_spec(p.env_decay, i.env_decay) as i32,
            release: timecents_merge_spec(p.env_release, i.env_release) as i32,
            sustain: sustain_merge_spec(p.env_sustain, i.env_sustain) as i32,
            fine_tune_cents: (sum_opt(p.fine_tune, i.fine_tune) + s.pitchadj as int + sum_opt(
                p.coarse_tune,
                i.coarse_tune,
            ) * 100) as i32,
        },
    }
}

/// Sum of a preset and an instrument value, each 0 when absent.
pub fn sum_option(a: Option<i16>, b: Option<i16>) -> (r: i16)
    requires
        fits_i16(sum_opt(a, b)),
    ensures
        r == sum_opt(a, b),
{
    let x: i16 = match a {
        Some(v) => v,
        None => 0,
    };
    let y: i16 = match b {
        Some(v) => v,
        None => 0,
    };
    x + y
}

/// A sample offset in frames from fine and coarse parts of a preset and an
/// instrument zone.
pub fn sum_sample_offset(
    fine_a: Option<i16>,
    coarse_a: Option<i16>,
    fine_b: Option<i16>,
    coarse_b: Option<i16>,
) -> (r: i32)
    requires
        fits_i16(sum_opt(fine_a, fine_b)),
        fits_i16(sum_opt(coarse_a, coarse_b)),
    ensures
        r == offset_sum(fine_a, coarse_a, fine_b, coarse_b),
{
    let f = sum_option(fine_a, fine_b) as i32;
    let c = sum_option(coarse_a, coarse_b) as i32;
    f + c * 32768
}

/// The overlap of two ranges.
pub fn intersect_ranges(a: KeyRange, b: KeyRange) -> (r: KeyRange)
    ensures
        r == intersect_spec(a, b),
{
    KeyRange {
        lo: if a.lo >= b.lo {
            a.lo
        } else {
            b.lo
        },
        hi: if a.hi <= b.hi {
            a.hi
        } else {
            b.hi
        },
    }
}

/// A range narrowed to a fixed value, if there is one.
pub fn apply_fixed(range: KeyRange, fixed: Option<u8>) -> (r: KeyRange)
    ensures
        r == apply_fixed_spec(range, fixed),
{
    match fixed {
        Some(v) => intersect_ranges(range, KeyRange { lo: v, hi: v }),
        None => range,
    }
}

/// An envelope time in timecents (see [`timecents_merge_spec`]); the first
/// argument is not used.
pub fn timecents_merge(_default: i16, preset: Option<i16>, instrument: Option<i16>) -> (r: i32)
    ensures
        r == timecents_merge_spec(preset, instrument),
{
    let i: i32 = match instrument {
        Some(v) => v as i32,
        None => -12000,
    };
    let p: i32 = match preset {
        Some(v) => v as i32,
        None => 0,
    };
    i + p
}

/// The sustain attenuation in centibels (see [`sustain_merge_spec`]); the
/// first argument is not used.
pub fn sustain_merge(_default: i16, preset: Option<i16>, instrument: Option<i16>) -> (r: i32)
    ensures
        r == sustain_merge_spec(preset, instrument),
{
    let i: i32 = match instrument {
        Some(v) => v as i32,
        None => 0,
    };
    let p: i32 = match preset {
        Some(v) => v as i32,
        None => 0,
    };
    i + p
}

fn clamp_i32(v: i32, lo: i32, hi: i32) -> (r: i32)
    requires
        lo <= hi,
    ensures
        r == clamp(v as int, lo as int, hi as int),
{
    if v < lo {
        lo
    } else if v > hi {
        hi
    } else {
        v
    }
}

fn or_opt<T: Copy>(a: Option<T>, b: Option<T>) -> (r: Option<T>)
    ensures
        r == (match a {
            Some(v) => Some(v),
            None => b,
        }),
{
    match a {
        Some(v) => Some(v),
        None => b,
    }
}

/// Resolves a preset zone and an instrument zone over sample number `si`.
pub fn resolve_zone(p: &RawZone, i: &RawZone, s: &SampleInfo, si: usize, rate: u32) -> (r: Region<Sf2Sound>)
    requires
        pair_ok(*p, *i, *s),
    ensures
        r == resolve_zone_spec(*p, *i, *s, si, rate),
{
    let key_range = apply_fixed(
        intersect_ranges(
            match p.keyrange {
                Some(k) => k,
                None => KeyRange { lo: 0, hi: 127 },
            },
            match i.keyrange {
                Some(k) => k,
                None => KeyRange { lo: 0, hi: 127 },
            },
        ),
        or_opt(i.fixed_key, p.fixed_key),
    );
    let vel_range = apply_fixed(
        intersect_ranges(
            match p.velrange {
                Some(k) => k,
                None => KeyRange { lo: 0, hi: 127 },
            },
            match i.velrange {
                Some(k) => k,
                None => KeyRange { lo: 0, hi: 127 },
            },
        ),
        or_opt(i.fixed_velocity, p.fixed_velocity),
    );
    let offset = sum_sample_offset(p.offset, p.offset_coarse, i.offset, i.offset_coarse);
    let end_offset = sum_sample_offset(p.end_offset, p.end_offset_coarse, i.end_offset, i.end_offset_coarse);
    let loop_start_offset = sum_sample_offset(
        p.loop_start_offset,
        p.loop_start_offset_coarse,
        i.loop_start_offset,
        i.loop_start_offset_coarse,
    );
    let loop_end_offset = sum_sample_offset(
        p.loop_end_offset,
        p.loop_end_offset_coarse,
        i.loop_end_offset,
        i.loop_end_offset_coarse,
    );
    let orig = s.original_length as i32;
    let sample_end_raw = clamp_i32(orig + end_offset, 0, orig) as u32;
    let er = sample_end_raw as i32;
    let offset = convert_sample_index(clamp_i32(offset, 0, er) as u32, s.sample_rate, rate);
    let se = convert_sample_index(sample_end_raw, s.sample_rate, rate);
    let dl = s.data_len as u32;
    let sample_end = if se <= dl {
        se
    } else {
        dl
    };
    let ls = convert_sample_index(
        clamp_i32(s.loop_start as i32 + loop_start_offset, 0, er) as u32,
        s.sample_rate,
        rate,
    );
    let loop_start = if ls <= sample_end {
        ls
    } else {
        sample_end
    };
    let le = convert_sample_index(
        clamp_i32(s.loop_end as i32 + loop_end_offset, 0, er) as u32,
        s.sample_rate,
        rate,
    );
    let loop_end = if le <= sample_end {
        le
    } else {
        sample_end
    };
    let attenuation = sum_option(p.attenuation, i.attenuation);
    let pan_sum = sum_option(p.pan, i.pan);
    let pan = if pan_sum < -500 {
        -500
    } else if pan_sum > 500 {
        500
    } else {
        pan_sum
    };
    let root_key = (match or_opt(i.root_override, p.root_override) {
        Some(v) => v,
        None => s.origpitch as i16,
    }) as u8;
    let fine_tune_cents = sum_option(p.fine_tune, i.fine_tune) as i32 + s.pitchadj as i32
        + sum_option(p.coarse_tune, i.coarse_tune) as i32 * 100;
    let raw_mode = match p.loop_mode {
        Some(m) => m,
        None => match i.loop_mode {
            Some(m) => m,
            None => LoopMode::NoLoop,
        },
    };
    let loop_mode = if loop_start == loop_end && raw_mode != LoopMode::NoLoop {
        LoopMode::NoLoop
    } else {
        raw_mode
    };
    Region {
        key_range,
        vel_range,
        root_key,
        original_sample_rate: s.sample_rate,
        loop_mode,
        loop_start,
        loop_end,
        sample_end,
        offset,
        exclusive_class: or_opt(i.exclusive_class, p.exclusive_class),
        sound: Sf2Sound {
            sample: si,
            attenuation,
            pan,
            delay: timecents_merge(12000, p.env_delay, i.env_delay),
            attack: timecents_merge(-12000, p.env_attack, i.env_attack),
            hold: timecents_merge(-12000, p.env_hold, i.env_hold),
            decay: timecents_merge(-12000, p.env_decay, i.env_decay),
            release: timecents_merge(-12000, p.env_release, i.env_release),
            sustain: sustain_merge(0, p.env_sustain, i.env_sustain),
            fine_tune_cents,
        },
    }
}

pub open spec fn inst_views(v: Seq<Vec<RawZone>>) -> Seq<Seq<RawZone>> {
    v.map_values(|x: Vec<RawZone>| x@)
}

/// Whether an instrument zone under preset zone `pz` can be resolved: its
/// sample number is in range, and a sample with frames keeps the pair within
/// the integer types.
pub open spec fn izone_ok(pz: RawZone, iz: RawZone, samples: Seq<SampleInfo>) -> bool {
    match iz.index {
        None => true,
        Some(si) => si < samples.len() && (samples[si as int].data_len == 0 || pair_ok(
            pz,
            iz,
            samples[si as int],
        )),
    }
}

/// Whether a preset zone can be resolved: its instrument number is in range
/// and every zone of that instrument can be resolved under it.
pub open spec fn pzone_ok(pz: RawZone, insts: Seq<Seq<RawZone>>, samples: Seq<SampleInfo>) -> bool {
    match pz.index {
        None => true,
        Some(ii) => ii < insts.len() && forall|m: int|
            0 <= m < insts[ii as int].len() ==> izone_ok(pz, #[trigger] insts[ii as int][m], samples),
    }
}

pub open spec fn preset_zones_ok(pzones: Seq<RawZone>, insts: Seq<Seq<RawZone>>, samples: Seq<SampleInfo>) -> bool {
    forall|k: int| 0 <= k < pzones.len() ==> pzone_ok(#[trigger] pzones[k], insts, samples)
}

/// Whether every preset can be built from these instruments and samples.
pub open spec fn presets_ok(presets: Seq<PresetZones>, insts: Seq<Seq<RawZone>>, samples: Seq<SampleInfo>) -> bool {
    forall|pi: int|
        0 <= pi < presets.len() ==> preset_zones_ok(
            parse_zones_spec(zone_gens((#[trigger] presets[pi]).zones@)),
            insts,
            samples,
        )
}

/// The regions of an instrument's zones under a preset zone: one per zone
/// with a sample that has frames, in order.
pub open spec fn izone_regions(pz: RawZone, izones: Seq<RawZone>, samples: Seq<SampleInfo>, rate: u32) -> Seq<Region<Sf2Sound>>
    decreases izones.len(),
{
    if izones.len() == 0 {
        Seq::empty()
    } else {
        let rest = izone_regions(pz, izones.drop_last(), samples, rate);
        let iz = izones.last();
        match iz.index {
            None => rest,
            Some(si) => if samples[si as int].data_len == 0 {
                rest
            } else {
                rest.push(resolve_zone_spec(pz, iz, samples[si as int], si as usize, rate))
            },
        }
    }
}

/// The regions of a preset's zones: for each zone with an instrument, the
/// regions of that instrument under it, in order.
pub open spec fn pzone_regions(pzones: Seq<RawZone>, insts: Seq<Seq<RawZone>>, samples: Seq<SampleInfo>, rate: u32) -> Seq<Region<Sf2Sound>>
    decreases pzones.len(),
{
    if pzones.len() == 0 {
        Seq::empty()
    } else {
        let rest = pzone_regions(pzones.drop_last(), insts, samples, rate);
        match pzones.last().index {
            None => rest,
            Some(ii) => rest + izone_regions(pzones.last(), insts[ii as int], samples, rate),
        }
    }
}

/// The regions of a preset.
pub open spec fn preset_regions(pr: PresetZones, insts: Seq<Seq<RawZone>>, samples: Seq<SampleInfo>, rate: u32) -> Seq<Region<Sf2Sound>> {
    pzone_regions(parse_zones_spec(zone_gens(pr.zones@)), insts, samples, rate)
}

fn izone_regions_into(
    out: &mut Vec<Region<Sf2Sound>>,
    pz: &RawZone,
    izones: &Vec<RawZone>,
    samples: &Vec<SampleInfo>,
    rate: u32,
)
    requires
        forall|m: int| 0 <= m < izones@.len() ==> izone_ok(*pz, #[trigger] izones@[m], samples@),
    ensures
        final(out)@ == old(out)@ + izone_regions(*pz, izones@, samples@, rate),
{
    let ghost start = out@;
    let mut m: usize = 0;
    while m < izones.len()
        invariant
            m <= izones@.len(),
            forall|m: int| 0 <= m < izones@.len() ==> izone_ok(*pz, #[trigger] izones@[m], samples@),
            out@ == start + izone_regions(*pz, izones@.take(m as int), samples@, rate),
        decreases izones@.len() - m,
    {
        let iz = izones[m];
        proof {
            assert(izones@.take(m + 1).drop_last() =~= izones@.take(m as int));
            assert(izones@.take(m + 1).last() == iz);
            assert(izone_ok(*pz, izones@[m as int], samples@));
        }
        match iz.index {
            None => {},
            Some(si) => {
                let sample = &samples[si as usize];
                if sample.data_len != 0 {
                    let region = resolve_zone(pz, &iz, sample, si as usize, rate);
                    let ghost before = out@;
                    out.push(region);
                    assert(out@ =~= start + izone_regions(*pz, izones@.take(m as int), samples@, rate).push(region));
                }
            },
        }
        m = m + 1;
    }
    assert(izones@.take(izones@.len() as int) =~= izones@);
}

/// Builds the regions of every preset from its zones, the resolved
/// instrument zones and the sample headers.
pub fn build_presets(
    raw_presets: &Vec<PresetZones>,
    instruments: &Vec<Vec<RawZone>>,
    samples: &Vec<SampleInfo>,
    target_rate: u32,
) -> (r: Vec<PresetRegions<Sf2Sound>>)
    requires
        presets_ok(raw_presets@, inst_views(instruments@), samples@),
    ensures
        r@.len() == raw_presets@.len(),
        forall|k: int|
            0 <= k < r@.len() ==> {
                let p = #[trigger] r@[k];
                let rp = raw_presets@[k];
                &&& p.bank == rp.bank
                &&& p.program == rp.preset
                &&& p.name@ == rp.name@
                &&& p.regions@ == preset_regions(rp, inst_views(instruments@), samples@, target_rate)
            },
{
    let ghost insts = inst_views(instruments@);
    let mut out: Vec<PresetRegions<Sf2Sound>> = Vec::new();
    let mut k: usize = 0;
    while k < raw_presets.len()
        invariant
            k <= raw_presets@.len(),
            insts == inst_views(instruments@),
            presets_ok(raw_presets@, insts, samples@),
            out@.len() == k,
            forall|j: int|
                0 <= j < k ==> {
                    let p = #[trigger] out@[j];
                    let rp = raw_presets@[j];
                    &&& p.bank == rp.bank
                    &&& p.program == rp.preset
                    &&& p.name@ == rp.name@
                    &&& p.regions@ == preset_regions(rp, insts, samples@, target_rate)
                },
        decreases raw_presets@.len() - k,
    {
        let rp = &raw_presets[k];
        let pzones = parse_zones(&rp.zones);
        proof {
            assert(preset_zones_ok(pzones@, insts, samples@));
        }
        let mut regions: Vec<Region<Sf2Sound>> = Vec::new();
        let mut q: usize = 0;
        while q < pzones.len()
            invariant
                q <= pzones@.len(),
                insts == inst_views(instruments@),
                preset_zones_ok(pzones@, insts, samples@),
                regions@ == pzone_regions(pzones@.take(q as int), insts, samples@, target_rate),
            decreases pzones@.len() - q,
        {
            let pz = pzones[q];
            proof {
                assert(pzones@.take(q + 1).drop_last() =~= pzones@.take(q as int));
                assert(pzones@.take(q + 1).last() == pz);
                assert(pzone_ok(pzones@[q as int], insts, samples@));
            }
            match pz.index {
                None => {},
                Some(ii) => {
                    let izones = &instruments[ii as usize];
                    proof {
                        assert(insts[ii as int] == izones@);
                    }
                    izone_regions_into(&mut regions, &pz, izones, samples, target_rate);
                },
            }
            q = q + 1;
        }
        assert(pzones@.take(pzones@.len() as int) =~= pzones@);
        out.push(PresetRegions { bank: rp.bank, program: rp.preset, name: rp.name.clone(), regions });
        k = k + 1;
    }
    out
}

fn opt_i32(a: Option<i16>) -> (r: i32)
    ensures
        r == unwrap_or_zero(a),
{
    match a {
        Some(v) => v as i32,
        None => 0,
    }
}

fn sum_fits(a: Option<i16>, b: Option<i16>) -> (r: bool)
    ensures
        r == fits_i16(sum_opt(a, b)),
{
    let x = opt_i32(a) + opt_i32(b);
    -32768 <= x && x <= 32767
}

fn moved_fits(base: u32, fa: Option<i16>, ca: Option<i16>, fb: Option<i16>, cb: Option<i16>) -> (r: bool)
    requires
        fits_i16(sum_opt(fa, fb)),
        fits_i16(sum_opt(ca, cb)),
    ensures
        r == fits_i32((base as i32) as int + offset_sum(fa, ca, fb, cb)),
{
    let total = (base as i32) as i64 + sum_sample_offset(fa, ca, fb, cb) as i64;
    -0x8000_0000 <= total && total <= 0x7fff_ffff
}

/// Whether a zone pair with its sample stays within the integer types of
/// resolution (see [`pair_ok`]).
pub fn pair_fits(p: &RawZone, i: &RawZone, s: &SampleInfo) -> (r: bool)
    ensures
        r == pair_ok(*p, *i, *s),
{
    if !(sum_fits(p.offset, i.offset) && sum_fits(p.offset_coarse, i.offset_coarse) && sum_fits(
        p.end_offset,
        i.end_offset,
    ) && sum_fits(p.end_offset_coarse, i.end_offset_coarse) && sum_fits(
        p.loop_start_offset,
        i.loop_start_offset,
    ) && sum_fits(p.loop_start_offset_coarse, i.loop_start_offset_coarse) && sum_fits(
        p.loop_end_offset,
        i.loop_end_offset,
    ) && sum_fits(p.loop_end_offset_coarse, i.loop_end_offset_coarse) && sum_fits(
        p.attenuation,
        i.attenuation,
    ) && sum_fits(p.pan, i.pan) && sum_fits(p.fine_tune, i.fine_tune) && sum_fits(
        p.coarse_tune,
        i.coarse_tune,
    )) {
        return false;
    }
    (s.original_length as i32) >= 0 && moved_fits(
        s.original_length,
        p.end_offset,
        p.end_offset_coarse,
        i.end_offset,
        i.end_offset_coarse,
    ) && moved_fits(
        s.loop_start,
        p.loop_start_offset,
        p.loop_start_offset_coarse,
        i.loop_start_offset,
        i.loop_start_offset_coarse,
    ) && moved_fits(
        s.loop_end,
        p.loop_end_offset,
        p.loop_end_offset_coarse,
        i.loop_end_offset,
        i.loop_end_offset_coarse,
    )
}

/// Whether [`build_presets`] can run on these inputs: every instrument and
/// sample number that a zone names is in range, and every zone pair stays
/// within the integer types (see [`presets_ok`]).
pub fn presets_buildable(
    raw_presets: &Vec<PresetZones>,
    instruments: &Vec<Vec<RawZone>>,
    samples: &Vec<SampleInfo>,
) -> (r: bool)
    ensures
        r == presets_ok(raw_presets@, inst_views(instruments@), samples@),
{
    let ghost insts = inst_views(instruments@);
    let mut k: usize = 0;
    while k < raw_presets.len()
        invariant
            k <= raw_presets@.len(),
            insts == inst_views(instruments@),
            forall|pi: int|
                0 <= pi < k ==> preset_zones_ok(
                    parse_zones_spec(zone_gens((#[trigger] raw_presets@[pi]).zones@)),
                    insts,
                    samples@,
                ),
        decreases raw_presets@.len() - k,
    {
        let pzones = parse_zones(&raw_presets[k].zones);
        let mut q: usize = 0;
        while q < pzones.len()
            invariant
                q <= pzones@.len(),
                k < raw_presets@.len(),
                pzones@ == parse_zones_spec(zone_gens(raw_presets@[k as int].zones@)),
                insts == inst_views(instruments@),
                forall|j: int| 0 <= j < q ==> pzone_ok(#[trigger] pzones@[j], insts, samples@),
            decreases pzones@.len() - q,
        {
            let pz = pzones[q];
            match pz.index {
                None => {},
                Some(ii) => {
                    if ii as usize >= instruments.len() {
                        assert(!pzone_ok(pzones@[q as int], insts, samples@));
                        assert(!preset_zones_ok(pzones@, insts, samples@));
                        assert(!presets_ok(raw_presets@, insts, samples@));
                        return false;
                    }
                    let izones = &instruments[ii as usize];
                    assert(insts[ii as int] == izones@);
                    let mut m: usize = 0;
                    while m < izones.len()
                        invariant
                            m <= izones@.len(),
                            q < pzones@.len(),
                            pz == pzones@[q as int],
                            pz.index == Some(ii),
                            ii < insts.len(),
                            insts[ii as int] == izones@,
                            k < raw_presets@.len(),
                            pzones@ == parse_zones_spec(zone_gens(raw_presets@[k as int].zones@)),
                            insts == inst_views(instruments@),
                            forall|j: int| 0 <= j < m ==> izone_ok(pz, #[trigger] izones@[j], samples@),
                        decreases izones@.len() - m,
                    {
                        let iz = izones[m];
                        match iz.index {
                            None => {},
                            Some(si) => {
                                if si as usize >= samples.len() {
                                    assert(!izone_ok(pz, izones@[m as int], samples@));
                                    assert(!pzone_ok(pzones@[q as int], insts, samples@));
                                    assert(!preset_zones_ok(pzones@, insts, samples@));
                                    assert(!presets_ok(raw_presets@, insts, samples@));
                                    return false;
                                }
                                let sample = &samples[si as usize];
                                if sample.data_len != 0 && !pair_fits(&pz, &iz, sample) {
                                    assert(!izone_ok(pz, izones@[m as int], samples@));
                                    assert(!pzone_ok(pzones@[q as int], insts, samples@));
                                    assert(!preset_zones_ok(pzones@, insts, samples@));
                                    assert(!presets_ok(raw_presets@, insts, samples@));
                                    return false;
                                }
                            },
                        }
                        m = m + 1;
                    }
                },
            }
            q = q + 1;
        }
        k = k + 1;
    }
    true
}

/// A key lies in the overlap of two ranges exactly when it lies in both.
pub proof fn law_intersect_is_overlap(a: KeyRange, b: KeyRange, x: u8)
    ensures
        intersect_spec(a, b).has(x) <==> (a.has(x) && b.has(x)),
{
}

/// A range narrowed to a fixed value holds only that value, and only when
/// the range held it.
pub proof fn law_fixed_narrows(r: KeyRange, fixed: Option<u8>, x: u8)
    ensures
        apply_fixed_spec(r, fixed).has(x) <==> (r.has(x) && match fixed {
            Some(v) => x == v,
            None => true,
        }),
{
}

/// The volume-envelope times of a resolved region: each is the instrument
/// zone's generator of that stage (-12000 timecents, about 1 ms, when
/// absent) plus the preset zone's generator of the same stage (0 when
/// absent); the sustain attenuation is the instrument's value plus the
/// preset's (each 0 when absent). No other generator takes part.
pub proof fn law_resolve_envelope_times(p: RawZone, i: RawZone, s: SampleInfo, si: usize, rate: u32)
    ensures
        ({
            let e = resolve_zone_spec(p, i, s, si, rate).sound;
            &&& e.delay == (match i.env_delay { Some(v) => v as int, None => -12000 }) + (match p.env_delay { Some(v) => v as int, None => 0 })
            &&& e.attack == (match i.env_attack { Some(v) => v as int, None => -12000 }) + (match p.env_attack { Some(v) => v as int, None => 0 })
            &&& e.hold == (match i.env_hold { Some(v) => v as int, None => -12000 }) + (match p.env_hold { Some(v) => v as int, None => 0 })
            &&& e.decay == (match i.env_decay { Some(v) => v as int, None => -12000 }) + (match p.env_decay { Some(v) => v as int, None => 0 })
            &&& e.release == (match i.env_release { Some(v) => v as int, None => -12000 }) + (match p.env_release { Some(v) => v as int, None => 0 })
            &&& e.sustain == (match i.env_sustain { Some(v) => v as int, None => 0 }) + (match p.env_sustain { Some(v) => v as int, None => 0 })
        }),
{
}

/// Where a resolved region plays: a key (or velocity) is in its range
/// exactly when it is in both zones' ranges (the full 0-127 range when a
/// zone has none) and equals the fixed key (or velocity) when a zone sets
/// one (the instrument's taking precedence).
pub proof fn law_resolve_ranges(p: RawZone, i: RawZone, s: SampleInfo, si: usize, rate: u32, x: u8)
    ensures
        ({
            let r = resolve_zone_spec(p, i, s, si, rate);
            let in_p = match p.keyrange { Some(k) => k.lo <= x <= k.hi, None => x <= 127 };
            let in_i = match i.keyrange { Some(k) => k.lo <= x <= k.hi, None => x <= 127 };
            let fixed = match i.fixed_key { Some(f) => x == f, None => match p.fixed_key { Some(f) => x == f, None => true } };
            r.key_range.has(x) <==> in_p && in_i && fixed
        }),
        ({
            let r = resolve_zone_spec(p, i, s, si, rate);
            let in_p = match p.velrange { Some(k) => k.lo <= x <= k.hi, None => x <= 127 };
            let in_i = match i.velrange { Some(k) => k.lo <= x <= k.hi, None => x <= 127 };
            let fixed = match i.fixed_velocity { Some(f) => x == f, None => match p.fixed_velocity { Some(f) => x == f, None => true } };
            r.vel_range.has(x) <==> in_p && in_i && fixed
        }),
{
}

/// The pitch, gain and identity of a resolved region: the root key is the
/// instrument's overriding root key, else the preset's, else the sample's
/// original pitch; attenuation and tuning add the two zones' values (fine
/// tune plus the sample's pitch correction plus 100 cents per semitone of
/// coarse tune); pan adds them and is kept within -500..=500; the exclusive
/// class is the instrument's, else the preset's; the region plays sample
/// `si` at its recorded rate.
pub proof fn law_resolve_sound(p: RawZone, i: RawZone, s: SampleInfo, si: usize, rate: u32)
    requires
        pair_ok(p, i, s),
    ensures
        ({
            let r = resolve_zone_spec(p, i, s, si, rate);
            let pi = |o: Option<i16>| -> int { match o { Some(v) => v as int, None => 0 } };
            &&& r.root_key == (match i.root_override {
                Some(v) => v as u8,
                None => match p.root_override { Some(v) => v as u8, None => s.origpitch },
            })
            &&& r.sound.attenuation == pi(p.attenuation) + pi(i.attenuation)
            &&& r.sound.pan == (if pi(p.pan) + pi(i.pan) < -500 { -500 } else if pi(p.pan) + pi(i.pan) > 500 { 500 } else { pi(p.pan) + pi(i.pan) })
            &&& r.sound.fine_tune_cents == pi(p.fine_tune) + pi(i.fine_tune) + s.pitchadj + 100 * (pi(p.coarse_tune) + pi(i.coarse_tune))
            &&& r.exclusive_class == (match i.exclusive_class { Some(c) => Some(c), None => p.exclusive_class })
            &&& r.sound.sample == si
            &&& r.original_sample_rate == s.sample_rate
        }),
{
}

/// Each generator sets the one zone value its kind names to its amount
/// and leaves all others as they were: a signed value for offsets, pan,
/// envelope times, attenuation, tuning and the root key; a key or velocity
/// range for the range kinds; the sample or instrument number for the index
/// kinds; loop mode 1 for a continuous loop and 3 for a sustain loop; fixed
/// keys and velocities kept within 0..=127 and exclusive classes within
/// 0..=255. Kinds that zones do not keep change nothing.
pub proof fn law_generator_sets_its_field(z: RawZone, a: Sf2Amount)
    ensures
        a matches Sf2Amount::I16(v) ==> apply_generator_spec(z, GeneratorKind::StartAddrsOffset, a) == (RawZone { offset: Some(v), ..z }),
        a matches Sf2Amount::I16(v) ==> apply_generator_spec(z, GeneratorKind::EndAddrsOffset, a) == (RawZone { end_offset: Some(v), ..z }),
        a matches Sf2Amount::I16(v) ==> apply_generator_spec(z, GeneratorKind::StartAddrsCoarseOffset, a) == (RawZone { offset_coarse: Some(v), ..z }),
        a matches Sf2Amount::I16(v) ==> apply_generator_spec(z, GeneratorKind::EndAddrsCoarseOffset, a) == (RawZone { end_offset_coarse: Some(v), ..z }),
        a matches Sf2Amount::I16(v) ==> apply_generator_spec(z, GeneratorKind::StartloopAddrsOffset, a) == (RawZone { loop_start_offset: Some(v), ..z }),
        a matches Sf2Amount::I16(v) ==> apply_generator_spec(z, GeneratorKind::StartloopAddrsCoarseOffset, a) == (RawZone { loop_start_offset_coarse: Some(v), ..z }),
        a matches Sf2Amount::I16(v) ==> apply_generator_spec(z, GeneratorKind::EndloopAddrsOffset, a) == (RawZone { loop_end_offset: Some(v), ..z }),
        a matches Sf2Amount::I16(v) ==> apply_generator_spec(z, GeneratorKind::EndloopAddrsCoarseOffset, a) == (RawZone { loop_end_offset_coarse: Some(v), ..z }),
        a matches Sf2Amount::I16(v) ==> apply_generator_spec(z, GeneratorKind::Pan, a) == (RawZone { pan: Some(v), ..z }),
        a matches Sf2Amount::I16(v) ==> apply_generator_spec(z, GeneratorKind::DelayVolEnv, a) == (RawZone { env_delay: Some(v), ..z }),
        a matches Sf2Amount::I16(v) ==> apply_generator_spec(z, GeneratorKind::AttackVolEnv, a) == (RawZone { env_attack: Some(v), ..z }),
        a matches Sf2Amount::I16(v) ==> apply_generator_spec(z, GeneratorKind::HoldVolEnv, a) == (RawZone { env_hold: Some(v), ..z }),
        a matches Sf2Amount::I16(v) ==> apply_generator_spec(z, GeneratorKind::DecayVolEnv, a) == (RawZone { env_decay: Some(v), ..z }),
        a matches Sf2Amount::I16(v) ==> apply_generator_spec(z, GeneratorKind::SustainVolEnv, a) == (RawZone { env_sustain: Some(v), ..z }),
        a matches Sf2Amount::I16(v) ==> apply_generator_spec(z, GeneratorKind::ReleaseVolEnv, a) == (RawZone { env_release: Some(v), ..z }),
        a matches Sf2Amount::I16(v) ==> apply_generator_spec(z, GeneratorKind::InitialAttenuation, a) == (RawZone { attenuation: Some(v), ..z }),
        a matches Sf2Amount::I16(v) ==> apply_generator_spec(z, GeneratorKind::CoarseTune, a) == (RawZone { coarse_tune: Some(v), ..z }),
        a matches Sf2Amount::I16(v) ==> apply_generator_spec(z, GeneratorKind::FineTune, a) == (RawZone { fine_tune: Some(v), ..z }),
        a matches Sf2Amount::I16(v) ==> apply_generator_spec(z, GeneratorKind::ScaleTuning, a) == (RawZone { scale_tuning: Some(v), ..z }),
        a matches Sf2Amount::I16(v) ==> apply_generator_spec(z, GeneratorKind::OverridingRootKey, a) == (RawZone { root_override: Some(v), ..z }),
        a matches Sf2Amount::Range(lo, hi) ==> apply_generator_spec(z, GeneratorKind::KeyRange, a) == (RawZone {
            keyrange: Some(KeyRange { lo, hi }),
            ..z
        }),
        a matches Sf2Amount::Range(lo, hi) ==> apply_generator_spec(z, GeneratorKind::VelRange, a) == (RawZone {
            velrange: Some(KeyRange { lo, hi }),
            ..z
        }),
        a matches Sf2Amount::U16(v) ==> apply_generator_spec(z, GeneratorKind::SampleID, a) == (RawZone { index: Some(v), ..z }),
        a matches Sf2Amount::U16(v) ==> apply_generator_spec(z, GeneratorKind::Instrument, a) == (RawZone { index: Some(v), ..z }),
        a == Sf2Amount::I16(1) ==> apply_generator_spec(z, GeneratorKind::SampleModes, a) == (RawZone {
            loop_mode: Some(LoopMode::LoopContinuous),
            ..z
        }),
        a == Sf2Amount::I16(3) ==> apply_generator_spec(z, GeneratorKind::SampleModes, a) == (RawZone {
            loop_mode: Some(LoopMode::LoopSustain),
            ..z
        }),
        a matches Sf2Amount::I16(v) && v != 1 && v != 3 ==> apply_generator_spec(z, GeneratorKind::SampleModes, a)
            == (RawZone { loop_mode: Some(LoopMode::NoLoop), ..z }),
        a matches Sf2Amount::I16(v) ==> apply_generator_spec(z, GeneratorKind::Keynum, a) == (RawZone {
            fixed_key: Some((if v < 0 { 0 } else if v > 127 { 127 } else { v as int }) as u8),
            ..z
        }),
        a matches Sf2Amount::I16(v) ==> apply_generator_spec(z, GeneratorKind::Velocity, a) == (RawZone {
            fixed_velocity: Some((if v < 0 { 0 } else if v > 127 { 127 } else { v as int }) as u8),
            ..z
        }),
        a matches Sf2Amount::I16(v) ==> apply_generator_spec(z, GeneratorKind::ExclusiveClass, a) == (RawZone {
            exclusive_class: Some((if v < 0 { 0 } else if v > 255 { 255 } else { v as int }) as u8),
            ..z
        }),
        apply_generator_spec(z, GeneratorKind::Other, a) == z,
{
}

/// The zones kept from a zone list: when the first zone names no sample
/// or instrument it is the global zone, and every later zone is its values
/// with the later zone's generators applied on top; otherwise every zone is
/// kept on its own. The zones keep their order.
pub proof fn law_global_zone_defaults(zones: Seq<Seq<Sf2Generator>>)
    requires
        zones.len() > 0,
    ensures
        ({
            let g = apply_generators(empty_zone(), zones[0]);
            &&& g.index is None ==> parse_zones_spec(zones) == zones.drop_first().map_values(
                |z: Seq<Sf2Generator>| apply_generators(g, z),
            )
            &&& g.index is Some ==> parse_zones_spec(zones) == zones.map_values(
                |z: Seq<Sf2Generator>| apply_generators(empty_zone(), z),
            )
        }),
    decreases zones.len(),
{
    let g = apply_generators(empty_zone(), zones[0]);
    if zones.len() == 1 {
        assert(zones.drop_last() =~= Seq::<Seq<Sf2Generator>>::empty());
        assert(zones.last() == zones[0]);
        if g.index is None {
            assert(zones.drop_first().map_values(|z: Seq<Sf2Generator>| apply_generators(g, z)) =~= Seq::<RawZone>::empty());
        } else {
            assert(zones.map_values(|z: Seq<Sf2Generator>| apply_generators(empty_zone(), z)) =~= seq![g]);
        }
    } else {
        let pre = zones.drop_last();
        law_global_zone_defaults(pre);
        assert(pre[0] == zones[0]);
        lemma_zones_state_global(pre);
        assert(zones_state(zones).1 == zones_state(pre).1.push(apply_generators(zones_state(pre).0, zones.last())));
        if g.index is None {
            assert(zones.drop_first().map_values(|z: Seq<Sf2Generator>| apply_generators(g, z)) =~= pre.drop_first().map_values(
                |z: Seq<Sf2Generator>| apply_generators(g, z),
            ).push(apply_generators(g, zones.last())));
        } else {
            assert(zones.map_values(|z: Seq<Sf2Generator>| apply_generators(empty_zone(), z)) =~= pre.map_values(
                |z: Seq<Sf2Generator>| apply_generators(empty_zone(), z),
            ).push(apply_generators(empty_zone(), zones.last())));
        }
    }
}

proof fn lemma_zones_state_global(zones: Seq<Seq<Sf2Generator>>)
    requires
        zones.len() > 0,
    ensures
        zones_state(zones).0 == (if apply_generators(empty_zone(), zones[0]).index is None {
            apply_generators(empty_zone(), zones[0])
        } else {
            empty_zone()
        }),
    decreases zones.len(),
{
    if zones.len() == 1 {
        assert(zones.drop_last() =~= Seq::<Seq<Sf2Generator>>::empty());
    } else {
        lemma_zones_state_global(zones.drop_last());
        assert(zones.drop_last()[0] == zones[0]);
    }
}

/// Where a resolved region plays in its sample, when the sample plays at
/// the rate it was recorded at and the zones move no loop point or end:
/// playback starts at the zones' start offset (kept within the sample),
/// ends at the sample's end (or where its frames run out), and loops
/// between the sample header's loop points (capped at that end). The loop
/// mode is the preset zone's, else the instrument zone's, else no loop; a
/// loop of no length does not loop.
pub proof fn law_resolve_positions(p: RawZone, i: RawZone, s: SampleInfo, si: usize)
    requires
        pair_ok(p, i, s),
        s.sample_rate > 0,
        p.offset_coarse is None && i.offset_coarse is None,
        p.end_offset is None && i.end_offset is None && p.end_offset_coarse is None && i.end_offset_coarse is None,
        p.loop_start_offset is None && i.loop_start_offset is None,
        p.loop_start_offset_coarse is None && i.loop_start_offset_coarse is None,
        p.loop_end_offset is None && i.loop_end_offset is None,
        p.loop_end_offset_coarse is None && i.loop_end_offset_coarse is None,
        s.original_length <= 0x7fff_ffff && s.loop_start <= 0x7fff_ffff && s.loop_end <= 0x7fff_ffff,
        s.data_len <= u32::MAX,
    ensures
        ({
            let r = resolve_zone_spec(p, i, s, si, s.sample_rate);
            let len = s.original_length as int;
            let end = if len <= s.data_len { len } else { s.data_len as int };
            let off = (match p.offset { Some(v) => v as int, None => 0 }) + (match i.offset { Some(v) => v as int, None => 0 });
            let ls = if s.loop_start <= len { s.loop_start as int } else { len };
            let le = if s.loop_end <= len { s.loop_end as int } else { len };
            let mode = match p.loop_mode { Some(m) => m, None => match i.loop_mode { Some(m) => m, None => LoopMode::NoLoop } };
            &&& r.sample_end == end
            &&& r.offset == (if off < 0 { 0 } else if off > len { len } else { off })
            &&& r.loop_start == (if ls <= end { ls } else { end })
            &&& r.loop_end == (if le <= end { le } else { end })
            &&& r.loop_mode == (if r.loop_start == r.loop_end { LoopMode::NoLoop } else { mode })
        }),
{
    let len = s.original_length as int;
    let rate = s.sample_rate;
    crate::types::law_convert_same_rate(s.original_length, rate);
    let off = offset_sum(p.offset, p.offset_coarse, i.offset, i.offset_coarse);
    let co = clamp(off, 0, len);
    crate::types::law_convert_same_rate(co as u32, rate);
    let cls = clamp(s.loop_start as i32 as int, 0, len);
    crate::types::law_convert_same_rate(cls as u32, rate);
    let cle = clamp(s.loop_end as i32 as int, 0, len);
    crate::types::law_convert_same_rate(cle as u32, rate);
}

/// How the address-offset generators move playback, when the sample plays
/// at the rate it was recorded at. Each offset is the preset zone's plus
/// the instrument zone's fine value (0 when absent) plus 32768 frames for
/// each unit of their coarse values. The end is the sample's length moved
/// by the end offset, kept within the sample, and no later than its frames
/// run out; the start is the start offset kept within `0..=end`; each loop
/// point is the sample header's point moved by its offset, kept within
/// `0..=end`.
pub proof fn law_resolve_offsets(p: RawZone, i: RawZone, s: SampleInfo, si: usize)
    requires
        pair_ok(p, i, s),
        s.sample_rate > 0,
        s.original_length <= 0x7fff_ffff && s.loop_start <= 0x7fff_ffff && s.loop_end <= 0x7fff_ffff,
        s.data_len <= u32::MAX,
    ensures
        ({
            let r = resolve_zone_spec(p, i, s, si, s.sample_rate);
            let z = |a: Option<i16>| match a { Some(v) => v as int, None => 0int };
            let start_off = z(p.offset) + z(i.offset) + 32768 * (z(p.offset_coarse) + z(i.offset_coarse));
            let end_off = z(p.end_offset) + z(i.end_offset) + 32768 * (z(p.end_offset_coarse) + z(i.end_offset_coarse));
            let ls_off = z(p.loop_start_offset) + z(i.loop_start_offset)
                + 32768 * (z(p.loop_start_offset_coarse) + z(i.loop_start_offset_coarse));
            let le_off = z(p.loop_end_offset) + z(i.loop_end_offset)
                + 32768 * (z(p.loop_end_offset_coarse) + z(i.loop_end_offset_coarse));
            let len = s.original_length as int;
            let e0 = len + end_off;
            let end = if e0 < 0 { 0 } else if e0 > len { len } else { e0 };
            let ls = s.loop_start as int + ls_off;
            let le = s.loop_end as int + le_off;
            let ls_in = if ls < 0 { 0 } else if ls > end { end } else { ls };
            let le_in = if le < 0 { 0 } else if le > end { end } else { le };
            &&& r.sample_end == (if end <= s.data_len { end } else { s.data_len as int })
            &&& r.offset == (if start_off < 0 { 0 } else if start_off > end { end } else { start_off })
            &&& r.loop_start == (if ls_in <= r.sample_end { ls_in } else { r.sample_end as int })
            &&& r.loop_end == (if le_in <= r.sample_end { le_in } else { r.sample_end as int })
        }),
{
    let rate = s.sample_rate;
    let er = end_raw(p, i, s);
    crate::types::law_convert_same_rate(er as u32, rate);
    let co = clamp(offset_sum(p.offset, p.offset_coarse, i.offset, i.offset_coarse), 0, er);
    crate::types::law_convert_same_rate(co as u32, rate);
    let cls = clamp(
        s.loop_start as i32 as int + offset_sum(p.loop_start_offset, p.loop_start_offset_coarse, i.loop_start_offset, i.loop_start_offset_coarse),
        0,
        er,
    );
    crate::types::law_convert_same_rate(cls as u32, rate);
    let cle = clamp(
        s.loop_end as i32 as int + offset_sum(p.loop_end_offset, p.loop_end_offset_coarse, i.loop_end_offset, i.loop_end_offset_coarse),
        0,
        er,
    );
    crate::types::law_convert_same_rate(cle as u32, rate);
}

} // verus!
