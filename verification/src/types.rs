use vstd::prelude::*;

verus! {

/// `std::io::Error`, carried in error values.
#[verifier::external_type_specification]
#[verifier::external_body]
pub struct ExIoError(std::io::Error);

/// `std::path::PathBuf`, carried in error values.
#[verifier::external_type_specification]
#[verifier::external_body]
pub struct ExPathBuf(std::path::PathBuf);

/// Rounds `new_rate * idx / old_rate` to the nearest integer (halves away
/// from zero) and saturates at `u32::MAX`. A zero `old_rate` gives
/// `u32::MAX`, or 0 when the numerator is 0 as well.
pub open spec fn spec_convert_sample_index(idx: u32, old_rate: u32, new_rate: u32) -> int {
    let num = new_rate as int * idx as int;
    if old_rate == 0 {
        if num == 0 { 0 } else { u32::MAX as int }
    } else {
        let q = (2 * num + old_rate as int) / (2 * old_rate as int);
        if q > u32::MAX as int { u32::MAX as int } else { q }
    }
}

/// Convert a sample index when resampling from `old_rate` to `new_rate`.
pub fn convert_sample_index(idx: u32, old_rate: u32, new_rate: u32) -> (r: u32)
    ensures
        r as int == spec_convert_sample_index(idx, old_rate, new_rate),
{
    let a: u128 = new_rate as u128;
    let b: u128 = idx as u128;
    assert(a * b <= 0xffff_ffff_ffff_ffffu128) by (nonlinear_arith)
        requires a <= 0xffff_ffffu128, b <= 0xffff_ffffu128;
    let num: u128 = a * b;
    if old_rate == 0 {
        if num == 0 { 0 } else { u32::MAX }
    } else {
        let q: u128 = (2 * num + old_rate as u128) / (2 * old_rate as u128);
        if q > u32::MAX as u128 { u32::MAX } else { q as u32 }
    }
}


/// How a sample loops.
#[derive(Debug, Clone, Copy, PartialEq, Eq, Structural)]
pub enum LoopMode {
    NoLoop,
    LoopContinuous,
    LoopSustain,
    OneShot,
}

impl Default for LoopMode {
    fn default() -> (r: Self)
        ensures
            r == LoopMode::NoLoop,
    {
        LoopMode::NoLoop
    }
}

/// An inclusive range of MIDI key numbers or velocities, `lo..=hi`.
#[derive(Debug, Clone, Copy, PartialEq, Eq, Structural)]
pub struct KeyRange {
    pub lo: u8,
    pub hi: u8,
}

impl KeyRange {
    pub open spec fn has(self, x: u8) -> bool {
        self.lo <= x && x <= self.hi
    }

    /// Whether `x` lies in the range.
    pub fn contains(&self, x: u8) -> (b: bool)
        ensures
            b == self.has(x),
    {
        self.lo <= x && x <= self.hi
    }
}

/// Number of output channels.
#[derive(Debug, Clone, Copy, PartialEq, Eq, Structural)]
pub enum ChannelCount {
    Mono,
    Stereo,
}

/// Output audio stream configuration.
#[derive(Debug, Clone, Copy, PartialEq, Eq, Structural)]
pub struct AudioStreamParams {
    pub sample_rate: u32,
    pub channels: ChannelCount,
}

/// A resolved region: which notes it answers and where it plays in its
/// sample, at the output rate. `sound` carries the rendering parameters
/// (sample data, gain, pan, tuning and envelope times).
pub struct Region<P> {
    pub key_range: KeyRange,
    pub vel_range: KeyRange,
    pub root_key: u8,
    pub original_sample_rate: u32,
    pub loop_mode: LoopMode,
    pub loop_start: u32,
    pub loop_end: u32,
    pub sample_end: u32,
    pub offset: u32,
    pub exclusive_class: Option<u8>,
    pub sound: P,
}

/// A preset (bank + program + regions).
pub struct PresetRegions<P> {
    pub bank: u16,
    pub program: u16,
    pub name: String,
    pub regions: Vec<Region<P>>,
}

/// A loaded soundfont: its presets, and the sample buffers it owns.
pub struct SoundFont<P, B> {
    pub presets: Vec<PresetRegions<P>>,
    pub sample_buffers: Vec<B>,
}

/// Whether a preset answers to a MIDI bank and program: the preset's bank
/// and program numbers, truncated to their low byte, are equal to them.
pub open spec fn preset_selected<P>(p: PresetRegions<P>, bank: u8, program: u8) -> bool {
    p.bank as u8 == bank && p.program as u8 == program
}

/// Whether a region plays for a key and velocity.
pub open spec fn region_plays<P>(r: Region<P>, key: u8, vel: u8) -> bool {
    r.key_range.has(key) && r.vel_range.has(vel)
}

impl<P, B> SoundFont<P, B> {
    /// The index of the first preset that answers to `bank` and `program`.
    pub fn find_preset(&self, bank: u8, program: u8) -> (r: Option<usize>)
        ensures
            match r {
                Some(i) => i < self.presets@.len() && preset_selected(self.presets@[i as int], bank, program)
                    && forall|j: int| 0 <= j < i ==> !preset_selected(#[trigger] self.presets@[j], bank, program),
                None => forall|j: int|
                    0 <= j < self.presets@.len() ==> !preset_selected(#[trigger] self.presets@[j], bank, program),
            },
    {
        let mut i: usize = 0;
        while i < self.presets.len()
            invariant
                i <= self.presets@.len(),
                forall|j: int| 0 <= j < i ==> !preset_selected(#[trigger] self.presets@[j], bank, program),
            decreases self.presets@.len() - i,
        {
            let p = &self.presets[i];
            if p.bank as u8 == bank && p.program as u8 == program {
                return Some(i);
            }
            i = i + 1;
        }
        None
    }

    /// The regions that play for a note: indices, in order, into the regions
    /// of the first preset that answers to `bank` and `program`, together
    /// with that preset's index; `None` when no preset answers.
    pub fn matching_regions(&self, bank: u8, program: u8, key: u8, vel: u8) -> (r: Option<(usize, Vec<usize>)>)
        ensures
            match r {
                None => forall|j: int|
                    0 <= j < self.presets@.len() ==> !preset_selected(#[trigger] self.presets@[j], bank, program),
                Some((p, idx)) => {
                    &&& p < self.presets@.len()
                    &&& preset_selected(self.presets@[p as int], bank, program)
                    &&& forall|j: int| 0 <= j < p ==> !preset_selected(#[trigger] self.presets@[j], bank, program)
                    &&& idx@ == Seq::new(self.presets@[p as int].regions@.len(), |i: int| i as usize).filter(
                        |i: usize| region_plays(self.presets@[p as int].regions@[i as int], key, vel),
                    )
                },
            },
    {
        match self.find_preset(bank, program) {
            None => None,
            Some(p) => {
                let regions = &self.presets[p].regions;
                let ghost all = Seq::new(regions@.len(), |i: int| i as usize);
                let ghost pred = |i: usize| region_plays(regions@[i as int], key, vel);
                let mut out: Vec<usize> = Vec::new();
                let mut i: usize = 0;
                while i < regions.len()
                    invariant
                        i <= regions@.len(),
                        all == Seq::new(regions@.len(), |i: int| i as usize),
                        pred == (|i: usize| region_plays(regions@[i as int], key, vel)),
                        out@ == all.take(i as int).filter(pred),
                    decreases regions@.len() - i,
                {
                    let reg = &regions[i];
                    proof {
                        reveal_with_fuel(Seq::filter, 1);
                        assert(all.take(i + 1).drop_last() =~= all.take(i as int));
                    }
                    proof {
                        assert(all.take(i + 1).last() == i);
                        assert(pred(i) == region_plays(regions@[i as int], key, vel));
                        assert(all.take(i + 1).filter(pred) == all.take(i as int).filter(pred) + (
                        if pred(i) {
                            seq![i]
                        } else {
                            Seq::<usize>::empty()
                        }));
                    }
                    if reg.key_range.contains(key) && reg.vel_range.contains(vel) {
                        out.push(i);
                    }
                    i = i + 1;
                }
                assert(all.take(regions@.len() as int) =~= all);
                Some((p, out))
            }
        }
    }
}

/// Converting between equal rates keeps every index.
pub proof fn law_convert_same_rate(idx: u32, rate: u32)
    requires
        rate > 0,
    ensures
        spec_convert_sample_index(idx, rate, rate) == idx,
{
    let num = rate as int * idx as int;
    assert((2 * num + rate as int) == (2 * idx as int + 1) * rate as int) by (nonlinear_arith)
        requires num == rate as int * idx as int;
    assert((2 * idx as int + 1) * rate as int / (2 * rate as int) == idx as int) by (nonlinear_arith)
        requires rate > 0, idx >= 0;
}

/// Conversion keeps the order of indices.
pub proof fn law_convert_monotonic(a: u32, b: u32, old_rate: u32, new_rate: u32)
    requires
        a <= b,
    ensures
        spec_convert_sample_index(a, old_rate, new_rate) <= spec_convert_sample_index(b, old_rate, new_rate),
{
    let na = new_rate as int * a as int;
    let nb = new_rate as int * b as int;
    assert(na <= nb) by (nonlinear_arith)
        requires na == new_rate as int * a as int, nb == new_rate as int * b as int, a <= b, new_rate >= 0;
    if old_rate > 0 {
        let d = 2 * old_rate as int;
        assert((2 * na + old_rate as int) / d <= (2 * nb + old_rate as int) / d) by (nonlinear_arith)
            requires na <= nb, d > 0;
    } else {
        assert(na >= 0) by (nonlinear_arith)
            requires na == new_rate as int * a as int, new_rate >= 0, a >= 0;
    }
}

/// Every region index that `matching_regions` selects plays for the note,
/// and the indices come in increasing order.
pub proof fn law_selected_regions_play<P>(regions: Seq<Region<P>>, key: u8, vel: u8)
    requires
        regions.len() <= usize::MAX,
    ensures
        ({
            let sel = Seq::new(regions.len(), |i: int| i as usize).filter(
                |i: usize| region_plays(regions[i as int], key, vel),
            );
            &&& forall|k: int| 0 <= k < sel.len() ==> (sel[k] as int) < regions.len() && region_plays(
                regions[sel[k] as int],
                key,
                vel,
            )
            &&& forall|j: int, k: int| 0 <= j < k < sel.len() ==> sel[j] < sel[k]
        }),
{
    let all = Seq::new(regions.len(), |i: int| i as usize);
    let pred = |i: usize| region_plays(regions[i as int], key, vel);
    lemma_filter_sorted(all, pred, regions.len() as int);
}

proof fn lemma_filter_sorted(all: Seq<usize>, pred: spec_fn(usize) -> bool, n: int)
    requires
        all.len() == n,
        n <= usize::MAX,
        forall|i: int| 0 <= i < n ==> all[i] == i as usize,
    ensures
        forall|k: int| 0 <= k < all.filter(pred).len() ==> (all.filter(pred)[k] as int) < n && pred(
            #[trigger] all.filter(pred)[k],
        ),
        forall|j: int, k: int|
            0 <= j < k < all.filter(pred).len() ==> all.filter(pred)[j] < all.filter(pred)[k],
    decreases n,
{
    reveal_with_fuel(Seq::filter, 1);
    if n > 0 {
        let prefix = all.drop_last();
        lemma_filter_sorted(prefix, pred, n - 1);
        let f = all.filter(pred);
        let pf = prefix.filter(pred);
        assert(f == pf + (if pred(all.last()) {
            seq![all.last()]
        } else {
            Seq::<usize>::empty()
        }));
        assert(all.last() == (n - 1) as usize);
        assert forall|j: int, k: int| 0 <= j < k < f.len() implies f[j] < f[k] by {
            if k < pf.len() {
                assert(f[j] == pf[j] && f[k] == pf[k]);
            } else {
                assert(f[j] == pf[j]);
                assert((pf[j] as int) < n - 1);
            }
        }
        assert forall|k: int| 0 <= k < f.len() implies (f[k] as int) < n && pred(#[trigger] f[k]) by {
            if k < pf.len() {
                assert(f[k] == pf[k]);
            }
        }
    }
}

proof fn lemma_filter_complete(all: Seq<usize>, pred: spec_fn(usize) -> bool, n: int)
    requires
        all.len() == n,
        n <= usize::MAX,
        forall|i: int| 0 <= i < n ==> all[i] == i as usize,
    ensures
        forall|i: int| 0 <= i < n && #[trigger] pred(i as usize) ==> all.filter(pred).contains(i as usize),
    decreases n,
{
    reveal_with_fuel(Seq::filter, 1);
    if n > 0 {
        let prefix = all.drop_last();
        lemma_filter_complete(prefix, pred, n - 1);
        let f = all.filter(pred);
        let pf = prefix.filter(pred);
        assert(f == pf + (if pred(all.last()) {
            seq![all.last()]
        } else {
            Seq::<usize>::empty()
        }));
        assert forall|i: int| 0 <= i < n && #[trigger] pred(i as usize) implies f.contains(i as usize) by {
            if i < n - 1 {
                let k = choose|k: int| 0 <= k < pf.len() && pf[k] == i as usize;
                assert(f[k] == pf[k]);
            } else {
                assert(all.last() == i as usize);
                assert(f[pf.len() as int] == i as usize);
            }
        }
    }
}

/// The regions selected for a note are exactly those that play for it:
/// every region whose key and velocity ranges hold the note is selected,
/// and nothing else.
pub proof fn law_selection_is_complete<P>(regions: Seq<Region<P>>, key: u8, vel: u8)
    requires
        regions.len() <= usize::MAX,
    ensures
        ({
            let sel = Seq::new(regions.len(), |i: int| i as usize).filter(
                |i: usize| region_plays(regions[i as int], key, vel),
            );
            forall|i: int|
                0 <= i < regions.len() ==> (sel.contains(i as usize) <==> (#[trigger] regions[i].key_range.lo <= key
                    <= regions[i].key_range.hi && regions[i].vel_range.lo <= vel <= regions[i].vel_range.hi))
        }),
{
    let all = Seq::new(regions.len(), |i: int| i as usize);
    let pred = |i: usize| region_plays(regions[i as int], key, vel);
    lemma_filter_complete(all, pred, regions.len() as int);
    lemma_filter_sorted(all, pred, regions.len() as int);
    let sel = all.filter(pred);
    assert forall|i: int| 0 <= i < regions.len() implies (sel.contains(i as usize) <==> (
    #[trigger] regions[i].key_range.lo <= key <= regions[i].key_range.hi && regions[i].vel_range.lo <= vel
        <= regions[i].vel_range.hi)) by {
        if pred(i as usize) {
            assert(sel.contains(i as usize));
        }
        if sel.contains(i as usize) {
            let k = choose|k: int| 0 <= k < sel.len() && sel[k] == i as usize;
            assert(pred(sel[k]));
        }
    }
}

/// Conversion rounds to the nearest index: unless it saturates at
/// `u32::MAX`, the converted index `r` is within half a frame of the exact
/// position `idx * new_rate / old_rate` (a position exactly halfway rounds
/// up).
pub proof fn law_convert_rounds_to_nearest(idx: u32, old_rate: u32, new_rate: u32)
    requires
        old_rate > 0,
    ensures
        ({
            let r = spec_convert_sample_index(idx, old_rate, new_rate);
            let num = new_rate as int * idx as int;
            r < u32::MAX ==> 2 * old_rate * r - old_rate <= 2 * num < 2 * old_rate * r + old_rate
        }),
        spec_convert_sample_index(idx, old_rate, new_rate) <= u32::MAX,
{
    let num = new_rate as int * idx as int;
    let d = 2 * old_rate as int;
    let q = (2 * num + old_rate as int) / d;
    assert(d * q <= 2 * num + old_rate < d * q + d) by (nonlinear_arith)
        requires d > 0, q == (2 * num + old_rate as int) / d;
    assert(num >= 0) by (nonlinear_arith)
        requires num == new_rate as int * idx as int, new_rate >= 0, idx >= 0;
}

} // verus!
