//! Note scheduling of the synthesizer: pending note events and the voice
//! limit with its stealing policy.

use vstd::prelude::*;

verus! {

/// Maximum number of simultaneous voices.
pub const MAX_VOICES: usize = 256;

/// Note events waiting for the next render call.
pub struct NoteQueue {
    pending_notes: Vec<(u8, u8)>,
    pending_note_offs: Vec<u8>,
}

impl NoteQueue {
    /// Pending note-ons, `(key, velocity)`, in order.
    pub closed spec fn notes(&self) -> Seq<(u8, u8)> {
        self.pending_notes@
    }

    /// Pending note-offs, in order.
    pub closed spec fn note_offs(&self) -> Seq<u8> {
        self.pending_note_offs@
    }

    pub fn new() -> (q: NoteQueue)
        ensures
            q.notes() == Seq::<(u8, u8)>::empty(),
            q.note_offs() == Seq::<u8>::empty(),
    {
        NoteQueue { pending_notes: Vec::new(), pending_note_offs: Vec::new() }
    }

    /// Requests a note-on.
    pub fn note_on(&mut self, key: u8, velocity: u8)
        ensures
            final(self).notes() == old(self).notes().push((key, velocity)),
            final(self).note_offs() == old(self).note_offs(),
    {
        self.pending_notes.push((key, velocity));
    }

    /// Requests a note-off.
    pub fn note_off(&mut self, key: u8)
        ensures
            final(self).notes() == old(self).notes(),
            final(self).note_offs() == old(self).note_offs().push(key),
    {
        self.pending_note_offs.push(key);
    }

    /// Takes all pending events: the note-offs and the note-ons, each in
    /// the order they were requested, leaving the queue empty.
    pub fn take(&mut self) -> (r: (Vec<u8>, Vec<(u8, u8)>))
        ensures
            r.0@ == old(self).note_offs(),
            r.1@ == old(self).notes(),
            final(self).notes() == Seq::<(u8, u8)>::empty(),
            final(self).note_offs() == Seq::<u8>::empty(),
    {
        let mut offs: Vec<u8> = Vec::new();
        let mut ons: Vec<(u8, u8)> = Vec::new();
        std::mem::swap(&mut offs, &mut self.pending_note_offs);
        std::mem::swap(&mut ons, &mut self.pending_notes);
        (offs, ons)
    }
}

/// A note event handled at the start of a render block.
#[derive(Debug, Clone, Copy, PartialEq, Eq, Structural)]
pub enum NoteEvent {
    Off(u8),
    On(u8, u8),
}

/// The events of a block: every note-off before every note-on, each kind
/// in the order it was requested.
pub open spec fn block_events(offs: Seq<u8>, ons: Seq<(u8, u8)>) -> Seq<NoteEvent> {
    offs.map_values(|k: u8| NoteEvent::Off(k)) + ons.map_values(|n: (u8, u8)| NoteEvent::On(n.0, n.1))
}

/// A render block handles every note-off before any note-on: the first
/// `offs.len()` events are the note-offs in the order requested, and the
/// note-ons follow in the order requested.
pub proof fn law_note_offs_first(offs: Seq<u8>, ons: Seq<(u8, u8)>)
    ensures
        block_events(offs, ons).len() == offs.len() + ons.len(),
        forall|i: int| 0 <= i < offs.len() ==> block_events(offs, ons)[i] == NoteEvent::Off(offs[i]),
        forall|j: int| 0 <= j < ons.len() ==> block_events(offs, ons)[offs.len() + j] == NoteEvent::On(ons[j].0, ons[j].1),
{
}

impl NoteQueue {
    /// Takes all pending events in the order a render block handles them
    /// (see [`block_events`]), leaving the queue empty.
    pub fn take_events(&mut self) -> (r: Vec<NoteEvent>)
        ensures
            r@ == block_events(old(self).note_offs(), old(self).notes()),
            final(self).notes() == Seq::<(u8, u8)>::empty(),
            final(self).note_offs() == Seq::<u8>::empty(),
    {
        let (offs, ons) = self.take();
        let mut out: Vec<NoteEvent> = Vec::new();
        let mut i: usize = 0;
        while i < offs.len()
            invariant
                i <= offs@.len(),
                out@ == offs@.take(i as int).map_values(|k: u8| NoteEvent::Off(k)),
            decreases offs@.len() - i,
        {
            out.push(NoteEvent::Off(offs[i]));
            i = i + 1;
            assert(out@ =~= offs@.take(i as int).map_values(|k: u8| NoteEvent::Off(k)));
        }
        assert(offs@.take(offs@.len() as int) =~= offs@);
        let ghost first = out@;
        let mut j: usize = 0;
        while j < ons.len()
            invariant
                j <= ons@.len(),
                out@ == first + ons@.take(j as int).map_values(|n: (u8, u8)| NoteEvent::On(n.0, n.1)),
            decreases ons@.len() - j,
        {
            let (k, v) = ons[j];
            out.push(NoteEvent::On(k, v));
            j = j + 1;
            assert(out@ =~= first + ons@.take(j as int).map_values(|n: (u8, u8)| NoteEvent::On(n.0, n.1)));
        }
        assert(ons@.take(ons@.len() as int) =~= ons@);
        out
    }
}

/// The voices a note-off releases: the indices, in order, of the voices
/// playing `key` (`keys[i]` is the key of voice `i`).
pub fn voices_with_key(keys: &Vec<u8>, key: u8) -> (r: Vec<usize>)
    ensures
        r@ == Seq::new(keys@.len(), |i: int| i as usize).filter(|i: usize| keys@[i as int] == key),
{
    let ghost all = Seq::new(keys@.len(), |i: int| i as usize);
    let ghost pred = |i: usize| keys@[i as int] == key;
    let mut out: Vec<usize> = Vec::new();
    let mut i: usize = 0;
    while i < keys.len()
        invariant
            i <= keys@.len(),
            all == Seq::new(keys@.len(), |i: int| i as usize),
            pred == (|i: usize| keys@[i as int] == key),
            out@ == all.take(i as int).filter(pred),
        decreases keys@.len() - i,
    {
        proof {
            reveal_with_fuel(Seq::filter, 1);
            assert(all.take(i + 1).drop_last() =~= all.take(i as int));
            assert(all.take(i + 1).last() == i);
        }
        if keys[i] == key {
            out.push(i);
        }
        i = i + 1;
    }
    assert(all.take(keys@.len() as int) =~= all);
    out
}

/// The voices after voice `i` is retired when it has finished: the last
/// voice takes its place. Returns the index of the next voice to visit
/// (`i` again when a voice moved there, else `i + 1`).
pub fn retire_if_finished<V>(voices: &mut Vec<V>, i: usize, finished: bool) -> (next: usize)
    requires
        i < old(voices)@.len(),
    ensures
        finished ==> final(voices)@ == old(voices)@.update(i as int, old(voices)@.last()).drop_last() && next == i,
        !finished ==> final(voices)@ == old(voices)@ && next == i + 1,
{
    let n = voices.len();
    if finished {
        voices.swap_remove(i);
        i
    } else {
        assert(i < n);
        i + 1
    }
}

/// Whether voice `i` is the one to steal among the releasing voices:
/// `levels[j]` is `Some(level)` for a releasing voice and `None` for one
/// that is not releasing. The chosen voice has the least level, and no
/// releasing voice before it has that level.
pub open spec fn is_quietest(levels: Seq<Option<u32>>, i: int) -> bool {
    &&& 0 <= i < levels.len()
    &&& levels[i] is Some
    &&& forall|j: int| 0 <= j < levels.len() && levels[j] is Some ==> levels[i]->0 <= levels[j]->0
    &&& forall|j: int| 0 <= j < i && levels[j] is Some ==> levels[j]->0 > levels[i]->0
}

/// The quietest releasing voice, if any voice is releasing.
pub open spec fn quietest(levels: Seq<Option<u32>>) -> Option<int> {
    if exists|i: int| is_quietest(levels, i) {
        Some(choose|i: int| is_quietest(levels, i))
    } else {
        None
    }
}

/// The voices left after stealing one: the quietest releasing voice is
/// removed and the last voice takes its place; when none is releasing, the
/// oldest (first) voice is removed.
pub open spec fn after_steal<V>(voices: Seq<V>, levels: Seq<Option<u32>>) -> Seq<V> {
    match quietest(levels) {
        Some(i) => voices.update(i, voices.last()).drop_last(),
        None => voices.drop_first(),
    }
}

proof fn lemma_quietest_unique(levels: Seq<Option<u32>>, a: int, b: int)
    requires
        is_quietest(levels, a),
        is_quietest(levels, b),
    ensures
        a == b,
{
    if a < b {
        assert(levels[a]->0 > levels[b]->0);
    } else if b < a {
        assert(levels[b]->0 > levels[a]->0);
    }
}

/// Removes one voice to make room: the quietest releasing one (swapping
/// the last voice into its place), or else the oldest. `levels[i]` is the
/// level of voice `i` when it is releasing, `None` otherwise; a smaller
/// level is quieter.
pub fn steal_voice<V>(voices: &mut Vec<V>, levels: &Vec<Option<u32>>)
    requires
        old(voices)@.len() == levels@.len(),
        old(voices)@.len() > 0,
    ensures
        final(voices)@ == after_steal(old(voices)@, levels@),
{
    let mut best: Option<usize> = None;
    let mut i: usize = 0;
    while i < levels.len()
        invariant
            i <= levels@.len(),
            voices@ == old(voices)@,
            voices@.len() == levels@.len(),
            match best {
                None => forall|j: int| 0 <= j < i ==> levels@[j] is None,
                Some(b) => {
                    &&& b < i
                    &&& levels@[b as int] is Some
                    &&& forall|j: int| 0 <= j < i && levels@[j] is Some ==> levels@[b as int]->0 <= levels@[j]->0
                    &&& forall|j: int| 0 <= j < b && levels@[j] is Some ==> levels@[j]->0 > levels@[b as int]->0
                },
            },
        decreases levels@.len() - i,
    {
        match levels[i] {
            Some(v) => {
                match best {
                    None => {
                        best = Some(i);
                    },
                    Some(b) => {
                        let lb = levels[b].unwrap();
                        if v < lb {
                            best = Some(i);
                        }
                    },
                }
            },
            None => {},
        }
        i = i + 1;
    }
    match best {
        Some(b) => {
            proof {
                assert(is_quietest(levels@, b as int));
                lemma_quietest_unique(levels@, b as int, choose|k: int| is_quietest(levels@, k));
            }
            voices.swap_remove(b);
        },
        None => {
            assert(!exists|k: int| is_quietest(levels@, k));
            voices.remove(0);
        },
    }
}

/// Makes room for one more voice: when `MAX_VOICES` voices play, one is
/// stolen (see [`steal_voice`]); otherwise nothing changes.
pub fn make_room<V>(voices: &mut Vec<V>, levels: &Vec<Option<u32>>)
    requires
        old(voices)@.len() == levels@.len(),
    ensures
        old(voices)@.len() >= MAX_VOICES ==> final(voices)@ == after_steal(old(voices)@, levels@),
        old(voices)@.len() < MAX_VOICES ==> final(voices)@ == old(voices)@,
{
    if voices.len() >= MAX_VOICES {
        steal_voice(voices, levels);
    }
}

/// Stealing removes exactly one voice: when some voice is releasing, a
/// releasing voice with the least level (the first such), with the last
/// voice moved into its place; otherwise the oldest voice. The voice pool
/// thus never grows past `MAX_VOICES` when room is made before each new
/// voice.
pub proof fn law_steal_removes_one<V>(voices: Seq<V>, levels: Seq<Option<u32>>)
    requires
        voices.len() == levels.len(),
        voices.len() > 0,
    ensures
        after_steal(voices, levels).len() == voices.len() - 1,
        (exists|j: int| 0 <= j < levels.len() && levels[j] is Some) ==> ({
            let i = quietest(levels)->0;
            &&& quietest(levels) is Some
            &&& levels[i] is Some
            &&& forall|j: int| 0 <= j < levels.len() && levels[j] is Some ==> levels[i]->0 <= levels[j]->0
            &&& after_steal(voices, levels) == voices.update(i, voices.last()).drop_last()
        }),
        (forall|j: int| 0 <= j < levels.len() ==> levels[j] is None) ==> after_steal(voices, levels)
            == voices.subrange(1, voices.len() as int),
{
    if exists|j: int| 0 <= j < levels.len() && levels[j] is Some {
        let w = choose|j: int| 0 <= j < levels.len() && levels[j] is Some;
        lemma_quietest_exists(levels, w);
    } else {
        assert(!exists|k: int| is_quietest(levels, k));
        assert(voices.drop_first() =~= voices.subrange(1, voices.len() as int));
    }
}

proof fn lemma_quietest_exists(levels: Seq<Option<u32>>, w: int)
    requires
        0 <= w < levels.len(),
        levels[w] is Some,
    ensures
        exists|i: int| is_quietest(levels, i),
    decreases levels[w]->0, w,
{
    if exists|j: int| 0 <= j < levels.len() && levels[j] is Some && levels[j]->0 < levels[w]->0 {
        let j = choose|j: int| 0 <= j < levels.len() && levels[j] is Some && levels[j]->0 < levels[w]->0;
        lemma_quietest_exists(levels, j);
    } else if exists|j: int| 0 <= j < w && levels[j] is Some && levels[j]->0 == levels[w]->0 {
        let j = choose|j: int| 0 <= j < w && levels[j] is Some && levels[j]->0 == levels[w]->0;
        lemma_quietest_exists(levels, j);
    } else {
        assert(is_quietest(levels, w));
    }
}

} // verus!
