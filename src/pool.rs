//! The voice pool: which handle plays which note, in what phase, and since when.
//!
//! Each handle carries the state the scheduler needs to decide about it: its
//! phase, the logical clock at its last trigger or release, and the timing of a
//! glide in progress. Sound itself is produced elsewhere; the pool says which
//! handle a note goes to, whether sounding audio is stolen, whether a glide
//! starts, and how a block of processing moves each handle on.

use vstd::prelude::*;

use crate::Note;

verus! {

/// The phase of a voice handle.
#[derive(Copy, Clone, PartialEq, Eq, Structural, Debug)]
pub enum VoicePhase {
    On(Note),
    Released(Note),
    Off,
}

/// The timing of a glide in progress, in samples. The duration is fixed when the
/// glide starts; only the elapsed time advances.
#[derive(Copy, Clone, PartialEq, Eq, Structural, Debug)]
pub struct GlideClock {
    pub duration: usize,
    pub elapsed: usize,
}

/// What the scheduler knows of one voice handle.
#[derive(Copy, Clone, PartialEq, Eq, Structural, Debug)]
pub struct HandleState {
    pub phase: VoicePhase,
    /// Timing of the glide in progress, if any.
    pub glide: Option<GlideClock>,
    /// The logical clock at the handle's last trigger or release.
    pub counter: usize,
}

/// What a trigger decided, for the caller to carry out on the voice itself.
#[derive(Copy, Clone, PartialEq, Eq, Structural, Debug)]
pub struct TriggerAction {
    /// The handle that now plays the note.
    pub slot: usize,
    /// The handle was still sounding: render its tail into the crossfade buffer,
    /// then reset the voice before triggering it.
    pub stolen: bool,
    /// A glide towards the note started: the voice keeps sounding and is not
    /// triggered again.
    pub glide: bool,
    /// The handle's state before the trigger.
    pub previous: HandleState,
}

/// A handle that has never played, or was silenced by a reset.
pub open spec fn idle() -> HandleState {
    HandleState { phase: VoicePhase::Off, glide: None, counter: 0 }
}

/// The allocation rank of a handle for a newly triggered note: a class, then an
/// age within the class; the lowest rank is chosen. The classes are, in order:
/// the same note still on, an idle handle, the same note released, another
/// released note (oldest release first), another note still on (oldest trigger
/// first).
pub open spec fn rank(h: HandleState, note: Note) -> (int, int) {
    match h.phase {
        VoicePhase::On(n) => if n == note { (0, 0) } else { (4, h.counter as int) },
        VoicePhase::Off => (1, 0),
        VoicePhase::Released(n) => if n == note { (2, 0) } else { (3, h.counter as int) },
    }
}

/// Lexicographic order on ranks.
pub open spec fn rank_lt(a: (int, int), b: (int, int)) -> bool {
    a.0 < b.0 || (a.0 == b.0 && a.1 < b.1)
}

/// `i` is the first handle of lowest rank for `note`.
pub open spec fn is_first_min(slots: Seq<HandleState>, note: Note, i: int) -> bool {
    &&& 0 <= i < slots.len()
    &&& forall|j: int| 0 <= j < slots.len() ==> !rank_lt(#[trigger] rank(slots[j], note), rank(slots[i], note))
    &&& forall|j: int| 0 <= j < i ==> rank_lt(rank(slots[i], note), #[trigger] rank(slots[j], note))
}

/// At most one handle is on for any one note.
pub open spec fn unique_on(slots: Seq<HandleState>) -> bool {
    forall|i: int, j: int|
        0 <= i < slots.len() && 0 <= j < slots.len() && i != j && (#[trigger] slots[i].phase) is On
            ==> slots[i].phase != (#[trigger] slots[j].phase)
}

/// No handle has a glide in progress.
pub open spec fn no_glide(slots: Seq<HandleState>) -> bool {
    forall|i: int| 0 <= i < slots.len() ==> (#[trigger] slots[i]).glide is None
}

/// The state of a handle just triggered for `note` at clock `counter`.
pub open spec fn played(note: Note, glide: Option<GlideClock>, counter: int) -> HandleState {
    HandleState { phase: VoicePhase::On(note), glide, counter: counter as usize }
}

/// The glide that a trigger starts, given the duration offered for one.
pub open spec fn started_glide(starts: bool, duration: Option<usize>) -> Option<GlideClock> {
    if starts {
        Some(GlideClock { duration: duration.unwrap(), elapsed: 0 })
    } else {
        None
    }
}

/// The state of a handle after a block of processing: it is off once its voice
/// reports silence, and a glide ends when its elapsed time reaches its duration.
pub open spec fn after_block(h: HandleState, samples: int, still_active: bool) -> HandleState {
    HandleState {
        phase: if still_active { h.phase } else { VoicePhase::Off },
        glide: match h.glide {
            Some(g) => if g.elapsed + samples >= g.duration {
                None
            } else {
                Some(GlideClock { duration: g.duration, elapsed: (g.elapsed + samples) as usize })
            },
            None => None,
        },
        counter: h.counter,
    }
}

/// The state of a handle released at clock `counter`: its glide goes on.
pub open spec fn released(h: HandleState, note: Note, counter: int) -> HandleState {
    HandleState { phase: VoicePhase::Released(note), glide: h.glide, counter: counter as usize }
}

/// The handles after the pool is resized to `n`: the first `n` are kept, and
/// idle handles are added up to `n`.
pub open spec fn resized(slots: Seq<HandleState>, n: int) -> Seq<HandleState> {
    if n <= slots.len() {
        slots.subrange(0, n)
    } else {
        slots + Seq::new((n - slots.len()) as nat, |i: int| idle())
    }
}

/// A fixed pool of voice handles with a logical clock.
pub struct VoicePool {
    handles: Vec<HandleState>,
    counter: usize,
    mono: bool,
}

impl VoicePool {
    /// The handles, in order.
    pub closed spec fn slots(&self) -> Seq<HandleState> {
        self.handles@
    }

    /// The logical clock: how many triggers and releases have changed a handle.
    pub closed spec fn clock(&self) -> int {
        self.counter as int
    }

    /// Whether every note goes to the first handle.
    pub closed spec fn is_mono(&self) -> bool {
        self.mono
    }

    /// A pool has at least one handle.
    pub open spec fn wf(&self) -> bool {
        &&& self.slots().len() >= 1
        &&& self.clock() >= 0
        &&& forall|i: int| 0 <= i < self.slots().len() ==> (#[trigger] self.slots()[i]).counter <= self.clock()
    }

    /// A pool of `max_voices` idle handles.
    pub fn new(max_voices: usize, mono: bool) -> (r: Self)
        requires
            max_voices >= 1,
        ensures
            r.wf(),
            r.slots() == Seq::new(max_voices as nat, |i: int| idle()),
            unique_on(r.slots()),
            no_glide(r.slots()),
            r.clock() == 0,
            r.is_mono() == mono,
    {
        let mut handles: Vec<HandleState> = Vec::new();
        let mut i: usize = 0;
        while i < max_voices
            invariant
                i <= max_voices,
                handles@ == Seq::new(i as nat, |k: int| idle()),
            decreases max_voices - i,
        {
            handles.push(HandleState { phase: VoicePhase::Off, glide: None, counter: 0 });
            i += 1;
            assert(handles@ =~= Seq::new(i as nat, |k: int| idle()));
        }
        VoicePool { handles, counter: 0, mono }
    }

    /// The allocation rank of a handle, as `rank` gives it.
    fn priority(h: &HandleState, note: Note) -> (r: (u8, usize))
        ensures
            r.0 as int == rank(*h, note).0,
            r.1 as int == rank(*h, note).1,
    {
        match h.phase {
            VoicePhase::On(n) => if n == note { (0, 0) } else { (4, h.counter) },
            VoicePhase::Off => (1, 0),
            VoicePhase::Released(n) => if n == note { (2, 0) } else { (3, h.counter) },
        }
    }

    /// The first handle of lowest rank for `note`.
    fn select(&self, note: Note) -> (r: usize)
        requires
            self.wf(),
        ensures
            is_first_min(self.slots(), note, r as int),
    {
        let n = self.handles.len();
        let mut best: usize = 0;
        let mut best_key = Self::priority(&self.handles[0], note);
        let mut i: usize = 1;
        while i < n
            invariant
                n == self.slots().len(),
                1 <= i <= n,
                best < i,
                best_key.0 as int == rank(self.slots()[best as int], note).0,
                best_key.1 as int == rank(self.slots()[best as int], note).1,
                forall|j: int| 0 <= j < i ==> !rank_lt(#[trigger] rank(self.slots()[j], note), rank(self.slots()[best as int], note)),
                forall|j: int| 0 <= j < best ==> rank_lt(rank(self.slots()[best as int], note), #[trigger] rank(self.slots()[j], note)),
            decreases n - i,
        {
            let key = Self::priority(&self.handles[i], note);
            if key.0 < best_key.0 || (key.0 == best_key.0 && key.1 < best_key.1) {
                best = i;
                best_key = key;
            }
            i += 1;
        }
        best
    }

    /// Triggers `note`. In mono mode the first handle always takes it; otherwise
    /// the first handle of lowest rank does. A handle that is still sounding in
    /// polyphonic mode is stolen. In mono mode a note triggered while the handle
    /// is on starts a glide lasting `glide_duration` samples, where one is given;
    /// `None` stands for portamento switched off. The logical clock advances by one.
    pub fn trigger(&mut self, note: Note, glide_duration: Option<usize>) -> (r: TriggerAction)
        requires
            old(self).wf(),
            old(self).clock() < usize::MAX,
        ensures
            final(self).wf(),
            r.slot < old(self).slots().len(),
            old(self).is_mono() ==> r.slot == 0,
            !old(self).is_mono() ==> is_first_min(old(self).slots(), note, r.slot as int),
            r.previous == old(self).slots()[r.slot as int],
            r.stolen == (!old(self).is_mono() && r.previous.phase != VoicePhase::Off),
            r.glide == (old(self).is_mono() && r.previous.phase is On && r.previous.phase != VoicePhase::On(note)
                && glide_duration is Some),
            final(self).slots() == old(self).slots().update(
                r.slot as int,
                played(note, started_glide(r.glide, glide_duration), old(self).clock()),
            ),
            final(self).clock() == old(self).clock() + 1,
            final(self).is_mono() == old(self).is_mono(),
            !old(self).is_mono() && unique_on(old(self).slots()) ==> unique_on(final(self).slots()),
            glide_duration is None && no_glide(old(self).slots()) ==> no_glide(final(self).slots()),
    {
        let slot = if self.mono { 0 } else { self.select(note) };
        let previous = self.handles[slot];
        let stolen = !self.mono && previous.phase != VoicePhase::Off;
        let on_other = match previous.phase {
            VoicePhase::On(n) => n != note,
            _ => false,
        };
        let glide = self.mono && on_other && glide_duration.is_some();
        let clock = if glide {
            Some(GlideClock { duration: glide_duration.unwrap(), elapsed: 0 })
        } else {
            None
        };
        self.handles.set(slot, HandleState { phase: VoicePhase::On(note), glide: clock, counter: self.counter });
        self.counter = self.counter + 1;
        proof {
            let s0 = old(self).slots();
            let s1 = self.slots();
            if !self.mono && unique_on(s0) {
                assert forall|j: int| 0 <= j < s0.len() && j != slot && s0[j].phase == VoicePhase::On(note)
                    implies false by {
                    assert(rank(s0[j], note) == (0int, 0int));
                    assert(!rank_lt(rank(s0[j], note), rank(s0[slot as int], note)));
                    assert(s0[slot as int].phase == VoicePhase::On(note));
                }
                assert forall|i: int, j: int|
                    0 <= i < s1.len() && 0 <= j < s1.len() && i != j && (#[trigger] s1[i].phase) is On
                    implies s1[i].phase != (#[trigger] s1[j].phase) by {
                    if i != slot && j != slot {
                        assert(s0[i].phase != s0[j].phase);
                    }
                }
            }
        }
        TriggerAction { slot, stolen, glide, previous }
    }
    /// Releases the handle that is on for `note`: in mono mode only the first
    /// handle is looked at, otherwise the first handle on for `note`. Returns that
    /// handle, after which the logical clock has advanced by one; `None`, with
    /// nothing changed, when no such handle is on.
    pub fn release(&mut self, note: Note) -> (r: Option<usize>)
        requires
            old(self).wf(),
            old(self).clock() < usize::MAX,
        ensures
            final(self).wf(),
            final(self).is_mono() == old(self).is_mono(),
            old(self).is_mono() ==> r == (if old(self).slots()[0].phase == VoicePhase::On(note) {
                Some(0usize)
            } else {
                None
            }),
            !old(self).is_mono() ==> match r {
                Some(i) => i < old(self).slots().len() && old(self).slots()[i as int].phase
                    == VoicePhase::On(note) && forall|j: int|
                    0 <= j < i ==> (#[trigger] old(self).slots()[j]).phase != VoicePhase::On(note),
                None => forall|j: int|
                    0 <= j < old(self).slots().len() ==> (#[trigger] old(self).slots()[j]).phase
                        != VoicePhase::On(note),
            },
            match r {
                Some(i) => final(self).slots() == old(self).slots().update(
                    i as int,
                    released(old(self).slots()[i as int], note, old(self).clock()),
                ) && final(self).clock() == old(self).clock() + 1,
                None => final(self).slots() == old(self).slots() && final(self).clock()
                    == old(self).clock(),
            },
            unique_on(old(self).slots()) ==> unique_on(final(self).slots()),
            no_glide(old(self).slots()) ==> no_glide(final(self).slots()),
    {
        let n = if self.mono { 1 } else { self.handles.len() };
        let mut i: usize = 0;
        while i < n
            invariant
                self.wf(),
                n <= self.slots().len(),
                self.mono ==> n == 1,
                !self.mono ==> n == self.slots().len(),
                i <= n,
                self.slots() == old(self).slots(),
                self.clock() == old(self).clock(),
                self.counter < usize::MAX,
                self.is_mono() == old(self).is_mono(),
                forall|j: int| 0 <= j < i ==> (#[trigger] self.slots()[j]).phase != VoicePhase::On(note),
            decreases n - i,
        {
            if self.handles[i].phase == VoicePhase::On(note) {
                let h = self.handles[i];
                self.handles.set(i, HandleState { phase: VoicePhase::Released(note), glide: h.glide, counter: self.counter });
                self.counter = self.counter + 1;
                proof {
                    let s0 = old(self).slots();
                    let s1 = self.slots();
                    if unique_on(s0) {
                        assert forall|a: int, b: int|
                            0 <= a < s1.len() && 0 <= b < s1.len() && a != b && (#[trigger] s1[a].phase) is On
                            implies s1[a].phase != (#[trigger] s1[b].phase) by {
                            if a != i && b != i {
                                assert(s0[a].phase != s0[b].phase);
                            }
                        }
                    }
                }
                return Some(i);
            }
            i += 1;
        }
        None
    }

    /// Records a block of `samples` samples processed by handle `slot`: the
    /// handle goes off when its voice reported silence, and its glide advances.
    pub fn finish_block(&mut self, slot: usize, samples: usize, still_active: bool)
        requires
            old(self).wf(),
            slot < old(self).slots().len(),
        ensures
            final(self).wf(),
            final(self).slots() == old(self).slots().update(
                slot as int,
                after_block(old(self).slots()[slot as int], samples as int, still_active),
            ),
            final(self).clock() == old(self).clock(),
            final(self).is_mono() == old(self).is_mono(),
            unique_on(old(self).slots()) ==> unique_on(final(self).slots()),
            no_glide(old(self).slots()) ==> no_glide(final(self).slots()),
    {
        let h = self.handles[slot];
        let phase = if still_active { h.phase } else { VoicePhase::Off };
        let glide = match h.glide {
            Some(g) => {
                let elapsed = g.elapsed.saturating_add(samples);
                if elapsed >= g.duration {
                    None
                } else {
                    Some(GlideClock { duration: g.duration, elapsed })
                }
            },
            None => None,
        };
        self.handles.set(slot, HandleState { phase, glide, counter: h.counter });
        proof {
            let s0 = old(self).slots();
            let s1 = self.slots();
            if unique_on(s0) {
                assert forall|a: int, b: int|
                    0 <= a < s1.len() && 0 <= b < s1.len() && a != b && (#[trigger] s1[a].phase) is On
                    implies s1[a].phase != (#[trigger] s1[b].phase) by {
                    assert(s0[a].phase != s0[b].phase);
                }
            }
        }
    }

    /// Resizes the pool to `max_voices` handles, keeping the first ones and
    /// adding idle ones, and sets the mode.
    pub fn reconfigure(&mut self, max_voices: usize, mono: bool)
        requires
            old(self).wf(),
            max_voices >= 1,
        ensures
            final(self).wf(),
            final(self).slots() == resized(old(self).slots(), max_voices as int),
            unique_on(old(self).slots()) ==> unique_on(final(self).slots()),
            no_glide(old(self).slots()) ==> no_glide(final(self).slots()),
            final(self).clock() == old(self).clock(),
            final(self).is_mono() == mono,
    {
        self.handles.truncate(max_voices);
        let ghost kept = self.handles@;
        while self.handles.len() < max_voices
            invariant
                kept.len() <= self.handles@.len() <= max_voices,
                kept == resized(old(self).slots(), max_voices as int).subrange(0, kept.len() as int),
                self.clock() == old(self).clock(),
                self.is_mono() == old(self).is_mono(),
                self.handles@ == kept + Seq::new((self.handles@.len() - kept.len()) as nat, |i: int| idle()),
            decreases max_voices - self.handles.len(),
        {
            self.handles.push(HandleState { phase: VoicePhase::Off, glide: None, counter: 0 });
            assert(self.handles@ =~= kept + Seq::new((self.handles@.len() - kept.len()) as nat, |i: int| idle()));
        }
        self.mono = mono;
        assert(self.handles@ =~= resized(old(self).slots(), max_voices as int));
        proof {
            let s0 = old(self).slots();
            let s1 = self.slots();
            assert forall|i: int| 0 <= i < s1.len() && i >= s0.len() implies #[trigger] s1[i] == idle() by {
                assert(s1[i] == Seq::new((max_voices - s0.len()) as nat, |k: int| idle())[i - s0.len()]);
            }
            assert forall|i: int| 0 <= i < s1.len() && i < s0.len() implies #[trigger] s1[i] == s0[i] by {}
            if unique_on(s0) {
                assert forall|a: int, b: int|
                    0 <= a < s1.len() && 0 <= b < s1.len() && a != b && (#[trigger] s1[a].phase) is On
                    implies s1[a].phase != (#[trigger] s1[b].phase) by {
                    if a < s0.len() && b < s0.len() {
                        assert(s0[a].phase != s0[b].phase);
                    }
                }
            }
        }
    }

    /// Silences every handle at once, as when the voices are replaced.
    pub fn reset_all(&mut self)
        requires
            old(self).wf(),
        ensures
            final(self).wf(),
            final(self).slots() == Seq::new(old(self).slots().len(), |i: int| idle()),
            unique_on(final(self).slots()),
            no_glide(final(self).slots()),
            final(self).clock() == old(self).clock(),
            final(self).is_mono() == old(self).is_mono(),
    {
        let n = self.handles.len();
        let mut i: usize = 0;
        while i < n
            invariant
                n == self.slots().len(),
                i <= n,
                forall|j: int| 0 <= j < i ==> #[trigger] self.slots()[j] == idle(),
                self.clock() == old(self).clock(),
                self.is_mono() == old(self).is_mono(),
            decreases n - i,
        {
            self.handles.set(i, HandleState { phase: VoicePhase::Off, glide: None, counter: 0 });
            i += 1;
        }
        assert(self.slots() =~= Seq::new(old(self).slots().len(), |i: int| idle()));
    }

    /// The number of handles.
    pub fn len(&self) -> (r: usize)
        ensures
            r == self.slots().len(),
    {
        self.handles.len()
    }

    /// The state of handle `i`.
    pub fn slot(&self, i: usize) -> (r: HandleState)
        requires
            i < self.slots().len(),
        ensures
            r == self.slots()[i as int],
    {
        self.handles[i]
    }

    /// Whether handle `i` is producing sound.
    pub fn is_active(&self, i: usize) -> (r: bool)
        requires
            i < self.slots().len(),
        ensures
            r == (self.slots()[i as int].phase != VoicePhase::Off),
    {
        self.handles[i].phase != VoicePhase::Off
    }

    /// How many handles, from the first, a block of processing visits: only the
    /// first in mono mode, all of them otherwise.
    pub fn mixed_count(&self) -> (r: usize)
        requires
            self.wf(),
        ensures
            r == (if self.is_mono() { 1 } else { self.slots().len() as int }),
    {
        if self.mono { 1 } else { self.handles.len() }
    }

    /// The logical clock.
    pub fn counter(&self) -> (r: usize)
        ensures
            r == self.clock(),
    {
        self.counter
    }

    /// Whether every note goes to the first handle.
    pub fn mono(&self) -> (r: bool)
        ensures
            r == self.is_mono(),
    {
        self.mono
    }
}


/// The notes that some handle is on for.
pub open spec fn notes_on(slots: Seq<HandleState>) -> Set<Note> {
    Set::new(|n: Note| exists|i: int| 0 <= i < slots.len() && #[trigger] slots[i].phase == VoicePhase::On(n))
}

/// The notes that are on never outnumber the handles; triggers, releases and
/// blocks keep the number of handles, so at most `max_voices` notes sound at once
/// whatever calls came before.
pub proof fn lemma_sounding_notes_bounded(slots: Seq<HandleState>)
    ensures
        notes_on(slots).finite(),
        notes_on(slots).len() <= slots.len(),
    decreases slots.len(),
{
    if slots.len() == 0 {
        assert(notes_on(slots) =~= Set::empty());
    } else {
        let k = (slots.len() - 1) as int;
        let front = slots.subrange(0, k);
        lemma_sounding_notes_bounded(front);
        let last = match slots[k].phase {
            VoicePhase::On(n) => notes_on(front).insert(n),
            _ => notes_on(front),
        };
        assert forall|n: Note| #[trigger] notes_on(slots).contains(n) implies last.contains(n) by {
            let i = choose|i: int| 0 <= i < slots.len() && #[trigger] slots[i].phase == VoicePhase::On(n);
            if i < k {
                assert(front[i].phase == VoicePhase::On(n));
            }
        }
        vstd::set_lib::lemma_len_subset(notes_on(slots), last);
    }
}

/// When every handle is on for a note other than the one triggered, the handle
/// taken is the one triggered longest ago (the first of them on a tie).
pub proof fn lemma_full_pool_steals_oldest(slots: Seq<HandleState>, note: Note, i: int)
    requires
        is_first_min(slots, note, i),
        forall|j: int| 0 <= j < slots.len() ==> (#[trigger] slots[j]).phase is On && slots[j].phase != VoicePhase::On(note),
    ensures
        forall|j: int| 0 <= j < slots.len() ==> slots[i].counter <= (#[trigger] slots[j]).counter,
        forall|j: int| 0 <= j < i ==> slots[i].counter < (#[trigger] slots[j]).counter,
{
    assert forall|j: int| 0 <= j < slots.len() implies slots[i].counter <= (#[trigger] slots[j]).counter by {
        assert(!rank_lt(rank(slots[j], note), rank(slots[i], note)));
    }
    assert forall|j: int| 0 <= j < i implies slots[i].counter < (#[trigger] slots[j]).counter by {
        assert(rank_lt(rank(slots[i], note), rank(slots[j], note)));
    }
}

/// When no handle is idle or holds the triggered note, but some are released,
/// the handle taken is the released one released longest ago.
pub proof fn lemma_released_stolen_before_sounding(slots: Seq<HandleState>, note: Note, i: int, r: int)
    requires
        is_first_min(slots, note, i),
        0 <= r < slots.len(),
        slots[r].phase is Released,
        forall|j: int| 0 <= j < slots.len() ==> (#[trigger] slots[j]).phase != VoicePhase::Off
            && slots[j].phase != VoicePhase::On(note) && slots[j].phase != VoicePhase::Released(note),
    ensures
        slots[i].phase is Released,
        forall|j: int| 0 <= j < slots.len() && (#[trigger] slots[j]).phase is Released ==> slots[i].counter <= slots[j].counter,
{
    assert(!rank_lt(rank(slots[r], note), rank(slots[i], note)));
    assert forall|j: int| 0 <= j < slots.len() && (#[trigger] slots[j]).phase is Released implies slots[i].counter <= slots[j].counter by {
        assert(!rank_lt(rank(slots[j], note), rank(slots[i], note)));
    }
}

/// In polyphonic mode, retriggering a note that a handle is on for takes that
/// very handle.
pub proof fn lemma_retrigger_reuses_handle(slots: Seq<HandleState>, note: Note, j: int, i: int)
    requires
        unique_on(slots),
        0 <= j < slots.len(),
        slots[j].phase == VoicePhase::On(note),
        is_first_min(slots, note, i),
    ensures
        i == j,
{
    assert(!rank_lt(rank(slots[j], note), rank(slots[i], note)));
    assert(slots[i].phase == VoicePhase::On(note));
    if i != j {
        assert(slots[i].phase != slots[j].phase);
    }
}


/// The offset that places every handle still on for another note after every
/// released one in the single-integer form of the allocation priority.
pub open spec fn large_offset() -> int {
    (usize::MAX / 2) as int
}

/// The allocation priority as one integer: the same note on is 0, an idle handle
/// 1, the same note released 2, another released note 3 plus its release clock,
/// and another note on the large offset plus its trigger clock.
pub open spec fn packed_priority(h: HandleState, note: Note) -> int {
    match h.phase {
        VoicePhase::On(n) => if n == note { 0 } else { large_offset() + h.counter },
        VoicePhase::Off => 1,
        VoicePhase::Released(n) => if n == note { 2 } else { 3 + h.counter },
    }
}

/// While clocks stay below the large offset, ranks order handles exactly as the
/// single-integer priority does, so the handle taken is the first of lowest
/// priority.
pub proof fn lemma_rank_matches_packed_priority(a: HandleState, b: HandleState, note: Note)
    requires
        a.counter + 3 < large_offset(),
        b.counter + 3 < large_offset(),
    ensures
        rank_lt(rank(a, note), rank(b, note)) <==> packed_priority(a, note) < packed_priority(b, note),
{
}

} // verus!
