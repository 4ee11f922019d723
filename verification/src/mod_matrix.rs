//! The modulation matrix: a fixed table of routes from a source to a
//! destination, where a route may also modulate the amount of another route.
use crate::config::MOD_MATRIX_SIZE;
use vstd::prelude::*;

verus! {

/// Where a modulation comes from.
#[derive(Clone, Copy, Debug, PartialEq, Eq, Structural)]
pub enum ModMatrixSrc {
    Gate,
    Velocity,
    ModWheel,
    PitchWheel,
    Macro1,
    Macro2,
    Macro3,
    Macro4,
    Env(usize),
    Lfo(usize),
}

#[derive(Clone, Copy, Debug, PartialEq, Eq, Structural)]
pub enum OscParam {
    Level,
    Tune,
}

#[derive(Clone, Copy, Debug, PartialEq, Eq, Structural)]
pub enum LowPass {
    LP1,
    LP2,
}

#[derive(Clone, Copy, Debug, PartialEq, Eq, Structural)]
pub enum LowPassParam {
    Cutoff,
    Res,
    Mix,
}

#[derive(Clone, Copy, Debug, PartialEq, Eq, Structural)]
pub enum EnvParam {
    Atk,
    Dcy,
    Sus,
    Rel,
}

#[derive(Clone, Copy, Debug, PartialEq, Eq, Structural)]
pub enum LfoParam {
    Speed,
}

/// What a modulation acts on.
#[allow(inconsistent_fields)]
#[derive(Clone, Copy, Debug, PartialEq, Eq, Structural)]
pub enum ModMatrixDest {
    SynthVolume,
    Osc { osc: usize, param: OscParam },
    LowPass { low_pass: LowPass, param: LowPassParam },
    Env { env: usize, param: EnvParam },
    Lfo { lfo: usize, param: LfoParam },
    /// The amount of the route in the slot with this index.
    ModMatrixEntryModAmt(usize),
}

/// How a modulation acts on what it is routed to.
#[derive(Clone, Copy, Debug, PartialEq, Eq, Structural)]
pub enum ModKind {
    /// The modulation is added.
    Add,
    /// The modulation scales.
    Scale,
}

impl ModMatrixDest {
    /// Volumes and levels are scaled: the synth's volume, the level of an
    /// oscillator and the sustain level of an envelope.  Everything else is
    /// added to: tunings, filter settings, envelope times, LFO speeds and
    /// the amounts of other routes.
    pub open spec fn kind(self) -> ModKind {
        match self {
            ModMatrixDest::SynthVolume => ModKind::Scale,
            ModMatrixDest::Osc { param: OscParam::Level, .. } => ModKind::Scale,
            ModMatrixDest::Env { param: EnvParam::Sus, .. } => ModKind::Scale,
            _ => ModKind::Add,
        }
    }

    /// How a modulation acts on this destination.
    pub fn mod_kind(&self) -> (kind: ModKind)
        ensures
            kind == self.kind(),
    {
        match self {
            ModMatrixDest::SynthVolume => ModKind::Scale,
            ModMatrixDest::Osc { osc: _, param: OscParam::Level } => ModKind::Scale,
            ModMatrixDest::Env { env: _, param: EnvParam::Sus } => ModKind::Scale,
            _ => ModKind::Add,
        }
    }
}

/// One route.  `amt` is the bit pattern of a 32-bit IEEE-754 number; the
/// matrix stores it and never looks inside.
#[derive(Clone, Copy, Debug, PartialEq, Eq, Structural)]
pub struct ModMatrixItem {
    pub src: ModMatrixSrc,
    pub dest: ModMatrixDest,
    pub amt: u32,
    pub bipolar: bool,
}

/// The slot that the route in slot `j` points at, where that route
/// modulates another route's amount.
pub open spec fn target(m: Seq<Option<ModMatrixItem>>, j: int) -> Option<int> {
    if 0 <= j < m.len() {
        match m[j] {
            Some(item) => match item.dest {
                ModMatrixDest::ModMatrixEntryModAmt(n) => Some(n as int),
                _ => None,
            },
            None => None,
        }
    } else {
        None
    }
}

/// Following at most `fuel` references from slot `j` arrives at slot `id`.
pub open spec fn leads_to(m: Seq<Option<ModMatrixItem>>, j: int, id: int, fuel: nat) -> bool
    decreases fuel,
{
    j == id || (fuel > 0 && target(m, j) is Some && leads_to(
        m,
        target(m, j).unwrap(),
        id,
        (fuel - 1) as nat,
    ))
}

/// Slot `j` goes when slot `id` is deleted: it is that slot, or its route
/// modulates, directly or through other routes, the route in that slot.
pub open spec fn doomed(m: Seq<Option<ModMatrixItem>>, j: int, id: int) -> bool {
    exists|fuel: nat| leads_to(m, j, id, fuel)
}

/// How many of the slots below `i` go when slot `id` is deleted.
pub open spec fn removed_below(m: Seq<Option<ModMatrixItem>>, id: int, i: int) -> nat
    decreases i,
{
    if i <= 0 {
        0
    } else {
        removed_below(m, id, i - 1) + if doomed(m, i - 1, id) {
            1nat
        } else {
            0nat
        }
    }
}

/// The index that slot `i` has after slot `id` was deleted, if it stays.
pub open spec fn new_index(m: Seq<Option<ModMatrixItem>>, id: int, i: int) -> int {
    i - removed_below(m, id, i)
}

/// A slot's content after slot `id` was deleted: a reference to another
/// slot follows that slot to its new index.
pub open spec fn moved(m: Seq<Option<ModMatrixItem>>, id: int, slot: Option<ModMatrixItem>)
    -> Option<ModMatrixItem> {
    match slot {
        Some(item) => match item.dest {
            ModMatrixDest::ModMatrixEntryModAmt(n) => Some(
                ModMatrixItem {
                    dest: ModMatrixDest::ModMatrixEntryModAmt(
                        new_index(m, id, n as int) as usize,
                    ),
                    ..item
                },
            ),
            _ => Some(item),
        },
        None => None,
    }
}

/// The slots below `i` that stay when slot `id` is deleted, in their order
/// and with their references renumbered.
pub open spec fn survivors(m: Seq<Option<ModMatrixItem>>, id: int, i: int) -> Seq<
    Option<ModMatrixItem>,
>
    decreases i,
{
    if i <= 0 {
        Seq::empty()
    } else if doomed(m, i - 1, id) {
        survivors(m, id, i - 1)
    } else {
        survivors(m, id, i - 1).push(moved(m, id, m[i - 1]))
    }
}

/// The matrix after slot `id` was deleted: the slots that stay move down
/// over those that go, and empty slots fill the end.  An index outside the
/// matrix deletes nothing.
pub open spec fn spec_delete(m: Seq<Option<ModMatrixItem>>, id: int) -> Seq<
    Option<ModMatrixItem>,
> {
    if 0 <= id < m.len() {
        let kept = survivors(m, id, m.len() as int);
        kept + Seq::new((m.len() - kept.len()) as nat, |k: int| None::<ModMatrixItem>)
    } else {
        m
    }
}

/// Every reference in the matrix points at an occupied slot other than its
/// own.
pub open spec fn refs_valid(m: Seq<Option<ModMatrixItem>>) -> bool {
    forall|j: int|
        0 <= j < m.len() && (#[trigger] target(m, j)) is Some ==> {
            let n = target(m, j).unwrap();
            0 <= n < m.len() && n != j && m[n] is Some
        }
}

/// The first empty slot below `n`.
pub open spec fn first_empty_below(m: Seq<Option<ModMatrixItem>>, n: int) -> Option<int>
    decreases n,
{
    if n <= 0 {
        None
    } else {
        match first_empty_below(m, n - 1) {
            Some(i) => Some(i),
            None => if m[n - 1] is None {
                Some(n - 1)
            } else {
                None
            },
        }
    }
}

/// `item` may stand in slot `at`: where it modulates another route's
/// amount, that route exists and is not `item` itself.
pub open spec fn fits(m: Seq<Option<ModMatrixItem>>, at: int, item: ModMatrixItem) -> bool {
    match item.dest {
        ModMatrixDest::ModMatrixEntryModAmt(n) => n < m.len() && n != at && m[n as int] is Some,
        _ => true,
    }
}

/// A slot only goes where it lies in the matrix.
pub proof fn lemma_doomed_in_range(m: Seq<Option<ModMatrixItem>>, j: int, id: int)
    requires
        0 <= id < m.len(),
        doomed(m, j, id),
    ensures
        0 <= j < m.len(),
{
    let fuel = choose|fuel: nat| leads_to(m, j, id, fuel);
    assert(leads_to(m, j, id, fuel));
}

/// A slot that points at a slot that goes, goes too.
pub proof fn lemma_doomed_step(m: Seq<Option<ModMatrixItem>>, j: int, id: int)
    requires
        target(m, j) is Some,
        doomed(m, target(m, j).unwrap(), id),
    ensures
        doomed(m, j, id),
{
    let fuel = choose|fuel: nat| leads_to(m, target(m, j).unwrap(), id, fuel);
    assert(leads_to(m, j, id, fuel + 1));
}

/// A slot that goes is the deleted slot or points at a slot that goes.
pub proof fn lemma_doomed_unfold(m: Seq<Option<ModMatrixItem>>, j: int, id: int)
    requires
        doomed(m, j, id),
        j != id,
    ensures
        target(m, j) is Some,
        doomed(m, target(m, j).unwrap(), id),
{
    let fuel = choose|fuel: nat| leads_to(m, j, id, fuel);
    assert(leads_to(m, target(m, j).unwrap(), id, (fuel - 1) as nat));
}

/// No more slots go than there are, and none beyond the matrix.
pub proof fn lemma_removed_below_bound(m: Seq<Option<ModMatrixItem>>, id: int, i: int)
    requires
        0 <= id < m.len(),
    ensures
        removed_below(m, id, i) <= i || i < 0,
        i >= m.len() ==> removed_below(m, id, i) == removed_below(m, id, m.len() as int),
        i > id ==> removed_below(m, id, i) >= 1,
    decreases i,
{
    if i > 0 {
        lemma_removed_below_bound(m, id, i - 1);
        if doomed(m, i - 1, id) {
            lemma_doomed_in_range(m, i - 1, id);
        }
        if i - 1 == id {
            assert(leads_to(m, id, id, 0));
        }
    }
}

/// As many slots stay below `i` as do not go.
pub proof fn lemma_survivors_len(m: Seq<Option<ModMatrixItem>>, id: int, i: int)
    requires
        0 <= i,
    ensures
        survivors(m, id, i).len() == i - removed_below(m, id, i),
    decreases i,
{
    if i > 0 {
        lemma_survivors_len(m, id, i - 1);
    }
}

/// How many of the first `n` flags are set.
pub open spec fn marked_below(marks: Seq<bool>, n: int) -> nat
    decreases n,
{
    if n <= 0 {
        0
    } else {
        marked_below(marks, n - 1) + if marks[n - 1] {
            1nat
        } else {
            0nat
        }
    }
}

proof fn lemma_marked_below_bound(marks: Seq<bool>, n: int)
    requires
        0 <= n <= marks.len(),
    ensures
        marked_below(marks, n) <= n,
    decreases n,
{
    if n > 0 {
        lemma_marked_below_bound(marks, n - 1);
    }
}

proof fn lemma_marked_below_set(marks: Seq<bool>, j: int, n: int)
    requires
        0 <= j < marks.len(),
        0 <= n <= marks.len(),
        !marks[j],
    ensures
        marked_below(marks.update(j, true), n) == marked_below(marks, n) + if j < n {
            1nat
        } else {
            0nat
        },
    decreases n,
{
    if n > 0 {
        lemma_marked_below_set(marks, j, n - 1);
    }
}

proof fn lemma_marked_below_none(marks: Seq<bool>, n: int)
    requires
        0 <= n <= marks.len(),
        forall|j: int| 0 <= j < n ==> !marks[j],
    ensures
        marked_below(marks, n) == 0,
    decreases n,
{
    if n > 0 {
        lemma_marked_below_none(marks, n - 1);
    }
}

/// Flags that hold the deleted slot and are closed under "points at a
/// flagged slot" hold every slot that goes.
proof fn lemma_closed_marks_cover(
    m: Seq<Option<ModMatrixItem>>,
    marks: Seq<bool>,
    id: int,
    j: int,
    fuel: nat,
)
    requires
        marks.len() == m.len(),
        0 <= id < m.len(),
        marks[id],
        forall|a: int|
            0 <= a < m.len() && (#[trigger] target(m, a)) is Some && 0 <= target(m, a).unwrap()
                < m.len() && marks[target(m, a).unwrap()] ==> marks[a],
        leads_to(m, j, id, fuel),
    ensures
        0 <= j < m.len(),
        marks[j],
    decreases fuel,
{
    if j != id {
        lemma_closed_marks_cover(m, marks, id, target(m, j).unwrap(), (fuel - 1) as nat);
    }
}

/// The modulation matrix: `MOD_MATRIX_SIZE` slots, each empty or a route.
pub struct ModMatrix {
    slots: Vec<Option<ModMatrixItem>>,
}

impl View for ModMatrix {
    type V = Seq<Option<ModMatrixItem>>;

    closed spec fn view(&self) -> Seq<Option<ModMatrixItem>> {
        self.slots@
    }
}

impl ModMatrix {
    /// The matrix has its fixed size and holds no dangling reference.
    pub open spec fn wf(&self) -> bool {
        self@.len() == MOD_MATRIX_SIZE && refs_valid(self@)
    }

    /// An empty matrix.
    pub fn new() -> (matrix: ModMatrix)
        ensures
            matrix.wf(),
            forall|i: int| 0 <= i < MOD_MATRIX_SIZE ==> (#[trigger] matrix@[i]) is None,
    {
        let mut slots: Vec<Option<ModMatrixItem>> = Vec::new();
        let mut i: usize = 0;
        while i < MOD_MATRIX_SIZE
            invariant
                i <= MOD_MATRIX_SIZE,
                slots@.len() == i,
                forall|j: int| 0 <= j < i ==> (#[trigger] slots@[j]) is None,
            decreases MOD_MATRIX_SIZE - i,
        {
            slots.push(None);
            i = i + 1;
        }
        ModMatrix { slots }
    }

    /// The content of slot `index`; nothing beyond the matrix.
    pub fn get(&self, index: usize) -> (slot: Option<ModMatrixItem>)
        requires
            self.wf(),
        ensures
            slot == if index < MOD_MATRIX_SIZE {
                self@[index as int]
            } else {
                None
            },
    {
        if index < MOD_MATRIX_SIZE {
            self.slots[index]
        } else {
            None
        }
    }

    /// The first empty slot.
    fn find_empty(&self) -> (found: Option<usize>)
        requires
            self.wf(),
        ensures
            match found {
                Some(i) => first_empty_below(self@, MOD_MATRIX_SIZE as int) == Some(i as int) && i
                    < MOD_MATRIX_SIZE && self@[i as int] is None,
                None => first_empty_below(self@, MOD_MATRIX_SIZE as int) is None,
            },
    {
        let mut i: usize = 0;
        while i < MOD_MATRIX_SIZE
            invariant
                i <= MOD_MATRIX_SIZE,
                self.wf(),
                first_empty_below(self@, i as int) is None,
            decreases MOD_MATRIX_SIZE - i,
        {
            match self.slots[i] {
                None => {
                    proof {
                        lemma_first_empty_below(self@, i as int);
                        lemma_first_empty_below(self@, MOD_MATRIX_SIZE as int);
                    }
                    return Some(i);
                },
                Some(_) => {},
            }
            i = i + 1;
        }
        None
    }

    /// Whether `item` may stand in slot `at`.
    fn check_fits(&self, at: usize, item: &ModMatrixItem) -> (ok: bool)
        requires
            self.wf(),
        ensures
            ok == fits(self@, at as int, *item),
    {
        match item.dest {
            ModMatrixDest::ModMatrixEntryModAmt(n) => {
                if n < MOD_MATRIX_SIZE && n != at {
                    match self.slots[n] {
                        Some(_) => true,
                        None => false,
                    }
                } else {
                    false
                }
            },
            _ => true,
        }
    }

    /// Puts `item` into the first empty slot and returns that slot's index.
    /// The item is dropped, and the matrix left as it was, where no slot is
    /// empty or where the item points at a slot that holds no route.
    pub fn add(&mut self, item: ModMatrixItem) -> (slot: Option<usize>)
        requires
            old(self).wf(),
        ensures
            final(self).wf(),
            match first_empty_below(old(self)@, MOD_MATRIX_SIZE as int) {
                Some(i) if fits(old(self)@, i, item) => slot == Some(i as usize) && final(self)@
                    == old(self)@.update(i, Some(item)),
                _ => slot is None && final(self)@ == old(self)@,
            },
    {
        match self.find_empty() {
            Some(i) => {
                if self.check_fits(i, &item) {
                    self.slots.set(i, Some(item));
                    proof {
                        lemma_update_keeps_refs(old(self)@, i as int, item);
                    }
                    Some(i)
                } else {
                    None
                }
            },
            None => None,
        }
    }

    /// Replaces the content of slot `index` by `item` and says whether it
    /// did.  The matrix is left as it was where `index` lies beyond it or
    /// where the item points at its own slot or at a slot that holds no
    /// route.
    pub fn modify(&mut self, index: usize, item: ModMatrixItem) -> (done: bool)
        requires
            old(self).wf(),
        ensures
            final(self).wf(),
            done == (index < MOD_MATRIX_SIZE && fits(old(self)@, index as int, item)),
            final(self)@ == if done {
                old(self)@.update(index as int, Some(item))
            } else {
                old(self)@
            },
    {
        if index < MOD_MATRIX_SIZE && self.check_fits(index, &item) {
            self.slots.set(index, Some(item));
            proof {
                lemma_update_keeps_refs(old(self)@, index as int, item);
            }
            true
        } else {
            false
        }
    }

    /// Flags the slots that go when slot `id` is deleted: the slot itself,
    /// then, from a worklist, every slot that points at a flagged slot.
    fn mark_doomed(&self, id: usize) -> (marks: Vec<bool>)
        requires
            self@.len() == MOD_MATRIX_SIZE,
            id < MOD_MATRIX_SIZE,
        ensures
            marks@.len() == MOD_MATRIX_SIZE,
            forall|j: int|
                0 <= j < MOD_MATRIX_SIZE ==> (#[trigger] marks@[j]) == doomed(self@, j, id as int),
    {
        let ghost m = self@;
        let mut marks: Vec<bool> = Vec::new();
        let mut i: usize = 0;
        while i < MOD_MATRIX_SIZE
            invariant
                i <= MOD_MATRIX_SIZE,
                marks@.len() == i,
                forall|j: int| 0 <= j < i ==> !(#[trigger] marks@[j]),
            decreases MOD_MATRIX_SIZE - i,
        {
            marks.push(false);
            i = i + 1;
        }
        proof {
            lemma_marked_below_none(marks@, MOD_MATRIX_SIZE as int);
            lemma_marked_below_set(marks@, id as int, MOD_MATRIX_SIZE as int);
            assert(leads_to(m, id as int, id as int, 0));
        }
        marks.set(id, true);
        let mut queue: Vec<usize> = Vec::new();
        queue.push(id);
        let mut head: usize = 0;
        let ghost mut done: Set<int> = Set::empty();
        assert(queue@[0] == id);
        while head < queue.len()
            invariant
                m == self@,
                m.len() == MOD_MATRIX_SIZE,
                id < MOD_MATRIX_SIZE,
                marks@.len() == MOD_MATRIX_SIZE,
                head <= queue@.len(),
                queue@.len() == marked_below(marks@, MOD_MATRIX_SIZE as int),
                marks@[id as int],
                forall|k: int|
                    0 <= k < queue@.len() ==> (#[trigger] queue@[k]) < MOD_MATRIX_SIZE
                        && marks@[queue@[k] as int],
                forall|k: int| 0 <= k < head ==> done.contains((#[trigger] queue@[k]) as int),
                forall|j: int|
                    0 <= j < MOD_MATRIX_SIZE && (#[trigger] marks@[j]) ==> exists|k: int|
                        0 <= k < queue@.len() && (#[trigger] queue@[k]) == j,
                forall|j: int|
                    0 <= j < MOD_MATRIX_SIZE && (#[trigger] marks@[j]) ==> doomed(m, j, id as int),
                forall|a: int|
                    0 <= a < MOD_MATRIX_SIZE && (#[trigger] target(m, a)) is Some && done.contains(
                        target(m, a).unwrap(),
                    ) ==> marks@[a],
            decreases MOD_MATRIX_SIZE - head,
        {
            proof {
                lemma_marked_below_bound(marks@, MOD_MATRIX_SIZE as int);
            }
            let d = queue[head];
            let mut j: usize = 0;
            while j < MOD_MATRIX_SIZE
                invariant
                    m == self@,
                    m.len() == MOD_MATRIX_SIZE,
                    id < MOD_MATRIX_SIZE,
                    marks@.len() == MOD_MATRIX_SIZE,
                    j <= MOD_MATRIX_SIZE,
                    head < queue@.len(),
                    d == queue@[head as int],
                    queue@.len() == marked_below(marks@, MOD_MATRIX_SIZE as int),
                    marks@[id as int],
                    forall|k: int|
                        0 <= k < queue@.len() ==> (#[trigger] queue@[k]) < MOD_MATRIX_SIZE
                            && marks@[queue@[k] as int],
                    forall|k: int| 0 <= k < head ==> done.contains((#[trigger] queue@[k]) as int),
                    forall|j: int|
                        0 <= j < MOD_MATRIX_SIZE && (#[trigger] marks@[j]) ==> exists|k: int|
                            0 <= k < queue@.len() && (#[trigger] queue@[k]) == j,
                    forall|j: int|
                        0 <= j < MOD_MATRIX_SIZE && (#[trigger] marks@[j]) ==> doomed(
                            m,
                            j,
                            id as int,
                        ),
                    forall|a: int|
                        0 <= a < MOD_MATRIX_SIZE && (#[trigger] target(m, a)) is Some
                            && done.contains(target(m, a).unwrap()) ==> marks@[a],
                    forall|a: int|
                        0 <= a < j && (#[trigger] target(m, a)) == Some(d as int) ==> marks@[a],
                decreases MOD_MATRIX_SIZE - j,
            {
                if !marks[j] {
                    let hit = match self.slots[j] {
                        Some(item) => match item.dest {
                            ModMatrixDest::ModMatrixEntryModAmt(n) => n == d,
                            _ => false,
                        },
                        None => false,
                    };
                    if hit {
                        let ghost marks0 = marks@;
                        let ghost queue0 = queue@;
                        proof {
                            lemma_marked_below_set(marks@, j as int, MOD_MATRIX_SIZE as int);
                            assert(target(m, j as int) == Some(d as int));
                            lemma_doomed_step(m, j as int, id as int);
                        }
                        marks.set(j, true);
                        queue.push(j);
                        proof {
                            assert forall|b: int|
                                0 <= b < MOD_MATRIX_SIZE && (#[trigger] marks@[b]) implies exists|
                                k: int,
                            |
                                0 <= k < queue@.len() && (#[trigger] queue@[k]) == b by {
                                if b == j {
                                    assert(queue@[queue0.len() as int] == j);
                                } else {
                                    assert(marks0[b]);
                                    let k = choose|k: int|
                                        0 <= k < queue0.len() && (#[trigger] queue0[k]) == b;
                                    assert(queue@[k] == b);
                                }
                            }
                            assert forall|k: int| 0 <= k < queue@.len() implies (
                            #[trigger] queue@[k]) < MOD_MATRIX_SIZE && marks@[queue@[k] as int] by {
                                if k < queue0.len() {
                                    assert(queue0[k] < MOD_MATRIX_SIZE);
                                }
                            }
                            assert forall|k: int| 0 <= k < head implies done.contains(
                                (#[trigger] queue@[k]) as int,
                            ) by {
                                assert(done.contains(queue0[k] as int));
                            }
                        }
                    }
                }
                j = j + 1;
            }
            proof {
                done = done.insert(d as int);
            }
            head = head + 1;
        }
        proof {
            assert forall|a: int|
                0 <= a < m.len() && (#[trigger] target(m, a)) is Some && 0 <= target(
                    m,
                    a,
                ).unwrap() < m.len() && marks@[target(m, a).unwrap()] implies marks@[a] by {
                let n = target(m, a).unwrap();
                let k = choose|k: int| 0 <= k < queue@.len() && (#[trigger] queue@[k]) == n;
                assert(done.contains(queue@[k] as int));
            }
            assert forall|j: int| 0 <= j < MOD_MATRIX_SIZE implies (#[trigger] marks@[j])
                == doomed(m, j, id as int) by {
                if doomed(m, j, id as int) {
                    let fuel = choose|fuel: nat| leads_to(m, j, id as int, fuel);
                    lemma_closed_marks_cover(m, marks@, id as int, j, fuel);
                }
            }
        }
        marks
    }

    /// For every index up to the size of the matrix, how many slots below
    /// it go.
    fn count_removed(&self, id: usize, marks: &Vec<bool>) -> (below: Vec<usize>)
        requires
            self@.len() == MOD_MATRIX_SIZE,
            id < MOD_MATRIX_SIZE,
            marks@.len() == MOD_MATRIX_SIZE,
            forall|j: int|
                0 <= j < MOD_MATRIX_SIZE ==> (#[trigger] marks@[j]) == doomed(self@, j, id as int),
        ensures
            below@.len() == MOD_MATRIX_SIZE + 1,
            forall|i: int|
                0 <= i <= MOD_MATRIX_SIZE ==> (#[trigger] below@[i]) == removed_below(
                    self@,
                    id as int,
                    i,
                ),
    {
        let mut below: Vec<usize> = Vec::new();
        below.push(0);
        let mut i: usize = 0;
        let mut count: usize = 0;
        while i < MOD_MATRIX_SIZE
            invariant
                i <= MOD_MATRIX_SIZE,
                id < MOD_MATRIX_SIZE,
                self@.len() == MOD_MATRIX_SIZE,
                marks@.len() == MOD_MATRIX_SIZE,
                forall|j: int|
                    0 <= j < MOD_MATRIX_SIZE ==> (#[trigger] marks@[j]) == doomed(
                        self@,
                        j,
                        id as int,
                    ),
                below@.len() == i + 1,
                count == removed_below(self@, id as int, i as int),
                count <= i,
                forall|k: int|
                    0 <= k <= i ==> (#[trigger] below@[k]) == removed_below(self@, id as int, k),
            decreases MOD_MATRIX_SIZE - i,
        {
            if marks[i] {
                count = count + 1;
            }
            i = i + 1;
            below.push(count);
        }
        below
    }

    /// The content of a slot that stays, with its reference renumbered.
    fn renumber(&self, id: usize, slot: Option<ModMatrixItem>, below: &Vec<usize>) -> (out: Option<
        ModMatrixItem,
    >)
        requires
            self@.len() == MOD_MATRIX_SIZE,
            id < MOD_MATRIX_SIZE,
            below@.len() == MOD_MATRIX_SIZE + 1,
            forall|i: int|
                0 <= i <= MOD_MATRIX_SIZE ==> (#[trigger] below@[i]) == removed_below(
                    self@,
                    id as int,
                    i,
                ),
        ensures
            out == moved(self@, id as int, slot),
    {
        match slot {
            Some(item) => match item.dest {
                ModMatrixDest::ModMatrixEntryModAmt(n) => {
                    proof {
                        lemma_removed_below_bound(self@, id as int, n as int);
                        lemma_removed_below_bound(self@, id as int, MOD_MATRIX_SIZE as int);
                    }
                    let gone = if n < MOD_MATRIX_SIZE {
                        below[n]
                    } else {
                        below[MOD_MATRIX_SIZE]
                    };
                    Some(
                        ModMatrixItem {
                            src: item.src,
                            dest: ModMatrixDest::ModMatrixEntryModAmt(n - gone),
                            amt: item.amt,
                            bipolar: item.bipolar,
                        },
                    )
                },
                _ => Some(item),
            },
            None => None,
        }
    }

    /// Deletes slot `index` and every route that modulates, directly or
    /// through other routes, the amount of a route that goes.  The slots
    /// that stay move down over those that go and their references follow;
    /// empty slots fill the end.  Returns how many slots went: none where
    /// `index` lies beyond the matrix.
    pub fn delete(&mut self, index: usize) -> (gone: usize)
        requires
            old(self)@.len() == MOD_MATRIX_SIZE,
        ensures
            final(self)@ == spec_delete(old(self)@, index as int),
            final(self)@.len() == MOD_MATRIX_SIZE,
            old(self).wf() ==> final(self).wf(),
            gone == if index < MOD_MATRIX_SIZE {
                removed_below(old(self)@, index as int, MOD_MATRIX_SIZE as int)
            } else {
                0
            },
    {
        if index >= MOD_MATRIX_SIZE {
            return 0;
        }
        let ghost m = self@;
        proof {
            if refs_valid(m) {
                lemma_delete_keeps_refs_valid(m, index as int);
            }
        }
        let marks = self.mark_doomed(index);
        let below = self.count_removed(index, &marks);
        let mut out: Vec<Option<ModMatrixItem>> = Vec::new();
        let mut i: usize = 0;
        while i < MOD_MATRIX_SIZE
            invariant
                i <= MOD_MATRIX_SIZE,
                index < MOD_MATRIX_SIZE,
                m == self@,
                m.len() == MOD_MATRIX_SIZE,
                marks@.len() == MOD_MATRIX_SIZE,
                forall|j: int|
                    0 <= j < MOD_MATRIX_SIZE ==> (#[trigger] marks@[j]) == doomed(
                        m,
                        j,
                        index as int,
                    ),
                below@.len() == MOD_MATRIX_SIZE + 1,
                forall|k: int|
                    0 <= k <= MOD_MATRIX_SIZE ==> (#[trigger] below@[k]) == removed_below(
                        m,
                        index as int,
                        k,
                    ),
                out@ == survivors(m, index as int, i as int),
            decreases MOD_MATRIX_SIZE - i,
        {
            if !marks[i] {
                let slot = self.renumber(index, self.slots[i], &below);
                out.push(slot);
            }
            i = i + 1;
        }
        proof {
            lemma_survivors_len(m, index as int, MOD_MATRIX_SIZE as int);
            lemma_removed_below_bound(m, index as int, MOD_MATRIX_SIZE as int);
        }
        let ghost kept = out@;
        while out.len() < MOD_MATRIX_SIZE
            invariant
                out@.len() <= MOD_MATRIX_SIZE,
                kept.len() <= out@.len(),
                out@ == kept + Seq::new(
                    (out@.len() - kept.len()) as nat,
                    |k: int| None::<ModMatrixItem>,
                ),
            decreases MOD_MATRIX_SIZE - out@.len(),
        {
            let ghost before = out@;
            out.push(None);
            assert(out@ =~= kept + Seq::new(
                (out@.len() - kept.len()) as nat,
                |k: int| None::<ModMatrixItem>,
            ));
        }
        self.slots = out;
        below[MOD_MATRIX_SIZE]
    }
}

/// `first_empty_below` finds an empty slot with only routes before it, and
/// finds none only where every slot holds a route.
pub proof fn lemma_first_empty_below(m: Seq<Option<ModMatrixItem>>, n: int)
    requires
        0 <= n <= m.len(),
    ensures
        match first_empty_below(m, n) {
            Some(i) => 0 <= i < n && m[i] is None && forall|j: int|
                0 <= j < i ==> (#[trigger] m[j]) is Some,
            None => forall|j: int| 0 <= j < n ==> (#[trigger] m[j]) is Some,
        },
    decreases n,
{
    if n > 0 {
        lemma_first_empty_below(m, n - 1);
    }
}

/// Writing a route that fits into a slot leaves every reference valid.
pub proof fn lemma_update_keeps_refs(m: Seq<Option<ModMatrixItem>>, at: int, item: ModMatrixItem)
    requires
        refs_valid(m),
        0 <= at < m.len(),
        fits(m, at, item),
    ensures
        refs_valid(m.update(at, Some(item))),
{
    let w = m.update(at, Some(item));
    assert forall|j: int| 0 <= j < w.len() && (#[trigger] target(w, j)) is Some implies {
        let n = target(w, j).unwrap();
        0 <= n < w.len() && n != j && w[n] is Some
    } by {
        if j != at {
            assert(target(m, j) == target(w, j));
        }
    }
}

/// The count of slots that go grows by at most one per slot.
pub proof fn lemma_removed_below_step(m: Seq<Option<ModMatrixItem>>, id: int, i: int, j: int)
    requires
        0 <= i <= j,
    ensures
        removed_below(m, id, i) <= removed_below(m, id, j),
        removed_below(m, id, j) - removed_below(m, id, i) <= j - i,
        i < j && !doomed(m, i, id) ==> removed_below(m, id, j) - removed_below(m, id, i) < j - i,
    decreases j - i,
{
    if i < j {
        lemma_removed_below_step(m, id, i, j - 1);
    }
}

/// Slots that stay keep their order: of two that stay, the lower one has
/// the lower new index.
pub proof fn lemma_new_index_ordered(m: Seq<Option<ModMatrixItem>>, id: int, i: int, j: int)
    requires
        0 <= i < j,
        !doomed(m, i, id),
    ensures
        new_index(m, id, i) < new_index(m, id, j),
{
    lemma_removed_below_step(m, id, i, j);
}

/// What stays below `i` is the start of what stays below any later index.
pub proof fn lemma_survivors_prefix(m: Seq<Option<ModMatrixItem>>, id: int, i: int, n: int, k: int)
    requires
        0 <= i <= n,
        0 <= k < survivors(m, id, i).len(),
    ensures
        k < survivors(m, id, n).len(),
        survivors(m, id, n)[k] == survivors(m, id, i)[k],
    decreases n - i,
{
    if i < n {
        lemma_survivors_prefix(m, id, i, n - 1, k);
    }
}

/// A slot that stays is found at its new index, with its reference
/// renumbered.
pub proof fn lemma_survivor_position(m: Seq<Option<ModMatrixItem>>, id: int, i: int)
    requires
        0 <= id < m.len(),
        0 <= i < m.len(),
        !doomed(m, i, id),
    ensures
        0 <= new_index(m, id, i) < m.len() - removed_below(m, id, m.len() as int),
        spec_delete(m, id).len() == m.len(),
        spec_delete(m, id)[new_index(m, id, i)] == moved(m, id, m[i]),
{
    lemma_survivors_len(m, id, i);
    lemma_survivors_len(m, id, i + 1);
    lemma_survivors_len(m, id, m.len() as int);
    lemma_removed_below_bound(m, id, m.len() as int);
    lemma_removed_below_bound(m, id, i);
    lemma_survivors_prefix(m, id, i + 1, m.len() as int, new_index(m, id, i));
}

/// Every slot of the matrix after a delete is empty or holds, renumbered, a
/// route that was there before and did not have to go.
pub proof fn lemma_survivor_origin(m: Seq<Option<ModMatrixItem>>, id: int, n: int, k: int) -> (i:
    int)
    requires
        0 <= n,
        0 <= k < survivors(m, id, n).len(),
    ensures
        0 <= i < n,
        !doomed(m, i, id),
        new_index(m, id, i) == k,
        survivors(m, id, n)[k] == moved(m, id, m[i]),
    decreases n,
{
    lemma_survivors_len(m, id, n - 1);
    if !doomed(m, n - 1, id) && k == survivors(m, id, n - 1).len() {
        n - 1
    } else {
        lemma_survivor_origin(m, id, n - 1, k)
    }
}

/// After a delete the matrix has its old size, and everything from the
/// number of slots that stay on is empty.
pub proof fn lemma_delete_shape(m: Seq<Option<ModMatrixItem>>, id: int)
    requires
        0 <= id < m.len(),
    ensures
        spec_delete(m, id).len() == m.len(),
        1 <= removed_below(m, id, m.len() as int) <= m.len(),
        forall|k: int|
            m.len() - removed_below(m, id, m.len() as int) <= k < m.len() ==> (
            #[trigger] spec_delete(m, id)[k]) is None,
        forall|k: int|
            0 <= k < m.len() - removed_below(m, id, m.len() as int) ==> (#[trigger] spec_delete(
                m,
                id,
            )[k]) == survivors(m, id, m.len() as int)[k],
{
    lemma_survivors_len(m, id, m.len() as int);
    lemma_removed_below_bound(m, id, m.len() as int);
}

/// A delete leaves no dangling reference: in a matrix whose references
/// were all valid, they are all valid afterwards.
pub proof fn lemma_delete_keeps_refs_valid(m: Seq<Option<ModMatrixItem>>, id: int)
    requires
        refs_valid(m),
    ensures
        refs_valid(spec_delete(m, id)),
        spec_delete(m, id).len() == m.len(),
{
    if 0 <= id < m.len() {
        let w = spec_delete(m, id);
        lemma_delete_shape(m, id);
        let kept = m.len() - removed_below(m, id, m.len() as int);
        assert forall|k: int| 0 <= k < w.len() && (#[trigger] target(w, k)) is Some implies {
            let t = target(w, k).unwrap();
            0 <= t < w.len() && t != k && w[t] is Some
        } by {
            assert(w[k] is Some);
            assert(k < kept);
            let i = lemma_survivor_origin(m, id, m.len() as int, k);
            assert(w[k] == moved(m, id, m[i]));
            assert(target(m, i) is Some);
            let n = target(m, i).unwrap();
            assert(0 <= n < m.len() && n != i && m[n] is Some);
            if doomed(m, n, id) {
                lemma_doomed_step(m, i, id);
            }
            lemma_survivor_position(m, id, n);
            assert(target(w, k) == Some(new_index(m, id, n))) by {
                lemma_removed_below_bound(m, id, n);
            }
            if n < i {
                lemma_new_index_ordered(m, id, n, i);
            } else {
                lemma_new_index_ordered(m, id, i, n);
            }
        }
    }
}

/// A route that stays still modulates the route it modulated before: its
/// reference holds the new index of that route, and that route stands
/// there, with the source, amount and polarity it had.
pub proof fn lemma_delete_keeps_targets(m: Seq<Option<ModMatrixItem>>, id: int, i: int)
    requires
        refs_valid(m),
        0 <= id < m.len(),
        0 <= i < m.len(),
        !doomed(m, i, id),
        target(m, i) is Some,
    ensures
        ({
            let n = target(m, i).unwrap();
            let w = spec_delete(m, id);
            &&& !doomed(m, n, id)
            &&& 0 <= new_index(m, id, i) < m.len()
            &&& 0 <= new_index(m, id, n) < m.len()
            &&& target(w, new_index(m, id, i)) == Some(new_index(m, id, n))
            &&& w[new_index(m, id, n)] == moved(m, id, m[n])
            &&& w[new_index(m, id, n)] is Some
            &&& w[new_index(m, id, n)].unwrap().src == m[n].unwrap().src
            &&& w[new_index(m, id, n)].unwrap().amt == m[n].unwrap().amt
            &&& w[new_index(m, id, n)].unwrap().bipolar == m[n].unwrap().bipolar
        }),
{
    let n = target(m, i).unwrap();
    assert(0 <= n < m.len() && n != i && m[n] is Some);
    if doomed(m, n, id) {
        lemma_doomed_step(m, i, id);
    }
    lemma_survivor_position(m, id, i);
    lemma_survivor_position(m, id, n);
    lemma_removed_below_bound(m, id, n);
}

/// Whatever modulates the amount of a route that goes, goes with it, and no
/// route that goes is left in the matrix: every route found after the delete
/// is one that stayed.
pub proof fn lemma_delete_removes_referrers(m: Seq<Option<ModMatrixItem>>, id: int)
    requires
        0 <= id < m.len(),
    ensures
        doomed(m, id, id),
        forall|j: int|
            (#[trigger] target(m, j)) is Some && doomed(m, target(m, j).unwrap(), id) ==> doomed(
                m,
                j,
                id,
            ),
        forall|k: int|
            0 <= k < m.len() && (#[trigger] spec_delete(m, id)[k]) is Some ==> exists|i: int|
                0 <= i < m.len() && !doomed(m, i, id) && new_index(m, id, i) == k && spec_delete(
                    m,
                    id,
                )[k] == #[trigger] moved(m, id, m[i]),
{
    assert(leads_to(m, id, id, 0));
    assert forall|j: int|
        (#[trigger] target(m, j)) is Some && doomed(m, target(m, j).unwrap(), id) implies doomed(
        m,
        j,
        id,
    ) by {
        lemma_doomed_step(m, j, id);
    }
    lemma_delete_shape(m, id);
    let w = spec_delete(m, id);
    assert forall|k: int| 0 <= k < m.len() && (#[trigger] w[k]) is Some implies exists|i: int|
        0 <= i < m.len() && !doomed(m, i, id) && new_index(m, id, i) == k && w[k]
            == #[trigger] moved(m, id, m[i]) by {
        let i = lemma_survivor_origin(m, id, m.len() as int, k);
        assert(w[k] == moved(m, id, m[i]));
    }
}

/// The matrix after the slots `ids` were deleted one after the other.
pub open spec fn spec_delete_all(m: Seq<Option<ModMatrixItem>>, ids: Seq<int>) -> Seq<
    Option<ModMatrixItem>,
>
    decreases ids.len(),
{
    if ids.len() == 0 {
        m
    } else {
        spec_delete_all(spec_delete(m, ids[0]), ids.skip(1))
    }
}

/// No sequence of deletes leaves a dangling reference or changes the size
/// of the matrix.
pub proof fn lemma_deletes_keep_refs_valid(m: Seq<Option<ModMatrixItem>>, ids: Seq<int>)
    requires
        refs_valid(m),
    ensures
        refs_valid(spec_delete_all(m, ids)),
        spec_delete_all(m, ids).len() == m.len(),
    decreases ids.len(),
{
    if ids.len() > 0 {
        lemma_delete_keeps_refs_valid(m, ids[0]);
        lemma_deletes_keep_refs_valid(spec_delete(m, ids[0]), ids.skip(1));
    }
}

/// Deleting a slot that nothing modulates removes that slot alone: the
/// slots below it stay where they are and those above it move down by one.
pub proof fn lemma_delete_unreferenced(m: Seq<Option<ModMatrixItem>>, id: int)
    requires
        0 <= id < m.len(),
        forall|j: int| 0 <= j < m.len() ==> (#[trigger] target(m, j)) != Some(id),
    ensures
        forall|j: int| 0 <= j < m.len() ==> (#[trigger] doomed(m, j, id)) == (j == id),
        forall|i: int| 0 <= i <= id ==> (#[trigger] new_index(m, id, i)) == i,
        forall|i: int| id < i <= m.len() ==> (#[trigger] new_index(m, id, i)) == i - 1,
        forall|i: int| 0 <= i < id ==> (#[trigger] spec_delete(m, id)[i]) == moved(m, id, m[i]),
        forall|i: int|
            id <= i < m.len() - 1 ==> (#[trigger] spec_delete(m, id)[i]) == moved(
                m,
                id,
                m[i + 1],
            ),
        spec_delete(m, id)[m.len() - 1] is None,
{
    assert(leads_to(m, id, id, 0));
    assert forall|j: int| 0 <= j < m.len() implies (#[trigger] doomed(m, j, id)) == (j == id) by {
        if doomed(m, j, id) {
            let fuel = choose|fuel: nat| leads_to(m, j, id, fuel);
            lemma_no_chain(m, j, id, fuel);
        }
    }
    assert forall|i: int| 0 <= i <= m.len() implies (#[trigger] new_index(m, id, i)) == if i
        <= id {
        i
    } else {
        i - 1
    } by {
        lemma_removed_below_single(m, id, i);
    }
    lemma_delete_shape(m, id);
    assert forall|i: int| 0 <= i < id implies (#[trigger] spec_delete(m, id)[i]) == moved(
        m,
        id,
        m[i],
    ) by {
        assert(new_index(m, id, i) == i);
        lemma_survivor_position(m, id, i);
    }
    assert forall|i: int| id <= i < m.len() - 1 implies (#[trigger] spec_delete(m, id)[i])
        == moved(m, id, m[i + 1]) by {
        assert(new_index(m, id, i + 1) == i);
        assert(!doomed(m, i + 1, id));
        lemma_survivor_position(m, id, i + 1);
    }
    assert(new_index(m, id, m.len() as int) == m.len() - 1);
}

/// Where nothing points at slot `id`, a chain of references that arrives
/// there starts there.
proof fn lemma_no_chain(m: Seq<Option<ModMatrixItem>>, j: int, id: int, fuel: nat)
    requires
        0 <= id < m.len(),
        forall|a: int| 0 <= a < m.len() ==> (#[trigger] target(m, a)) != Some(id),
        leads_to(m, j, id, fuel),
    ensures
        j == id,
    decreases fuel,
{
    if j != id {
        let n = target(m, j).unwrap();
        assert(0 <= j < m.len());
        lemma_no_chain(m, n, id, (fuel - 1) as nat);
    }
}

/// Where slot `id` alone goes, one slot goes below every index above it.
proof fn lemma_removed_below_single(m: Seq<Option<ModMatrixItem>>, id: int, i: int)
    requires
        0 <= id < m.len(),
        0 <= i <= m.len(),
        forall|j: int| 0 <= j < m.len() ==> (#[trigger] doomed(m, j, id)) == (j == id),
    ensures
        removed_below(m, id, i) == if i <= id {
            0nat
        } else {
            1nat
        },
    decreases i,
{
    if i > 0 {
        lemma_removed_below_single(m, id, i - 1);
    }
}

} // verus!
