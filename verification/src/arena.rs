use vstd::prelude::*;
use crate::handle::Handle;

verus! {

/// One place of an [`Arena`]: the value that occupies it, if any, and how
/// many times an occupant has been removed from it.
pub struct Slot<T> {
    pub value: Option<T>,
    pub generation: u32,
}

/// A store of values addressed by generational [`Handle`]s.
///
/// Removing a value bumps the generation of its slot, so handles issued for
/// earlier occupants of the slot stop resolving; freed slots are reused, the
/// most recently freed first.
pub struct Arena<T> {
    slots: Vec<Slot<T>>,
    free: Vec<u32>,
}

/// The mathematical contents of an [`Arena`]: its slots in index order, and
/// the stack of freed slot indices (the last one is reused first).
#[verifier::ext_equal]
pub struct ArenaView<T> {
    pub slots: Seq<Slot<T>>,
    pub free: Seq<u32>,
}

impl<T> ArenaView<T> {
    /// The arena's own bookkeeping holds: every freed index names a slot.
    pub open spec fn wf(self) -> bool {
        &&& self.slots.len() <= u32::MAX + 1
        &&& forall|k: int| 0 <= k < self.free.len() ==> self.free[k] < self.slots.len()
    }

    /// The handle names an existing slot at the slot's current generation.
    pub open spec fn matches(self, h: Handle<T>) -> bool {
        &&& (h.index as int) < self.slots.len()
        &&& self.slots[h.index as int].generation == h.generation
    }

    /// What a lookup of the handle gives back.
    pub open spec fn get(self, h: Handle<T>) -> Option<T> {
        if self.matches(h) {
            self.slots[h.index as int].value
        } else {
            None
        }
    }

    /// The handle resolves to a value.
    pub open spec fn live(self, h: Handle<T>) -> bool {
        self.get(h) is Some
    }

    /// An insertion has an index to use: a freed slot, or a new index that
    /// fits in a `u32`.
    pub open spec fn can_insert(self) -> bool {
        self.free.len() > 0 || self.slots.len() <= u32::MAX
    }

    /// A removal through the handle does not overflow the slot's generation.
    pub open spec fn can_remove(self, h: Handle<T>) -> bool {
        self.matches(h) ==> h.generation < u32::MAX
    }

    /// The arena after inserting `value`, and the handle that the insertion
    /// gives back: the most recently freed slot is reused at its current
    /// generation; without one, a new slot is appended at generation 0.
    pub open spec fn insert(self, value: T) -> (ArenaView<T>, Handle<T>) {
        if self.free.len() > 0 {
            let i = self.free.last();
            let g = self.slots[i as int].generation;
            (
                ArenaView {
                    slots: self.slots.update(i as int, Slot { value: Some(value), generation: g }),
                    free: self.free.drop_last(),
                },
                Handle::spec_new(i, g),
            )
        } else {
            (
                ArenaView {
                    slots: self.slots.push(Slot { value: Some(value), generation: 0 }),
                    free: self.free,
                },
                Handle::spec_new(self.slots.len() as u32, 0),
            )
        }
    }

    /// The arena after the value that the handle names is replaced by
    /// `value`; the slot keeps its generation and the free stack is unchanged.
    pub open spec fn write(self, h: Handle<T>, value: T) -> ArenaView<T> {
        ArenaView {
            slots: self.slots.update(h.index as int, Slot { value: Some(value), generation: h.generation }),
            free: self.free,
        }
    }

    /// The arena after removing through the handle, and what the removal
    /// gives back. A handle that does not match leaves the arena unchanged;
    /// one that matches empties its slot, bumps the slot's generation and
    /// pushes the index on the free stack.
    pub open spec fn remove(self, h: Handle<T>) -> (ArenaView<T>, Option<T>) {
        if self.matches(h) {
            let i = h.index as int;
            (
                ArenaView {
                    slots: self.slots.update(
                        i,
                        Slot { value: None, generation: (h.generation + 1) as u32 },
                    ),
                    free: self.free.push(h.index),
                },
                self.slots[i].value,
            )
        } else {
            (self, None)
        }
    }
}

impl<T> ArenaView<T> {
    /// Every freed index appears once on the free stack and names a slot
    /// that holds no value.
    pub open spec fn free_list_sound(self) -> bool {
        &&& self.free.no_duplicates()
        &&& forall|k: int| 0 <= k < self.free.len() ==> (#[trigger] self.slots[self.free[k] as int]).value is None
    }

    /// The handle's slot has moved past the handle's generation.
    pub open spec fn outdated(self, h: Handle<T>) -> bool {
        &&& (h.index as int) < self.slots.len()
        &&& self.slots[h.index as int].generation > h.generation
    }
}

/// A value is found again through the handle that its insertion gave back.
pub proof fn lemma_get_after_insert<T>(a: ArenaView<T>, value: T)
    requires
        a.wf(),
        a.can_insert(),
    ensures
        a.insert(value).0.get(a.insert(value).1) == Some(value),
{
}

/// An insertion leaves what every other handle resolves to unchanged.
pub proof fn lemma_insert_keeps_other_handles<T>(a: ArenaView<T>, value: T, other: Handle<T>)
    requires
        a.wf(),
        a.can_insert(),
        other.index != a.insert(value).1.index || other.generation != a.insert(value).1.generation,
    ensures
        a.insert(value).0.get(other) == a.get(other),
{
}

/// What is written through a live handle is what the handle then resolves
/// to; every other handle resolves as before, and the bookkeeping holds.
pub proof fn lemma_get_after_write<T>(a: ArenaView<T>, h: Handle<T>, value: T, other: Handle<T>)
    requires
        a.wf(),
        a.live(h),
    ensures
        a.write(h, value).wf(),
        a.write(h, value).get(h) == Some(value),
        other.index != h.index || other.generation != h.generation ==> a.write(h, value).get(other) == a.get(other),
{
}

/// A removal gives back exactly what a lookup of the same handle gives.
pub proof fn lemma_remove_gives_back_get<T>(a: ArenaView<T>, h: Handle<T>)
    ensures
        a.remove(h).1 == a.get(h),
{
}

/// After a removal, the handle no longer resolves.
pub proof fn lemma_get_after_remove<T>(a: ArenaView<T>, h: Handle<T>)
    requires
        a.wf(),
        a.can_remove(h),
    ensures
        a.remove(h).0.get(h) is None,
        a.remove(h).0.remove(h).1 is None,
{
}

/// A removal leaves what every other handle resolves to unchanged.
pub proof fn lemma_remove_keeps_other_handles<T>(a: ArenaView<T>, h: Handle<T>, other: Handle<T>)
    requires
        a.wf(),
        a.can_remove(h),
        other.index != h.index || other.generation != h.generation,
    ensures
        a.remove(h).0.get(other) == a.get(other),
{
}

/// Insertions and removals keep the bookkeeping sound, never drop a slot and
/// never lower a slot's generation.
pub proof fn lemma_operations_keep_generations<T>(a: ArenaView<T>, value: T, h: Handle<T>)
    requires
        a.wf(),
    ensures
        a.can_insert() ==> {
            let b = a.insert(value).0;
            &&& b.wf()
            &&& b.slots.len() >= a.slots.len()
            &&& forall|i: int| 0 <= i < a.slots.len() ==> #[trigger] b.slots[i].generation == a.slots[i].generation
        },
        a.can_remove(h) ==> {
            let b = a.remove(h).0;
            &&& b.wf()
            &&& b.slots.len() == a.slots.len()
            &&& forall|i: int| 0 <= i < a.slots.len() ==> #[trigger] b.slots[i].generation >= a.slots[i].generation
        },
{
    if a.can_insert() {
        let b = a.insert(value).0;
        assert forall|k: int| 0 <= k < b.free.len() implies b.free[k] < b.slots.len() by {
            assert(b.free[k] == a.free[k]);
        }
    }
    if a.can_remove(h) && a.matches(h) {
        let b = a.remove(h).0;
        assert forall|k: int| 0 <= k < b.free.len() implies b.free[k] < b.slots.len() by {
            if k < a.free.len() {
                assert(b.free[k] == a.free[k]);
            }
        }
    }
}

/// A handle whose value was removed never resolves again: its slot's
/// generation stays past the handle's through any later insertion or
/// removal, whatever value comes to occupy the slot.
pub proof fn lemma_outdated_handle_stays_dead<T>(a: ArenaView<T>, h: Handle<T>, value: T, other: Handle<T>)
    requires
        a.wf(),
        a.outdated(h),
    ensures
        a.get(h) is None,
        a.can_insert() ==> a.insert(value).0.outdated(h),
        a.can_remove(other) ==> a.remove(other).0.outdated(h),
{
}

/// Removing through a live handle outdates it.
pub proof fn lemma_remove_outdates<T>(a: ArenaView<T>, h: Handle<T>)
    requires
        a.wf(),
        a.can_remove(h),
        a.live(h),
    ensures
        a.remove(h).0.outdated(h),
{
}

/// While the free stack is sound, an insertion never takes over a slot that
/// holds a value, so no handle that resolved before resolves to the new
/// value; the stack stays sound through insertions, and through removals by
/// handles that are live or do not match their slot.
pub proof fn lemma_sound_free_list<T>(a: ArenaView<T>, value: T, h: Handle<T>, old_handle: Handle<T>)
    requires
        a.wf(),
        a.free_list_sound(),
    ensures
        a.can_insert() ==> {
            let (b, nh) = a.insert(value);
            &&& !a.live(nh)
            &&& (a.live(old_handle) ==> b.get(old_handle) == a.get(old_handle))
            &&& b.free_list_sound()
        },
        a.can_remove(h) && (a.live(h) || !a.matches(h)) ==> a.remove(h).0.free_list_sound(),
{
    if a.can_insert() {
        let (b, nh) = a.insert(value);
        if a.free.len() > 0 {
            let n = a.free.len() - 1;
            assert(a.slots[a.free[n] as int].value is None);
            assert forall|k: int| 0 <= k < b.free.len() implies (#[trigger] b.slots[b.free[k] as int]).value is None by {
                assert(b.free[k] == a.free[k]);
                assert(a.free[k] != a.free[n]);
                assert(a.slots[a.free[k] as int].value is None);
            }
            assert forall|i: int, j: int| 0 <= i < b.free.len() && 0 <= j < b.free.len() && i != j implies b.free[i] != b.free[j] by {
                assert(b.free[i] == a.free[i]);
                assert(b.free[j] == a.free[j]);
            }
        } else {
            assert forall|k: int| 0 <= k < b.free.len() implies (#[trigger] b.slots[b.free[k] as int]).value is None by {
                assert(a.slots[a.free[k] as int].value is None);
            }
        }
        if a.live(old_handle) {
            assert(old_handle.index != nh.index) by {
                if a.free.len() > 0 {
                    assert(a.slots[a.free[a.free.len() - 1] as int].value is None);
                }
            }
        }
    }
    if a.can_remove(h) && a.live(h) {
        let b = a.remove(h).0;
        assert forall|k: int| 0 <= k < b.free.len() implies (#[trigger] b.slots[b.free[k] as int]).value is None by {
            if k < a.free.len() {
                assert(b.free[k] == a.free[k]);
                assert(a.slots[a.free[k] as int].value is None);
            }
        }
        assert forall|i: int, j: int| 0 <= i < b.free.len() && 0 <= j < b.free.len() && i != j implies b.free[i] != b.free[j] by {
            if i < a.free.len() && j < a.free.len() {
                assert(b.free[i] == a.free[i]);
                assert(b.free[j] == a.free[j]);
            } else if i < a.free.len() {
                assert(a.slots[a.free[i] as int].value is None);
            } else if j < a.free.len() {
                assert(a.slots[a.free[j] as int].value is None);
            }
        }
    }
}

/// One operation on an arena, as seen through its contents: an insertion, a
/// removal through a handle, or a write through a handle (what
/// [`Arena::get_mut`] allows).
pub enum ArenaOp<T> {
    Insert(T),
    Remove(Handle<T>),
    Write(Handle<T>, T),
}

impl<T> ArenaView<T> {
    /// The operation can be made here: an insertion has an index, a removal
    /// does not overflow a generation, a write goes through a live handle.
    pub open spec fn allows(self, op: ArenaOp<T>) -> bool {
        match op {
            ArenaOp::Insert(_) => self.can_insert(),
            ArenaOp::Remove(h) => self.can_remove(h),
            ArenaOp::Write(h, _) => self.live(h),
        }
    }

    /// The arena after the operation.
    pub open spec fn step(self, op: ArenaOp<T>) -> ArenaView<T> {
        match op {
            ArenaOp::Insert(v) => self.insert(v).0,
            ArenaOp::Remove(h) => self.remove(h).0,
            ArenaOp::Write(h, v) => self.write(h, v),
        }
    }
}

/// The arena after the operations, made in order.
pub open spec fn apply_ops<T>(a: ArenaView<T>, ops: Seq<ArenaOp<T>>) -> ArenaView<T>
    decreases ops.len(),
{
    if ops.len() == 0 {
        a
    } else {
        apply_ops(a, ops.drop_last()).step(ops.last())
    }
}

/// Each operation can be made in the arena that the ones before it leave.
pub open spec fn ops_allowed<T>(a: ArenaView<T>, ops: Seq<ArenaOp<T>>) -> bool
    decreases ops.len(),
{
    ops.len() == 0 || (ops_allowed(a, ops.drop_last()) && apply_ops(a, ops.drop_last()).allows(ops.last()))
}

/// An outdated handle stays outdated through any run of operations, and no
/// insertion hands out its index at a generation up to its own.
proof fn lemma_outdated_through_ops<T>(a: ArenaView<T>, h: Handle<T>, ops: Seq<ArenaOp<T>>)
    requires
        a.wf(),
        a.outdated(h),
        ops_allowed(a, ops),
    ensures
        apply_ops(a, ops).wf(),
        apply_ops(a, ops).outdated(h),
        forall|i: int| 0 <= i < ops.len() ==> (#[trigger] ops[i] matches ArenaOp::Insert(v)
            ==> (apply_ops(a, ops.take(i)).insert(v).1.index == h.index
                ==> apply_ops(a, ops.take(i)).insert(v).1.generation > h.generation)),
    decreases ops.len(),
{
    if ops.len() > 0 {
        let prefix = ops.drop_last();
        lemma_outdated_through_ops(a, h, prefix);
        let c = apply_ops(a, prefix);
        match ops.last() {
            ArenaOp::Insert(v) => {
                lemma_outdated_handle_stays_dead(c, h, v, h);
                lemma_operations_keep_generations(c, v, h);
            },
            ArenaOp::Remove(o) => {
                lemma_outdated_handle_stays_dead(c, h, arbitrary(), o);
                lemma_operations_keep_generations(c, arbitrary(), o);
            },
            ArenaOp::Write(o, v) => {
                lemma_get_after_write(c, o, v, h);
            },
        }
        assert forall|i: int| 0 <= i < ops.len() implies (#[trigger] ops[i] matches ArenaOp::Insert(v)
            ==> (apply_ops(a, ops.take(i)).insert(v).1.index == h.index
                ==> apply_ops(a, ops.take(i)).insert(v).1.generation > h.generation)) by {
            if i < prefix.len() {
                assert(ops.take(i) =~= prefix.take(i));
                assert(ops[i] == prefix[i]);
            } else {
                assert(ops.take(i) =~= prefix);
            }
        }
    }
}

/// A handle whose value was removed never resolves again, whatever
/// insertions, removals and writes follow: after each of them a lookup or a
/// removal through it gives nothing, and an insertion that reuses its slot
/// hands out a later generation.
pub proof fn lemma_removed_handle_stays_dead<T>(a: ArenaView<T>, h: Handle<T>, ops: Seq<ArenaOp<T>>)
    requires
        a.wf(),
        a.live(h),
        a.can_remove(h),
        ops_allowed(a.remove(h).0, ops),
    ensures
        a.remove(h).1 is Some,
        apply_ops(a.remove(h).0, ops).wf(),
        apply_ops(a.remove(h).0, ops).get(h) is None,
        apply_ops(a.remove(h).0, ops).remove(h).1 is None,
        forall|i: int| 0 <= i < ops.len() ==> (#[trigger] ops[i] matches ArenaOp::Insert(v)
            ==> (apply_ops(a.remove(h).0, ops.take(i)).insert(v).1.index == h.index
                ==> apply_ops(a.remove(h).0, ops.take(i)).insert(v).1.generation > h.generation)),
{
    lemma_remove_outdates(a, h);
    lemma_operations_keep_generations(a, arbitrary(), h);
    lemma_outdated_through_ops(a.remove(h).0, h, ops);
}

impl<T> View for Arena<T> {
    type V = ArenaView<T>;

    closed spec fn view(&self) -> ArenaView<T> {
        ArenaView { slots: self.slots@, free: self.free@ }
    }
}

/// Every index is below `n`.
#[verifier::opaque]
spec fn indices_below(indices: Seq<u32>, n: nat) -> bool {
    forall|k: int| 0 <= k < indices.len() ==> indices[k] < n
}

/// The value that slot `i` holds, mutably, if it holds one. Whatever is
/// written through the reference becomes the slot's value; the slot keeps
/// its generation and every other slot is unchanged.
fn slot_value_mut<T>(slots: &mut Vec<Slot<T>>, i: usize) -> (r: Option<&mut T>)
    requires
        i < old(slots)@.len(),
    ensures
        r is Some <==> old(slots)@[i as int].value is Some,
        r is Some ==> *r->Some_0 == old(slots)@[i as int].value->Some_0,
        r is Some ==> final(slots)@ == old(slots)@.update(
            i as int,
            Slot { value: Some(*final(r->Some_0)), generation: old(slots)@[i as int].generation },
        ),
        r is None ==> final(slots)@ == old(slots)@,
        final(slots)@.len() == old(slots)@.len(),
    no_unwind
{
    match &mut slots[i].value {
        Some(v) => Some(v),
        None => None,
    }
}

impl<T> Arena<T> {
    /// The arena's bookkeeping holds (see [`ArenaView::wf`]); every arena
    /// keeps it at all times.
    pub open spec fn wf(&self) -> bool {
        self@.wf()
    }

    #[verifier::type_invariant]
    spec fn bookkeeping_holds(self) -> bool {
        &&& self.slots@.len() <= u32::MAX + 1
        &&& indices_below(self.free@, self.slots@.len())
    }

    /// The type invariant is the view's bookkeeping.
    proof fn lemma_bookkeeping_is_wf(&self)
        ensures
            self.bookkeeping_holds() <==> self.wf(),
    {
        reveal(indices_below);
        assert(self@.free == self.free@);
        assert(self@.slots == self.slots@);
    }

    /// An empty arena.
    pub fn new() -> (a: Self)
        ensures
            a.wf(),
            a@.slots.len() == 0,
            a@.free.len() == 0,
            a@.free_list_sound(),
    {
        proof {
            reveal(indices_below);
        }
        Arena { slots: Vec::new(), free: Vec::new() }
    }

    /// Looks the handle up: the value when the handle's index names a slot
    /// whose generation is the handle's and which holds a value, else `None`.
    pub fn get(&self, handle: Handle<T>) -> (r: Option<&T>)
        ensures
            r is Some <==> self@.live(handle),
            r matches Some(v) ==> *v == self@.get(handle)->Some_0,
    {
        let i = handle.index as usize;
        if i < self.slots.len() {
            let slot = &self.slots[i];
            if slot.generation == handle.generation {
                slot.value.as_ref()
            } else {
                None
            }
        } else {
            None
        }
    }

    /// An insertion has an index to use (see [`ArenaView::can_insert`]).
    pub fn can_insert(&self) -> (b: bool)
        ensures
            b == self@.can_insert(),
    {
        self.free.len() > 0 || self.slots.len() <= 0xffff_ffffusize
    }

    /// Stores `value` and returns its handle. The most recently freed slot is
    /// reused at its current generation; without one, a slot is appended at
    /// generation 0 (see [`ArenaView::insert`]).
    pub fn insert(&mut self, value: T) -> (h: Handle<T>)
        requires
            old(self)@.can_insert(),
        ensures
            old(self).wf(),
            final(self).wf(),
            (final(self)@, h) == old(self)@.insert(value),
    {
        proof {
            reveal(indices_below);
        }
        proof {
            use_type_invariant(&*self);
            self.lemma_bookkeeping_is_wf();
        }
        let mut free: Vec<u32> = Vec::new();
        std::mem::swap(&mut free, &mut self.free);
        let mut slots: Vec<Slot<T>> = Vec::new();
        std::mem::swap(&mut slots, &mut self.slots);
        proof {
            assert(free@ == old(self)@.free);
            assert(slots@ == old(self)@.slots);
            if free@.len() > 0 {
                assert(free@[free@.len() - 1] < slots@.len());
            }
        }
        let handle = if let Some(index) = free.pop() {
            let ghost mid = slots@;
            let generation = slots[index as usize].generation;
            slots.set(index as usize, Slot { value: Some(value), generation });
            proof {
                assert(slots@ =~= mid.update(index as int, Slot { value: Some(value), generation }));
            }
            Handle::new(index, generation)
        } else {
            let index = slots.len() as u32;
            slots.push(Slot { value: Some(value), generation: 0 });
            Handle::new(index, 0)
        };
        self.slots = slots;
        self.free = free;
        handle
    }

    /// Gives mutable access to the value that the handle resolves to, under
    /// the same rule as [`Arena::get`]. Whatever is written through the
    /// reference becomes the slot's value; nothing else changes.
    pub fn get_mut(&mut self, handle: Handle<T>) -> (r: Option<&mut T>)
        ensures
            old(self).wf(),
            r is Some <==> old(self)@.live(handle),
            r is Some ==> {
                &&& *r->Some_0 == old(self)@.get(handle)->Some_0
                &&& final(self)@ == ArenaView {
                    slots: old(self)@.slots.update(
                        handle.index as int,
                        Slot { value: Some(*final(r->Some_0)), generation: handle.generation },
                    ),
                    free: old(self)@.free,
                }
            },
            r is None ==> final(self)@ == old(self)@,
            final(self).wf(),
            r is Some ==> final(self)@ == old(self)@.write(handle, *final(r->Some_0)),
    {
        proof {
            use_type_invariant(&*self);
            self.lemma_bookkeeping_is_wf();
        }
        let i = handle.index as usize;
        if i < self.slots.len() && self.slots[i].generation == handle.generation {
            slot_value_mut(&mut self.slots, i)
        } else {
            None
        }
    }

    /// Removes through the handle. A handle whose index names a slot at the
    /// handle's generation empties that slot, bumps its generation, frees the
    /// index and gives back what the slot held; any other handle changes
    /// nothing and gives `None` (see [`ArenaView::remove`]).
    pub fn remove(&mut self, handle: Handle<T>) -> (r: Option<T>)
        requires
            old(self)@.can_remove(handle),
        ensures
            old(self).wf(),
            final(self).wf(),
            (final(self)@, r) == old(self)@.remove(handle),
    {
        proof {
            reveal(indices_below);
        }
        proof {
            use_type_invariant(&*self);
            self.lemma_bookkeeping_is_wf();
        }
        let i = handle.index as usize;
        if i >= self.slots.len() {
            return None;
        }
        if self.slots[i].generation != handle.generation {
            return None;
        }
        let mut free: Vec<u32> = Vec::new();
        std::mem::swap(&mut free, &mut self.free);
        let mut slots: Vec<Slot<T>> = Vec::new();
        std::mem::swap(&mut slots, &mut self.slots);
        let ghost before = slots@;
        let mut emptied = Slot { value: None, generation: handle.generation + 1 };
        slots.set_and_swap(i, &mut emptied);
        proof {
            assert(slots@ =~= before.update(
                i as int,
                Slot { value: None, generation: (handle.generation + 1) as u32 },
            ));
        }
        let ghost free_before = free@;
        proof {
            assert(free_before == old(self)@.free);
            assert(before == old(self)@.slots);
            assert(slots@.len() == before.len());
        }
        free.push(handle.index);
        proof {
            assert forall|j: int| 0 <= j < free@.len() implies free@[j] < slots@.len() by {
                if j < free_before.len() {
                    assert(free@[j] == free_before[j]);
                }
            }
        }
        self.slots = slots;
        self.free = free;
        emptied.value
    }
}

} // verus!
