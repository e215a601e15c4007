//! Shared ownership by reference counting, kept in an arena.
//!
//! A `SharedHeap` holds control blocks, one per allocation. A block holds the
//! payload while strong handles to it remain, and the block itself stays
//! allocated while any handle, strong or weak, remains. A slot whose block
//! was freed holds `None` and is never handed out again, so a handle can never
//! come to name another allocation.

use vstd::prelude::*;

verus! {

/// The bookkeeping record of one allocation.
pub struct ControlBlock<T> {
    pub payload: Option<T>,
    pub strong: usize,
    pub weak: usize,
}

/// A block is valid when it holds its payload exactly while strong handles
/// remain, and some handle remains at all.
pub open spec fn block_valid<T>(b: ControlBlock<T>) -> bool {
    &&& (b.payload is Some <==> b.strong > 0)
    &&& b.strong + b.weak > 0
}

/// A slot is valid when it is freed or holds a valid block.
pub open spec fn slot_valid<T>(s: Option<ControlBlock<T>>) -> bool {
    s is Some ==> block_valid(s->Some_0)
}

/// The strong count of a slot; a freed slot counts none.
pub open spec fn strong_of<T>(s: Option<ControlBlock<T>>) -> nat {
    match s {
        Some(b) => b.strong as nat,
        None => 0,
    }
}

/// The weak count of a slot; a freed slot counts none.
pub open spec fn weak_of<T>(s: Option<ControlBlock<T>>) -> nat {
    match s {
        Some(b) => b.weak as nat,
        None => 0,
    }
}

/// A fresh block: the payload, one strong handle, no weak one.
pub open spec fn fresh_block<T>(value: T) -> ControlBlock<T> {
    ControlBlock { payload: Some(value), strong: 1, weak: 0 }
}

/// The block after a strong handle is added.
pub open spec fn with_strong_added<T>(b: ControlBlock<T>) -> ControlBlock<T> {
    ControlBlock { payload: b.payload, strong: (b.strong + 1) as usize, weak: b.weak }
}

/// The block after a weak handle is added.
pub open spec fn with_weak_added<T>(b: ControlBlock<T>) -> ControlBlock<T> {
    ControlBlock { payload: b.payload, strong: b.strong, weak: (b.weak + 1) as usize }
}

/// The slot after a strong handle is dropped: the last strong handle takes
/// the payload with it, and the block is freed where no weak handle remains.
pub open spec fn after_strong_dropped<T>(b: ControlBlock<T>) -> Option<ControlBlock<T>> {
    if b.strong > 1 {
        Some(ControlBlock { payload: b.payload, strong: (b.strong - 1) as usize, weak: b.weak })
    } else if b.weak == 0 {
        None
    } else {
        Some(ControlBlock { payload: None, strong: 0, weak: b.weak })
    }
}

/// The slot after a weak handle is dropped: the block is freed where this was
/// the last handle of any kind.
pub open spec fn after_weak_dropped<T>(b: ControlBlock<T>) -> Option<ControlBlock<T>> {
    if b.weak <= 1 && b.strong == 0 {
        None
    } else {
        Some(ControlBlock { payload: b.payload, strong: b.strong, weak: (b.weak - 1) as usize })
    }
}

/// Every slot of `s` is valid.
pub open spec fn slots_valid<T>(s: Seq<Option<ControlBlock<T>>>) -> bool {
    forall|i: int| 0 <= i < s.len() ==> #[trigger] slot_valid(s[i])
}

/// How many slots of `s` hold a payload that strong handles keep alive.
pub open spec fn live_count<T>(s: Seq<Option<ControlBlock<T>>>) -> nat
    decreases s.len(),
{
    if s.len() == 0 {
        0
    } else {
        live_count(s.drop_last()) + (if strong_of(s.last()) > 0 {
            1nat
        } else {
            0nat
        })
    }
}

/// Replacing one slot changes `live_count` only by whether the old and the
/// new slot count as live.
pub proof fn lemma_live_count_update<T>(
    s: Seq<Option<ControlBlock<T>>>,
    i: int,
    x: Option<ControlBlock<T>>,
)
    requires
        0 <= i < s.len(),
    ensures
        live_count(s.update(i, x)) + (if strong_of(s[i]) > 0 {
            1nat
        } else {
            0nat
        }) == live_count(s) + (if strong_of(x) > 0 {
            1nat
        } else {
            0nat
        }),
    decreases s.len(),
{
    if i == s.len() - 1 {
        assert(s.update(i, x).drop_last() =~= s.drop_last());
    } else {
        lemma_live_count_update(s.drop_last(), i, x);
        assert(s.update(i, x).drop_last() =~= s.drop_last().update(i, x));
    }
}

/// Keeps its block's payload alive. There is no `Clone`: a new strong
/// handle comes only from `SharedHeap::clone_strong` or `upgrade`, which count
/// it.
pub struct StrongHandle {
    index: usize,
}

/// Observes a block without keeping its payload alive. A handle made by
/// `WeakHandle::new` observes nothing and never upgrades.
pub struct WeakHandle {
    target: Option<usize>,
}

impl StrongHandle {
    /// The slot of the allocation.
    pub closed spec fn id(&self) -> int {
        self.index as int
    }

    /// The slot of the allocation, as a number.
    pub fn index(&self) -> (r: usize)
        ensures
            r == self.id(),
    {
        self.index
    }
}

impl WeakHandle {
    /// The slot observed, if any.
    pub closed spec fn target(&self) -> Option<int> {
        match self.target {
            Some(i) => Some(i as int),
            None => None,
        }
    }

    /// A weak handle that observes nothing.
    pub fn new() -> (r: Self)
        ensures
            r.target() is None,
    {
        WeakHandle { target: None }
    }
}

/// An arena of reference-counted allocations.
pub struct SharedHeap<T> {
    blocks: Vec<Option<ControlBlock<T>>>,
}

impl<T> View for SharedHeap<T> {
    type V = Seq<Option<ControlBlock<T>>>;

    closed spec fn view(&self) -> Seq<Option<ControlBlock<T>>> {
        self.blocks@
    }
}

impl<T> SharedHeap<T> {
    /// Every slot is valid.
    pub open spec fn wf(&self) -> bool {
        slots_valid(self@)
    }

    /// Slot `i` holds an allocated control block.
    pub open spec fn allocated(&self, i: int) -> bool {
        0 <= i < self@.len() && self@[i] is Some
    }

    /// Slot `i` holds a payload that strong handles keep alive.
    pub open spec fn live(&self, i: int) -> bool {
        self.allocated(i) && self@[i]->Some_0.strong > 0
    }

    /// The control block of slot `i`.
    pub open spec fn block(&self, i: int) -> ControlBlock<T> {
        self@[i]->Some_0
    }

    /// An empty arena.
    pub fn new() -> (r: Self)
        ensures
            r.wf(),
            r@ == Seq::<Option<ControlBlock<T>>>::empty(),
    {
        SharedHeap { blocks: Vec::new() }
    }

    /// Takes slot `i` out, leaving it freed for the moment.
    fn take_slot(&mut self, i: usize) -> (r: Option<ControlBlock<T>>)
        requires
            old(self).wf(),
            i < old(self)@.len(),
        ensures
            r == old(self)@[i as int],
            slot_valid(r),
            final(self)@ == old(self)@.update(i as int, None),
            final(self).wf(),
    {
        assert(slot_valid(self@[i as int]));
        let mut slot: Option<ControlBlock<T>> = None;
        std::mem::swap(&mut slot, &mut self.blocks[i]);
        slot
    }

    /// Puts `s` into slot `i`.
    fn put_slot(&mut self, i: usize, s: Option<ControlBlock<T>>)
        requires
            old(self).wf(),
            slot_valid(s),
            i < old(self)@.len(),
        ensures
            final(self)@ == old(self)@.update(i as int, s),
            final(self).wf(),
    {
        let mut s = s;
        std::mem::swap(&mut s, &mut self.blocks[i]);
    }

    /// Allocates a block for `value` with one strong handle, which is
    /// returned.
    pub fn allocate(&mut self, value: T) -> (h: StrongHandle)
        requires
            old(self).wf(),
        ensures
            final(self)@ == old(self)@.push(Some(fresh_block(value))),
            h.id() == old(self)@.len(),
            final(self).wf(),
    {
        let index = self.blocks.len();
        self.blocks.push(Some(ControlBlock { payload: Some(value), strong: 1, weak: 0 }));
        StrongHandle { index }
    }

    /// Another strong handle to the same allocation; the strong count goes up
    /// by one. A count that would pass `usize::MAX` is ruled out.
    pub fn clone_strong(&mut self, h: &StrongHandle) -> (r: StrongHandle)
        requires
            old(self).wf(),
            old(self).live(h.id()),
            old(self).block(h.id()).strong < usize::MAX,
        ensures
            final(self)@ == old(self)@.update(h.id(), Some(with_strong_added(old(self).block(h.id())))),
            r.id() == h.id(),
            final(self).wf(),
    {
        let i = h.index;
        let slot = self.take_slot(i);
        let b = slot.unwrap();
        self.put_slot(i, Some(ControlBlock { payload: b.payload, strong: b.strong + 1, weak: b.weak }));
        StrongHandle { index: i }
    }

    /// Drops a strong handle. The strong count goes down by one; where it
    /// reaches zero the payload is taken out and returned, for the caller to
    /// destroy, and the block is freed where no weak handle remains.
    pub fn drop_strong(&mut self, h: StrongHandle) -> (dead: Option<T>)
        requires
            old(self).wf(),
            old(self).live(h.id()),
        ensures
            final(self)@ == old(self)@.update(h.id(), after_strong_dropped(old(self).block(h.id()))),
            dead == (if old(self).block(h.id()).strong == 1 {
                old(self).block(h.id()).payload
            } else {
                None
            }),
            final(self).wf(),
    {
        let i = h.index;
        let slot = self.take_slot(i);
        let b = slot.unwrap();
        if b.strong > 1 {
            self.put_slot(i, Some(ControlBlock { payload: b.payload, strong: b.strong - 1, weak: b.weak }));
            None
        } else if b.weak == 0 {
            b.payload
        } else {
            self.put_slot(i, Some(ControlBlock { payload: None, strong: 0, weak: b.weak }));
            b.payload
        }
    }

    /// A weak handle to the allocation of `h`; the weak count goes up by one.
    pub fn downgrade(&mut self, h: &StrongHandle) -> (w: WeakHandle)
        requires
            old(self).wf(),
            old(self).live(h.id()),
            old(self).block(h.id()).weak < usize::MAX,
        ensures
            final(self)@ == old(self)@.update(h.id(), Some(with_weak_added(old(self).block(h.id())))),
            w.target() == Some(h.id()),
            final(self).wf(),
    {
        let i = h.index;
        let slot = self.take_slot(i);
        let b = slot.unwrap();
        self.put_slot(i, Some(ControlBlock { payload: b.payload, strong: b.strong, weak: b.weak + 1 }));
        WeakHandle { target: Some(i) }
    }

    /// Another weak handle observing what `w` observes; the weak count goes up
    /// by one where `w` observes a block.
    pub fn clone_weak(&mut self, w: &WeakHandle) -> (r: WeakHandle)
        requires
            old(self).wf(),
            w.target() is Some ==> old(self).allocated(w.target()->Some_0)
                && old(self).block(w.target()->Some_0).weak > 0
                && old(self).block(w.target()->Some_0).weak < usize::MAX,
        ensures
            r.target() == w.target(),
            w.target() is None ==> final(self)@ == old(self)@,
            w.target() is Some ==> final(self)@ == old(self)@.update(
                w.target()->Some_0,
                Some(with_weak_added(old(self).block(w.target()->Some_0))),
            ),
            final(self).wf(),
    {
        match w.target {
            None => WeakHandle { target: None },
            Some(i) => {
                let slot = self.take_slot(i);
                let b = slot.unwrap();
                self.put_slot(i, Some(ControlBlock { payload: b.payload, strong: b.strong, weak: b.weak + 1 }));
                WeakHandle { target: Some(i) }
            },
        }
    }

    /// Drops a weak handle; the weak count goes down by one, and the block is
    /// freed where this was its last handle of any kind.
    pub fn drop_weak(&mut self, w: WeakHandle)
        requires
            old(self).wf(),
            w.target() is Some ==> old(self).allocated(w.target()->Some_0)
                && old(self).block(w.target()->Some_0).weak > 0,
        ensures
            w.target() is None ==> final(self)@ == old(self)@,
            w.target() is Some ==> final(self)@ == old(self)@.update(
                w.target()->Some_0,
                after_weak_dropped(old(self).block(w.target()->Some_0)),
            ),
            final(self).wf(),
    {
        match w.target {
            None => {},
            Some(i) => {
                let slot = self.take_slot(i);
                let b = slot.unwrap();
                if b.weak <= 1 && b.strong == 0 {
                } else {
                    self.put_slot(i, Some(ControlBlock { payload: b.payload, strong: b.strong, weak: b.weak - 1 }));
                }
            },
        }
    }

    /// A strong handle to what `w` observes, where its payload is still
    /// alive (the strong count then goes up by one); `None` where the payload
    /// was destroyed or `w` observes nothing.
    pub fn upgrade(&mut self, w: &WeakHandle) -> (r: Option<StrongHandle>)
        requires
            old(self).wf(),
            w.target() is Some ==> old(self).allocated(w.target()->Some_0)
                && old(self).block(w.target()->Some_0).strong < usize::MAX,
        ensures
            r is Some <==> (w.target() is Some && old(self).live(w.target()->Some_0)),
            r is Some ==> r->Some_0.id() == w.target()->Some_0 && final(self)@ == old(self)@.update(
                w.target()->Some_0,
                Some(with_strong_added(old(self).block(w.target()->Some_0))),
            ),
            r is None ==> final(self)@ == old(self)@,
            final(self).wf(),
    {
        match w.target {
            None => None,
            Some(i) => {
                let slot = self.take_slot(i);
                let b = slot.unwrap();
                if b.strong > 0 {
                    self.put_slot(i, Some(ControlBlock { payload: b.payload, strong: b.strong + 1, weak: b.weak }));
                    Some(StrongHandle { index: i })
                } else {
                    self.put_slot(i, Some(b));
                    None
                }
            },
        }
    }

    /// The number of strong handles to the allocation of `h`.
    pub fn strong_count(&self, h: &StrongHandle) -> (r: usize)
        requires
            self.allocated(h.id()),
        ensures
            r == self.block(h.id()).strong,
    {
        self.blocks[h.index].as_ref().unwrap().strong
    }

    /// The number of weak handles to the allocation of `h`.
    pub fn weak_count(&self, h: &StrongHandle) -> (r: usize)
        requires
            self.allocated(h.id()),
        ensures
            r == self.block(h.id()).weak,
    {
        self.blocks[h.index].as_ref().unwrap().weak
    }

    /// Whether slot `index` holds an allocated block; `false` for a freed
    /// slot and for one never handed out.
    pub fn is_allocated(&self, index: usize) -> (r: bool)
        ensures
            r == self.allocated(index as int),
    {
        index < self.blocks.len() && self.blocks[index].is_some()
    }

    /// Whether the payload of `h`'s allocation is alive.
    pub fn is_live(&self, h: &StrongHandle) -> (r: bool)
        ensures
            r == self.live(h.id()),
    {
        h.index < self.blocks.len() && match &self.blocks[h.index] {
            Some(b) => b.strong > 0,
            None => false,
        }
    }

    /// Whether `w` observes nothing, or observes an allocated block whose weak
    /// count counts it, so that it can be dropped.
    pub fn weak_is_counted(&self, w: &WeakHandle) -> (r: bool)
        ensures
            r == (w.target() is Some ==> self.allocated(w.target()->Some_0) && self.block(
                w.target()->Some_0,
            ).weak > 0),
    {
        match w.target {
            None => true,
            Some(i) => i < self.blocks.len() && match &self.blocks[i] {
                Some(b) => b.weak > 0,
                None => false,
            },
        }
    }

    /// Whether `w` observes nothing, or observes an allocated block that can
    /// take one more strong handle, so that it can be upgraded.
    pub fn can_upgrade(&self, w: &WeakHandle) -> (r: bool)
        ensures
            r == (w.target() is Some ==> self.allocated(w.target()->Some_0) && self.block(
                w.target()->Some_0,
            ).strong < usize::MAX),
    {
        match w.target {
            None => true,
            Some(i) => i < self.blocks.len() && match &self.blocks[i] {
                Some(b) => b.strong < usize::MAX,
                None => false,
            },
        }
    }

    /// Swaps `value` in for the payload of `h`'s allocation and returns the
    /// payload that was there; the counts stay as they are.
    pub fn replace_payload(&mut self, h: &StrongHandle, value: T) -> (r: T)
        requires
            old(self).wf(),
            old(self).live(h.id()),
        ensures
            final(self).wf(),
            Some(r) == old(self).block(h.id()).payload,
            final(self)@ == old(self)@.update(
                h.id(),
                Some(
                    ControlBlock {
                        payload: Some(value),
                        strong: old(self).block(h.id()).strong,
                        weak: old(self).block(h.id()).weak,
                    },
                ),
            ),
    {
        let i = h.index;
        let slot = self.take_slot(i);
        let b = slot.unwrap();
        self.put_slot(i, Some(ControlBlock { payload: Some(value), strong: b.strong, weak: b.weak }));
        b.payload.unwrap()
    }

    /// The payload kept alive by `h`.
    pub fn get(&self, h: &StrongHandle) -> (r: &T)
        requires
            self.wf(),
            self.live(h.id()),
        ensures
            Some(*r) == self.block(h.id()).payload,
    {
        assert(slot_valid(self@[h.id()]));
        self.blocks[h.index].as_ref().unwrap().payload.as_ref().unwrap()
    }
}

} // verus!
