//! A tree whose nodes own their children through strong handles and point to
//! their parent through a weak handle, so that no cycle is made of strong
//! handles alone and releasing the root releases the whole tree.

use vstd::prelude::*;
use crate::borrow_cell::{lemma_cell_ext, BorrowState, DynamicBorrowCell};
use crate::shared::{
    after_strong_dropped, after_weak_dropped, with_strong_added, with_weak_added, lemma_live_count_update, live_count, strong_of, weak_of, ControlBlock,
    SharedHeap, StrongHandle, WeakHandle,
};

verus! {

/// A node: its value, its parent behind a weak handle, and its children.
pub struct Node {
    pub value: i32,
    pub parent: DynamicBorrowCell<WeakHandle>,
    pub children: Vec<StrongHandle>,
}

/// A node between operations: no borrow of its parent link is outstanding.
pub open spec fn node_ok(n: Node) -> bool {
    n.parent.borrow_state() == BorrowState::Unborrowed
}

/// A slot whose node, if alive, is `node_ok`.
pub open spec fn slot_node_ok(x: Option<ControlBlock<Node>>) -> bool {
    x is Some && x->Some_0.strong > 0 ==> node_ok(x->Some_0.payload->Some_0)
}

/// The nodes of a tree, held in a reference-counted heap.
pub struct Tree {
    heap: SharedHeap<Node>,
}

impl View for Tree {
    type V = Seq<Option<ControlBlock<Node>>>;

    closed spec fn view(&self) -> Seq<Option<ControlBlock<Node>>> {
        self.heap@
    }
}

/// Slot `i` of `s` holds a live node.
pub open spec fn node_live(s: Seq<Option<ControlBlock<Node>>>, i: int) -> bool {
    0 <= i < s.len() && s[i] is Some && s[i]->Some_0.strong > 0
}

/// The node held in slot `i` of `s`.
pub open spec fn node_at(s: Seq<Option<ControlBlock<Node>>>, i: int) -> Node {
    s[i]->Some_0.payload->Some_0
}

impl Tree {
    /// The heap is well formed and every live node is `node_ok`.
    pub closed spec fn wf(&self) -> bool {
        &&& self.heap.wf()
        &&& forall|i: int| 0 <= i < self.heap@.len() ==> #[trigger] slot_node_ok(self.heap@[i])
    }

    /// An empty tree.
    pub fn new() -> (r: Self)
        ensures
            r.wf(),
            r@.len() == 0,
    {
        Tree { heap: SharedHeap::new() }
    }

    /// Adds a node holding `value` that owns `children` and has no parent;
    /// its one strong handle is returned.
    pub fn add_node(&mut self, value: i32, children: Vec<StrongHandle>) -> (h: StrongHandle)
        requires
            old(self).wf(),
        ensures
            final(self).wf(),
            h.id() == old(self)@.len(),
            final(self)@.len() == old(self)@.len() + 1,
            forall|i: int| 0 <= i < old(self)@.len() ==> #[trigger] final(self)@[i] == old(self)@[i],
            node_live(final(self)@, h.id()),
            node_at(final(self)@, h.id()).value == value,
            node_at(final(self)@, h.id()).children@ == children@,
            node_at(final(self)@, h.id()).parent.value().target() is None,
            strong_of(final(self)@[h.id()]) == 1,
            weak_of(final(self)@[h.id()]) == 0,
    {
        let node = Node { value, parent: DynamicBorrowCell::new(WeakHandle::new()), children };
        self.heap.allocate(node)
    }

    /// Another strong handle to the node of `h`.
    pub fn clone_handle(&mut self, h: &StrongHandle) -> (r: StrongHandle)
        requires
            old(self).wf(),
            node_live(old(self)@, h.id()),
            old(self)@[h.id()]->Some_0.strong < usize::MAX,
        ensures
            final(self).wf(),
            r.id() == h.id(),
            final(self)@ == old(self)@.update(
                h.id(),
                Some(
                    ControlBlock {
                        payload: old(self)@[h.id()]->Some_0.payload,
                        strong: (old(self)@[h.id()]->Some_0.strong + 1) as usize,
                        weak: old(self)@[h.id()]->Some_0.weak,
                    },
                ),
            ),
    {
        proof {
            assert(slot_node_ok(self.heap@[h.id()]));
        }
        self.heap.clone_strong(h)
    }

    /// A node with no parent and no children, to stand in a slot while its
    /// node is worked on.
    fn placeholder() -> (r: Node)
        ensures
            node_ok(r),
    {
        Node { value: 0, parent: DynamicBorrowCell::new(WeakHandle::new()), children: Vec::new() }
    }

    /// Makes the node of `parent` the parent of the node of `child`, through a
    /// new weak handle to `parent`'s node, and drops the weak handle of the
    /// link it replaces. No strong count changes; every slot other than the
    /// child's is as `relinked` gives it, and the child's node keeps its value
    /// and children.
    pub fn set_parent(&mut self, child: &StrongHandle, parent: &StrongHandle)
        requires
            old(self).wf(),
            node_live(old(self)@, child.id()),
            node_live(old(self)@, parent.id()),
            old(self)@[parent.id()]->Some_0.weak < usize::MAX,
        ensures
            final(self).wf(),
            final(self)@.len() == old(self)@.len(),
            forall|i: int|
                0 <= i < old(self)@.len() && i != child.id() ==> #[trigger] final(self)@[i]
                    == relinked(old(self)@, child.id(), parent.id())[i],
            node_live(final(self)@, child.id()),
            strong_of(final(self)@[child.id()]) == strong_of(
                relinked(old(self)@, child.id(), parent.id())[child.id()],
            ),
            weak_of(final(self)@[child.id()]) == weak_of(
                relinked(old(self)@, child.id(), parent.id())[child.id()],
            ),
            node_at(final(self)@, child.id()).parent.value().target() == Some(parent.id()),
            node_at(final(self)@, child.id()).value == node_at(old(self)@, child.id()).value,
            node_at(final(self)@, child.id()).children@ == node_at(
                old(self)@,
                child.id(),
            ).children@,
    {
        proof {
            assert(slot_node_ok(self.heap@[child.id()]));
            assert(slot_node_ok(self.heap@[parent.id()]));
        }
        let w = self.heap.downgrade(parent);
        let ghost s1 = self.heap@;
        let mut node = self.heap.replace_payload(child, Self::placeholder());
        let guard = node.parent.borrow_mut();
        let previous = node.parent.replace(&guard, w);
        node.parent.release_mut(guard);
        let _ = self.heap.replace_payload(child, node);
        let ghost s3 = self.heap@;
        let ghost t = previous.target();
        self.drop_link(previous);
        proof {
            let c = child.id();
            assert(t == node_at(old(self)@, c).parent.value().target());
            assert(s1 == old(self)@.update(parent.id(), Some(with_weak_added(old(self)@[parent.id()]->Some_0))));
            assert forall|i: int| 0 <= i < s1.len() && i != c implies #[trigger] self.heap@[i]
                == link_dropped(s1, t)[i] by {
                assert(s3[i] == s1[i]);
            }
        }
    }

    /// A strong handle to the parent of `h`'s node, where it has one whose
    /// payload is still alive: the parent's strong count then goes up by one
    /// and nothing else changes. Otherwise nothing changes at all.
    pub fn parent(&mut self, h: &StrongHandle) -> (r: Option<StrongHandle>)
        requires
            old(self).wf(),
            node_live(old(self)@, h.id()),
        ensures
            final(self).wf(),
            r is Some ==> ({
                let t = r->Some_0.id();
                &&& node_at(old(self)@, h.id()).parent.value().target() == Some(t)
                &&& node_live(old(self)@, t)
                &&& final(self)@ == old(self)@.update(t, Some(with_strong_added(old(self)@[t]->Some_0)))
            }),
            r is None ==> final(self)@ == old(self)@,
            ({
                let t = node_at(old(self)@, h.id()).parent.value().target();
                t is Some && 0 <= t->Some_0 < old(self)@.len() && old(self)@[t->Some_0] is Some
                    && old(self)@[t->Some_0]->Some_0.strong < usize::MAX ==> (r is Some
                    <==> node_live(old(self)@, t->Some_0))
            }),
    {
        proof {
            assert(slot_node_ok(self.heap@[h.id()]));
        }
        let mut node = self.heap.replace_payload(h, Self::placeholder());
        let ghost original = node;
        let guard = node.parent.borrow();
        let w = node.parent.read(&guard);
        let ghost taken = self.heap@;
        proof {
            if w.target() is Some && 0 <= w.target()->Some_0 < taken.len() {
                assert(slot_node_ok(taken[w.target()->Some_0]));
            }
        }
        let r = if self.heap.can_upgrade(w) {
            self.heap.upgrade(w)
        } else {
            None
        };
        node.parent.release(guard);
        let _ = self.heap.replace_payload(h, node);
        proof {
            lemma_cell_ext(node.parent, original.parent);
            assert(node == original);
            if r is None {
                assert(self.heap@[h.id()] == old(self).heap@[h.id()]);
                assert(self.heap@ =~= old(self).heap@);
            } else {
                let t = r->Some_0.id();
                let expected = old(self)@.update(t, Some(with_strong_added(old(self)@[t]->Some_0)));
                assert(self.heap@[h.id()] == expected[h.id()]);
                assert(self.heap@ =~= expected);
            }
        }
        r
    }

    /// The value of `h`'s node.
    pub fn value(&self, h: &StrongHandle) -> (r: i32)
        requires
            self.wf(),
            node_live(self@, h.id()),
        ensures
            r == node_at(self@, h.id()).value,
    {
        self.heap.get(h).value
    }

    /// The number of strong handles to `h`'s node.
    pub fn strong_count(&self, h: &StrongHandle) -> (r: usize)
        requires
            0 <= h.id() < self@.len(),
            self@[h.id()] is Some,
        ensures
            r == strong_of(self@[h.id()]),
    {
        self.heap.strong_count(h)
    }

    /// The number of weak handles to `h`'s node.
    pub fn weak_count(&self, h: &StrongHandle) -> (r: usize)
        requires
            0 <= h.id() < self@.len(),
            self@[h.id()] is Some,
        ensures
            r == weak_of(self@[h.id()]),
    {
        self.heap.weak_count(h)
    }

    /// Whether `h`'s node is still alive.
    pub fn is_live(&self, h: &StrongHandle) -> (r: bool)
        ensures
            r == node_live(self@, h.id()),
    {
        self.heap.is_live(h)
    }

    /// Drops the weak handle `w`, where the block it observes counts it.
    fn drop_link(&mut self, w: WeakHandle)
        requires
            old(self).wf(),
        ensures
            final(self).wf(),
            final(self)@ == link_dropped(old(self)@, w.target()),
            live_count(final(self)@) == live_count(old(self)@),
    {
        if self.heap.weak_is_counted(&w) {
            let ghost mid = self.heap@;
            proof {
                if w.target() is Some {
                    let t = w.target()->Some_0;
                    assert(slot_node_ok(mid[t]));
                    lemma_live_count_update(mid, t, after_weak_dropped(mid[t]->Some_0));
                }
            }
            self.heap.drop_weak(w);
        }
    }

    /// Releases the strong handle `h`. Where other strong handles to its node
    /// remain, only its strong count goes down by one. Where it was the last,
    /// the node is destroyed: its parent link is dropped and each of its
    /// children is released in the same way, and so on down the tree; every
    /// other slot stays as it was. `released` states the outcome exactly.
    pub fn release(&mut self, h: StrongHandle)
        requires
            old(self).wf(),
            node_live(old(self)@, h.id()),
        ensures
            final(self).wf(),
            final(self)@ == released(old(self)@, seq![h.id()]),
            old(self)@[h.id()]->Some_0.strong > 1 ==> final(self)@ == old(self)@.update(
                h.id(),
                after_strong_dropped(old(self)@[h.id()]->Some_0),
            ),
            old(self)@[h.id()]->Some_0.strong == 1 ==> strong_of(final(self)@[h.id()]) == 0,
            counts_not_above(old(self)@, final(self)@),
    {
        let ghost start = self.heap@;
        let ghost hi = h.id();
        let ghost goal = released(start, seq![hi]);
        let mut pending: Vec<StrongHandle> = Vec::new();
        pending.push(h);
        assert(handle_ids(pending@) =~= seq![hi]);
        while pending.len() > 0
            invariant
                self.wf(),
                released(self.heap@, handle_ids(pending@)) == goal,
            decreases live_count(self.heap@), pending@.len(),
        {
            let ghost s = self.heap@;
            let ghost p = handle_ids(pending@);
            let g = pending.pop().unwrap();
            assert(handle_ids(pending@) =~= p.drop_last());
            assert(g.id() == p.last());
            assert(released(s, p) == (if !node_live(s, p.last()) {
                released(s, p.drop_last())
            } else if s[p.last()]->Some_0.strong > 1 {
                released(s.update(p.last(), after_strong_dropped(s[p.last()]->Some_0)), p.drop_last())
            } else {
                released(
                    link_dropped(
                        s.update(p.last(), after_strong_dropped(s[p.last()]->Some_0)),
                        node_at(s, p.last()).parent.value().target(),
                    ),
                    p.drop_last() + handle_ids(node_at(s, p.last()).children@),
                )
            }));
            if self.heap.is_live(&g) {
                let ghost gi = g.id();
                proof {
                    assert(slot_node_ok(s[gi]));
                    assert(crate::shared::slot_valid(s[gi]));
                    lemma_live_count_update(s, gi, after_strong_dropped(s[gi]->Some_0));
                }
                let dead = self.heap.drop_strong(g);
                if let Some(node) = dead {
                    let ghost kids = node.children@;
                    let Node { value: _, parent, children } = node;
                    assert(node_at(s, gi).parent == parent);
                    let w = parent.into_inner();
                    assert(w.target() == node_at(s, gi).parent.value().target());
                    self.drop_link(w);
                    let mut children = children;
                    pending.append(&mut children);
                    assert(handle_ids(pending@) =~= p.drop_last() + handle_ids(kids));
                    assert(kids == node_at(s, gi).children@);
                    assert(released(self.heap@, handle_ids(pending@)) == goal);
                } else {
                    assert(released(self.heap@, handle_ids(pending@)) == goal);
                }
            } else {
                assert(released(self.heap@, handle_ids(pending@)) == goal);
            }
        }
        proof {
            lemma_released_counts(start, seq![hi]);
            let s1 = start.update(hi, after_strong_dropped(start[hi]->Some_0));
            if start[hi]->Some_0.strong > 1 {
                assert(seq![hi].drop_last().len() == 0);
                assert(released(s1, seq![hi].drop_last()) == s1);
            } else {
                let node = node_at(start, hi);
                let s2 = link_dropped(s1, node.parent.value().target());
                let p2 = seq![hi].drop_last() + handle_ids(node.children@);
                lemma_live_count_update(start, hi, after_strong_dropped(start[hi]->Some_0));
                lemma_released_counts(s2, p2);
                assert(strong_of(s2[hi]) == 0);
            }
        }
    }
}

/// The slots after `set_parent(c, p)`, but for the child's own payload: the
/// parent's weak count goes up by one, then the weak handle of the child's
/// former parent link is dropped.
pub open spec fn relinked(s: Seq<Option<ControlBlock<Node>>>, c: int, p: int) -> Seq<
    Option<ControlBlock<Node>>,
> {
    link_dropped(
        s.update(p, Some(with_weak_added(s[p]->Some_0))),
        node_at(s, c).parent.value().target(),
    )
}

/// The slots of the handles `hs`.
pub open spec fn handle_ids(hs: Seq<StrongHandle>) -> Seq<int> {
    hs.map_values(|h: StrongHandle| h.id())
}

/// Counts never go up from `a` to `b`, slot by slot.
pub open spec fn counts_not_above(
    a: Seq<Option<ControlBlock<Node>>>,
    b: Seq<Option<ControlBlock<Node>>>,
) -> bool {
    &&& a.len() == b.len()
    &&& forall|i: int|
        0 <= i < a.len() ==> strong_of(#[trigger] b[i]) <= strong_of(a[i]) && weak_of(b[i])
            <= weak_of(a[i])
}

/// The slots after the weak handle observing `t` is dropped: where the block
/// it observes counts it, its weak count goes down by one and it is freed if
/// no handle remains.
pub open spec fn link_dropped(s: Seq<Option<ControlBlock<Node>>>, t: Option<int>) -> Seq<
    Option<ControlBlock<Node>>,
> {
    match t {
        None => s,
        Some(i) => if 0 <= i < s.len() && s[i] is Some && s[i]->Some_0.weak > 0 {
            s.update(i, after_weak_dropped(s[i]->Some_0))
        } else {
            s
        },
    }
}

/// The slots after the strong handles to the slots `pending` are released,
/// the last first. A handle whose node is not live is passed over. A release
/// takes one from the strong count; the last one destroys the node, which
/// drops its parent link and adds its children to the handles still to be
/// released.
pub open spec fn released(s: Seq<Option<ControlBlock<Node>>>, pending: Seq<int>) -> Seq<
    Option<ControlBlock<Node>>,
>
    decreases live_count(s), pending.len(),
{
    if pending.len() == 0 {
        s
    } else {
        let i = pending.last();
        let rest = pending.drop_last();
        if !node_live(s, i) {
            released(s, rest)
        } else {
            let s1 = s.update(i, after_strong_dropped(s[i]->Some_0));
            proof {
                lemma_live_count_update(s, i, after_strong_dropped(s[i]->Some_0));
            }
            if s[i]->Some_0.strong > 1 {
                released(s1, rest)
            } else {
                let node = node_at(s, i);
                let s2 = link_dropped(s1, node.parent.value().target());
                proof {
                    lemma_link_dropped_live_count(s1, node.parent.value().target());
                }
                released(s2, rest + handle_ids(node.children@))
            }
        }
    }
}

/// Dropping a weak handle leaves every strong count, and so `live_count`,
/// as it was, and no count goes up.
pub proof fn lemma_link_dropped_live_count(s: Seq<Option<ControlBlock<Node>>>, t: Option<int>)
    ensures
        live_count(link_dropped(s, t)) == live_count(s),
        counts_not_above(s, link_dropped(s, t)),
{
    if t is Some {
        let i = t->Some_0;
        if 0 <= i < s.len() && s[i] is Some && s[i]->Some_0.weak > 0 {
            lemma_live_count_update(s, i, after_weak_dropped(s[i]->Some_0));
        }
    }
}

/// Releasing handles never makes a count go up.
pub proof fn lemma_released_counts(s: Seq<Option<ControlBlock<Node>>>, pending: Seq<int>)
    ensures
        counts_not_above(s, released(s, pending)),
    decreases live_count(s), pending.len(),
{
    if pending.len() > 0 {
        let i = pending.last();
        let rest = pending.drop_last();
        if !node_live(s, i) {
            lemma_released_counts(s, rest);
        } else {
            let s1 = s.update(i, after_strong_dropped(s[i]->Some_0));
            lemma_live_count_update(s, i, after_strong_dropped(s[i]->Some_0));
            assert(counts_not_above(s, s1));
            if s[i]->Some_0.strong > 1 {
                lemma_released_counts(s1, rest);
                let f = released(s1, rest);
                assert(counts_not_above(s, f)) by {
                    assert forall|k: int| 0 <= k < s.len() implies strong_of(#[trigger] f[k])
                        <= strong_of(s[k]) && weak_of(f[k]) <= weak_of(s[k]) by {
                        assert(strong_of(s1[k]) <= strong_of(s[k]));
                    }
                }
            } else {
                let node = node_at(s, i);
                let s2 = link_dropped(s1, node.parent.value().target());
                let p2 = rest + handle_ids(node.children@);
                lemma_link_dropped_live_count(s1, node.parent.value().target());
                lemma_released_counts(s2, p2);
                let f = released(s2, p2);
                assert(counts_not_above(s, f)) by {
                    assert forall|k: int| 0 <= k < s.len() implies strong_of(#[trigger] f[k])
                        <= strong_of(s[k]) && weak_of(f[k]) <= weak_of(s[k]) by {
                        assert(strong_of(s1[k]) <= strong_of(s[k]));
                        assert(strong_of(s2[k]) <= strong_of(s1[k]));
                    }
                }
            }
        }
    }
}

} // verus!
