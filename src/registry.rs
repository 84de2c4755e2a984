use vstd::prelude::*;

verus! {

/// Abstract state of a registry: the live slots in registration order, each
/// as its index and its pending queue, and the next index to hand out.
pub struct RegistryView<T> {
    pub slots: Seq<(usize, Seq<T>)>,
    pub next: nat,
}

impl<T> RegistryView<T> {
    /// The state of a freshly created registry.
    pub open spec fn initial() -> RegistryView<T> {
        RegistryView { slots: Seq::empty(), next: 0 }
    }

    /// Indices grow strictly along the slots (so they are unique) and every
    /// one of them was issued before `next`.
    pub open spec fn wf(self) -> bool {
        &&& forall|i: int, j: int|
            0 <= i < j < self.slots.len() ==> #[trigger] self.slots[i].0 < #[trigger] self.slots[j].0
        &&& forall|i: int| 0 <= i < self.slots.len() ==> (#[trigger] self.slots[i].0) < self.next
    }

    /// In a well-formed state no two slots share an index.
    pub proof fn lemma_index_unique(self, i: int, j: int)
        requires
            self.wf(),
            0 <= i < self.slots.len(),
            0 <= j < self.slots.len(),
            self.slots[i].0 == self.slots[j].0,
        ensures
            i == j,
    {
        if i < j {
            assert(self.slots[i].0 < self.slots[j].0);
        } else if j < i {
            assert(self.slots[j].0 < self.slots[i].0);
        }
    }

    pub open spec fn is_live(self, index: usize) -> bool {
        exists|i: int| 0 <= i < self.slots.len() && #[trigger] self.slots[i].0 == index
    }

    /// Position of the slot that carries `index` (meaningful when it is live).
    pub open spec fn position_of(self, index: usize) -> int {
        choose|i: int| 0 <= i < self.slots.len() && #[trigger] self.slots[i].0 == index
    }

    /// What a consumer with `index` would receive if it polled now.
    pub open spec fn pending(self, index: usize) -> Seq<T> {
        if self.is_live(index) {
            self.slots[self.position_of(index)].1
        } else {
            Seq::empty()
        }
    }

    /// A new empty slot under the next index; the counter moves on.
    pub open spec fn registered(self) -> RegistryView<T> {
        RegistryView { slots: self.slots.push((self.next as usize, Seq::empty())), next: self.next + 1 }
    }

    /// `v` appended to the queue of every live slot.
    pub open spec fn delivered(self, v: T) -> RegistryView<T> {
        RegistryView {
            slots: self.slots.map_values(|s: (usize, Seq<T>)| (s.0, s.1.push(v))),
            next: self.next,
        }
    }

    /// The queue of the slot with `index` emptied, everything else kept.
    pub open spec fn drained(self, index: usize) -> RegistryView<T> {
        RegistryView {
            slots: self.slots.map_values(
                |s: (usize, Seq<T>)| if s.0 == index { (s.0, Seq::empty()) } else { s },
            ),
            next: self.next,
        }
    }

    /// The slot with `index` taken out, if there is one.
    pub open spec fn without(self, index: usize) -> RegistryView<T> {
        if self.is_live(index) {
            RegistryView { slots: self.slots.remove(self.position_of(index)), next: self.next }
        } else {
            self
        }
    }
}

/// Relies on `Vec::capacity`, which is never below the length.
#[verifier::external_body]
fn vec_capacity<T>(v: &Vec<T>) -> (r: usize)
    ensures
        r >= v@.len(),
{
    v.capacity()
}

/// One consumer's pending messages.
pub struct RxSlot<T: Copy> {
    index: usize,
    queue: Vec<T>,
}

/// The shared broadcast state: the live slots and the index counter.
pub struct BusInner<T: Copy> {
    slots: Vec<RxSlot<T>>,
    count: usize,
}

/// Each slot as its index and its queue.
pub closed spec fn slots_view<T: Copy>(slots: Seq<RxSlot<T>>) -> Seq<(usize, Seq<T>)> {
    Seq::new(slots.len(), |i: int| (slots[i].index, slots[i].queue@))
}

impl<T: Copy> View for BusInner<T> {
    type V = RegistryView<T>;

    closed spec fn view(&self) -> RegistryView<T> {
        RegistryView { slots: slots_view(self.slots@), next: self.count as nat }
    }
}


impl<T: Copy> BusInner<T> {
    /// Every registry is well formed.
    #[verifier::type_invariant]
    pub open spec fn inv(&self) -> bool {
        self@.wf()
    }

    /// A registry with room for `capacity` slots before it grows.
    pub fn new(capacity: usize) -> (r: BusInner<T>)
        requires
            capacity > 2,
        ensures
            r@ == RegistryView::<T>::initial(),
            r@.wf(),
    {
        let r = BusInner { slots: Vec::with_capacity(capacity), count: 0 };
        assert(r@.slots =~= Seq::<(usize, Seq<T>)>::empty());
        r
    }

    /// A registry with no slots and no allocation, held in a shared cell
    /// while the real one is taken out for an operation.
    pub fn vacant() -> (r: BusInner<T>)
        ensures
            r@ == RegistryView::<T>::initial(),
            r@.wf(),
    {
        let r = BusInner { slots: Vec::new(), count: 0 };
        assert(r@.slots =~= Seq::<(usize, Seq<T>)>::empty());
        r
    }

    /// Moves the slot table out, leaving an empty one behind, so that it can
    /// be worked on while the registry stays well formed.
    fn take_slots(&mut self) -> (r: Vec<RxSlot<T>>)
        ensures
            r@ == old(self).slots@,
            final(self).slots@.len() == 0,
            final(self).count == old(self).count,
    {
        let mut slots: Vec<RxSlot<T>> = Vec::new();
        std::mem::swap(&mut self.slots, &mut slots);
        slots
    }

    /// Registers a new consumer and returns its index.
    pub fn add_rx(&mut self) -> (r: usize)
        requires
            old(self)@.next < usize::MAX,
        ensures
            r == old(self)@.next,
            final(self)@ == old(self)@.registered(),
            final(self)@.wf(),
    {
        proof {
            use_type_invariant(&*self);
        }
        let mut slots = self.take_slots();
        let index = self.count;
        slots.push(RxSlot { index, queue: Vec::new() });
        assert(slots_view(slots@) =~= old(self)@.registered().slots);
        assert(old(self)@.registered().wf());
        self.count = self.count + 1;
        std::mem::swap(&mut self.slots, &mut slots);
        index
    }

    /// Appends `value` to the queue of every live slot.
    pub fn broadcast(&mut self, value: T)
        ensures
            final(self)@ == old(self)@.delivered(value),
            final(self)@.wf(),
            old(self)@.slots.len() == 0 ==> final(self)@ == old(self)@,
    {
        proof {
            use_type_invariant(&*self);
        }
        let mut slots = self.take_slots();
        let n = slots.len();
        let mut k: usize = 0;
        while k < n
            invariant
                n == slots@.len(),
                n == old(self).slots@.len(),
                self.count == old(self).count,
                k <= n,
                forall|i: int| 0 <= i < k ==> (#[trigger] slots@[i]).index == old(self).slots@[i].index
                    && slots@[i].queue@ == old(self).slots@[i].queue@.push(value),
                forall|i: int| k <= i < n ==> #[trigger] slots@[i] == old(self).slots@[i],
            decreases n - k,
        {
            slots[k].queue.push(value);
            k = k + 1;
        }
        assert(slots_view(slots@) =~= old(self)@.delivered(value).slots);
        assert(old(self)@.delivered(value).wf());
        std::mem::swap(&mut self.slots, &mut slots);
        proof {
            if old(self)@.slots.len() == 0 {
                assert(self@.slots =~= old(self)@.slots);
            }
        }
    }

    /// Takes out, in order, everything pending for the consumer with `index`;
    /// an index with no live slot yields nothing.
    pub fn recv(&mut self, index: usize) -> (r: Vec<T>)
        ensures
            r@ == old(self)@.pending(index),
            final(self)@ == old(self)@.drained(index),
            final(self)@.wf(),
    {
        proof {
            use_type_invariant(&*self);
        }
        let mut slots = self.take_slots();
        let n = slots.len();
        let mut k: usize = 0;
        while k < n
            invariant
                n == slots@.len(),
                k <= n,
                slots@ == old(self).slots@,
                self.count == old(self).count,
                old(self)@.wf(),
                forall|i: int| 0 <= i < k ==> (#[trigger] slots@[i]).index != index,
            decreases n - k,
        {
            if slots[k].index == index {
                let mut taken: Vec<T> = Vec::new();
                std::mem::swap(&mut slots[k].queue, &mut taken);
                proof {
                    assert(old(self)@.slots[k as int].0 == index);
                    assert(old(self)@.is_live(index));
                    let p = old(self)@.position_of(index);
                    assert(0 <= p < n && old(self)@.slots[p].0 == index);
                    old(self)@.lemma_index_unique(p, k as int);
                    assert forall|i: int| 0 <= i < n && i != k implies old(self)@.slots[i].0 != index by {
                        if old(self)@.slots[i].0 == index {
                            old(self)@.lemma_index_unique(i, k as int);
                        }
                    }
                    assert(slots_view(slots@) =~= old(self)@.drained(index).slots);
                    assert(old(self)@.drained(index).wf());
                }
                std::mem::swap(&mut self.slots, &mut slots);
                return taken;
            }
            k = k + 1;
        }
        proof {
            assert(!old(self)@.is_live(index));
            assert(slots_view(slots@) =~= old(self)@.drained(index).slots);
            assert(old(self)@.drained(index).wf());
        }
        std::mem::swap(&mut self.slots, &mut slots);
        Vec::new()
    }

    /// Removes the slot with `index` for good; nothing happens when there is
    /// none.
    pub fn leave(&mut self, index: usize)
        ensures
            final(self)@ == old(self)@.without(index),
            final(self)@.wf(),
    {
        proof {
            use_type_invariant(&*self);
        }
        let mut slots = self.take_slots();
        let n = slots.len();
        let mut k: usize = 0;
        while k < n
            invariant
                n == slots@.len(),
                k <= n,
                slots@ == old(self).slots@,
                self.count == old(self).count,
                old(self)@.wf(),
                forall|i: int| 0 <= i < k ==> (#[trigger] slots@[i]).index != index,
            decreases n - k,
        {
            if slots[k].index == index {
                let _gone = slots.remove(k);
                proof {
                    assert(old(self)@.slots[k as int].0 == index);
                    let p = old(self)@.position_of(index);
                    assert(0 <= p < n && old(self)@.slots[p].0 == index);
                    old(self)@.lemma_index_unique(p, k as int);
                    assert(slots_view(slots@) =~= old(self)@.slots.remove(k as int));
                    assert(old(self)@.without(index).wf());
                }
                std::mem::swap(&mut self.slots, &mut slots);
                return;
            }
            k = k + 1;
        }
        proof {
            assert(!old(self)@.is_live(index));
            assert(slots_view(slots@) =~= old(self)@.slots);
        }
        std::mem::swap(&mut self.slots, &mut slots);
    }

    /// Number of live slots.
    pub fn live_count(&self) -> (r: usize)
        ensures
            r == self@.slots.len(),
    {
        self.slots.len()
    }

    /// The index the next registration will receive.
    pub fn next_index(&self) -> (r: usize)
        ensures
            r == self@.next,
    {
        self.count
    }

    /// How many slots fit before the slot table must grow.
    pub fn slot_capacity(&self) -> (r: usize)
        ensures
            r >= self@.slots.len(),
    {
        vec_capacity(&self.slots)
    }
}

} // verus!
