use vstd::prelude::*;
use crate::registry::RegistryView;

verus! {

/// The state after `n` registrations in a row, starting from `s`.
pub open spec fn registered_times<T>(s: RegistryView<T>, n: nat) -> RegistryView<T>
    decreases n,
{
    if n == 0 {
        s
    } else {
        registered_times(s, (n - 1) as nat).registered()
    }
}

/// Broadcasting while no reader is registered changes nothing.
pub proof fn lemma_broadcast_without_readers<T>(s: RegistryView<T>, v: T)
    requires
        s.slots.len() == 0,
    ensures
        s.delivered(v) == s,
{
    assert(s.delivered(v).slots =~= s.slots);
}

/// Starting from a fresh registry, the `k`-th registration (counting from
/// zero) hands out index `k`, and after `n` registrations the live slots carry
/// the indices `0, 1, ..., n - 1` in call order.
pub proof fn lemma_indices_in_call_order<T>(n: nat)
    requires
        n <= usize::MAX,
    ensures
        forall|k: nat| k <= n ==> (#[trigger] registered_times(RegistryView::<T>::initial(), k)).next == k,
        registered_times(RegistryView::<T>::initial(), n).slots.len() == n,
        forall|i: int| 0 <= i < n ==> #[trigger] registered_times(RegistryView::<T>::initial(), n).slots[i].0 == i,
    decreases n,
{
    if n > 0 {
        lemma_indices_in_call_order::<T>((n - 1) as nat);
        assert forall|k: nat| k <= n implies (#[trigger] registered_times(RegistryView::<T>::initial(), k)).next == k by {
            if k < n {
            }
        }
        let prev = registered_times(RegistryView::<T>::initial(), (n - 1) as nat);
        let cur = registered_times(RegistryView::<T>::initial(), n);
        assert forall|i: int| 0 <= i < n implies #[trigger] cur.slots[i].0 == i by {
            if i < n - 1 {
                assert(cur.slots[i] == prev.slots[i]);
            }
        }
    }
}

/// A reader that has just registered has nothing to receive.
pub proof fn lemma_fresh_reader_has_nothing<T>(s: RegistryView<T>)
    requires
        s.wf(),
        s.next < usize::MAX,
    ensures
        s.registered().pending(s.next as usize) == Seq::<T>::empty(),
{
    let t = s.registered();
    let last = s.slots.len() as int;
    assert(t.slots[last].0 == s.next as usize);
    assert(t.is_live(s.next as usize));
    let p = t.position_of(s.next as usize);
    if p != last {
        assert(s.slots[p].0 < s.next);
    }
}

/// Two readers registered one after the other both receive `a` then `b`
/// when those are broadcast in that order.
pub proof fn lemma_two_readers_receive_in_order<T>(s: RegistryView<T>, a: T, b: T)
    requires
        s.wf(),
        s.next + 1 < usize::MAX,
    ensures
        s.registered().registered().delivered(a).delivered(b).pending(s.next as usize) == seq![a, b],
        s.registered().registered().delivered(a).delivered(b).pending((s.next + 1) as usize) == seq![a, b],
{
    let r = s.registered().registered();
    let t = r.delivered(a).delivered(b);
    let n = s.slots.len() as int;
    assert(r.wf());
    assert(t.slots.len() == n + 2);
    assert(r.slots[n] == (s.next as usize, Seq::<T>::empty()));
    assert(r.slots[n + 1] == ((s.next + 1) as usize, Seq::<T>::empty()));
    assert(t.slots[n] == (s.next as usize, seq![a, b]));
    assert(t.slots[n + 1] == ((s.next + 1) as usize, seq![a, b]));
    assert forall|i: int| 0 <= i < t.slots.len() implies #[trigger] t.slots[i].0 == r.slots[i].0 by {}
    assert(t.slots[n].0 == s.next as usize);
    assert(t.slots[n + 1].0 == (s.next + 1) as usize);
    assert(t.is_live(s.next as usize));
    assert(t.is_live((s.next + 1) as usize));
    let p = t.position_of(s.next as usize);
    let q = t.position_of((s.next + 1) as usize);
    r.lemma_index_unique(p, n);
    r.lemma_index_unique(q, n + 1);
}

/// Polling right after a poll yields nothing.
pub proof fn lemma_poll_after_poll<T>(s: RegistryView<T>, index: usize)
    requires
        s.wf(),
    ensures
        s.drained(index).pending(index) == Seq::<T>::empty(),
{
    let t = s.drained(index);
    if t.is_live(index) {
        let p = t.position_of(index);
        assert(t.slots[p] == (index, Seq::<T>::empty()));
    }
}

/// Once a reader's slot is removed the registry holds one slot fewer, and
/// later broadcasts no longer reach that reader.
pub proof fn lemma_leave_removes_slot<T>(s: RegistryView<T>, index: usize, v: T)
    requires
        s.wf(),
        s.is_live(index),
    ensures
        s.without(index).slots.len() == s.slots.len() - 1,
        !s.without(index).is_live(index),
        s.without(index).delivered(v).pending(index) == Seq::<T>::empty(),
{
    let p = s.position_of(index);
    let t = s.without(index);
    if t.is_live(index) {
        let q = t.position_of(index);
        if q < p {
            s.lemma_index_unique(q, p);
        } else {
            s.lemma_index_unique(q + 1, p);
        }
    }
    if t.delivered(v).is_live(index) {
        let q = t.delivered(v).position_of(index);
        assert(t.slots[q].0 == index);
    }
}

/// Removing a reader's slot a second time has no further effect.
pub proof fn lemma_leave_idempotent<T>(s: RegistryView<T>, index: usize)
    requires
        s.wf(),
    ensures
        s.without(index).without(index) == s.without(index),
{
    if s.is_live(index) {
        lemma_leave_removes_slot(s, index, arbitrary());
    }
}

} // verus!
