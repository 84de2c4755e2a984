use vstd::prelude::*;
use std::cell::Cell;
use std::rc::Rc;
use crate::registry::BusInner;

verus! {

#[verifier::external_type_specification]
#[verifier::external_body]
#[verifier::reject_recursive_types(T)]
pub struct ExCell<T: ?Sized>(Cell<T>);

/// Relies on `Cell::new`: a cell holding `value`.
pub assume_specification<T>[ Cell::<T>::new ](value: T) -> (r: Cell<T>);

/// Relies on `Cell::replace`: swaps in `val` and hands back what the cell
/// held. It never panics and runs no code of this library.
pub assume_specification<T>[ Cell::<T>::replace ](cell: &Cell<T>, val: T) -> (r: T)
    opens_invariants none
;

/// A registry shared by one producer and its readers. Each operation takes
/// it out, works on it under its exact contract, and puts it back. Nothing
/// runs while it is out (the values are `Copy` and no operation calls back
/// into a handle), so no operation can find the vacant stand-in; a registry
/// taken out is well formed by its type invariant.
pub type SharedRegistry<T> = Cell<BusInner<T>>;

/// Relies on `Rc::strong_count`: the number of `Rc` handles to the cell.
#[verifier::external_body]
fn strong_count<T: Copy>(rc: &Rc<SharedRegistry<T>>) -> (r: usize)
    ensures
        r >= 1,
{
    Rc::strong_count(rc)
}

/// Takes the registry out of its cell, leaving a vacant one in its place.
fn take_registry<T: Copy>(cell: &SharedRegistry<T>) -> (r: BusInner<T>)
    ensures
        r@.wf(),
{
    let r = cell.replace(BusInner::vacant());
    proof {
        use_type_invariant(&r);
    }
    r
}

/// Puts a registry back into its cell.
fn restore_registry<T: Copy>(cell: &SharedRegistry<T>, reg: BusInner<T>) {
    let _vacant = cell.replace(reg);
}

/// The messages consumer: `recv` polls for what was broadcast since the
/// last poll. Dropping it removes its slot from the registry.
#[verifier::reject_recursive_types(T)]
pub struct BusReader<T: Copy> {
    inner: Rc<SharedRegistry<T>>,
    index: usize,
}

impl<T: Copy> BusReader<T> {
    pub closed spec fn spec_index(&self) -> usize {
        self.index
    }

    /// Receives the pending messages, if any, and empties the queue.
    pub fn recv(&mut self) -> (r: Vec<T>)
        ensures
            final(self).spec_index() == old(self).spec_index(),
    {
        let mut reg = take_registry(&self.inner);
        let r = reg.recv(self.index);
        restore_registry(&self.inner, reg);
        r
    }

    /// The index this reader was registered under.
    pub fn index(&self) -> (r: usize)
        ensures
            r == self.spec_index(),
    {
        self.index
    }

    /// Number of handles, the producer and the readers, that share the
    /// registry.
    pub fn handle_count(&self) -> (r: usize)
        ensures
            r >= 1,
    {
        strong_count(&self.inner)
    }

    /// One more shared reference to the registry this reader belongs to.
    /// The registry lives as long as any such reference or handle does.
    pub fn registry_handle(&self) -> Rc<SharedRegistry<T>> {
        Rc::clone(&self.inner)
    }

    /// Takes this reader's slot out of the registry.
    fn detach(&self) {
        let mut reg = take_registry(&self.inner);
        reg.leave(self.index);
        restore_registry(&self.inner, reg);
    }
}

impl<T: Copy> Drop for BusReader<T> {
    // Verus panics internally on any call in a verified destructor, so this
    // one is taken on trust. Its body only forwards to the verified `detach`,
    // which opens no invariant (the cell is std's `Cell`, and nothing in this
    // library uses invariants) and cannot unwind (it only indexes in bounds
    // and removes an existing element).
    #[verifier::external_body]
    fn drop(&mut self)
        opens_invariants none
        no_unwind
    {
        self.detach();
    }
}

/// The single producer: `add_rx` creates a consumer, `broadcast` pushes a
/// copy of a message into each consumer's queue.
#[verifier::reject_recursive_types(T)]
pub struct Bus<T: Copy> {
    inner: Rc<SharedRegistry<T>>,
}

impl<T: Copy> Bus<T> {
    /// Creates a bus whose registry has room for `capacity` readers before it
    /// grows.
    pub fn new(capacity: usize) -> (r: Bus<T>)
        requires
            capacity > 2,
    {
        let reg = BusInner::new(capacity);
        Bus { inner: Rc::new(Cell::new(reg)) }
    }

    /// Creates a reader; it receives copies of the messages until dropped.
    /// Once every index has been handed out, the reader gets `usize::MAX`,
    /// which no slot ever carries, and so receives nothing.
    pub fn add_rx(&mut self) -> (r: BusReader<T>)
    {
        let mut reg = take_registry(&self.inner);
        let index = if reg.next_index() < usize::MAX {
            reg.add_rx()
        } else {
            usize::MAX
        };
        restore_registry(&self.inner, reg);
        BusReader { inner: Rc::clone(&self.inner), index }
    }

    /// Number of handles, the producer and the readers, that share the
    /// registry.
    pub fn handle_count(&self) -> (r: usize)
        ensures
            r >= 1,
    {
        strong_count(&self.inner)
    }

    /// Number of readers registered and not yet dropped.
    pub fn reader_count(&self) -> usize {
        let reg = take_registry(&self.inner);
        let r = reg.live_count();
        restore_registry(&self.inner, reg);
        r
    }

    /// The index the next reader will receive.
    pub fn next_index(&self) -> usize {
        let reg = take_registry(&self.inner);
        let r = reg.next_index();
        restore_registry(&self.inner, reg);
        r
    }

    /// How many readers fit before the registry's slot table must grow.
    pub fn slot_capacity(&self) -> usize {
        let reg = take_registry(&self.inner);
        let r = reg.slot_capacity();
        restore_registry(&self.inner, reg);
        r
    }

    /// Pushes a copy of `value` into every reader's queue.
    pub fn broadcast(&self, value: T) {
        let mut reg = take_registry(&self.inner);
        reg.broadcast(value);
        restore_registry(&self.inner, reg);
    }
}

} // verus!
