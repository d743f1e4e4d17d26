//! Append-only arena storage issuing stable integer-position handles.
//!
//! Entities are never removed or reordered, so a handle stays valid for the
//! arena's whole lifetime and always refers to the value it was issued for.
use vstd::prelude::*;

use crate::add_and_get_index;

verus! {

/// A stable handle into one [`Storage`] arena: an integer position plus a
/// zero-cost marker tying the handle to the entity type of the arena that
/// issued it, so handles of different arenas cannot be interchanged.
#[derive(Debug)]
pub struct StorageIndex<T>(pub usize, pub core::marker::PhantomData<T>);

impl<T> StorageIndex<T> {
    /// Wraps a raw position as a handle.
    pub fn new(position: usize) -> (r: Self)
        ensures
            r.0 == position,
    {
        StorageIndex(position, core::marker::PhantomData)
    }

    /// The raw position this handle refers to.
    pub fn position(&self) -> (r: usize)
        ensures
            r == self.0,
    {
        self.0
    }
}

impl<T> Clone for StorageIndex<T> {
    fn clone(&self) -> (r: Self)
        ensures
            r.0 == self.0,
    {
        StorageIndex(self.0, core::marker::PhantomData)
    }
}

impl<T> Copy for StorageIndex<T> {

}

impl<T> Default for StorageIndex<T> {
    /// The default handle refers to position 0; it aliases the first entity of
    /// its arena and is no "absent" sentinel.
    fn default() -> (r: Self)
        ensures
            r.0 == 0,
    {
        StorageIndex(0, core::marker::PhantomData)
    }
}

/// An ordered, insertion-order-preserving, append-only store of entities of
/// one type. Its view is the sequence of stored entities.
pub struct Storage<T> {
    items: Vec<T>,
}

impl<T> View for Storage<T> {
    type V = Seq<T>;

    closed spec fn view(&self) -> Seq<T> {
        self.items@
    }
}

impl<T> Storage<T> {
    /// An empty arena.
    pub fn new() -> (r: Self)
        ensures
            r@ == Seq::<T>::empty(),
    {
        Storage { items: Vec::new() }
    }

    /// An empty arena with room reserved for `capacity` entities.
    pub fn with_capacity(capacity: usize) -> (r: Self)
        ensures
            r@ == Seq::<T>::empty(),
    {
        Storage { items: Vec::with_capacity(capacity) }
    }

    /// Appends a default-constructed entity and returns its handle, whose
    /// position equals the pre-append length.
    pub fn allocate(&mut self) -> (r: StorageIndex<T>) where T: Default
        ensures
            final(self)@.len() == old(self)@.len() + 1,
            final(self)@.subrange(0, old(self)@.len() as int) == old(self)@,
            r.0 == old(self)@.len(),
    {
        let item = T::default();
        let index = add_and_get_index(&mut self.items, item);
        proof {
            assert(final(self)@.subrange(0, old(self)@.len() as int) =~= old(self)@);
        }
        StorageIndex(index, core::marker::PhantomData)
    }

    /// Appends `item` and returns its handle, whose position equals the
    /// pre-append length.
    pub fn allocate_with(&mut self, item: T) -> (r: StorageIndex<T>)
        ensures
            final(self)@ == old(self)@.push(item),
            r.0 == old(self)@.len(),
    {
        let index = add_and_get_index(&mut self.items, item);
        StorageIndex(index, core::marker::PhantomData)
    }

    /// Overwrites the entity at `index` in place. Returns `None`, leaving the
    /// arena unchanged, exactly when the handle's position is out of range;
    /// the arena never grows through an update.
    pub fn update(&mut self, index: StorageIndex<T>, item: T) -> (r: Option<()>)
        ensures
            index.0 < old(self)@.len() ==> {
                &&& r == Some(())
                &&& final(self)@ == old(self)@.update(index.0 as int, item)
            },
            index.0 >= old(self)@.len() ==> {
                &&& r == None::<()>
                &&& final(self)@ == old(self)@
            },
    {
        if index.0 < self.items.len() {
            self.items.set(index.0, item);
            Some(())
        } else {
            None
        }
    }

    /// The entity a handle refers to, or `None` if the handle's position is
    /// out of range for this arena.
    pub fn get(&self, index: StorageIndex<T>) -> (r: Option<&T>)
        ensures
            index.0 < self@.len() ==> r == Some(&self@[index.0 as int]),
            index.0 >= self@.len() ==> r == None::<&T>,
    {
        if index.0 < self.items.len() {
            Some(&self.items[index.0])
        } else {
            None
        }
    }

    /// The entity at a raw position, used when walking the arena in order.
    pub fn at(&self, position: usize) -> (r: &T)
        requires
            position < self@.len(),
        ensures
            *r == self@[position as int],
    {
        &self.items[position]
    }

    /// How many entities have been allocated.
    pub fn len(&self) -> (r: usize)
        ensures
            r == self@.len(),
    {
        self.items.len()
    }

    /// Whether the arena holds no entities.
    pub fn is_empty(&self) -> (r: bool)
        ensures
            r == (self@.len() == 0),
    {
        self.items.is_empty()
    }
}

impl<T> Default for Storage<T> {
    fn default() -> (r: Self)
        ensures
            r@ == Seq::<T>::empty(),
    {
        Storage::new()
    }
}

/// Index stability: the handle returned for an appended entity keeps referring
/// to exactly that entity, no matter how many entities are appended later.
///
/// `before` is the arena's contents when `allocate_with(value)` was called
/// (so the call returned the handle `before.len()`), and `later` is anything
/// appended afterwards; the handle still dereferences to `value`.
pub proof fn lemma_index_stability<T>(before: Seq<T>, value: T, later: Seq<T>)
    ensures
        before.push(value).add(later)[before.len() as int] == value,
        forall|k: int|
            0 <= k < before.len() ==> before.push(value).add(later)[k] == before[k],
{
    assert(before.push(value).add(later)[before.len() as int] == value);
}

} // verus!
