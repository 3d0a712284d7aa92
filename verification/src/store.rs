//! A sparse container that associates entity ids with one kind of
//! component.

use vstd::prelude::*;

verus! {

/// Entity ids are below this limit.
pub const ID_LIMIT: usize = 0x1000_0000;

/// The components of one kind, keyed by entity id.
pub struct Storage<T> {
    slots: Vec<Option<T>>,
}

impl<T> View for Storage<T> {
    type V = Map<usize, T>;

    closed spec fn view(&self) -> Map<usize, T> {
        Map::new(
            |id: usize| id < self.slots.len() && self.slots[id as int] is Some,
            |id: usize| self.slots[id as int]->0,
        )
    }
}

impl<T: Copy> Storage<T> {
    /// A container without components.
    pub fn new() -> (s: Storage<T>)
        ensures
            s@ == Map::<usize, T>::empty(),
    {
        let s = Storage { slots: Vec::new() };
        assert(s@ =~= Map::<usize, T>::empty());
        s
    }

    /// The lowest id from `start` up that holds a component, if there is
    /// one.
    pub fn first_from(&self, start: usize) -> (found: Option<usize>)
        ensures
            match found {
                Some(id) => start <= id && self@.dom().contains(id) && forall|k: usize|
                    start <= k < id ==> !self@.dom().contains(k),
                None => forall|k: usize| start <= k ==> !self@.dom().contains(k),
            },
    {
        let mut id: usize = start;
        while id < self.slots.len()
            invariant
                start <= id,
                forall|k: usize| start <= k < id ==> !self@.dom().contains(k),
            decreases self.slots.len() - id,
        {
            if self.slots[id].is_some() {
                return Some(id);
            }
            id += 1;
        }
        None
    }

    /// Whether no entity has a component here.
    pub fn is_empty(&self) -> (empty: bool)
        ensures
            empty == (self@ == Map::<usize, T>::empty()),
    {
        let found = self.first_from(0);
        if found.is_none() {
            assert(self@ =~= Map::<usize, T>::empty());
        } else {
            assert(self@.dom().contains(found.unwrap()));
        }
        found.is_none()
    }

    /// The component of the entity `id`, if it has one.
    pub fn get(&self, id: usize) -> (c: Option<T>)
        ensures
            c == (if self@.dom().contains(id) {
                Some(self@[id])
            } else {
                None
            }),
    {
        if id < self.slots.len() {
            self.slots[id]
        } else {
            None
        }
    }

    /// Whether the entity `id` has a component here.
    pub fn contains(&self, id: usize) -> (b: bool)
        ensures
            b == self@.dom().contains(id),
    {
        if id < self.slots.len() {
            self.slots[id].is_some()
        } else {
            false
        }
    }

    /// Gives the entity `id` the component `value`, in place of the one it
    /// had. An id at or above `ID_LIMIT` is refused, and `false` returned.
    pub fn insert(&mut self, id: usize, value: T) -> (stored: bool)
        ensures
            stored == (id < ID_LIMIT),
            stored ==> final(self)@ == old(self)@.insert(id, value),
            !stored ==> final(self)@ == old(self)@,
    {
        if id >= ID_LIMIT {
            return false;
        }
        while self.slots.len() <= id
            invariant
                id < ID_LIMIT,
                self@ == old(self)@,
            decreases id + 1 - self.slots.len(),
        {
            let ghost before = self@;
            self.slots.push(None);
            assert(self@ =~= before);
        }
        self.slots[id] = Some(value);
        assert(self@ =~= old(self)@.insert(id, value));
        true
    }

    /// Puts `value` in the place of the component that the entity `id` has.
    /// An entity without such a component gets none, and `false` is
    /// returned.
    pub fn set(&mut self, id: usize, value: T) -> (done: bool)
        ensures
            done == old(self)@.dom().contains(id),
            done ==> final(self)@ == old(self)@.insert(id, value),
            !done ==> final(self)@ == old(self)@,
    {
        if id < self.slots.len() && self.slots[id].is_some() {
            self.slots[id] = Some(value);
            assert(self@ =~= old(self)@.insert(id, value));
            true
        } else {
            false
        }
    }

    /// Takes the component of the entity `id` away and returns it.
    pub fn remove(&mut self, id: usize) -> (c: Option<T>)
        ensures
            c == (if old(self)@.dom().contains(id) {
                Some(old(self)@[id])
            } else {
                None
            }),
            final(self)@ == old(self)@.remove(id),
    {
        if id < self.slots.len() {
            let c: Option<T> = self.slots[id];
            self.slots[id] = None;
            assert(self@ =~= old(self)@.remove(id));
            c
        } else {
            assert(self@ =~= old(self)@.remove(id));
            None
        }
    }
}

} // verus!
