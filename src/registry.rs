use vstd::prelude::*;
use crate::removal::{lemma_filter_drops_one, lemma_filter_keeps_all};

verus! {

/// The send side of one connection. `handle` is `None` while the handle is checked out
/// for a send in flight.
pub struct Slot<H> {
    pub id: u32,
    pub handle: Option<H>,
}

/// Ids that rise strictly along the slots; in particular no id occurs twice.
pub open spec fn slot_ids_increasing<H>(s: Seq<Slot<H>>) -> bool {
    forall|i: int, j: int| 0 <= i < j < s.len() ==> s[i].id < s[j].id
}

/// Whether some slot has the id.
pub open spec fn slot_has_id<H>(s: Seq<Slot<H>>, id: u32) -> bool {
    exists|i: int| 0 <= i < s.len() && s[i].id == id
}

/// The slots after the handle of the id, if any, was put in its slot.
pub open spec fn checked_in<H>(s: Seq<Slot<H>>, id: u32, h: H) -> Seq<Slot<H>> {
    s.map_values(|sl: Slot<H>| if sl.id == id { Slot { id: sl.id, handle: Some(h) } } else { sl })
}

/// The slots after the handle of the id, if any, was taken out of its slot.
pub open spec fn checked_out<H>(s: Seq<Slot<H>>, id: u32) -> Seq<Slot<H>> {
    s.map_values(|sl: Slot<H>| if sl.id == id { Slot { id: sl.id, handle: None } } else { sl })
}

/// The slots after every handle was taken out.
pub open spec fn all_checked_out<H>(s: Seq<Slot<H>>) -> Seq<Slot<H>> {
    s.map_values(|sl: Slot<H>| Slot { id: sl.id, handle: None })
}

/// The handles that are in their slots, each with its id, in the order of the slots.
pub open spec fn ready<H>(s: Seq<Slot<H>>) -> Seq<(u32, H)>
    decreases s.len(),
{
    if s.len() == 0 {
        Seq::empty()
    } else {
        match s.last().handle {
            Some(h) => ready(s.drop_last()).push((s.last().id, h)),
            None => ready(s.drop_last()),
        }
    }
}

/// The slots without the one that has the id.
pub open spec fn slots_without<H>(s: Seq<Slot<H>>, id: u32) -> Seq<Slot<H>> {
    s.filter(|sl: Slot<H>| sl.id != id)
}

/// The connection registry: one slot per registered connection, kept in order of id.
pub struct Registry<H> {
    slots: Vec<Slot<H>>,
}

impl<H> View for Registry<H> {
    type V = Seq<Slot<H>>;

    closed spec fn view(&self) -> Seq<Slot<H>> {
        self.slots@
    }
}

impl<H> Registry<H> {
    pub open spec fn wf(&self) -> bool {
        slot_ids_increasing(self@)
    }

    /// An empty registry.
    pub fn new() -> (r: Registry<H>)
        ensures
            r@ == Seq::<Slot<H>>::empty(),
            r.wf(),
    {
        Registry { slots: Vec::new() }
    }

    /// The number of registered connections.
    pub fn len(&self) -> (r: usize)
        ensures
            r == self@.len(),
    {
        self.slots.len()
    }

    fn find(&self, id: u32) -> (r: Option<usize>)
        ensures
            match r {
                Some(k) => k < self@.len() && self@[k as int].id == id,
                None => !slot_has_id(self@, id),
            },
    {
        let mut i: usize = 0;
        while i < self.slots.len()
            invariant
                0 <= i <= self@.len(),
                self@ == self.slots@,
                forall|j: int| 0 <= j < i ==> self@[j].id != id,
            decreases self@.len() - i,
        {
            if self.slots[i].id == id {
                return Some(i);
            }
            i = i + 1;
        }
        None
    }

    /// Whether a connection with the id is registered.
    pub fn contains(&self, id: u32) -> (r: bool)
        ensures
            r == slot_has_id(self@, id),
    {
        self.find(id).is_some()
    }

    /// Registers a connection's handle under an id above every id present.
    pub fn register(&mut self, id: u32, handle: H)
        requires
            old(self).wf(),
            forall|i: int| 0 <= i < old(self)@.len() ==> old(self)@[i].id < id,
        ensures
            final(self)@ == old(self)@.push(Slot { id, handle: Some(handle) }),
            final(self).wf(),
    {
        self.slots.push(Slot { id, handle: Some(handle) });
    }

    /// Takes the handle of the id out of its slot, for one send. Gives `None` where the
    /// id is not registered or its handle is already out.
    pub fn check_out(&mut self, id: u32) -> (r: Option<H>)
        requires
            old(self).wf(),
        ensures
            final(self)@ == checked_out(old(self)@, id),
            final(self).wf(),
            !slot_has_id(old(self)@, id) ==> r is None,
            forall|k: int| 0 <= k < old(self)@.len() && old(self)@[k].id == id ==> r == old(self)@[k].handle,
    {
        match self.find(id) {
            Some(k) => {
                let mut taken = Slot { id, handle: None };
                self.slots.set_and_swap(k, &mut taken);
                assert(self@ =~= checked_out(old(self)@, id));
                taken.handle
            },
            None => {
                assert(self@ =~= checked_out(old(self)@, id));
                None
            },
        }
    }

    /// Puts a handle back in the slot of the id, after a send. Gives `false`, and drops the
    /// handle, where the id is no longer registered.
    pub fn check_in(&mut self, id: u32, handle: H) -> (r: bool)
        requires
            old(self).wf(),
        ensures
            r == slot_has_id(old(self)@, id),
            final(self)@ == checked_in(old(self)@, id, handle),
            final(self).wf(),
    {
        match self.find(id) {
            Some(k) => {
                let ghost h = handle;
                self.slots.set(k, Slot { id, handle: Some(handle) });
                assert(self@ =~= checked_in(old(self)@, id, h));
                true
            },
            None => {
                assert(self@ =~= checked_in(old(self)@, id, handle));
                false
            },
        }
    }

    /// Takes every handle that is in its slot, each with its id, for one broadcast.
    pub fn check_out_all(&mut self) -> (r: Vec<(u32, H)>)
        requires
            old(self).wf(),
        ensures
            r@ == ready(old(self)@),
            final(self)@ == all_checked_out(old(self)@),
            final(self).wf(),
    {
        let ghost start = self@;
        let mut r: Vec<(u32, H)> = Vec::new();
        let mut i: usize = 0;
        while i < self.slots.len()
            invariant
                0 <= i <= self@.len(),
                self@.len() == start.len(),
                forall|j: int| 0 <= j < i ==> self@[j] == (Slot::<H> { id: start[j].id, handle: None }),
                forall|j: int| i <= j < self@.len() ==> self@[j] == start[j],
                r@ == ready(start.subrange(0, i as int)),
            decreases self@.len() - i,
        {
            let ghost prefix = start.subrange(0, i + 1);
            let id = self.slots[i].id;
            let mut taken = Slot { id, handle: None };
            self.slots.set_and_swap(i, &mut taken);
            assert(taken == start[i as int]);
            assert(prefix.drop_last() =~= start.subrange(0, i as int));
            assert(prefix.last() == start[i as int]);
            match taken.handle {
                Some(h) => {
                    r.push((id, h));
                },
                None => {},
            }
            i = i + 1;
        }
        assert(start.subrange(0, start.len() as int) =~= start);
        assert(self@ =~= all_checked_out(start));
        r
    }

    /// Removes the slot of the id, and with it any handle it holds.
    pub fn remove(&mut self, id: u32)
        requires
            old(self).wf(),
        ensures
            final(self)@ == slots_without(old(self)@, id),
            final(self).wf(),
    {
        match self.find(id) {
            Some(k) => {
                proof {
                    lemma_filter_drops_one(self@, |sl: Slot<H>| sl.id != id, k as int);
                }
                self.slots.remove(k);
                assert(self@ =~= old(self)@.remove(k as int));
            },
            None => {
                proof {
                    lemma_filter_keeps_all(self@, |sl: Slot<H>| sl.id != id);
                }
            },
        }
    }
}

} // verus!
