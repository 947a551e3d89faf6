use vstd::prelude::*;
use crate::command::Message;
use crate::entity::{encode_snapshot, snapshot_json, Entity};
use crate::ids::IdAllocator;
use crate::registry::{
    all_checked_out, checked_in, ready, slot_has_id, slots_without, Registry, Slot,
};
use crate::removal::{lemma_filter_drops_one, lemma_filter_keeps_all};
use crate::store::{after_message, has_id, ids_increasing, without, EntityStore};

verus! {

/// What one broadcast tick sends: one payload, shared by every connection whose handle
/// was free, and those handles, each with its connection id.
pub struct Broadcast<H> {
    pub payload: String,
    pub targets: Vec<(u32, H)>,
}

/// The server's shared state: the id allocator, the entity store and the connection
/// registry. Every registered connection has exactly one entity and one slot, under the
/// same id, and no id above the last one handed out is in use.
pub struct World<H> {
    ids: IdAllocator,
    entities: EntityStore,
    connections: Registry<H>,
}

impl<H> World<H> {
    /// The entities, in order of id.
    pub closed spec fn entities_view(&self) -> Seq<Entity> {
        self.entities@
    }

    /// The connection slots, in order of id.
    pub closed spec fn connections_view(&self) -> Seq<Slot<H>> {
        self.connections@
    }

    /// The last id handed out, or 0 before the first.
    pub closed spec fn last_id(&self) -> u32 {
        self.ids@
    }

    pub open spec fn wf(&self) -> bool {
        &&& ids_increasing(self.entities_view())
        &&& self.connections_view().len() == self.entities_view().len()
        &&& forall|i: int|
            0 <= i < self.entities_view().len() ==> #[trigger] self.connections_view()[i].id
                == self.entities_view()[i].id
        &&& forall|i: int|
            0 <= i < self.entities_view().len() ==> #[trigger] self.entities_view()[i].id
                <= self.last_id()
    }

    /// `after` is `before` with a new connection registered under `id` with `handle`.
    pub open spec fn accepted(before: World<H>, after: World<H>, id: u32, handle: H) -> bool {
        &&& id == before.last_id() + 1
        &&& after.last_id() == id
        &&& after.entities_view() == before.entities_view().push(Entity { id, pos: (0, 0) })
        &&& after.connections_view() == before.connections_view().push(
            Slot { id, handle: Some(handle) },
        )
    }

    proof fn lemma_parts_wf(&self)
        requires
            self.wf(),
        ensures
            self.entities.wf(),
            self.connections.wf(),
    {
    }

    /// A world with no connection.
    pub fn new() -> (r: World<H>)
        ensures
            r.wf(),
            r.last_id() == 0,
            r.entities_view() == Seq::<Entity>::empty(),
            r.connections_view() == Seq::<Slot<H>>::empty(),
    {
        World { ids: IdAllocator::new(), entities: EntityStore::new(), connections: Registry::new() }
    }

    /// Registers a newly accepted connection: a fresh id, an entity at the origin and the
    /// connection's send handle. Gives `None`, and changes nothing, once the ids are exhausted.
    pub fn accept(&mut self, handle: H) -> (r: Option<u32>)
        requires
            old(self).wf(),
        ensures
            final(self).wf(),
            old(self).last_id() < u32::MAX ==> r == Some((old(self).last_id() + 1) as u32),
            old(self).last_id() == u32::MAX ==> r is None && final(self).last_id() == old(
                self,
            ).last_id() && final(self).entities_view() == old(self).entities_view()
                && final(self).connections_view() == old(self).connections_view(),
            r matches Some(id) ==> Self::accepted(*old(self), *final(self), id, handle)
                && !has_id(old(self).entities_view(), id) && !slot_has_id(
                old(self).connections_view(),
                id,
            ),
    {
        proof {
            self.lemma_parts_wf();
        }
        match self.ids.next() {
            Some(id) => {
                self.entities.register(id);
                self.connections.register(id, handle);
                assert(self.wf());
                Some(id)
            },
            None => None,
        }
    }

    /// Applies one inbound message from the connection with the id.
    pub fn receive(&mut self, id: u32, msg: &Message)
        requires
            old(self).wf(),
        ensures
            final(self).wf(),
            final(self).entities_view() == after_message(old(self).entities_view(), id, *msg),
            final(self).connections_view() == old(self).connections_view(),
            final(self).last_id() == old(self).last_id(),
    {
        proof {
            self.lemma_parts_wf();
        }
        crate::store::process_message(id, msg, &mut self.entities);
        assert(self.wf());
    }

    /// Whether a connection with the id is registered.
    pub fn is_connected(&self, id: u32) -> (r: bool)
        ensures
            r == slot_has_id(self.connections_view(), id),
    {
        self.connections.contains(id)
    }

    /// A point-in-time copy of every entity, in order of id.
    pub fn snapshot(&self) -> (r: Vec<Entity>)
        ensures
            r@ == self.entities_view(),
    {
        self.entities.snapshot()
    }

    /// Starts one broadcast tick: serializes the entities once, and checks out every send
    /// handle that is not already busy with an earlier send.
    pub fn begin_broadcast(&mut self) -> (r: Broadcast<H>)
        requires
            old(self).wf(),
        ensures
            final(self).wf(),
            r.payload@ == snapshot_json(old(self).entities_view()),
            r.targets@ == ready(old(self).connections_view()),
            final(self).entities_view() == old(self).entities_view(),
            final(self).connections_view() == all_checked_out(old(self).connections_view()),
            final(self).last_id() == old(self).last_id(),
    {
        proof {
            self.lemma_parts_wf();
        }
        let entities = self.entities.snapshot();
        let payload = encode_snapshot(&entities);
        let targets = self.connections.check_out_all();
        assert(self.wf());
        Broadcast { payload, targets }
    }

    /// Ends one send on the connection with the id. `Some(handle)`: the send succeeded and
    /// the handle goes back to its slot (it is dropped where the connection has meanwhile
    /// gone). `None`: the send failed, and the connection is torn down.
    pub fn finish_send(&mut self, id: u32, outcome: Option<H>)
        requires
            old(self).wf(),
        ensures
            final(self).wf(),
            final(self).last_id() == old(self).last_id(),
            outcome matches Some(h) ==> final(self).entities_view() == old(self).entities_view()
                && final(self).connections_view() == checked_in(
                old(self).connections_view(),
                id,
                h,
            ),
            outcome is None ==> final(self).entities_view() == without(
                old(self).entities_view(),
                id,
            ) && final(self).connections_view() == slots_without(
                old(self).connections_view(),
                id,
            ),
    {
        proof {
            self.lemma_parts_wf();
        }
        match outcome {
            Some(handle) => {
                self.connections.check_in(id, handle);
                assert(self.wf());
            },
            None => {
                self.teardown(id);
            },
        }
    }

    /// Removes every trace of the connection with the id: its entity and its slot.
    pub fn teardown(&mut self, id: u32)
        requires
            old(self).wf(),
        ensures
            final(self).wf(),
            final(self).entities_view() == without(old(self).entities_view(), id),
            final(self).connections_view() == slots_without(old(self).connections_view(), id),
            final(self).last_id() == old(self).last_id(),
            !has_id(final(self).entities_view(), id),
            !slot_has_id(final(self).connections_view(), id),
            has_id(old(self).entities_view(), id) ==> final(self).entities_view().len()
                == old(self).entities_view().len() - 1,
            !has_id(old(self).entities_view(), id) ==> final(self).entities_view() == old(
                self,
            ).entities_view() && final(self).connections_view() == old(self).connections_view(),
            forall|other: u32|
                other != id ==> (has_id(final(self).entities_view(), other) == has_id(
                    old(self).entities_view(),
                    other,
                )),
    {
        proof {
            self.lemma_parts_wf();
        }
        let ghost ents = self.entities@;
        let ghost conns = self.connections@;
        proof {
            if has_id(ents, id) {
                let k = choose|k: int| 0 <= k < ents.len() && ents[k].id == id;
                lemma_filter_drops_one(ents, |e: Entity| e.id != id, k);
                lemma_filter_drops_one(conns, |sl: Slot<H>| sl.id != id, k);
            } else {
                lemma_filter_keeps_all(ents, |e: Entity| e.id != id);
                lemma_filter_keeps_all(conns, |sl: Slot<H>| sl.id != id);
            }
        }
        self.entities.remove(id);
        self.connections.remove(id);
        proof {
            if has_id(ents, id) {
                let k = choose|k: int| 0 <= k < ents.len() && ents[k].id == id;
                assert(self.entities@ =~= ents.remove(k));
                assert(self.connections@ =~= conns.remove(k));
                assert forall|other: u32| other != id implies (has_id(self.entities@, other)
                    == has_id(ents, other)) by {
                    if has_id(ents, other) {
                        let j = choose|j: int| 0 <= j < ents.len() && ents[j].id == other;
                        if j < k {
                            assert(self.entities@[j].id == other);
                        } else {
                            assert(self.entities@[j - 1].id == other);
                        }
                    }
                    if has_id(self.entities@, other) {
                        let j = choose|j: int|
                            0 <= j < self.entities@.len() && self.entities@[j].id == other;
                        if j < k {
                            assert(ents[j].id == other);
                        } else {
                            assert(ents[j + 1].id == other);
                        }
                    }
                }
            }
        }
        assert(self.wf());
    }
}

/// Between two accepts the last id handed out never goes down.
proof fn lemma_last_id_rises<H>(
    before: Seq<World<H>>,
    after: Seq<World<H>>,
    ids: Seq<u32>,
    handles: Seq<H>,
    i: int,
    j: int,
)
    requires
        before.len() == ids.len() && after.len() == ids.len() && handles.len() == ids.len(),
        forall|k: int| 0 <= k < ids.len() ==> World::accepted(before[k], after[k], ids[k], handles[k]),
        forall|k: int| 0 <= k < ids.len() - 1 ==> after[k].last_id() <= before[k + 1].last_id(),
        0 <= i < j < ids.len(),
    ensures
        after[i].last_id() <= before[j].last_id(),
    decreases j - i,
{
    if j > i + 1 {
        lemma_last_id_rises(before, after, ids, handles, i, j - 1);
        assert(World::accepted(before[j - 1], after[j - 1], ids[j - 1], handles[j - 1]));
    }
}

/// Connection ids are never shared: over any run of accepts, with any other operations in
/// between (none of which lowers the last id handed out), the ids accepted are pairwise
/// distinct, and indeed rise strictly.
pub proof fn lemma_accepted_ids_distinct<H>(
    before: Seq<World<H>>,
    after: Seq<World<H>>,
    ids: Seq<u32>,
    handles: Seq<H>,
)
    requires
        before.len() == ids.len() && after.len() == ids.len() && handles.len() == ids.len(),
        forall|k: int| 0 <= k < ids.len() ==> World::accepted(before[k], after[k], ids[k], handles[k]),
        forall|k: int| 0 <= k < ids.len() - 1 ==> after[k].last_id() <= before[k + 1].last_id(),
    ensures
        forall|i: int, j: int| 0 <= i < j < ids.len() ==> ids[i] < ids[j],
        forall|i: int, j: int| 0 <= i < ids.len() && 0 <= j < ids.len() && i != j ==> ids[i] != ids[j],
{
    assert forall|i: int, j: int| 0 <= i < j < ids.len() implies ids[i] < ids[j] by {
        lemma_last_id_rises(before, after, ids, handles, i, j);
        assert(World::accepted(before[i], after[i], ids[i], handles[i]));
        assert(World::accepted(before[j], after[j], ids[j], handles[j]));
    }
    assert forall|i: int, j: int| 0 <= i < ids.len() && 0 <= j < ids.len() && i != j implies ids[i] != ids[j] by {
        if i < j {
            assert(ids[i] < ids[j]);
        } else {
            assert(ids[j] < ids[i]);
        }
    }
}

} // verus!
