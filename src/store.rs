use vstd::prelude::*;
use crate::command::{command_of, step, Command, Message};
use crate::entity::Entity;
use crate::removal::{lemma_filter_drops_one, lemma_filter_keeps_all};

verus! {

/// Ids that rise strictly along the sequence; in particular no id occurs twice.
pub open spec fn ids_increasing(s: Seq<Entity>) -> bool {
    forall|i: int, j: int| 0 <= i < j < s.len() ==> s[i].id < s[j].id
}

/// Whether some entity of the sequence has the id.
pub open spec fn has_id(s: Seq<Entity>, id: u32) -> bool {
    exists|i: int| 0 <= i < s.len() && s[i].id == id
}

/// The entities after the entity with the id, if any, has obeyed a command.
pub open spec fn moved(s: Seq<Entity>, id: u32, c: Command) -> Seq<Entity> {
    s.map_values(|e: Entity| if e.id == id { Entity { id: e.id, pos: step(e.pos, c) } } else { e })
}

/// The entities without the one that has the id.
pub open spec fn without(s: Seq<Entity>, id: u32) -> Seq<Entity> {
    s.filter(|e: Entity| e.id != id)
}

/// The entities after a message from the connection with the id: a text frame is decoded
/// and obeyed, any other frame changes nothing.
pub open spec fn after_message(s: Seq<Entity>, id: u32, msg: Message) -> Seq<Entity> {
    match msg {
        Message::Text(t) => moved(s, id, command_of(t@)),
        Message::NonText => s,
    }
}

/// The shared world state: one entity per registered connection, kept in order of id.
pub struct EntityStore {
    entities: Vec<Entity>,
}

impl View for EntityStore {
    type V = Seq<Entity>;

    closed spec fn view(&self) -> Seq<Entity> {
        self.entities@
    }
}

impl EntityStore {
    pub open spec fn wf(&self) -> bool {
        ids_increasing(self@)
    }

    /// An empty store.
    pub fn new() -> (r: EntityStore)
        ensures
            r@ == Seq::<Entity>::empty(),
            r.wf(),
    {
        EntityStore { entities: Vec::new() }
    }

    /// The number of entities.
    pub fn len(&self) -> (r: usize)
        ensures
            r == self@.len(),
    {
        self.entities.len()
    }

    fn find(&self, id: u32) -> (r: Option<usize>)
        ensures
            match r {
                Some(k) => k < self@.len() && self@[k as int].id == id,
                None => !has_id(self@, id),
            },
    {
        let mut i: usize = 0;
        while i < self.entities.len()
            invariant
                0 <= i <= self@.len(),
                self@ == self.entities@,
                forall|j: int| 0 <= j < i ==> self@[j].id != id,
            decreases self@.len() - i,
        {
            if self.entities[i].id == id {
                return Some(i);
            }
            i = i + 1;
        }
        None
    }

    /// The entity with the id, if there is one.
    pub fn get(&self, id: u32) -> (r: Option<Entity>)
        requires
            self.wf(),
        ensures
            r is None <==> !has_id(self@, id),
            r matches Some(e) ==> e.id == id && self@.contains(e),
    {
        match self.find(id) {
            Some(k) => {
                let e = self.entities[k];
                assert(self@[k as int] == e);
                Some(e)
            },
            None => None,
        }
    }

    /// Registers a new entity at the origin, under an id above every id present.
    pub fn register(&mut self, id: u32)
        requires
            old(self).wf(),
            forall|i: int| 0 <= i < old(self)@.len() ==> old(self)@[i].id < id,
        ensures
            final(self)@ == old(self)@.push(Entity { id, pos: (0, 0) }),
            final(self).wf(),
    {
        self.entities.push(Entity::new(id));
    }

    /// Applies a command to the entity with the id; without such an entity nothing changes.
    pub fn apply(&mut self, id: u32, c: Command)
        requires
            old(self).wf(),
        ensures
            final(self)@ == moved(old(self)@, id, c),
            final(self).wf(),
    {
        match self.find(id) {
            Some(k) => {
                let e = self.entities[k];
                let next = Entity { id: e.id, pos: c.apply(e.pos) };
                self.entities.set(k, next);
                assert(self@ =~= moved(old(self)@, id, c));
            },
            None => {
                assert(self@ =~= moved(old(self)@, id, c));
            },
        }
    }

    /// Removes the entity with the id, if there is one.
    pub fn remove(&mut self, id: u32)
        requires
            old(self).wf(),
        ensures
            final(self)@ == without(old(self)@, id),
            final(self).wf(),
    {
        match self.find(id) {
            Some(k) => {
                proof {
                    lemma_filter_drops_one(self@, |e: Entity| e.id != id, k as int);
                }
                self.entities.remove(k);
                assert(self@ =~= old(self)@.remove(k as int));
            },
            None => {
                proof {
                    lemma_filter_keeps_all(self@, |e: Entity| e.id != id);
                }
            },
        }
    }

    /// A point-in-time copy of every entity, in order of id.
    pub fn snapshot(&self) -> (r: Vec<Entity>)
        ensures
            r@ == self@,
    {
        let mut r: Vec<Entity> = Vec::new();
        let mut i: usize = 0;
        while i < self.entities.len()
            invariant
                0 <= i <= self@.len(),
                self@ == self.entities@,
                r@ == self@.subrange(0, i as int),
            decreases self@.len() - i,
        {
            r.push(self.entities[i]);
            i = i + 1;
            assert(r@ =~= self@.subrange(0, i as int));
        }
        assert(r@ =~= self@);
        r
    }
}

/// Applies one inbound message from the connection with the id to the store.
pub fn process_message(id: u32, msg: &Message, entities: &mut EntityStore)
    requires
        old(entities).wf(),
    ensures
        final(entities)@ == after_message(old(entities)@, id, *msg),
        final(entities).wf(),
{
    match msg {
        Message::Text(txt) => {
            let c = crate::command::decode(txt);
            entities.apply(id, c);
        },
        Message::NonText => {},
    }
}

/// Messages from two different connections do not interfere: applied in either order they
/// give the same entities, and each of the two entities ends exactly where its own message
/// alone takes it.
pub proof fn lemma_messages_commute(s: Seq<Entity>, a: u32, ma: Message, b: u32, mb: Message)
    requires
        a != b,
    ensures
        after_message(after_message(s, a, ma), b, mb) == after_message(
            after_message(s, b, mb),
            a,
            ma,
        ),
        after_message(after_message(s, a, ma), b, mb).len() == s.len(),
        forall|i: int|
            0 <= i < s.len() && s[i].id == a ==> #[trigger] after_message(
                after_message(s, a, ma),
                b,
                mb,
            )[i] == after_message(s, a, ma)[i],
        forall|i: int|
            0 <= i < s.len() && s[i].id == b ==> #[trigger] after_message(
                after_message(s, a, ma),
                b,
                mb,
            )[i] == after_message(s, b, mb)[i],
        forall|i: int|
            0 <= i < s.len() && s[i].id != a && s[i].id != b ==> #[trigger] after_message(
                after_message(s, a, ma),
                b,
                mb,
            )[i] == s[i],
{
    let ab = after_message(after_message(s, a, ma), b, mb);
    let ba = after_message(after_message(s, b, mb), a, ma);
    assert(ab =~= ba);
}

} // verus!
