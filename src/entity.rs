use vstd::prelude::*;
use crate::text::{int_text, nat_text, push_int, push_nat};

verus! {

/// The server-side record of one client: its connection id and its grid position `(x, y)`.
#[derive(Clone, Copy, Debug, PartialEq, Eq)]
pub struct Entity {
    pub id: u32,
    pub pos: (i32, i32),
}

/// The wire form of one entity: `{"position":{"x":X,"y":Y},"id":ID}`.
pub open spec fn entity_json(e: Entity) -> Seq<char> {
    "{\"position\":{\"x\":"@ + int_text(e.pos.0 as int) + ",\"y\":"@ + int_text(e.pos.1 as int)
        + "},\"id\":"@ + nat_text(e.id as nat) + "}"@
}

/// The elements of a snapshot, separated by commas.
pub open spec fn elements_json(s: Seq<Entity>) -> Seq<char>
    decreases s.len(),
{
    if s.len() == 0 {
        Seq::empty()
    } else if s.len() == 1 {
        entity_json(s[0])
    } else {
        elements_json(s.drop_last()) + ","@ + entity_json(s.last())
    }
}

/// The wire form of a snapshot: a JSON array of the entities, in the order given.
pub open spec fn snapshot_json(s: Seq<Entity>) -> Seq<char> {
    "["@ + elements_json(s) + "]"@
}

impl Entity {
    /// A freshly registered entity: it starts at the origin.
    pub fn new(id: u32) -> (r: Entity)
        ensures
            r == (Entity { id, pos: (0, 0) }),
    {
        Entity { id, pos: (0, 0) }
    }

    /// Serializes the entity into its wire form.
    pub fn to_json(&self) -> (r: String)
        ensures
            r@ == entity_json(*self),
    {
        let mut out = String::new();
        out.append("{\"position\":{\"x\":");
        push_int(&mut out, self.pos.0);
        out.append(",\"y\":");
        push_int(&mut out, self.pos.1);
        out.append("},\"id\":");
        push_nat(&mut out, self.id);
        out.append("}");
        assert(out@ =~= entity_json(*self));
        out
    }
}

/// Serializes a snapshot once, into the payload that every connection receives in one tick.
pub fn encode_snapshot(entities: &Vec<Entity>) -> (r: String)
    ensures
        r@ == snapshot_json(entities@),
        entities@.len() == 0 ==> r@ == "[]"@,
{
    let mut out = String::new();
    out.append("[");
    let mut i: usize = 0;
    while i < entities.len()
        invariant
            0 <= i <= entities@.len(),
            out@ == "["@ + elements_json(entities@.subrange(0, i as int)),
        decreases entities@.len() - i,
    {
        let json = entities[i].to_json();
        let ghost before = out@;
        if i > 0 {
            out.append(",");
        }
        out.append(json.as_str());
        proof {
            let prefix = entities@.subrange(0, i + 1);
            assert(prefix.drop_last() =~= entities@.subrange(0, i as int));
            assert(prefix.last() == entities@[i as int]);
            if i == 0 {
                assert(entities@.subrange(0, 0) =~= Seq::<Entity>::empty());
                assert(out@ =~= "["@ + elements_json(prefix));
            } else {
                assert(out@ =~= "["@ + elements_json(prefix));
            }
        }
        i = i + 1;
    }
    out.append("]");
    proof {
        assert(entities@.subrange(0, entities@.len() as int) =~= entities@);
        assert(out@ =~= snapshot_json(entities@));
        if entities@.len() == 0 {
            reveal_strlit("[");
            reveal_strlit("]");
            reveal_strlit("[]");
            assert(out@ =~= "[]"@);
        }
    }
    out
}

} // verus!
