use std::collections::HashMap;
use vstd::prelude::*;

verus! {

broadcast use vstd::std_specs::hash::group_hash_axioms;

/// The state of one cell of the maze.
#[derive(Debug, Clone, Copy, PartialEq, Eq, Structural)]
pub enum Field {
    Wall,
    Path,
}

/// One entry of a store's changelog. It names the entity only: a reader
/// looks the current value up in the store.
#[derive(Debug, Clone, Copy, PartialEq, Eq, Structural)]
pub enum ChangeEvent {
    Inserted(u64),
    Modified(u64),
    Removed(u64),
}

/// A mutation of a [`FieldStore`], as it appears in statements about
/// sequences of calls.
#[derive(Debug, Clone, Copy, PartialEq, Eq, Structural)]
pub enum Op {
    Put(u64, Field),
    Delete(u64),
}

/// The cell map after one mutation.
pub open spec fn step_map(m: Map<u64, Field>, op: Op) -> Map<u64, Field> {
    match op {
        Op::Put(id, f) => m.insert(id, f),
        Op::Delete(id) => m.remove(id),
    }
}

/// What one mutation appends to the changelog: `Inserted` for a write to an
/// absent entity, `Modified` for a write to a present one, `Removed` for the
/// deletion of a present one, and nothing for the deletion of an absent one.
pub open spec fn step_events(m: Map<u64, Field>, op: Op) -> Seq<ChangeEvent> {
    match op {
        Op::Put(id, _) => if m.contains_key(id) {
            seq![ChangeEvent::Modified(id)]
        } else {
            seq![ChangeEvent::Inserted(id)]
        },
        Op::Delete(id) => if m.contains_key(id) {
            seq![ChangeEvent::Removed(id)]
        } else {
            seq![]
        },
    }
}

/// The cell map after a sequence of mutations, applied in order.
pub open spec fn apply_ops(m: Map<u64, Field>, ops: Seq<Op>) -> Map<u64, Field>
    decreases ops.len(),
{
    if ops.len() == 0 {
        m
    } else {
        step_map(apply_ops(m, ops.drop_last()), ops.last())
    }
}

/// The changelog entries that a sequence of mutations appends, in order.
pub open spec fn ops_events(m: Map<u64, Field>, ops: Seq<Op>) -> Seq<ChangeEvent>
    decreases ops.len(),
{
    if ops.len() == 0 {
        seq![]
    } else {
        ops_events(m, ops.drop_last()) + step_events(apply_ops(m, ops.drop_last()), ops.last())
    }
}

/// The entries of `log` from position `pos` on; nothing where `pos` lies
/// past its end.
pub open spec fn unread(log: Seq<ChangeEvent>, pos: int) -> Seq<ChangeEvent> {
    if 0 <= pos <= log.len() {
        log.subrange(pos, log.len() as int)
    } else {
        seq![]
    }
}

/// A consumer's position in a store's changelog.
#[derive(Debug)]
pub struct ReadCursor {
    pub pos: usize,
}

/// Cell states keyed by entity, with an append-only changelog of every
/// mutation.
#[derive(Debug)]
pub struct FieldStore {
    fields: HashMap<u64, Field>,
    log: Vec<ChangeEvent>,
}

impl FieldStore {
    /// The current cell states.
    pub closed spec fn cells(&self) -> Map<u64, Field> {
        self.fields@
    }

    /// Every changelog entry appended so far, oldest first.
    pub closed spec fn events(&self) -> Seq<ChangeEvent> {
        self.log@
    }

    pub fn new() -> (r: FieldStore)
        ensures
            r.cells() == Map::<u64, Field>::empty(),
            r.events() == Seq::<ChangeEvent>::empty(),
    {
        FieldStore { fields: HashMap::new(), log: Vec::new() }
    }

    /// The state of cell `id`, if it has one.
    pub fn get(&self, id: u64) -> (r: Option<Field>)
        ensures
            r == (if self.cells().contains_key(id) {
                Some(self.cells()[id])
            } else {
                None
            }),
    {
        match self.fields.get(&id) {
            Some(f) => Some(*f),
            None => None,
        }
    }

    /// The number of changelog entries appended so far.
    pub fn event_count(&self) -> (r: usize)
        ensures
            r == self.events().len(),
    {
        self.log.len()
    }

    /// Writes `f` to cell `id` and records the write.
    pub fn set(&mut self, id: u64, f: Field)
        requires
            old(self).events().len() < usize::MAX,
        ensures
            final(self).cells() == step_map(old(self).cells(), Op::Put(id, f)),
            final(self).events() == old(self).events() + step_events(
                old(self).cells(),
                Op::Put(id, f),
            ),
    {
        let prev = self.fields.insert(id, f);
        match prev {
            Some(_) => self.log.push(ChangeEvent::Modified(id)),
            None => self.log.push(ChangeEvent::Inserted(id)),
        }
        proof {
            let e = step_events(old(self).cells(), Op::Put(id, f));
            assert(self.log@ =~= old(self).log@ + e);
        }
    }

    /// Removes cell `id` and records the removal; does nothing where the
    /// cell has no state.
    pub fn delete(&mut self, id: u64)
        requires
            old(self).events().len() < usize::MAX,
        ensures
            final(self).cells() == step_map(old(self).cells(), Op::Delete(id)),
            final(self).events() == old(self).events() + step_events(
                old(self).cells(),
                Op::Delete(id),
            ),
    {
        let prev = self.fields.remove(&id);
        match prev {
            Some(_) => self.log.push(ChangeEvent::Removed(id)),
            None => {
                assert(self.fields@ =~= old(self).fields@.remove(id));
            },
        }
        proof {
            let e = step_events(old(self).cells(), Op::Delete(id));
            assert(self.log@ =~= old(self).log@ + e);
        }
    }

    /// A cursor that sees the entries appended from now on.
    pub fn register_reader(&self) -> (r: ReadCursor)
        ensures
            r.pos == self.events().len(),
    {
        ReadCursor { pos: self.log.len() }
    }

    /// The entries that `cursor` has not seen yet, in the order they were
    /// appended; the cursor then stands at the end of the changelog.
    pub fn read(&self, cursor: &mut ReadCursor) -> (r: Vec<ChangeEvent>)
        ensures
            r@ == unread(self.events(), old(cursor).pos as int),
            final(cursor).pos == self.events().len(),
    {
        let mut out: Vec<ChangeEvent> = Vec::new();
        let end = self.log.len();
        if cursor.pos <= end {
            let mut i: usize = cursor.pos;
            while i < end
                invariant
                    end == self.log@.len(),
                    old(cursor).pos <= i <= end,
                    out@ == self.log@.subrange(old(cursor).pos as int, i as int),
                decreases end - i,
            {
                out.push(self.log[i]);
                i = i + 1;
            }
        }
        cursor.pos = end;
        out
    }
}

} // verus!
