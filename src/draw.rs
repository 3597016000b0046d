use std::collections::HashMap;
use vstd::prelude::*;

use crate::maze::{unread, ChangeEvent, Field, FieldStore, ReadCursor};

verus! {

broadcast use vstd::std_specs::hash::group_hash_axioms;

/// An opaque reference to a loaded sprite sheet.
#[derive(Debug, Clone, Copy, PartialEq, Eq, Structural)]
pub struct SheetHandle {
    pub id: u64,
}

/// What the renderer draws for one entity: a sprite of a sheet.
#[derive(Debug, Clone, Copy, PartialEq, Eq, Structural)]
pub struct SpriteRender {
    pub sprite_sheet: SheetHandle,
    pub sprite_number: usize,
}

/// The position of a cell's sprite in the maze sheet.
pub open spec fn spec_sprite_index(f: Field) -> usize {
    match f {
        Field::Path => 0,
        Field::Wall => 1,
    }
}

/// The sprite drawn for a cell in state `f`.
pub open spec fn assignment(sheet: SheetHandle, f: Field) -> SpriteRender {
    SpriteRender { sprite_sheet: sheet, sprite_number: spec_sprite_index(f) }
}

/// The position of a cell's sprite in the maze sheet: the path sprite comes
/// first, the wall sprite second.
pub fn sprite_index(f: Field) -> (r: usize)
    ensures
        r == spec_sprite_index(f),
{
    match f {
        Field::Path => 0,
        Field::Wall => 1,
    }
}

/// Whether `ev` holds an insertion or a modification of `id`.
pub open spec fn changed_in(ev: Seq<ChangeEvent>, id: u64) -> bool {
    ev.contains(ChangeEvent::Inserted(id)) || ev.contains(ChangeEvent::Modified(id))
}

/// Whether `ev` holds a removal of `id`.
pub open spec fn removed_in(ev: Seq<ChangeEvent>, id: u64) -> bool {
    ev.contains(ChangeEvent::Removed(id))
}

/// The sprites after one pass over the entries `ev`: an entity named by an
/// insertion or modification that still has a cell state gets the sprite of
/// that state; otherwise an entity named by a removal loses its sprite; every
/// other entity keeps what it had.
pub open spec fn drained(
    sprites: Map<u64, SpriteRender>,
    cells: Map<u64, Field>,
    ev: Seq<ChangeEvent>,
    sheet: SheetHandle,
) -> Map<u64, SpriteRender> {
    Map::new(
        |id: u64|
            (changed_in(ev, id) && cells.contains_key(id)) || (!removed_in(ev, id)
                && sprites.contains_key(id)),
        |id: u64|
            if changed_in(ev, id) && cells.contains_key(id) {
                assignment(sheet, cells[id])
            } else {
                sprites[id]
            },
    )
}

/// The sprites currently assigned, keyed by entity.
#[derive(Debug)]
pub struct SpriteStore {
    sprites: HashMap<u64, SpriteRender>,
}

impl SpriteStore {
    pub closed spec fn view(&self) -> Map<u64, SpriteRender> {
        self.sprites@
    }

    pub fn new() -> (r: SpriteStore)
        ensures
            r.view() == Map::<u64, SpriteRender>::empty(),
    {
        SpriteStore { sprites: HashMap::new() }
    }

    /// The sprite assigned to `id`, if any.
    pub fn get(&self, id: u64) -> (r: Option<SpriteRender>)
        ensures
            r == (if self.view().contains_key(id) {
                Some(self.view()[id])
            } else {
                None
            }),
    {
        match self.sprites.get(&id) {
            Some(s) => Some(*s),
            None => None,
        }
    }

    /// Assigns `s` to `id`, replacing any earlier sprite.
    pub fn insert(&mut self, id: u64, s: SpriteRender)
        ensures
            final(self).view() == old(self).view().insert(id, s),
    {
        self.sprites.insert(id, s);
    }

    /// Takes the sprite of `id` away; does nothing where it has none.
    pub fn remove(&mut self, id: u64)
        ensures
            final(self).view() == old(self).view().remove(id),
    {
        self.sprites.remove(&id);
    }
}

/// The data the sprite pass works on: the cell states it reads and the
/// sprites it writes.
#[derive(Debug)]
pub struct SetSpriteData {
    pub fields: FieldStore,
    pub sprites: SpriteStore,
}

/// Builder of the sprite pass.
#[derive(Debug)]
pub struct SetSprites;

/// The sprite pass: keeps the sprites in step with the cell states by
/// reading only the changelog entries it has not seen yet.
#[derive(Debug)]
pub struct SetSpritesSystem {
    pub maze: SheetHandle,
    pub field_reader: ReadCursor,
}

impl SetSprites {
    /// The sprite pass for the sheet `maze`, reading the changelog of
    /// `data.fields` from its current end.
    pub fn build(self, data: &SetSpriteData, maze: SheetHandle) -> (r: SetSpritesSystem)
        ensures
            r.maze == maze,
            r.field_reader.pos == data.fields.events().len(),
    {
        SetSpritesSystem { maze, field_reader: data.fields.register_reader() }
    }
}

proof fn lemma_take_push_contains<A>(s: Seq<A>, i: int, e: A)
    requires
        0 <= i < s.len(),
    ensures
        s.take(i + 1).contains(e) == (s.take(i).contains(e) || s[i] == e),
{
    let t = s.take(i + 1);
    let t0 = s.take(i);
    if t.contains(e) {
        let k = choose|k: int| 0 <= k < t.len() && t[k] == e;
        if k < i {
            assert(t0[k] == e);
        }
    }
    if t0.contains(e) {
        let k = choose|k: int| 0 <= k < t0.len() && t0[k] == e;
        assert(t[k] == e);
    }
    if s[i] == e {
        assert(t[i] == e);
    }
}

/// Whether `id` is in `ids`.
fn contains_id(ids: &Vec<u64>, id: u64) -> (r: bool)
    ensures
        r == ids@.contains(id),
{
    let mut i: usize = 0;
    while i < ids.len()
        invariant
            i <= ids@.len(),
            forall|k: int| 0 <= k < i ==> ids@[k] != id,
        decreases ids.len() - i,
    {
        if ids[i] == id {
            return true;
        }
        i = i + 1;
    }
    false
}

/// Adds `id` to `ids` unless it is already there.
fn add_id(ids: &mut Vec<u64>, id: u64)
    ensures
        forall|x: u64| #[trigger] final(ids)@.contains(x) == (old(ids)@.contains(x) || x == id),
{
    if !contains_id(ids, id) {
        ids.push(id);
        proof {
            assert forall|x: u64| #[trigger] ids@.contains(x) == (old(ids)@.contains(x) || x == id) by {
                if old(ids)@.contains(x) {
                    let k = choose|k: int| 0 <= k < old(ids)@.len() && old(ids)@[k] == x;
                    assert(ids@[k] == x);
                }
                if ids@.contains(x) && x != id {
                    let k = choose|k: int| 0 <= k < ids@.len() && ids@[k] == x;
                    assert(old(ids)@[k] == x);
                }
                assert(ids@[ids@.len() - 1] == id);
            }
        }
    }
}

impl SetSpritesSystem {
    /// One pass: drains the unread changelog entries into the set of changed
    /// and the set of removed entities, takes the sprites of the removed
    /// ones away and gives each changed one that still has a cell state the
    /// sprite of that state. The cell states are not touched.
    pub fn run(&mut self, data: &mut SetSpriteData)
        ensures
            final(data).fields == old(data).fields,
            final(data).sprites.view() == drained(
                old(data).sprites.view(),
                old(data).fields.cells(),
                unread(old(data).fields.events(), old(self).field_reader.pos as int),
                old(self).maze,
            ),
            final(self).maze == old(self).maze,
            final(self).field_reader.pos == old(data).fields.events().len(),
    {
        let ev = data.fields.read(&mut self.field_reader);
        let ghost s0 = data.sprites.view();
        let ghost cells = data.fields.cells();
        let mut to_update: Vec<u64> = Vec::new();
        let mut to_delete: Vec<u64> = Vec::new();
        let n = ev.len();
        let mut i: usize = 0;
        while i < n
            invariant
                n == ev@.len(),
                i <= n,
                forall|x: u64| #[trigger] to_update@.contains(x) == changed_in(ev@.take(i as int), x),
                forall|x: u64| #[trigger] to_delete@.contains(x) == removed_in(ev@.take(i as int), x),
            decreases n - i,
        {
            match ev[i] {
                ChangeEvent::Inserted(id) => add_id(&mut to_update, id),
                ChangeEvent::Modified(id) => add_id(&mut to_update, id),
                ChangeEvent::Removed(id) => add_id(&mut to_delete, id),
            }
            proof {
                assert forall|x: u64|
                    changed_in(ev@.take(i + 1), x) == (changed_in(ev@.take(i as int), x) || ev@[i as int]
                        == ChangeEvent::Inserted(x) || ev@[i as int] == ChangeEvent::Modified(x))
                        && removed_in(ev@.take(i + 1), x) == (removed_in(ev@.take(i as int), x)
                        || ev@[i as int] == ChangeEvent::Removed(x)) by {
                    lemma_take_push_contains(ev@, i as int, ChangeEvent::Inserted(x));
                    lemma_take_push_contains(ev@, i as int, ChangeEvent::Modified(x));
                    lemma_take_push_contains(ev@, i as int, ChangeEvent::Removed(x));
                }
            }
            i = i + 1;
        }
        assert(ev@.take(n as int) =~= ev@);
        let nd = to_delete.len();
        let mut k: usize = 0;
        while k < nd
            invariant
                nd == to_delete@.len(),
                k <= nd,
                data.fields == old(data).fields,
                data.sprites.view() == Map::new(
                    |id: u64| s0.contains_key(id) && !to_delete@.take(k as int).contains(id),
                    |id: u64| s0[id],
                ),
            decreases nd - k,
        {
            data.sprites.remove(to_delete[k]);
            proof {
                assert forall|x: u64|
                    to_delete@.take(k + 1).contains(x) == (to_delete@.take(k as int).contains(x)
                        || to_delete@[k as int] == x) by {
                    lemma_take_push_contains(to_delete@, k as int, x);
                }
                assert(data.sprites.view() =~= Map::new(
                    |id: u64| s0.contains_key(id) && !to_delete@.take(k + 1).contains(id),
                    |id: u64| s0[id],
                ));
            }
            k = k + 1;
        }
        assert(to_delete@.take(nd as int) =~= to_delete@);
        let ghost s1 = data.sprites.view();
        let nu = to_update.len();
        let mut j: usize = 0;
        while j < nu
            invariant
                nu == to_update@.len(),
                j <= nu,
                data.fields == old(data).fields,
                cells == data.fields.cells(),
                data.sprites.view() == Map::new(
                    |id: u64|
                        (to_update@.take(j as int).contains(id) && cells.contains_key(id))
                            || s1.contains_key(id),
                    |id: u64|
                        if to_update@.take(j as int).contains(id) && cells.contains_key(id) {
                            assignment(self.maze, cells[id])
                        } else {
                            s1[id]
                        },
                ),
            decreases nu - j,
        {
            let id = to_update[j];
            match data.fields.get(id) {
                Some(f) => {
                    let idx = sprite_index(f);
                    data.sprites.insert(
                        id,
                        SpriteRender { sprite_sheet: self.maze, sprite_number: idx },
                    );
                },
                None => {},
            }
            proof {
                let t = to_update@.take(j + 1);
                assert forall|x: u64|
                    t.contains(x) == (to_update@.take(j as int).contains(x) || id == x) by {
                    lemma_take_push_contains(to_update@, j as int, x);
                }
                assert(data.sprites.view() =~= Map::new(
                    |x: u64| (t.contains(x) && cells.contains_key(x)) || s1.contains_key(x),
                    |x: u64|
                        if t.contains(x) && cells.contains_key(x) {
                            assignment(self.maze, cells[x])
                        } else {
                            s1[x]
                        },
                ));
            }
            j = j + 1;
        }
        proof {
            let u = unread(old(data).fields.events(), old(self).field_reader.pos as int);
            assert(ev@ == u);
            assert(to_update@.take(nu as int) =~= to_update@);
            assert(data.sprites.view() =~= drained(s0, cells, u, self.maze));
        }
    }
}

} // verus!
