use vstd::prelude::*;

use crate::draw::{assignment, changed_in, drained, removed_in, SheetHandle, SpriteRender};
use crate::maze::{apply_ops, ops_events, step_events, step_map, unread, ChangeEvent, Field, Op};

verus! {

/// The entity a mutation is about.
pub open spec fn op_id(op: Op) -> u64 {
    match op {
        Op::Put(id, _) => id,
        Op::Delete(id) => id,
    }
}

/// The changelog entry of one mutation that appends one.
pub open spec fn event_of(m: Map<u64, Field>, op: Op) -> ChangeEvent {
    match op {
        Op::Put(id, _) => if m.contains_key(id) {
            ChangeEvent::Modified(id)
        } else {
            ChangeEvent::Inserted(id)
        },
        Op::Delete(id) => ChangeEvent::Removed(id),
    }
}

/// Every deletion in `ops` is of an entity that has a state at that point.
pub open spec fn deletes_present(m: Map<u64, Field>, ops: Seq<Op>) -> bool {
    forall|i: int|
        0 <= i < ops.len() ==> match #[trigger] ops[i] {
            Op::Delete(id) => apply_ops(m, ops.take(i)).contains_key(id),
            _ => true,
        }
}

/// Every cell with a state has exactly the sprite of that state, and no other
/// entity has a sprite.
pub open spec fn in_step(
    sprites: Map<u64, SpriteRender>,
    cells: Map<u64, Field>,
    sheet: SheetHandle,
) -> bool {
    &&& forall|id: u64| #[trigger] sprites.contains_key(id) == cells.contains_key(id)
    &&& forall|id: u64|
        #[trigger] cells.contains_key(id) ==> sprites[id] == assignment(sheet, cells[id])
}

proof fn lemma_contains_concat(a: Seq<ChangeEvent>, b: Seq<ChangeEvent>, e: ChangeEvent)
    ensures
        (a + b).contains(e) == (a.contains(e) || b.contains(e)),
{
    let c = a + b;
    if c.contains(e) {
        let k = choose|k: int| 0 <= k < c.len() && c[k] == e;
        if k < a.len() {
            assert(a[k] == e);
        } else {
            assert(b[k - a.len()] == e);
        }
    }
    if a.contains(e) {
        let k = choose|k: int| 0 <= k < a.len() && a[k] == e;
        assert(c[k] == e);
    }
    if b.contains(e) {
        let k = choose|k: int| 0 <= k < b.len() && b[k] == e;
        assert(c[k + a.len()] == e);
    }
}

/// Set/delete determinism: after a sequence of mutations, each entity holds
/// the value of the last write to it, or nothing where the last mutation of
/// it was a deletion; an entity that no mutation names keeps what it had.
pub proof fn lemma_last_write_wins(m: Map<u64, Field>, ops: Seq<Op>, id: u64)
    ensures
        (forall|i: int| 0 <= i < ops.len() ==> op_id(#[trigger] ops[i]) != id) ==> (apply_ops(
            m,
            ops,
        ).contains_key(id) == m.contains_key(id) && apply_ops(m, ops).index(id) == m.index(id)),
        forall|i: int|
            0 <= i < ops.len() && op_id(#[trigger] ops[i]) == id && (forall|k: int|
                i < k < ops.len() ==> op_id(#[trigger] ops[k]) != id) ==> match ops[i] {
                Op::Put(_, f) => apply_ops(m, ops).contains_key(id) && apply_ops(m, ops)[id] == f,
                Op::Delete(_) => !apply_ops(m, ops).contains_key(id),
            },
    decreases ops.len(),
{
    if ops.len() > 0 {
        let pre = ops.drop_last();
        lemma_last_write_wins(m, pre, id);
        let last = ops.last();
        assert forall|i: int| 0 <= i < pre.len() implies pre[i] == ops[i] by {}
        if forall|i: int| 0 <= i < ops.len() ==> op_id(#[trigger] ops[i]) != id {
            assert(op_id(ops[ops.len() - 1]) != id);
        }
        assert forall|i: int|
            0 <= i < ops.len() && op_id(#[trigger] ops[i]) == id && (forall|k: int|
                i < k < ops.len() ==> op_id(#[trigger] ops[k]) != id) implies match ops[i] {
            Op::Put(_, f) => apply_ops(m, ops).contains_key(id) && apply_ops(m, ops)[id] == f,
            Op::Delete(_) => !apply_ops(m, ops).contains_key(id),
        } by {
            if i < ops.len() - 1 {
                assert(op_id(ops[ops.len() - 1]) != id);
                assert(pre[i] == ops[i]);
                assert forall|k: int| i < k < pre.len() implies op_id(#[trigger] pre[k]) != id by {
                    assert(pre[k] == ops[k]);
                }
            }
        }
    }
}

/// Changelog completeness: where every deletion is of a present entity, the
/// mutations append exactly one entry each, in call order: `Inserted` for a
/// write to an absent entity, `Modified` for a write to a present one,
/// `Removed` for a deletion. A reader that stood at the end of the log
/// before them reads exactly those entries.
pub proof fn lemma_changelog_complete(m: Map<u64, Field>, ops: Seq<Op>, log: Seq<ChangeEvent>)
    requires
        deletes_present(m, ops),
    ensures
        ops_events(m, ops).len() == ops.len(),
        forall|i: int|
            0 <= i < ops.len() ==> #[trigger] ops_events(m, ops)[i] == event_of(
                apply_ops(m, ops.take(i)),
                ops[i],
            ),
        unread(log + ops_events(m, ops), log.len() as int) == ops_events(m, ops),
    decreases ops.len(),
{
    let all = log + ops_events(m, ops);
    assert(all.subrange(log.len() as int, all.len() as int) =~= ops_events(m, ops));
    if ops.len() > 0 {
        let pre = ops.drop_last();
        let n = ops.len() - 1;
        assert forall|i: int| 0 <= i < pre.len() implies pre.take(i) == ops.take(i) by {
            assert(pre.take(i) =~= ops.take(i));
        }
        assert(deletes_present(m, pre)) by {
            assert forall|i: int| 0 <= i < pre.len() implies match #[trigger] pre[i] {
                Op::Delete(id) => apply_ops(m, pre.take(i)).contains_key(id),
                _ => true,
            } by {
                assert(pre[i] == ops[i]);
            }
        }
        lemma_changelog_complete(m, pre, log);
        assert(ops.take(n) =~= pre);
        let mm = apply_ops(m, pre);
        match ops[n] {
            Op::Delete(id) => {
                assert(mm.contains_key(id));
            },
            _ => {},
        }
        assert(step_events(mm, ops.last()) =~= seq![event_of(mm, ops[n])]);
        let ev = ops_events(m, ops);
        assert forall|i: int| 0 <= i < ops.len() implies #[trigger] ev[i] == event_of(
            apply_ops(m, ops.take(i)),
            ops[i],
        ) by {
            if i < n {
                assert(ev[i] == ops_events(m, pre)[i]);
                assert(pre[i] == ops[i]);
            }
        }
    }
}

/// What a sequence of mutations leaves behind, as the sprite pass needs it:
/// an entity named by no entry keeps its state; a present entity that no
/// insertion or modification names is named by no removal either; an absent
/// entity named by an insertion or modification is named by a removal.
proof fn lemma_ops_trace(m0: Map<u64, Field>, ops: Seq<Op>)
    ensures
        forall|id: u64|
            !changed_in(ops_events(m0, ops), id) && !removed_in(ops_events(m0, ops), id) ==> (
            #[trigger] apply_ops(m0, ops).contains_key(id) == m0.contains_key(id) && (
            m0.contains_key(id) ==> apply_ops(m0, ops)[id] == m0[id])),
        forall|id: u64|
            #[trigger] apply_ops(m0, ops).contains_key(id) && !changed_in(ops_events(m0, ops), id)
                ==> !removed_in(ops_events(m0, ops), id),
        forall|id: u64|
            !(#[trigger] apply_ops(m0, ops).contains_key(id)) && changed_in(
                ops_events(m0, ops),
                id,
            ) ==> removed_in(ops_events(m0, ops), id),
    decreases ops.len(),
{
    if ops.len() > 0 {
        let pre = ops.drop_last();
        lemma_ops_trace(m0, pre);
        let m1 = apply_ops(m0, pre);
        let ev = ops_events(m0, pre);
        let st = step_events(m1, ops.last());
        let m2 = apply_ops(m0, ops);
        let ev2 = ops_events(m0, ops);
        assert(ev2 == ev + st);
        assert forall|x: u64|
            changed_in(ev2, x) == (changed_in(ev, x) || changed_in(st, x)) && removed_in(ev2, x)
                == (removed_in(ev, x) || removed_in(st, x)) by {
            lemma_contains_concat(ev, st, ChangeEvent::Inserted(x));
            lemma_contains_concat(ev, st, ChangeEvent::Modified(x));
            lemma_contains_concat(ev, st, ChangeEvent::Removed(x));
        }
        match ops.last() {
            Op::Put(id, f) => {
                assert(m2 == m1.insert(id, f));
                if m1.contains_key(id) {
                    assert(st[0] == ChangeEvent::Modified(id));
                    assert(changed_in(st, id));
                } else {
                    assert(st[0] == ChangeEvent::Inserted(id));
                    assert(changed_in(st, id));
                }
                assert forall|x: u64| x != id implies !changed_in(st, x) && !removed_in(st, x) by {}
            },
            Op::Delete(id) => {
                assert(m2 == m1.remove(id));
                if m1.contains_key(id) {
                    assert(st[0] == ChangeEvent::Removed(id));
                    assert(removed_in(st, id));
                } else {
                    assert(m2 =~= m1);
                }
                assert forall|x: u64| x != id implies !changed_in(st, x) && !removed_in(st, x) by {}
                assert forall|x: u64| !changed_in(st, x) by {}
            },
        }
    }
}

/// Convergence of the sprite pass: starting from sprites in step with the
/// cell states and a reader at the end of the log, after any sequence of
/// mutations and one pass over the entries that reader has not seen, the sprites are in step with the new cell states: each
/// present cell has the sprite of its current state, and an entity whose
/// cell was removed has no sprite.
pub proof fn lemma_sprites_converge(
    sprites: Map<u64, SpriteRender>,
    m0: Map<u64, Field>,
    ops: Seq<Op>,
    log: Seq<ChangeEvent>,
    sheet: SheetHandle,
)
    requires
        in_step(sprites, m0, sheet),
    ensures
        in_step(
            drained(
                sprites,
                apply_ops(m0, ops),
                unread(log + ops_events(m0, ops), log.len() as int),
                sheet,
            ),
            apply_ops(m0, ops),
            sheet,
        ),
{
    lemma_ops_trace(m0, ops);
    let m1 = apply_ops(m0, ops);
    let ev = ops_events(m0, ops);
    let all = log + ev;
    assert(unread(all, log.len() as int) =~= ev);
    let d = drained(sprites, m1, ev, sheet);
    assert forall|id: u64| #[trigger] d.contains_key(id) == m1.contains_key(id) by {
        if !changed_in(ev, id) && !removed_in(ev, id) {
            assert(sprites.contains_key(id) == m0.contains_key(id));
        }
    }
    assert forall|id: u64| #[trigger] m1.contains_key(id) implies d[id] == assignment(sheet, m1[id]) by {
        if !changed_in(ev, id) {
            assert(!removed_in(ev, id));
            assert(m0.contains_key(id));
        }
    }
}

/// Deleting an entity that has no state changes neither the cells nor the
/// changelog.
pub proof fn lemma_delete_absent(m: Map<u64, Field>, id: u64)
    requires
        !m.contains_key(id),
    ensures
        step_map(m, Op::Delete(id)) == m,
        step_events(m, Op::Delete(id)) == Seq::<ChangeEvent>::empty(),
{
    assert(m.remove(id) =~= m);
}

/// Reader isolation: the entries a cursor reads depend on the log and its
/// own position alone. A reader that drains a log and drains it again after
/// more entries were appended reads, in order, exactly what a reader at the
/// same starting position reads in one drain of the longer log.
pub proof fn lemma_readers_isolated(l1: Seq<ChangeEvent>, l2: Seq<ChangeEvent>, pos: int)
    requires
        l1.len() <= l2.len(),
        l2.subrange(0, l1.len() as int) == l1,
        0 <= pos <= l1.len(),
    ensures
        unread(l2, pos) == unread(l1, pos) + unread(l2, l1.len() as int),
{
    assert forall|i: int| 0 <= i < l1.len() implies l1[i] == l2[i] by {
        assert(l2.subrange(0, l1.len() as int)[i] == l2[i]);
    }
    assert(unread(l2, pos) =~= unread(l1, pos) + unread(l2, l1.len() as int));
}

} // verus!
