//! The world object: the authoritative state, its spatial index, the
//! pending-action queue and the event queue, together with the commit step
//! that merges an accepted diff, the event derivation listeners, and the
//! breadth-first cascade processor.

use vstd::prelude::*;
use crate::action::{
    future_glyph, future_name, future_player, future_position, populate_action, populated,
    Action, ActionType, FutureState,
};
use crate::components::{in_bounds, sq_dist, EntityId, Name, Position, COORD_LIMIT};
use crate::events::GameEvent;
use crate::rules::{
    all_clear, collision, collision_hit, compute_energy_cost, death, die_reactions,
    energy_reactions, hit_reactions, ActionStatus,
};
use crate::spatial::{spatial_bounded, spatial_map, SpatialIndex};
use crate::store::GameState;
use crate::table::Table;

verus! {

/// The spatial index mirrors the position table exactly.
pub open spec fn sync(pos: Map<u64, Position>, spv: Map<u64, (i64, i64)>) -> bool {
    &&& forall|k: u64|
        #[trigger] pos.contains_key(k) ==> spv.contains_key(k) && spv[k] == (
        pos[k].x,
        pos[k].y,
        )
    &&& forall|k: u64| #[trigger] spv.contains_key(k) ==> pos.contains_key(k)
}

/// What a table looks like after a diff is merged into it: the staged
/// removals are applied first, then the staged updates.
pub open spec fn apply_map<V>(pre: Map<u64, V>, upd: Map<u64, V>, rem: Map<u64, ()>) -> Map<
    u64,
    V,
> {
    pre.remove_keys(rem.dom()).union_prefer_right(upd)
}

/// Merge one component table: remove the staged ids, then insert the
/// staged entries.
fn apply_table<V: Copy>(t: &mut Table<V>, upd: &Table<V>, rem: &Table<()>)
    requires
        old(t).wf(),
        upd.wf(),
        rem.wf(),
    ensures
        final(t).wf(),
        final(t)@ =~= apply_map(old(t)@, upd@, rem@),
{
    let ghost pre = t@;
    let nr = rem.len();
    let mut i: usize = 0;
    while i < nr
        invariant
            t.wf(),
            upd.wf(),
            rem.wf(),
            nr == rem.pairs().len(),
            i <= nr,
            forall|j: int| 0 <= j < i ==> !t@.contains_key((#[trigger] rem.pairs()[j]).0),
            forall|k: u64| #[trigger] t@.contains_key(k) ==> pre.contains_key(k) && t@[k] == pre[k],
            forall|k: u64|
                pre.contains_key(k) && !rem@.contains_key(k) ==> #[trigger] t@.contains_key(k),
        decreases nr - i,
    {
        let k = rem.key_at(i);
        let ghost pre_t = t@;
        proof {
            rem.lemma_view();
            assert(rem@.contains_key(rem.pairs()[i as int].0));
        }
        t.remove(k);
        proof {
            assert forall|k2: u64|
                pre.contains_key(k2) && !rem@.contains_key(k2) implies #[trigger] t@.contains_key(
                k2,
            ) by {
                assert(k2 != k);
                assert(pre_t.contains_key(k2));
            }
        }
        i = i + 1;
    }
    let ghost mid = t@;
    proof {
        assert forall|k: u64| #[trigger] mid.contains_key(k) <==> pre.contains_key(k)
            && !rem@.contains_key(k) by {
            rem.lemma_view();
            if mid.contains_key(k) && rem@.contains_key(k) {
                let j = choose|j: int|
                    0 <= j < rem.pairs().len() && rem.pairs()[j] == (k, rem@[k]);
                assert(!mid.contains_key(rem.pairs()[j].0));
            }
        }
    }
    let nu = upd.len();
    let mut i2: usize = 0;
    while i2 < nu
        invariant
            t.wf(),
            upd.wf(),
            nu == upd.pairs().len(),
            i2 <= nu,
            forall|j: int|
                0 <= j < i2 ==> t@.contains_key((#[trigger] upd.pairs()[j]).0)
                    && t@[upd.pairs()[j].0] == upd.pairs()[j].1,
            forall|k: u64| #[trigger] t@.contains_key(k) ==> upd@.contains_key(k)
                || mid.contains_key(k),
            forall|k: u64| mid.contains_key(k) ==> #[trigger] t@.contains_key(k),
            forall|k: u64|
                #[trigger] t@.contains_key(k) && !upd@.contains_key(k) ==> t@[k] == mid[k],
        decreases nu - i2,
    {
        let k = upd.key_at(i2);
        let v = *upd.val_at(i2);
        let ghost pre_t = t@;
        proof {
            upd.lemma_view();
            assert(upd@.contains_key(upd.pairs()[i2 as int].0));
        }
        t.insert(k, v);
        proof {
            assert forall|k2: u64| mid.contains_key(k2) implies #[trigger] t@.contains_key(k2) by {
                assert(pre_t.contains_key(k2));
            }
            assert forall|k2: u64|
                #[trigger] t@.contains_key(k2) && !upd@.contains_key(k2) implies t@[k2]
                    == mid[k2] by {
                assert(k2 != k);
                assert(pre_t.contains_key(k2) && t@[k2] == pre_t[k2]);
            }
            assert forall|k2: u64| #[trigger] t@.contains_key(k2) implies upd@.contains_key(k2)
                || mid.contains_key(k2) by {
                if k2 != k {
                    assert(pre_t.contains_key(k2));
                }
            }
            assert forall|j: int|
                0 <= j < i2 + 1 implies t@.contains_key((#[trigger] upd.pairs()[j]).0)
                    && t@[upd.pairs()[j].0] == upd.pairs()[j].1 by {
                if j < i2 {
                    assert(upd.pairs()[j].0 != upd.pairs()[i2 as int].0);
                    assert(pre_t.contains_key(upd.pairs()[j].0) && pre_t[upd.pairs()[j].0]
                        == upd.pairs()[j].1);
                }
            }
        }
        i2 = i2 + 1;
    }
    proof {
        assert forall|k: u64|
            #[trigger] t@.contains_key(k) <==> apply_map(pre, upd@, rem@).contains_key(k) by {
            upd.lemma_view();
            if upd@.contains_key(k) {
                let j = choose|j: int|
                    0 <= j < upd.pairs().len() && upd.pairs()[j] == (k, upd@[k]);
                assert(t@.contains_key(upd.pairs()[j].0));
            }
        }
        assert forall|k: u64| #[trigger] t@.contains_key(k) implies t@[k] == apply_map(
            pre,
            upd@,
            rem@,
        )[k] by {
            upd.lemma_view();
            if upd@.contains_key(k) {
                let j = choose|j: int|
                    0 <= j < upd.pairs().len() && upd.pairs()[j] == (k, upd@[k]);
                assert(t@.contains_key(upd.pairs()[j].0)
                    && t@[upd.pairs()[j].0] == upd.pairs()[j].1);
            }
        }
    }
}

/// Merge the position table and the spatial index in one step, so the two
/// never diverge.
fn apply_position(
    t: &mut Table<Position>,
    sp: &mut SpatialIndex,
    upd: &Table<Position>,
    rem: &Table<()>,
)
    requires
        old(t).wf(),
        upd.wf(),
        rem.wf(),
        sync(old(t)@, spatial_map(*old(sp))),
        forall|k: u64| upd@.contains_key(k) ==> in_bounds(#[trigger] upd@[k]),
        forall|k: u64| old(t)@.contains_key(k) ==> in_bounds(#[trigger] old(t)@[k]),
    ensures
        final(t).wf(),
        final(t)@ =~= apply_map(old(t)@, upd@, rem@),
        sync(final(t)@, spatial_map(*final(sp))),
{
    let ghost pre = t@;
    let nr = rem.len();
    let mut i: usize = 0;
    while i < nr
        invariant
            t.wf(),
            upd.wf(),
            rem.wf(),
            nr == rem.pairs().len(),
            i <= nr,
            sync(t@, spatial_map(*sp)),
            forall|k: u64| t@.contains_key(k) ==> in_bounds(#[trigger] t@[k]),
            forall|j: int| 0 <= j < i ==> !t@.contains_key((#[trigger] rem.pairs()[j]).0),
            forall|k: u64| #[trigger] t@.contains_key(k) ==> pre.contains_key(k) && t@[k] == pre[k],
            forall|k: u64|
                pre.contains_key(k) && !rem@.contains_key(k) ==> #[trigger] t@.contains_key(k),
        decreases nr - i,
    {
        let k = rem.key_at(i);
        let ghost pre_t = t@;
        let ghost pre_spv = spatial_map(*sp);
        proof {
            rem.lemma_view();
            assert(rem@.contains_key(rem.pairs()[i as int].0));
        }
        match t.get(k) {
            Some(p) => {
                let px = p.x;
                let py = p.y;
                sp.remove(k, px, py);
                t.remove(k);
            },
            None => {},
        }
        proof {
            assert forall|k2: u64|
                pre.contains_key(k2) && !rem@.contains_key(k2) implies #[trigger] t@.contains_key(
                k2,
            ) by {
                assert(k2 != k);
                assert(pre_t.contains_key(k2));
            }
            assert forall|k2: u64| #[trigger] t@.contains_key(k2) implies spatial_map(
                *sp,
            ).contains_key(k2) && spatial_map(*sp)[k2] == (t@[k2].x, t@[k2].y) by {
                assert(pre_t.contains_key(k2));
            }
            assert forall|k2: u64| #[trigger] spatial_map(*sp).contains_key(k2) implies t@
                .contains_key(k2) by {
                assert(pre_spv.contains_key(k2));
            }
        }
        i = i + 1;
    }
    let ghost mid = t@;
    proof {
        assert forall|k: u64| #[trigger] mid.contains_key(k) <==> pre.contains_key(k)
            && !rem@.contains_key(k) by {
            rem.lemma_view();
            if mid.contains_key(k) && rem@.contains_key(k) {
                let j = choose|j: int|
                    0 <= j < rem.pairs().len() && rem.pairs()[j] == (k, rem@[k]);
                assert(!mid.contains_key(rem.pairs()[j].0));
            }
        }
    }
    let nu = upd.len();
    let mut i2: usize = 0;
    while i2 < nu
        invariant
            t.wf(),
            upd.wf(),
            nu == upd.pairs().len(),
            i2 <= nu,
            sync(t@, spatial_map(*sp)),
            forall|k: u64| upd@.contains_key(k) ==> in_bounds(#[trigger] upd@[k]),
            forall|k: u64| t@.contains_key(k) ==> in_bounds(#[trigger] t@[k]),
            forall|j: int|
                0 <= j < i2 ==> t@.contains_key((#[trigger] upd.pairs()[j]).0)
                    && t@[upd.pairs()[j].0] == upd.pairs()[j].1,
            forall|k: u64| #[trigger] t@.contains_key(k) ==> upd@.contains_key(k)
                || mid.contains_key(k),
            forall|k: u64| mid.contains_key(k) ==> #[trigger] t@.contains_key(k),
            forall|k: u64|
                #[trigger] t@.contains_key(k) && !upd@.contains_key(k) ==> t@[k] == mid[k],
        decreases nu - i2,
    {
        let k = upd.key_at(i2);
        let v = *upd.val_at(i2);
        let ghost pre_t = t@;
        let ghost pre_spv = spatial_map(*sp);
        proof {
            upd.lemma_view();
            assert(upd@.contains_key(upd.pairs()[i2 as int].0));
            assert(in_bounds(upd@[upd.pairs()[i2 as int].0]));
            assert(upd@[upd.pairs()[i2 as int].0] == upd.pairs()[i2 as int].1);
        }
        match t.get(k) {
            Some(p) => {
                let px = p.x;
                let py = p.y;
                sp.remove(k, px, py);
                sp.insert(k, v.x, v.y);
            },
            None => {
                sp.insert(k, v.x, v.y);
            },
        }
        t.insert(k, v);
        proof {
            assert forall|k2: u64| mid.contains_key(k2) implies #[trigger] t@.contains_key(k2) by {
                assert(pre_t.contains_key(k2));
            }
            assert forall|k2: u64|
                #[trigger] t@.contains_key(k2) && !upd@.contains_key(k2) implies t@[k2]
                    == mid[k2] by {
                assert(k2 != k);
                assert(pre_t.contains_key(k2) && t@[k2] == pre_t[k2]);
            }
            assert forall|k2: u64| #[trigger] t@.contains_key(k2) implies upd@.contains_key(k2)
                || mid.contains_key(k2) by {
                if k2 != k {
                    assert(pre_t.contains_key(k2));
                }
            }
            assert forall|j: int|
                0 <= j < i2 + 1 implies t@.contains_key((#[trigger] upd.pairs()[j]).0)
                    && t@[upd.pairs()[j].0] == upd.pairs()[j].1 by {
                if j < i2 {
                    assert(upd.pairs()[j].0 != upd.pairs()[i2 as int].0);
                    assert(pre_t.contains_key(upd.pairs()[j].0) && pre_t[upd.pairs()[j].0]
                        == upd.pairs()[j].1);
                }
            }
            assert forall|k2: u64| #[trigger] t@.contains_key(k2) implies spatial_map(
                *sp,
            ).contains_key(k2) && spatial_map(*sp)[k2] == (t@[k2].x, t@[k2].y) by {
                if k2 != k {
                    assert(pre_t.contains_key(k2));
                }
            }
            assert forall|k2: u64| #[trigger] spatial_map(*sp).contains_key(k2) implies t@
                .contains_key(k2) by {
                if k2 != k {
                    assert(pre_spv.contains_key(k2));
                }
            }
        }
        i2 = i2 + 1;
    }
    proof {
        assert forall|k: u64|
            #[trigger] t@.contains_key(k) <==> apply_map(pre, upd@, rem@).contains_key(k) by {
            upd.lemma_view();
            if upd@.contains_key(k) {
                let j = choose|j: int|
                    0 <= j < upd.pairs().len() && upd.pairs()[j] == (k, upd@[k]);
                assert(t@.contains_key(upd.pairs()[j].0));
            }
        }
        assert forall|k: u64| #[trigger] t@.contains_key(k) implies t@[k] == apply_map(
            pre,
            upd@,
            rem@,
        )[k] by {
            upd.lemma_view();
            if upd@.contains_key(k) {
                let j = choose|j: int|
                    0 <= j < upd.pairs().len() && upd.pairs()[j] == (k, upd@[k]);
                assert(t@.contains_key(upd.pairs()[j].0)
                    && t@[upd.pairs()[j].0] == upd.pairs()[j].1);
            }
        }
    }
}

/// The whole relation between the state before and after a commit: every
/// table is the staged-removals-then-staged-updates merge of the old one.
pub open spec fn commit_rel(pre: GameState, post: GameState, a: Action) -> bool {
    &&& post.position@ =~= apply_map(pre.position@, a.updated_position@, a.removed_position@)
    &&& post.attack@ =~= apply_map(pre.attack@, a.updated_attack@, a.removed_attack@)
    &&& post.health@ =~= apply_map(pre.health@, a.updated_health@, a.removed_health@)
    &&& post.initiative@ =~= apply_map(
        pre.initiative@,
        a.updated_initiative@,
        a.removed_initiative@,
    )
    &&& post.name@ =~= apply_map(pre.name@, a.updated_name@, a.removed_name@)
    &&& post.glyph@ =~= apply_map(pre.glyph@, a.updated_glyph@, a.removed_glyph@)
    &&& post.player@ =~= apply_map(pre.player@, a.updated_player@, a.removed_player@)
    &&& post.solid@ =~= apply_map(pre.solid@, a.updated_solid@, a.removed_solid@)
    &&& post.item@ =~= apply_map(pre.item@, a.updated_item@, a.removed_item@)
    &&& post.carriedby@ =~= apply_map(pre.carriedby@, a.updated_carriedby@, a.removed_carriedby@)
    &&& post.energy@ =~= apply_map(pre.energy@, a.updated_energy@, a.removed_energy@)
    &&& post.actioncost@ =~= apply_map(
        pre.actioncost@,
        a.updated_actioncost@,
        a.removed_actioncost@,
    )
}

/// Merge an accepted diff into the store and the spatial index, atomically
/// per table and keeping the index consistent with the position table.
fn commit(state: &mut GameState, spatial: &mut SpatialIndex, a: &Action)
    requires
        old(state).wf(),
        a.wf(),
        sync(old(state).position@, spatial_map(*old(spatial))),
    ensures
        final(state).wf(),
        sync(final(state).position@, spatial_map(*final(spatial))),
        commit_rel(*old(state), *final(state), *a),
{
    apply_position(&mut state.position, spatial, &a.updated_position, &a.removed_position);
    apply_table(&mut state.attack, &a.updated_attack, &a.removed_attack);
    apply_table(&mut state.health, &a.updated_health, &a.removed_health);
    apply_table(&mut state.initiative, &a.updated_initiative, &a.removed_initiative);
    apply_name_table(&mut state.name, &a.updated_name, &a.removed_name);
    apply_table(&mut state.glyph, &a.updated_glyph, &a.removed_glyph);
    apply_table(&mut state.player, &a.updated_player, &a.removed_player);
    apply_table(&mut state.solid, &a.updated_solid, &a.removed_solid);
    apply_table(&mut state.item, &a.updated_item, &a.removed_item);
    apply_table(&mut state.carriedby, &a.updated_carriedby, &a.removed_carriedby);
    apply_table(&mut state.energy, &a.updated_energy, &a.removed_energy);
    apply_table(&mut state.actioncost, &a.updated_actioncost, &a.removed_actioncost);
}

/// Merge the name table; names are cloned rather than copied.
fn apply_name_table(t: &mut Table<Name>, upd: &Table<Name>, rem: &Table<()>)
    requires
        old(t).wf(),
        upd.wf(),
        rem.wf(),
    ensures
        final(t).wf(),
        final(t)@ =~= apply_map(old(t)@, upd@, rem@),
{
    let ghost pre = t@;
    let nr = rem.len();
    let mut i: usize = 0;
    while i < nr
        invariant
            t.wf(),
            upd.wf(),
            rem.wf(),
            nr == rem.pairs().len(),
            i <= nr,
            forall|j: int| 0 <= j < i ==> !t@.contains_key((#[trigger] rem.pairs()[j]).0),
            forall|k: u64| #[trigger] t@.contains_key(k) ==> pre.contains_key(k) && t@[k] == pre[k],
            forall|k: u64|
                pre.contains_key(k) && !rem@.contains_key(k) ==> #[trigger] t@.contains_key(k),
        decreases nr - i,
    {
        let k = rem.key_at(i);
        let ghost pre_t = t@;
        proof {
            rem.lemma_view();
            assert(rem@.contains_key(rem.pairs()[i as int].0));
        }
        t.remove(k);
        proof {
            assert forall|k2: u64|
                pre.contains_key(k2) && !rem@.contains_key(k2) implies #[trigger] t@.contains_key(
                k2,
            ) by {
                assert(k2 != k);
                assert(pre_t.contains_key(k2));
            }
        }
        i = i + 1;
    }
    let ghost mid = t@;
    proof {
        assert forall|k: u64| #[trigger] mid.contains_key(k) <==> pre.contains_key(k)
            && !rem@.contains_key(k) by {
            rem.lemma_view();
            if mid.contains_key(k) && rem@.contains_key(k) {
                let j = choose|j: int|
                    0 <= j < rem.pairs().len() && rem.pairs()[j] == (k, rem@[k]);
                assert(!mid.contains_key(rem.pairs()[j].0));
            }
        }
    }
    let nu = upd.len();
    let mut i2: usize = 0;
    while i2 < nu
        invariant
            t.wf(),
            upd.wf(),
            nu == upd.pairs().len(),
            i2 <= nu,
            forall|j: int|
                0 <= j < i2 ==> t@.contains_key((#[trigger] upd.pairs()[j]).0)
                    && t@[upd.pairs()[j].0] == upd.pairs()[j].1,
            forall|k: u64| #[trigger] t@.contains_key(k) ==> upd@.contains_key(k)
                || mid.contains_key(k),
            forall|k: u64| mid.contains_key(k) ==> #[trigger] t@.contains_key(k),
            forall|k: u64|
                #[trigger] t@.contains_key(k) && !upd@.contains_key(k) ==> t@[k] == mid[k],
        decreases nu - i2,
    {
        let k = upd.key_at(i2);
        let v = upd.val_at(i2).clone();
        let ghost pre_t = t@;
        proof {
            upd.lemma_view();
            assert(upd@.contains_key(upd.pairs()[i2 as int].0));
        }
        t.insert(k, v);
        proof {
            assert forall|k2: u64| mid.contains_key(k2) implies #[trigger] t@.contains_key(k2) by {
                assert(pre_t.contains_key(k2));
            }
            assert forall|k2: u64|
                #[trigger] t@.contains_key(k2) && !upd@.contains_key(k2) implies t@[k2]
                    == mid[k2] by {
                assert(k2 != k);
                assert(pre_t.contains_key(k2) && t@[k2] == pre_t[k2]);
            }
            assert forall|k2: u64| #[trigger] t@.contains_key(k2) implies upd@.contains_key(k2)
                || mid.contains_key(k2) by {
                if k2 != k {
                    assert(pre_t.contains_key(k2));
                }
            }
            assert forall|j: int|
                0 <= j < i2 + 1 implies t@.contains_key((#[trigger] upd.pairs()[j]).0)
                    && t@[upd.pairs()[j].0] == upd.pairs()[j].1 by {
                if j < i2 {
                    assert(upd.pairs()[j].0 != upd.pairs()[i2 as int].0);
                    assert(pre_t.contains_key(upd.pairs()[j].0) && pre_t[upd.pairs()[j].0]
                        == upd.pairs()[j].1);
                }
            }
        }
        i2 = i2 + 1;
    }
    proof {
        assert forall|k: u64|
            #[trigger] t@.contains_key(k) <==> apply_map(pre, upd@, rem@).contains_key(k) by {
            upd.lemma_view();
            if upd@.contains_key(k) {
                let j = choose|j: int|
                    0 <= j < upd.pairs().len() && upd.pairs()[j] == (k, upd@[k]);
                assert(t@.contains_key(upd.pairs()[j].0));
            }
        }
        assert forall|k: u64| #[trigger] t@.contains_key(k) implies t@[k] == apply_map(
            pre,
            upd@,
            rem@,
        )[k] by {
            upd.lemma_view();
            if upd@.contains_key(k) {
                let j = choose|j: int|
                    0 <= j < upd.pairs().len() && upd.pairs()[j] == (k, upd@[k]);
                assert(t@.contains_key(upd.pairs()[j].0)
                    && t@[upd.pairs()[j].0] == upd.pairs()[j].1);
            }
        }
    }
}

/// The spawn events an accepted diff derives: one for each staged position
/// whose entity had none before and shows a glyph and a name afterwards.
pub open spec fn created_rec(ps: Seq<(u64, Position)>, a: Action, s: GameState) -> Seq<GameEvent>
    decreases ps.len(),
{
    if ps.len() == 0 {
        Seq::empty()
    } else {
        created_rec(ps.drop_last(), a, s) + ({
            let id = ps.last().0;
            let p = ps.last().1;
            match (s.position.spec_get(id), future_glyph(a, s, id), future_name(a, s, id)) {
                (Option::None, Option::Some(g), Option::Some(nm)) => seq![
                    GameEvent::Spawned {
                        entity_id: EntityId(id),
                        x: p.x,
                        y: p.y,
                        glyph: g,
                        name: nm,
                        is_player: future_player(a, s, id) is Some,
                    },
                ],
                _ => Seq::empty(),
            }
        })
    }
}

pub open spec fn created_events(a: Action, s: GameState) -> Seq<GameEvent> {
    created_rec(a.updated_position.pairs(), a, s)
}

/// The move events an accepted diff derives: one for every staged position,
/// unconditionally — a spawned entity also reports a move.
pub open spec fn moved_rec(ps: Seq<(u64, Position)>) -> Seq<GameEvent>
    decreases ps.len(),
{
    if ps.len() == 0 {
        Seq::empty()
    } else {
        moved_rec(ps.drop_last()) + seq![
            GameEvent::MovedTo { entity_id: EntityId(ps.last().0), x: ps.last().1.x, y: ps.last().1.y },
        ]
    }
}

pub open spec fn moved_events(a: Action) -> Seq<GameEvent> {
    moved_rec(a.updated_position.pairs())
}

/// The delete events an accepted diff derives: one for each staged position
/// removal whose entity had a position before and has none afterwards.
pub open spec fn deleted_rec(rs: Seq<(u64, ())>, a: Action, s: GameState) -> Seq<GameEvent>
    decreases rs.len(),
{
    if rs.len() == 0 {
        Seq::empty()
    } else {
        deleted_rec(rs.drop_last(), a, s) + ({
            let id = rs.last().0;
            if s.position.spec_get(id) is Some && future_position(a, s, id) is None {
                seq![GameEvent::Deleted { entity_id: EntityId(id) }]
            } else {
                Seq::empty()
            }
        })
    }
}

pub open spec fn deleted_events(a: Action, s: GameState) -> Seq<GameEvent> {
    deleted_rec(a.removed_position.pairs(), a, s)
}

/// Derive a spawn event for every entity the diff gives a position it did
/// not have, reading glyph, name and player flag through the overlay.
pub fn on_created(
    events_queue: &mut Vec<GameEvent>,
    action: &Action,
    state: &GameState,
    _spatial: &SpatialIndex,
)
    requires
        action.wf(),
        state.wf(),
    ensures
        final(events_queue)@ =~= old(events_queue)@ + created_events(*action, *state),
{
    let ghost base = events_queue@;
    let future_state = FutureState { action, state };
    let n = action.updated_position.len();
    let mut i: usize = 0;
    while i < n
        invariant
            action.wf(),
            state.wf(),
            future_state.action == action,
            future_state.state == state,
            n == action.updated_position.pairs().len(),
            i <= n,
            events_queue@ =~= base + created_rec(
                action.updated_position.pairs().take(i as int),
                *action,
                *state,
            ),
        decreases n - i,
    {
        let id = action.updated_position.key_at(i);
        let position = *action.updated_position.val_at(i);
        if state.get_position(EntityId(id)).is_none() {
            match future_state.get_glyph(EntityId(id)) {
                Some(glyph) => {
                    let g = *glyph;
                    match future_state.get_name(EntityId(id)) {
                        Some(name) => {
                            let is_player = future_state.get_player(EntityId(id)).is_some();
                            events_queue.push(
                                GameEvent::Spawned {
                                    entity_id: EntityId(id),
                                    x: position.x,
                                    y: position.y,
                                    glyph: g,
                                    name: name.clone(),
                                    is_player,
                                },
                            );
                        },
                        None => {},
                    }
                },
                None => {},
            }
        }
        proof {
            let ps = action.updated_position.pairs();
            assert(ps.take(i as int + 1).drop_last() =~= ps.take(i as int));
            assert(ps.take(i as int + 1).last() == ps[i as int]);
        }
        i = i + 1;
    }
    proof {
        assert(action.updated_position.pairs().take(n as int)
            =~= action.updated_position.pairs());
    }
}

/// Derive a move event for every staged position, unconditionally.
pub fn on_moved(
    events_queue: &mut Vec<GameEvent>,
    action: &Action,
    _state: &GameState,
    _spatial: &SpatialIndex,
)
    requires
        action.wf(),
    ensures
        final(events_queue)@ =~= old(events_queue)@ + moved_events(*action),
{
    let ghost base = events_queue@;
    let n = action.updated_position.len();
    let mut i: usize = 0;
    while i < n
        invariant
            action.wf(),
            n == action.updated_position.pairs().len(),
            i <= n,
            events_queue@ =~= base + moved_rec(action.updated_position.pairs().take(i as int)),
        decreases n - i,
    {
        let id = action.updated_position.key_at(i);
        let position = *action.updated_position.val_at(i);
        events_queue.push(GameEvent::MovedTo { entity_id: EntityId(id), x: position.x, y: position.y });
        proof {
            let ps = action.updated_position.pairs();
            assert(ps.take(i as int + 1).drop_last() =~= ps.take(i as int));
            assert(ps.take(i as int + 1).last() == ps[i as int]);
        }
        i = i + 1;
    }
    proof {
        assert(action.updated_position.pairs().take(n as int)
            =~= action.updated_position.pairs());
    }
}

/// Derive a delete event for every entity that had a position before the
/// diff and has none in the world it would produce.
pub fn on_deleted(
    events_queue: &mut Vec<GameEvent>,
    action: &Action,
    state: &GameState,
    _spatial: &SpatialIndex,
)
    requires
        action.wf(),
        state.wf(),
    ensures
        final(events_queue)@ =~= old(events_queue)@ + deleted_events(*action, *state),
{
    let ghost base = events_queue@;
    let future_state = FutureState { action, state };
    let n = action.removed_position.len();
    let mut i: usize = 0;
    while i < n
        invariant
            action.wf(),
            state.wf(),
            future_state.action == action,
            future_state.state == state,
            n == action.removed_position.pairs().len(),
            i <= n,
            events_queue@ =~= base + deleted_rec(
                action.removed_position.pairs().take(i as int),
                *action,
                *state,
            ),
        decreases n - i,
    {
        let id = action.removed_position.key_at(i);
        if state.get_position(EntityId(id)).is_some() && future_state.get_position(
            EntityId(id),
        ).is_none() {
            events_queue.push(GameEvent::Deleted { entity_id: EntityId(id) });
        }
        proof {
            let ps = action.removed_position.pairs();
            assert(ps.take(i as int + 1).drop_last() =~= ps.take(i as int));
            assert(ps.take(i as int + 1).last() == ps[i as int]);
        }
        i = i + 1;
    }
    proof {
        assert(action.removed_position.pairs().take(n as int)
            =~= action.removed_position.pairs());
    }
}

/// What a nearby notice claims: some player stands within squared distance
/// fifteen of the named entity, whose name and position are reported as
/// stored.
pub open spec fn nearby_event_ok(ev: GameEvent, s: GameState, spv: Map<u64, (i64, i64)>) -> bool {
    match ev {
        GameEvent::EntityNearby { entity_id, name, position } => exists|p: u64|
            #[trigger] s.player@.contains_key(p) && (match s.position.spec_get(p) {
                Option::Some(pp) => {
                    &&& spv.contains_key(entity_id.0)
                    &&& sq_dist(spv[entity_id.0], (pp.x, pp.y)) <= 15
                    &&& s.name.spec_get(entity_id.0) == Some(name)
                    &&& s.position.spec_get(entity_id.0) == Some(position)
                },
                Option::None => false,
            }),
        _ => false,
    }
}

/// An entity that stands within squared distance fifteen of this player
/// and has both a name and a position to report.
pub open spec fn nearby_candidate(
    s: GameState,
    spv: Map<u64, (i64, i64)>,
    p: u64,
    e: u64,
) -> bool {
    match s.position.spec_get(p) {
        Option::Some(pp) => {
            &&& spv.contains_key(e)
            &&& sq_dist(spv[e], (pp.x, pp.y)) <= 15
            &&& s.name.spec_get(e) is Some
            &&& s.position.spec_get(e) is Some
        },
        Option::None => false,
    }
}

/// The notice that reports entity `e` with its stored name and position.
pub open spec fn is_nearby_notice(ev: GameEvent, s: GameState, e: u64) -> bool {
    match ev {
        GameEvent::EntityNearby { entity_id, name, position } => {
            &&& entity_id == (EntityId(e))
            &&& s.name.spec_get(e) == Some(name)
            &&& s.position.spec_get(e) == Some(position)
        },
        _ => false,
    }
}

/// The candidates of one player, as a set.
pub open spec fn candidate_set(s: GameState, spv: Map<u64, (i64, i64)>, p: u64) -> Set<u64> {
    Set::new(|e: u64| nearby_candidate(s, spv, p, e))
}

/// How many notices one pass owes: one per player/candidate pair, summed
/// over the players in table order.
pub open spec fn nearby_total(
    s: GameState,
    spv: Map<u64, (i64, i64)>,
    ps: Seq<(u64, crate::components::Player)>,
) -> int
    decreases ps.len(),
{
    if ps.len() == 0 {
        0
    } else {
        nearby_total(s, spv, ps.drop_last()) + candidate_set(s, spv, ps.last().0).len()
    }
}

/// After an authoritative position change, report every named entity within
/// squared distance fifteen of each player. The order within the report
/// follows the index's unspecified iteration order, so the contract speaks
/// of what is appended — every notice claims a true neighborhood, every
/// candidate of every player is noticed, and the count is exactly one
/// notice per player/candidate pair — not of the order.
pub fn update_nearby_list(
    events_queue: &mut Vec<GameEvent>,
    state: &GameState,
    spatial: &SpatialIndex,
)
    requires
        state.wf(),
        sync(state.position@, spatial_map(*spatial)),
    ensures
        old(events_queue)@.is_prefix_of(final(events_queue)@),
        forall|i: int|
            old(events_queue)@.len() <= i < final(events_queue)@.len() ==> nearby_event_ok(
                #[trigger] final(events_queue)@[i],
                *state,
                spatial_map(*spatial),
            ),
        forall|pj: int, e: u64|
            0 <= pj < state.player.pairs().len() && #[trigger] nearby_candidate(
                *state,
                spatial_map(*spatial),
                state.player.pairs()[pj].0,
                e,
            ) ==> exists|i: int|
                old(events_queue)@.len() <= i < final(events_queue)@.len() && is_nearby_notice(
                    #[trigger] final(events_queue)@[i],
                    *state,
                    e,
                ),
        final(events_queue)@.len() == old(events_queue)@.len() + nearby_total(
            *state,
            spatial_map(*spatial),
            state.player.pairs(),
        ),
{
    let ghost base = events_queue@;
    let ghost spv = spatial_map(*spatial);
    proof {
        state.position.lemma_dom_finite();
        assert(spv.dom() =~= state.position@.dom());
        assert(spv.dom().finite());
        assert(spatial_bounded(spv)) by {
            assert forall|k: u64| spv.contains_key(k) implies -COORD_LIMIT <= (
            #[trigger] spv[k]).0 <= COORD_LIMIT && -COORD_LIMIT <= spv[k].1 <= COORD_LIMIT by {
                assert(state.position@.contains_key(k));
                assert(in_bounds(state.position@[k]));
            }
        }
    }
    let np = state.player.len();
    let mut pi: usize = 0;
    while pi < np
        invariant
            state.wf(),
            sync(state.position@, spatial_map(*spatial)),
            spv == spatial_map(*spatial),
            spatial_bounded(spv),
            spv.dom().finite(),
            np == state.player.pairs().len(),
            pi <= np,
            base.is_prefix_of(events_queue@),
            events_queue@.len() == base.len() + nearby_total(
                *state,
                spv,
                state.player.pairs().take(pi as int),
            ),
            forall|i: int|
                base.len() <= i < events_queue@.len() ==> nearby_event_ok(
                    #[trigger] events_queue@[i],
                    *state,
                    spv,
                ),
            forall|pj: int, e: u64|
                0 <= pj < pi && #[trigger] nearby_candidate(
                    *state,
                    spv,
                    state.player.pairs()[pj].0,
                    e,
                ) ==> exists|i: int|
                    base.len() <= i < events_queue@.len() && is_nearby_notice(
                        #[trigger] events_queue@[i],
                        *state,
                        e,
                    ),
        decreases np - pi,
    {
        let ghost cand = candidate_set(*state, spv, state.player.pairs()[pi as int].0);
        let player_id = state.player.key_at(pi);
        proof {
            state.player.lemma_view();
            assert(state.player@.contains_key(state.player.pairs()[pi as int].0));
        }
        match state.get_position(EntityId(player_id)) {
            Some(player_position) => {
                let px = player_position.x;
                let py = player_position.y;
                let ids = spatial.within_distance(px, py, 15);
                let ghost blk0 = events_queue@.len() as int;
                proof {
                    assert(cand.intersect(ids@.take(0).to_set()) =~= Set::<u64>::empty());
                }
                let m = ids.len();
                let mut j: usize = 0;
                while j < m
                    invariant
                        state.wf(),
                        sync(state.position@, spatial_map(*spatial)),
                        spv == spatial_map(*spatial),
                        m == ids@.len(),
                        j <= m,
                        state.player@.contains_key(player_id),
                        player_id == state.player.pairs()[pi as int].0,
                        pi < np,
                        np == state.player.pairs().len(),
                        cand == candidate_set(*state, spv, player_id),
                        state.position.spec_get(player_id) == Some(
                            Position { x: px, y: py },
                        ),
                        ids@.no_duplicates(),
                        ids@.to_set() =~= crate::spatial::entities_within(spv, px, py, 15),
                        base.is_prefix_of(events_queue@),
                        blk0 >= base.len(),
                        cand.intersect(ids@.take(j as int).to_set()).finite(),
                        events_queue@.len() == blk0 + cand.intersect(
                            ids@.take(j as int).to_set(),
                        ).len(),
                        forall|i: int|
                            base.len() <= i < events_queue@.len() ==> nearby_event_ok(
                                #[trigger] events_queue@[i],
                                *state,
                                spv,
                            ),
                        forall|pj: int, e: u64|
                            0 <= pj < pi && #[trigger] nearby_candidate(
                                *state,
                                spv,
                                state.player.pairs()[pj].0,
                                e,
                            ) ==> exists|i: int|
                                base.len() <= i < events_queue@.len() && is_nearby_notice(
                                    #[trigger] events_queue@[i],
                                    *state,
                                    e,
                                ),
                        forall|e: u64|
                            ids@.take(j as int).contains(e) && state.name.spec_get(e) is Some
                                && state.position.spec_get(e) is Some ==> exists|i: int|
                                base.len() <= i < events_queue@.len() && is_nearby_notice(
                                    #[trigger] events_queue@[i],
                                    *state,
                                    e,
                                ),
                    decreases m - j,
                {
                    let e = ids[j];
                    let ghost pre_events = events_queue@;
                    let ghost pre_set = cand.intersect(ids@.take(j as int).to_set());
                    proof {
                        assert(ids@.contains(e)) by {
                            assert(ids@[j as int] == e);
                        }
                        assert(ids@.to_set().contains(e));
                        assert(crate::spatial::entities_within(spv, px, py, 15).contains(e));
                        assert(!ids@.take(j as int).contains(e)) by {
                            if ids@.take(j as int).contains(e) {
                                let jj = choose|jj: int|
                                    0 <= jj < j && ids@.take(j as int)[jj] == e;
                                assert(ids@[jj] == ids@[j as int]);
                            }
                        }
                        assert(ids@.take(j as int + 1) =~= ids@.take(j as int).push(
                            ids@[j as int],
                        ));
                        assert(ids@.take(j as int + 1).to_set() =~= ids@.take(
                            j as int,
                        ).to_set().insert(e)) by {
                            let pre2 = ids@.take(j as int);
                            let post2 = ids@.take(j as int + 1);
                            assert forall|x: u64| #[trigger] post2.contains(x) implies pre2
                                .contains(x) || x == e by {
                                let jj = choose|jj: int|
                                    0 <= jj < post2.len() && post2[jj] == x;
                                if jj < pre2.len() {
                                    assert(pre2[jj] == x);
                                }
                            }
                            assert forall|x: u64| pre2.contains(x) implies #[trigger] post2
                                .contains(x) by {
                                let jj = choose|jj: int|
                                    0 <= jj < pre2.len() && pre2[jj] == x;
                                assert(post2[jj] == x);
                            }
                            assert(post2[j as int] == e);
                            assert(post2.contains(e));
                        }
                    }
                    match state.get_name(EntityId(e)) {
                        Some(name) => {
                            match state.get_position(EntityId(e)) {
                                Some(entity_position) => {
                                    let ev = GameEvent::EntityNearby {
                                        entity_id: EntityId(e),
                                        name: name.clone(),
                                        position: *entity_position,
                                    };
                                    events_queue.push(ev);
                                    proof {
                                        assert(nearby_event_ok(ev, *state, spv));
                                        assert(is_nearby_notice(ev, *state, e));
                                        assert(events_queue@[events_queue@.len() - 1] == ev);
                                        assert(nearby_candidate(*state, spv, player_id, e));
                                        assert(cand.contains(e));
                                        assert(!pre_set.contains(e));
                                        assert(cand.intersect(ids@.take(j as int + 1).to_set())
                                            =~= pre_set.insert(e));
                                        assert(pre_set.insert(e).len() == pre_set.len() + 1);
                                        assert forall|i: int|
                                            base.len() <= i < events_queue@.len()
                                                implies nearby_event_ok(
                                                #[trigger] events_queue@[i],
                                                *state,
                                                spv,
                                            ) by {
                                            if i < pre_events.len() {
                                                assert(events_queue@[i] == pre_events[i]);
                                            }
                                        }
                                        assert(base.is_prefix_of(events_queue@)) by {
                                            assert(base =~= events_queue@.subrange(
                                                0,
                                                base.len() as int,
                                            ));
                                        }
                                    }
                                },
                                None => {
                                    proof {
                                        assert(spv.contains_key(e));
                                        assert(state.position@.contains_key(e));
                                        assert(false);
                                    }
                                },
                            }
                        },
                        None => {
                            proof {
                                assert(!nearby_candidate(*state, spv, player_id, e));
                                assert(!cand.contains(e));
                                assert(cand.intersect(ids@.take(j as int + 1).to_set())
                                    =~= pre_set);
                            }
                        },
                    }
                    proof {
                        let pre2 = ids@.take(j as int);
                        let post2 = ids@.take(j as int + 1);
                        assert forall|e2: u64|
                            post2.contains(e2) && state.name.spec_get(e2) is Some
                                && state.position.spec_get(e2) is Some implies exists|i: int|
                                base.len() <= i < events_queue@.len() && is_nearby_notice(
                                    #[trigger] events_queue@[i],
                                    *state,
                                    e2,
                                ) by {
                            if pre2.contains(e2) {
                                let i = choose|i: int|
                                    base.len() <= i < pre_events.len() && is_nearby_notice(
                                        #[trigger] pre_events[i],
                                        *state,
                                        e2,
                                    );
                                assert(events_queue@[i] == pre_events[i]);
                            } else {
                                assert(e2 == ids@[j as int]);
                                assert(is_nearby_notice(
                                    events_queue@[events_queue@.len() - 1],
                                    *state,
                                    e2,
                                ));
                            }
                        }
                        assert forall|pj: int, e2: u64|
                            0 <= pj < pi && #[trigger] nearby_candidate(
                                *state,
                                spv,
                                state.player.pairs()[pj].0,
                                e2,
                            ) implies exists|i: int|
                                base.len() <= i < events_queue@.len() && is_nearby_notice(
                                    #[trigger] events_queue@[i],
                                    *state,
                                    e2,
                                ) by {
                            let i = choose|i: int|
                                base.len() <= i < pre_events.len() && is_nearby_notice(
                                    #[trigger] pre_events[i],
                                    *state,
                                    e2,
                                );
                            assert(events_queue@[i] == pre_events[i]);
                        }
                    }
                    j = j + 1;
                }
                proof {
                    assert(ids@.take(m as int) =~= ids@);
                    assert(cand.intersect(ids@.to_set()) =~= cand) by {
                        assert forall|e: u64| cand.contains(e) implies ids@.to_set().contains(
                            e,
                        ) by {
                            assert(nearby_candidate(*state, spv, player_id, e));
                            assert(crate::spatial::entities_within(spv, px, py, 15).contains(e));
                        }
                    }
                    assert(events_queue@.len() == blk0 + cand.len());
                    assert forall|e: u64|
                        nearby_candidate(
                            *state,
                            spv,
                            state.player.pairs()[pi as int].0,
                            e,
                        ) implies exists|i: int|
                            base.len() <= i < events_queue@.len() && is_nearby_notice(
                                #[trigger] events_queue@[i],
                                *state,
                                e,
                            ) by {
                        assert(crate::spatial::entities_within(spv, px, py, 15).contains(e));
                        assert(ids@.to_set().contains(e));
                        assert(ids@.contains(e));
                    }
                    assert(state.player.pairs().take(pi as int + 1).drop_last()
                        =~= state.player.pairs().take(pi as int));
                    assert(state.player.pairs().take(pi as int + 1).last()
                        == state.player.pairs()[pi as int]);
                }
            },
            None => {
                proof {
                    assert(cand =~= Set::<u64>::empty());
                    assert(cand.len() == 0);
                    assert(state.player.pairs().take(pi as int + 1).drop_last()
                        =~= state.player.pairs().take(pi as int));
                    assert(state.player.pairs().take(pi as int + 1).last()
                        == state.player.pairs()[pi as int]);
                }
            },
        }
        pi = pi + 1;
    }
    proof {
        assert(state.player.pairs().take(np as int) =~= state.player.pairs());
    }
}

/// The termination weight of an action: every reaction an action can give
/// rise to weighs strictly less than the action itself, and a cascade's
/// total weight therefore shrinks at every step.
pub open spec fn weight(a: ActionType) -> int {
    match a {
        ActionType::MoveBy { .. } => 64,
        ActionType::CreateEntity { .. } => 64,
        ActionType::CreateItem { .. } => 64,
        ActionType::DamageEntity { .. } => 16,
        ActionType::Wait { .. } => 16,
        ActionType::Die { .. } => 4,
        ActionType::GrabItem { .. } => 4,
        ActionType::DecreaseEnergy { .. } => 4,
    }
}

pub open spec fn sum_weights(q: Seq<ActionType>) -> int
    decreases q.len(),
{
    if q.len() == 0 {
        0
    } else {
        weight(q[0]) + sum_weights(q.drop_first())
    }
}

pub proof fn lemma_sum_concat(x: Seq<ActionType>, y: Seq<ActionType>)
    ensures
        sum_weights(x + y) == sum_weights(x) + sum_weights(y),
    decreases x.len(),
{
    if x.len() == 0 {
        assert(x + y =~= y);
    } else {
        assert((x + y)[0] == x[0]);
        assert((x + y).drop_first() =~= x.drop_first() + y);
        lemma_sum_concat(x.drop_first(), y);
    }
}

pub proof fn lemma_sum_nonneg(q: Seq<ActionType>)
    ensures
        sum_weights(q) >= 0,
    decreases q.len(),
{
    if q.len() > 0 {
        lemma_sum_nonneg(q.drop_first());
    }
}

pub proof fn lemma_sum_singleton(x: ActionType)
    ensures
        sum_weights(seq![x]) == weight(x),
{
    let s = seq![x];
    assert(s.len() == 1);
    assert(s[0] == x);
    assert(s.drop_first() =~= Seq::<ActionType>::empty());
    assert(sum_weights(s.drop_first()) == 0);
    assert(sum_weights(s) == weight(s[0]) + sum_weights(s.drop_first()));
}

/// Death notices weigh at most four per staged health entry.
pub proof fn lemma_die_sum(s: Seq<(u64, crate::components::Health)>)
    ensures
        sum_weights(die_reactions(s)) <= 4 * s.len(),
    decreases s.len(),
{
    if s.len() > 0 {
        lemma_die_sum(s.drop_last());
        let tail: Seq<ActionType> = if s.last().1.0 <= 0 {
            seq![ActionType::Die { entity_id: EntityId(s.last().0), cost: 0 }]
        } else {
            Seq::empty()
        };
        lemma_sum_concat(die_reactions(s.drop_last()), tail);
        if s.last().1.0 <= 0 {
            lemma_sum_singleton(ActionType::Die { entity_id: EntityId(s.last().0), cost: 0 });
        }
    }
}

/// Energy spends weigh at most four per staged cost entry.
pub proof fn lemma_energy_sum(s: Seq<(u64, crate::components::ActionCost)>, st: GameState)
    ensures
        sum_weights(energy_reactions(s, st)) <= 4 * s.len(),
    decreases s.len(),
{
    if s.len() > 0 {
        lemma_energy_sum(s.drop_last(), st);
        if s.last().1.0 != 0 && st.initiative@.contains_key(s.last().0) && st.initiative@[s.last().0].0
            != 0 {
            let tail: Seq<ActionType> = seq![
                ActionType::DecreaseEnergy {
                    entity_id: EntityId(s.last().0),
                    value: crate::rules::cost_value(s.last().1.0, st.initiative@[s.last().0].0)
                        as u32,
                },
            ];
            lemma_sum_concat(energy_reactions(s.drop_last(), st), tail);
            lemma_sum_singleton(tail[0]);
        } else {
            lemma_sum_concat(energy_reactions(s.drop_last(), st), Seq::empty());
            assert(energy_reactions(s.drop_last(), st) + Seq::<ActionType>::empty()
                =~= energy_reactions(s.drop_last(), st));
        }
    }
}

/// A staged cost sequence of zero values spends nothing.
pub proof fn lemma_energy_zero(s: Seq<(u64, crate::components::ActionCost)>, st: GameState)
    requires
        forall|j: int| 0 <= j < s.len() ==> (#[trigger] s[j]).1.0 == 0,
    ensures
        sum_weights(energy_reactions(s, st)) == 0,
    decreases s.len(),
{
    if s.len() > 0 {
        assert forall|j: int|
            0 <= j < s.drop_last().len() implies (#[trigger] s.drop_last()[j]).1.0 == 0 by {
            assert(s.drop_last()[j] == s[j]);
        }
        lemma_energy_zero(s.drop_last(), st);
        assert(s[s.len() - 1].1.0 == 0);
        assert(energy_reactions(s, st) =~= energy_reactions(s.drop_last(), st));
    }
}

/// The reactions one cascade step emits weigh strictly less than the action
/// that was processed: the measure that makes every cascade finite.
pub proof fn lemma_reaction_budget(
    at: ActionType,
    s: GameState,
    spv: Map<u64, (i64, i64)>,
    a: Action,
    col_rs: Seq<ActionType>,
    death_rs: Seq<ActionType>,
    energy_rs: Seq<ActionType>,
    total: Seq<ActionType>,
    rejected: bool,
)
    requires
        a.wf(),
        populated(at, s, spv, a),
        total == col_rs + death_rs + energy_rs,
        rejected ==> (exists|k: int, e: u64|
            #[trigger] collision_hit(a, s, spv, k, e) && hit_reactions(a, s, k, e, col_rs))
            && death_rs == Seq::<ActionType>::empty() && energy_rs == Seq::<ActionType>::empty(),
        !rejected ==> col_rs == Seq::<ActionType>::empty() && death_rs == die_reactions(
            a.updated_health.pairs(),
        ) && (energy_rs == energy_reactions(a.updated_actioncost.pairs(), s) || energy_rs
            == Seq::<ActionType>::empty()),
    ensures
        sum_weights(total) < weight(at),
{
    lemma_sum_concat(col_rs, death_rs);
    lemma_sum_concat(col_rs + death_rs, energy_rs);
    assert(col_rs + death_rs + energy_rs == total);
    lemma_sum_nonneg(col_rs);
    lemma_sum_nonneg(death_rs);
    lemma_sum_nonneg(energy_rs);
    if rejected {
        let (k, e) = choose|k: int, e: u64|
            #[trigger] collision_hit(a, s, spv, k, e) && hit_reactions(a, s, k, e, col_rs);
        assert(a.updated_position.pairs().len() > 0);
        if crate::action::future_health(a, s, e) is Some {
            let d = ActionType::DamageEntity {
                attacker_id: EntityId(a.updated_position.pairs()[k].0),
                target_id: EntityId(e),
                cost: 0,
            };
            lemma_sum_singleton(d);
            assert(col_rs == seq![d]);
            assert(sum_weights(col_rs) == 16);
        } else {
            assert(col_rs == Seq::<ActionType>::empty());
        }
        assert(sum_weights(death_rs) == 0);
        assert(sum_weights(energy_rs) == 0);
        // only a diff that stages a position can collide; the lighter
        // actions stage none, so a rejection under them is contradictory
        match at {
            ActionType::MoveBy { .. } => {},
            ActionType::CreateEntity { .. } => {},
            ActionType::CreateItem { .. } => {},
            ActionType::Wait { .. } => {
                assert(false);
            },
            ActionType::DamageEntity { .. } => {
                assert(false);
            },
            ActionType::Die { .. } => {
                assert(false);
            },
            ActionType::GrabItem { .. } => {
                assert(false);
            },
            ActionType::DecreaseEnergy { .. } => {
                assert(false);
            },
        }
    } else {
        assert(sum_weights(col_rs) == 0);
        lemma_die_sum(a.updated_health.pairs());
        if energy_rs == energy_reactions(a.updated_actioncost.pairs(), s) {
            lemma_energy_sum(a.updated_actioncost.pairs(), s);
        }
        match at {
            ActionType::MoveBy { .. } => {
                assert(a.updated_health.pairs().len() == 0);
                assert(a.updated_actioncost.pairs().len() <= 1);
            },
            ActionType::CreateEntity { .. } => {
                assert(a.updated_health.pairs().len() <= 1);
                if energy_rs == energy_reactions(a.updated_actioncost.pairs(), s) {
                    lemma_energy_zero(a.updated_actioncost.pairs(), s);
                }
            },
            ActionType::CreateItem { .. } => {
                assert(a.updated_health.pairs().len() == 0);
                assert(a.updated_actioncost.pairs().len() == 0);
            },
            ActionType::Wait { .. } => {
                assert(a.updated_health.pairs().len() == 0);
                assert(a.updated_actioncost.pairs().len() <= 1);
            },
            ActionType::DamageEntity { .. } => {
                assert(a.updated_health.pairs().len() <= 1);
                assert(a.updated_actioncost.pairs().len() == 0);
            },
            ActionType::Die { .. } => {
                assert(a.updated_health.pairs().len() == 0);
                assert(a.updated_actioncost.pairs().len() == 0);
            },
            ActionType::GrabItem { .. } => {
                assert(a.updated_health.pairs().len() == 0);
                assert(a.updated_actioncost.pairs().len() == 0);
            },
            ActionType::DecreaseEnergy { .. } => {
                assert(a.updated_health.pairs().len() == 0);
                if energy_rs == energy_reactions(a.updated_actioncost.pairs(), s) {
                    lemma_energy_zero(a.updated_actioncost.pairs(), s);
                }
            },
        }
    }
}


/// Prefix-of is transitive.
pub proof fn lemma_prefix_trans(a: Seq<GameEvent>, b: Seq<GameEvent>, c: Seq<GameEvent>)
    requires
        a.is_prefix_of(b),
        b.is_prefix_of(c),
    ensures
        a.is_prefix_of(c),
{
    assert forall|i: int| 0 <= i < a.len() implies c[i] == a[i] by {
        assert(a[i] == b.subrange(0, a.len() as int)[i]);
        assert(b[i] == c.subrange(0, b.len() as int)[i]);
    }
    assert(a =~= c.subrange(0, a.len() as int));
}

/// The world: the authoritative state, the spatial index mirroring its
/// position table, the pending-action queue and the derived-event queue.
/// External collaborators only read snapshots, enqueue actions and drain
/// events; tables are never mutated directly.
pub struct GameWorld {
    pub state: GameState,
    pub spatial_position: SpatialIndex,
    pub pending_actions: Vec<ActionType>,
    pub events_queue: Vec<GameEvent>,
    pub energy_rule_enabled: bool,
    pub nearby_listener_enabled: bool,
}

impl GameWorld {
    /// The store is well-formed and the spatial index mirrors it exactly.
    pub open spec fn wf(&self) -> bool {
        self.state.wf() && sync(self.state.position@, spatial_map(self.spatial_position))
    }

    /// The queued actions, oldest first.
    pub open spec fn pending(&self) -> Seq<ActionType> {
        self.pending_actions@
    }

    /// A fresh world: empty store, empty index, the full rule pipeline.
    pub fn new() -> (w: GameWorld)
        ensures
            w.wf(),
            w.pending() =~= Seq::<ActionType>::empty(),
            w.events_queue@ =~= Seq::<GameEvent>::empty(),
            w.state.position@ =~= Map::<u64, Position>::empty(),
            w.state.player@.len() == 0,
            spatial_map(w.spatial_position) =~= Map::<u64, (i64, i64)>::empty(),
            w.energy_rule_enabled,
            !w.nearby_listener_enabled,
    {
        GameWorld {
            state: GameState::new(),
            spatial_position: SpatialIndex::new(),
            pending_actions: Vec::new(),
            events_queue: Vec::new(),
            energy_rule_enabled: true,
            nearby_listener_enabled: false,
        }
    }

    /// A world restored from a snapshot: the spatial index is rebuilt from
    /// the position table before any action is processed, so the two are
    /// consistent from the start. The restored pipeline leaves the energy
    /// rule out and reports nearby entities, as the load path does.
    pub fn new_with_initial_state(state: GameState) -> (w: GameWorld)
        requires
            state.wf(),
        ensures
            w.wf(),
            w.state == state,
            w.pending() =~= Seq::<ActionType>::empty(),
            w.events_queue@ =~= Seq::<GameEvent>::empty(),
            !w.energy_rule_enabled,
            w.nearby_listener_enabled,
    {
        let mut spatial = SpatialIndex::new();
        let n = state.position.len();
        let mut i: usize = 0;
        while i < n
            invariant
                state.wf(),
                n == state.position.pairs().len(),
                i <= n,
                forall|j: int|
                    0 <= j < i ==> spatial_map(spatial).contains_key(
                        (#[trigger] state.position.pairs()[j]).0,
                    ) && spatial_map(spatial)[state.position.pairs()[j].0] == (
                        state.position.pairs()[j].1.x,
                        state.position.pairs()[j].1.y,
                    ),
                forall|j: int|
                    i <= j < n ==> !spatial_map(spatial).contains_key(
                        (#[trigger] state.position.pairs()[j]).0,
                    ),
                forall|k: u64|
                    #[trigger] spatial_map(spatial).contains_key(k) ==> state.position@
                        .contains_key(k) && spatial_map(spatial)[k] == (
                        state.position@[k].x,
                        state.position@[k].y,
                    ),
            decreases n - i,
        {
            let k = state.position.key_at(i);
            let p = *state.position.val_at(i);
            let ghost pre_spv = spatial_map(spatial);
            proof {
                state.position.lemma_view();
                assert(state.position@.contains_key(state.position.pairs()[i as int].0));
                assert(in_bounds(state.position@[state.position.pairs()[i as int].0]));
            }
            spatial.insert(k, p.x, p.y);
            proof {
                assert forall|j: int|
                    0 <= j < i + 1 implies spatial_map(spatial).contains_key(
                    (#[trigger] state.position.pairs()[j]).0,
                ) && spatial_map(spatial)[state.position.pairs()[j].0] == (
                    state.position.pairs()[j].1.x,
                    state.position.pairs()[j].1.y,
                ) by {
                    if j < i {
                        assert(state.position.pairs()[j].0 != state.position.pairs()[i as int].0);
                        assert(pre_spv.contains_key(state.position.pairs()[j].0));
                    }
                }
                assert forall|j: int|
                    i + 1 <= j < n implies !spatial_map(spatial).contains_key(
                    (#[trigger] state.position.pairs()[j]).0,
                ) by {
                    assert(state.position.pairs()[j].0 != state.position.pairs()[i as int].0);
                    assert(!pre_spv.contains_key(state.position.pairs()[j].0));
                }
            }
            i = i + 1;
        }
        proof {
            assert forall|k: u64| #[trigger] state.position@.contains_key(k) implies spatial_map(
                spatial,
            ).contains_key(k) && spatial_map(spatial)[k] == (
                state.position@[k].x,
                state.position@[k].y,
            ) by {
                state.position.lemma_view();
                let j = choose|j: int|
                    0 <= j < state.position.pairs().len() && state.position.pairs()[j] == (
                        k,
                        state.position@[k],
                    );
                assert(spatial_map(spatial).contains_key(state.position.pairs()[j].0));
            }
        }
        GameWorld {
            state,
            spatial_position: spatial,
            pending_actions: Vec::new(),
            events_queue: Vec::new(),
            energy_rule_enabled: false,
            nearby_listener_enabled: true,
        }
    }

    /// Append an action to the pending queue; nothing else changes.
    pub fn enqueue_action(&mut self, action: ActionType)
        ensures
            final(self).pending() =~= old(self).pending().push(action),
            final(self).state == old(self).state,
            final(self).spatial_position == old(self).spatial_position,
            final(self).events_queue == old(self).events_queue,
            final(self).energy_rule_enabled == old(self).energy_rule_enabled,
            final(self).nearby_listener_enabled == old(self).nearby_listener_enabled,
    {
        self.pending_actions.push(action);
    }

    /// Hand the derived events out and leave the queue empty.
    pub fn take_events(&mut self) -> (evs: Vec<GameEvent>)
        ensures
            evs@ == old(self).events_queue@,
            final(self).events_queue@ =~= Seq::<GameEvent>::empty(),
            final(self).state == old(self).state,
            final(self).spatial_position == old(self).spatial_position,
            final(self).pending() == old(self).pending(),
            final(self).energy_rule_enabled == old(self).energy_rule_enabled,
            final(self).nearby_listener_enabled == old(self).nearby_listener_enabled,
    {
        let mut out: Vec<GameEvent> = Vec::new();
        core::mem::swap(&mut out, &mut self.events_queue);
        out
    }

    /// One cascade step, exactly: pop the oldest pending action, build its
    /// diff by the population step, run the rules in order, commit and
    /// derive events only if no rule rejected, and queue every emitted
    /// reaction at the tail. The queue's total weight strictly shrinks.
    pub fn process_one(&mut self)
        requires
            old(self).wf(),
            old(self).pending().len() > 0,
        ensures
            final(self).wf(),
            cascade_step(*old(self), *final(self)),
            sum_weights(final(self).pending()) < sum_weights(old(self).pending()),
            old(self).events_queue@.is_prefix_of(final(self).events_queue@),
    {
        let ghost q0 = self.pending_actions@;
        let ghost pre_state = self.state;
        let ghost pre_spatial = self.spatial_position;
        let ghost pre_spv = spatial_map(self.spatial_position);
        let ghost pre_events = self.events_queue@;
        let at = self.pending_actions.remove(0);
        let ghost gat = at;
        proof {
            assert(self.pending_actions@ =~= q0.drop_first());
            assert(q0[0] == gat);
        }
        proof {
            assert(spatial_bounded(pre_spv)) by {
                assert forall|k2: u64| pre_spv.contains_key(k2) implies -COORD_LIMIT <= (
                #[trigger] pre_spv[k2]).0 <= COORD_LIMIT && -COORD_LIMIT <= pre_spv[k2].1
                    <= COORD_LIMIT by {
                    assert(self.state.position@.contains_key(k2));
                    assert(in_bounds(self.state.position@[k2]));
                }
            }
        }
        let mut diff = Action::new();
        populate_action(at, &self.state, &mut diff, &self.spatial_position);
        let (col_status, _col_rule, mut reactions) = collision(
            &diff,
            &self.state,
            &self.spatial_position,
        );
        let ghost col_rs = reactions@;
        let ghost mut death_rs = Seq::<ActionType>::empty();
        let ghost mut energy_rs = Seq::<ActionType>::empty();
        let rejected = col_status == ActionStatus::Reject;
        if !rejected {
            let (_d_status, _d_rule, mut drs) = death(&diff, &self.state, &self.spatial_position);
            proof {
                death_rs = drs@;
            }
            reactions.append(&mut drs);
            if self.energy_rule_enabled {
                let (_e_status, _e_rule, mut ers) = compute_energy_cost(
                    &diff,
                    &self.state,
                    &self.spatial_position,
                );
                proof {
                    energy_rs = ers@;
                }
                reactions.append(&mut ers);
            }
            on_created(&mut self.events_queue, &diff, &self.state, &self.spatial_position);
            on_moved(&mut self.events_queue, &diff, &self.state, &self.spatial_position);
            on_deleted(&mut self.events_queue, &diff, &self.state, &self.spatial_position);
            proof {
                assert(self.events_queue@ =~= pre_events + created_events(diff, pre_state)
                    + moved_events(diff) + deleted_events(diff, pre_state));
                assert(pre_events.is_prefix_of(self.events_queue@)) by {
                    assert forall|i: int|
                        0 <= i < pre_events.len() implies self.events_queue@[i]
                            == pre_events[i] by {}
                    assert(pre_events =~= self.events_queue@.subrange(
                        0,
                        pre_events.len() as int,
                    ));
                }
            }
            let ghost mid_events = self.events_queue@;
            commit(&mut self.state, &mut self.spatial_position, &diff);
            if self.nearby_listener_enabled {
                update_nearby_list(&mut self.events_queue, &self.state, &self.spatial_position);
            }
            proof {
                assert(mid_events.is_prefix_of(self.events_queue@)) by {
                    if self.events_queue@ == mid_events {
                        assert(mid_events =~= self.events_queue@.subrange(
                            0,
                            mid_events.len() as int,
                        ));
                    }
                }
                lemma_prefix_trans(pre_events, mid_events, self.events_queue@);
            }
        } else {
            proof {
                assert(pre_events.is_prefix_of(self.events_queue@)) by {
                    assert(pre_events =~= self.events_queue@.subrange(
                        0,
                        pre_events.len() as int,
                    ));
                }
            }
        }
        proof {
            lemma_reaction_budget(
                gat,
                pre_state,
                pre_spv,
                diff,
                col_rs,
                death_rs,
                energy_rs,
                reactions@,
                rejected,
            );
            lemma_sum_nonneg(reactions@);
            lemma_sum_nonneg(q0.drop_first());
            assert(sum_weights(q0) == weight(q0[0]) + sum_weights(q0.drop_first()));
        }
        let ghost st_after = self.state;
        let ghost sp_after = self.spatial_position;
        let ghost ev_after = self.events_queue@;
        let ghost pend0 = self.pending_actions@;
        let ghost rx_all = reactions@;
        while reactions.len() > 0
            invariant
                self.wf(),
                self.state == st_after,
                self.spatial_position == sp_after,
                self.events_queue@ == ev_after,
                self.energy_rule_enabled == old(self).energy_rule_enabled,
                self.nearby_listener_enabled == old(self).nearby_listener_enabled,
                reactions@.len() <= rx_all.len(),
                reactions@ =~= rx_all.skip(rx_all.len() - reactions@.len()),
                self.pending_actions@ =~= pend0 + rx_all.take(rx_all.len() - reactions@.len()),
            decreases reactions@.len(),
        {
            let ghost done = rx_all.len() - reactions@.len();
            let ghost rx0 = reactions@;
            let ghost p0 = self.pending_actions@;
            let r = reactions.remove(0);
            let ghost gr = r;
            self.pending_actions.push(r);
            proof {
                assert(reactions@ =~= rx0.drop_first());
                assert(gr == rx0[0]);
                assert(rx0[0] == rx_all[done]);
                assert(rx_all.skip(done).drop_first() =~= rx_all.skip(done + 1));
                assert(rx_all.take(done + 1) =~= rx_all.take(done).push(rx_all[done]));
                assert(self.pending_actions@ =~= p0 + seq![gr]);
                assert(pend0 + rx_all.take(done + 1) =~= (pend0 + rx_all.take(done)) + seq![
                    rx_all[done],
                ]);
            }
        }
        proof {
            assert(rx_all.take(rx_all.len() as int) =~= rx_all);
            assert(self.pending_actions@ =~= pend0 + rx_all);
            lemma_sum_concat(pend0, rx_all);
            assert(sum_weights(self.pending_actions@) < sum_weights(q0));
            assert(col_status == ActionStatus::Accept || col_status == ActionStatus::Reject);
            if rejected {
                assert(step_witness(*old(self), *self, diff, col_rs));
            } else {
                assert(self.pending_actions@ =~= q0.drop_first() + death_rs + energy_rs) by {
                    assert(col_rs =~= Seq::<ActionType>::empty());
                    assert(rx_all == col_rs + death_rs + energy_rs);
                    assert(rx_all =~= death_rs + energy_rs);
                    assert(pend0 + (death_rs + energy_rs) =~= (pend0 + death_rs) + energy_rs);
                    assert(q0.drop_first() + death_rs + energy_rs =~= pend0 + (death_rs
                        + energy_rs));
                }
                assert(step_witness(*old(self), *self, diff, col_rs));
            }
            assert(cascade_step(*old(self), *self));
            lemma_prefix_trans(pre_events, ev_after, self.events_queue@);
        }
    }

    /// Drain the pending queue to exhaustion, breadth-first: all actions
    /// already queued resolve before any of their own reactions. Every
    /// cascade terminates, because each step strictly shrinks the queue's
    /// total weight.
    pub fn process_actions(&mut self)
        requires
            old(self).wf(),
        ensures
            final(self).wf(),
            final(self).pending() =~= Seq::<ActionType>::empty(),
            old(self).events_queue@.is_prefix_of(final(self).events_queue@),
            old(self).pending().len() == 0 ==> *final(self) == *old(self),
            cascades(*old(self), *final(self)),
    {
        let ghost w0 = *self;
        let ghost base_events = self.events_queue@;
        let ghost mut steps: nat = 0;
        proof {
            assert(base_events =~= self.events_queue@.subrange(0, base_events.len() as int));
            assert(cascade_reach(w0, *self, 0));
        }
        if self.pending_actions.len() == 0 {
            proof {
                assert(self.pending_actions@ =~= Seq::<ActionType>::empty());
            }
            return ;
        }
        while self.pending_actions.len() > 0
            invariant
                self.wf(),
                base_events.is_prefix_of(self.events_queue@),
                cascade_reach(w0, *self, steps),
            decreases sum_weights(self.pending_actions@),
        {
            let ghost prev = *self;
            let ghost ev0 = self.events_queue@;
            proof {
                lemma_sum_nonneg(self.pending_actions@);
            }
            self.process_one();
            proof {
                lemma_sum_nonneg(self.pending_actions@);
                lemma_prefix_trans(base_events, ev0, self.events_queue@);
                assert(cascade_step(prev, *self));
                assert(cascade_reach(w0, *self, steps + 1)) by {
                    let m = (steps + 1 - 1) as nat;
                    assert(m == steps);
                    assert(cascade_reach(w0, prev, m));
                    assert(cascade_step(prev, *self));
                }
                steps = steps + 1;
            }
        }
    }
}

/// What one cascade step does, witnessed by the diff the population step
/// built and by the collision rule's reactions (whose choice of blocker
/// follows the index's unspecified scan order). A rejected diff is
/// discarded — the state, the index and the events are untouched — but its
/// reactions are still queued; an accepted one is merged and derives its
/// events against the pre-commit state.
pub open spec fn step_witness(
    pre: GameWorld,
    post: GameWorld,
    a: Action,
    col_rs: Seq<ActionType>,
) -> bool {
    let at = pre.pending()[0];
    let spv = spatial_map(pre.spatial_position);
    let rejected = !all_clear(a, pre.state, spv);
    &&& a.wf()
    &&& populated(at, pre.state, spv, a)
    &&& post.energy_rule_enabled == pre.energy_rule_enabled
    &&& post.nearby_listener_enabled == pre.nearby_listener_enabled
    &&& (rejected ==> {
        &&& (exists|k: int, e: u64|
            #[trigger] collision_hit(a, pre.state, spv, k, e) && hit_reactions(
                a,
                pre.state,
                k,
                e,
                col_rs,
            ))
        &&& post.state == pre.state
        &&& post.spatial_position == pre.spatial_position
        &&& post.events_queue@ == pre.events_queue@
        &&& post.pending() =~= pre.pending().drop_first() + col_rs
    })
    &&& (!rejected ==> {
        let death_rs = die_reactions(a.updated_health.pairs());
        let energy_rs = if pre.energy_rule_enabled {
            energy_reactions(a.updated_actioncost.pairs(), pre.state)
        } else {
            Seq::<ActionType>::empty()
        };
        let base = pre.events_queue@ + created_events(a, pre.state) + moved_events(a)
            + deleted_events(a, pre.state);
        &&& col_rs == Seq::<ActionType>::empty()
        &&& commit_rel(pre.state, post.state, a)
        &&& post.pending() =~= pre.pending().drop_first() + death_rs + energy_rs
        &&& base.is_prefix_of(post.events_queue@)
        &&& (!pre.nearby_listener_enabled ==> post.events_queue@ == base)
        &&& forall|i: int|
            base.len() <= i < post.events_queue@.len() ==> nearby_event_ok(
                #[trigger] post.events_queue@[i],
                post.state,
                spatial_map(post.spatial_position),
            )
        &&& (pre.nearby_listener_enabled ==> forall|pj: int, e: u64|
            0 <= pj < post.state.player.pairs().len() && #[trigger] nearby_candidate(
                post.state,
                spatial_map(post.spatial_position),
                post.state.player.pairs()[pj].0,
                e,
            ) ==> exists|i: int|
                base.len() <= i < post.events_queue@.len() && is_nearby_notice(
                    #[trigger] post.events_queue@[i],
                    post.state,
                    e,
                ))
        &&& (pre.nearby_listener_enabled ==> post.events_queue@.len() == base.len()
            + nearby_total(
            post.state,
            spatial_map(post.spatial_position),
            post.state.player.pairs(),
        ))
    })
}

/// Some diff and some collision outcome connect the two worlds as one
/// cascade step.
pub open spec fn cascade_step(pre: GameWorld, post: GameWorld) -> bool {
    exists|a: Action, col_rs: Seq<ActionType>| #[trigger] step_witness(pre, post, a, col_rs)
}

/// `post` is reached from `pre` by exactly `n` cascade steps.
pub open spec fn cascade_reach(pre: GameWorld, post: GameWorld, n: nat) -> bool
    decreases n,
{
    if n == 0 {
        post == pre
    } else {
        exists|mid: GameWorld|
            cascade_reach(pre, mid, (n - 1) as nat) && #[trigger] cascade_step(mid, post)
    }
}

/// `post` is what draining `pre`'s queue to exhaustion produces: a finite
/// chain of cascade steps, ending with an empty queue.
pub open spec fn cascades(pre: GameWorld, post: GameWorld) -> bool {
    post.pending().len() == 0 && exists|n: nat| cascade_reach(pre, post, n)
}

} // verus!
