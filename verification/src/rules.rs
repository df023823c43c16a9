//! The rule pipeline. Rules run in a fixed order against the pending diff,
//! the authoritative state and the spatial index; each returns an
//! accept/reject verdict for the diff, a continue/stop signal for the rest
//! of the pipeline, and follow-up reactions.

use vstd::prelude::*;
use crate::action::{future_health, future_solid, Action, ActionType};
use crate::components::{ActionCost, EntityId, Health, Position};
use crate::spatial::{entities_at, spatial_map, SpatialIndex};
use crate::store::GameState;

verus! {

/// Verdict on the pending diff.
#[derive(Clone, Copy, PartialEq, Eq, Structural, Debug)]
pub enum ActionStatus {
    Accept,
    Reject,
}

/// Whether the rules after this one still run for this diff.
#[derive(Clone, Copy, PartialEq, Eq, Structural, Debug)]
pub enum RuleStatus {
    KeepChecking,
    StopChecking,
}

/// `e` blocks `mover` from entering `dest`: it is another entity standing
/// exactly there that is solid in the world the diff would produce.
pub open spec fn is_blocker(
    a: Action,
    s: GameState,
    spv: Map<u64, (i64, i64)>,
    mover: u64,
    dest: Position,
    e: u64,
) -> bool {
    e != mover && entities_at(spv, dest.x, dest.y).contains(e) && future_solid(a, s, e) is Some
}

/// No blocker stands on the destination staged by entry `k` of the diff.
pub open spec fn tile_clear(a: Action, s: GameState, spv: Map<u64, (i64, i64)>, k: int) -> bool {
    forall|e: u64|
        !(#[trigger] is_blocker(
            a,
            s,
            spv,
            a.updated_position.pairs()[k].0,
            a.updated_position.pairs()[k].1,
            e,
        ))
}

/// Every staged destination is free of blockers.
pub open spec fn all_clear(a: Action, s: GameState, spv: Map<u64, (i64, i64)>) -> bool {
    forall|k: int| 0 <= k < a.updated_position.pairs().len() ==> #[trigger] tile_clear(a, s, spv, k)
}

/// A rejection witness: entry `k` is the first staged destination with a
/// blocker, and `e` is a blocker standing there.
pub open spec fn collision_hit(
    a: Action,
    s: GameState,
    spv: Map<u64, (i64, i64)>,
    k: int,
    e: u64,
) -> bool {
    &&& 0 <= k < a.updated_position.pairs().len()
    &&& forall|k2: int| 0 <= k2 < k ==> #[trigger] tile_clear(a, s, spv, k2)
    &&& is_blocker(a, s, spv, a.updated_position.pairs()[k].0, a.updated_position.pairs()[k].1, e)
}

/// The reactions a rejection emits: a bump into a blocker with health
/// becomes an attack; a bump into one without health emits nothing.
pub open spec fn hit_reactions(
    a: Action,
    s: GameState,
    k: int,
    e: u64,
    rs: Seq<ActionType>,
) -> bool {
    if future_health(a, s, e) is Some {
        rs =~= seq![
            ActionType::DamageEntity {
                attacker_id: EntityId(a.updated_position.pairs()[k].0),
                target_id: EntityId(e),
                cost: 0,
            },
        ]
    } else {
        rs =~= Seq::<ActionType>::empty()
    }
}

/// For every position the diff would place an entity at, scan all other
/// entities standing there. A solid occupant rejects the move and stops the
/// pipeline; if it also has health, the bump becomes an attack on it.
pub fn collision(action: &Action, state: &GameState, spatial: &SpatialIndex) -> (r: (
    ActionStatus,
    RuleStatus,
    Vec<ActionType>,
))
    requires
        action.wf(),
        state.wf(),
        crate::spatial::spatial_bounded(spatial_map(*spatial)),
    ensures
        (r.0 == ActionStatus::Accept) <==> all_clear(*action, *state, spatial_map(*spatial)),
        r.0 == ActionStatus::Accept ==> r.1 == RuleStatus::KeepChecking && r.2@ =~= Seq::<
            ActionType,
        >::empty(),
        r.0 == ActionStatus::Reject ==> r.1 == RuleStatus::StopChecking && exists|k: int, e: u64|
            #[trigger]
            collision_hit(*action, *state, spatial_map(*spatial), k, e) && hit_reactions(
                *action,
                *state,
                k,
                e,
                r.2@,
            ),
{
    let ghost spv = spatial_map(*spatial);
    let future_state = crate::action::FutureState { action, state };
    let n = action.updated_position.len();
    let mut k: usize = 0;
    while k < n
        invariant
            action.wf(),
            state.wf(),
            n == action.updated_position.pairs().len(),
            k <= n,
            spv == spatial_map(*spatial),
            crate::spatial::spatial_bounded(spv),
            future_state.action == action,
            future_state.state == state,
            forall|k2: int| 0 <= k2 < k ==> #[trigger] tile_clear(*action, *state, spv, k2),
        decreases n - k,
    {
        let moved_id = action.updated_position.key_at(k);
        let new_position = *action.updated_position.val_at(k);
        proof {
            action.updated_position.lemma_view();
            assert(action.updated_position@.contains_key(
                action.updated_position.pairs()[k as int].0,
            ));
            assert(crate::components::in_bounds(
                action.updated_position@[action.updated_position.pairs()[k as int].0],
            ));
        }
        let occupants = spatial.at_point(new_position.x, new_position.y);
        let m = occupants.len();
        let mut j: usize = 0;
        while j < m
            invariant
                action.wf(),
                state.wf(),
                k < n,
                n == action.updated_position.pairs().len(),
                m == occupants@.len(),
                j <= m,
                spv == spatial_map(*spatial),
                future_state.action == action,
                future_state.state == state,
                moved_id == action.updated_position.pairs()[k as int].0,
                new_position == action.updated_position.pairs()[k as int].1,
                occupants@.to_set() =~= entities_at(spv, new_position.x, new_position.y),
                forall|k2: int| 0 <= k2 < k ==> #[trigger] tile_clear(*action, *state, spv, k2),
                forall|j2: int|
                    0 <= j2 < j ==> #[trigger] occupants@[j2] == moved_id || future_solid(
                        *action,
                        *state,
                        occupants@[j2],
                    ) is None,
            decreases m - j,
        {
            let e = occupants[j];
            if e != moved_id {
                if future_state.get_solid(EntityId(e)).is_some() {
                    proof {
                        assert(occupants@.contains(e)) by {
                            assert(occupants@[j as int] == e);
                        }
                        assert(entities_at(spv, new_position.x, new_position.y).contains(e));
                        assert(is_blocker(*action, *state, spv, moved_id, new_position, e));
                        assert(collision_hit(*action, *state, spv, k as int, e));
                        assert(!tile_clear(*action, *state, spv, k as int));
                    }
                    let mut reactions: Vec<ActionType> = Vec::new();
                    if future_state.get_health(EntityId(e)).is_some() {
                        reactions.push(
                            ActionType::DamageEntity {
                                attacker_id: EntityId(moved_id),
                                target_id: EntityId(e),
                                cost: 0,
                            },
                        );
                        proof {
                            assert(hit_reactions(*action, *state, k as int, e, reactions@));
                        }
                    } else {
                        proof {
                            assert(hit_reactions(*action, *state, k as int, e, reactions@));
                        }
                    }
                    return (ActionStatus::Reject, RuleStatus::StopChecking, reactions);
                }
            }
            j = j + 1;
        }
        proof {
            assert(tile_clear(*action, *state, spv, k as int)) by {
                assert forall|e: u64|
                    !(#[trigger] is_blocker(
                        *action,
                        *state,
                        spv,
                        action.updated_position.pairs()[k as int].0,
                        action.updated_position.pairs()[k as int].1,
                        e,
                    )) by {
                    if is_blocker(*action, *state, spv, moved_id, new_position, e) {
                        assert(entities_at(spv, new_position.x, new_position.y).contains(e));
                        assert(occupants@.to_set().contains(e));
                        assert(occupants@.contains(e));
                        let j2 = choose|j2: int|
                            0 <= j2 < occupants@.len() && occupants@[j2] == e;
                        assert(occupants@[j2] == moved_id || future_solid(*action, *state, e)
                            is None);
                    }
                }
            }
        }
        k = k + 1;
    }
    (ActionStatus::Accept, RuleStatus::KeepChecking, Vec::new())
}

/// Whether a reaction is a death notice for entity `e`.
pub open spec fn is_die_for(a: ActionType, e: u64) -> bool {
    match a {
        ActionType::Die { entity_id, .. } => entity_id.0 == e,
        _ => false,
    }
}

/// The death notices a staged health sequence gives rise to, in order: one
/// `Die` for each entry at or below zero.
pub open spec fn die_reactions(s: Seq<(u64, Health)>) -> Seq<ActionType>
    decreases s.len(),
{
    if s.len() == 0 {
        Seq::empty()
    } else {
        die_reactions(s.drop_last()) + (if s.last().1.0 <= 0 {
            seq![ActionType::Die { entity_id: EntityId(s.last().0), cost: 0 }]
        } else {
            Seq::empty()
        })
    }
}

/// For every entity whose staged health is at or below zero, emit a `Die`
/// reaction. Never rejects, never stops the pipeline.
pub fn death(action: &Action, state: &GameState, _spatial: &SpatialIndex) -> (r: (
    ActionStatus,
    RuleStatus,
    Vec<ActionType>,
))
    requires
        action.wf(),
        state.wf(),
    ensures
        r.0 == ActionStatus::Accept,
        r.1 == RuleStatus::KeepChecking,
        r.2@ =~= die_reactions(action.updated_health.pairs()),
{
    let mut reactions: Vec<ActionType> = Vec::new();
    let n = action.updated_health.len();
    let mut i: usize = 0;
    while i < n
        invariant
            action.wf(),
            n == action.updated_health.pairs().len(),
            i <= n,
            reactions@ =~= die_reactions(action.updated_health.pairs().take(i as int)),
        decreases n - i,
    {
        let id = action.updated_health.key_at(i);
        let health = *action.updated_health.val_at(i);
        if health.0 <= 0 {
            reactions.push(ActionType::Die { entity_id: EntityId(id), cost: 0 });
        }
        proof {
            let s = action.updated_health.pairs();
            assert(s.take(i as int + 1).drop_last() =~= s.take(i as int));
            assert(s.take(i as int + 1).last() == s[i as int]);
        }
        i = i + 1;
    }
    proof {
        assert(action.updated_health.pairs().take(n as int) =~= action.updated_health.pairs());
    }
    (ActionStatus::Accept, RuleStatus::KeepChecking, reactions)
}

/// How many death notices for `e` a reaction sequence holds.
pub open spec fn die_count(rs: Seq<ActionType>, e: u64) -> int
    decreases rs.len(),
{
    if rs.len() == 0 {
        0
    } else {
        die_count(rs.drop_last(), e) + (if is_die_for(rs.last(), e) {
            1int
        } else {
            0int
        })
    }
}

/// A diff that drives an entity's health to zero or below produces exactly
/// one death notice for it, however many other changes share the diff.
pub proof fn lemma_one_die_per_entity(s: Seq<(u64, Health)>, e: u64, i: int)
    requires
        crate::table::unique_keys(s),
        0 <= i < s.len(),
        s[i].0 == e,
        s[i].1.0 <= 0,
    ensures
        die_count(die_reactions(s), e) == 1,
    decreases s.len(),
{
    let tail: Seq<ActionType> = if s.last().1.0 <= 0 {
        seq![ActionType::Die { entity_id: EntityId(s.last().0), cost: 0 }]
    } else {
        Seq::empty()
    };
    lemma_die_count_concat(die_reactions(s.drop_last()), tail, e);
    assert(die_reactions(s) == die_reactions(s.drop_last()) + tail);
    if s.last().1.0 <= 0 {
        assert(tail.len() == 1);
        assert(tail.drop_last() =~= Seq::<ActionType>::empty());
        assert(die_count(Seq::<ActionType>::empty(), e) == 0);
        assert(die_count(tail, e) == die_count(tail.drop_last(), e) + (if is_die_for(
            tail.last(),
            e,
        ) {
            1int
        } else {
            0int
        }));
        assert(die_count(tail, e) == (if s.last().0 == e { 1int } else { 0int }));
    } else {
        assert(die_count(tail, e) == 0);
    }
    if i == s.len() - 1 {
        assert forall|j: int|
            0 <= j < s.drop_last().len() implies (#[trigger] s.drop_last()[j]).0 != e by {
            assert(s.drop_last()[j] == s[j]);
            assert(s[j].0 != s[i].0);
        }
        lemma_absent_no_die(s.drop_last(), e);
    } else {
        assert(s.drop_last()[i] == s[i]);
        lemma_one_die_per_entity(s.drop_last(), e, i);
        assert(s[i].0 != s[s.len() - 1].0);
        assert(s.last().0 != e);
    }
}

/// An entity with no low-health entry in the diff gets no death notice.
pub proof fn lemma_absent_no_die(s: Seq<(u64, Health)>, e: u64)
    requires
        forall|i: int| 0 <= i < s.len() ==> (#[trigger] s[i]).0 != e,
    ensures
        die_count(die_reactions(s), e) == 0,
    decreases s.len(),
{
    if s.len() > 0 {
        assert forall|i: int|
            0 <= i < s.drop_last().len() implies (#[trigger] s.drop_last()[i]).0 != e by {
            assert(s.drop_last()[i] == s[i]);
        }
        lemma_absent_no_die(s.drop_last(), e);
        let tail: Seq<ActionType> = if s.last().1.0 <= 0 {
            seq![ActionType::Die { entity_id: EntityId(s.last().0), cost: 0 }]
        } else {
            Seq::empty()
        };
        lemma_die_count_concat(die_reactions(s.drop_last()), tail, e);
        assert(die_reactions(s) == die_reactions(s.drop_last()) + tail);
        assert(s[s.len() - 1].0 != e);
        if s.last().1.0 <= 0 {
            assert(tail.len() == 1);
            assert(tail.drop_last() =~= Seq::<ActionType>::empty());
            assert(die_count(Seq::<ActionType>::empty(), e) == 0);
            assert(die_count(tail, e) == die_count(tail.drop_last(), e) + (if is_die_for(
                tail.last(),
                e,
            ) {
                1int
            } else {
                0int
            }));
            assert(!is_die_for(tail.last(), e));
            assert(die_count(tail, e) == 0);
        } else {
            assert(die_count(tail, e) == 0);
        }
    }
}

/// Death-notice counts add over concatenation.
pub proof fn lemma_die_count_concat(x: Seq<ActionType>, y: Seq<ActionType>, e: u64)
    ensures
        die_count(x + y, e) == die_count(x, e) + die_count(y, e),
    decreases y.len(),
{
    if y.len() == 0 {
        assert(x + y =~= x);
    } else {
        assert((x + y).drop_last() =~= x + y.drop_last());
        assert((x + y).last() == y.last());
        lemma_die_count_concat(x, y.drop_last(), e);
    }
}

/// The energy cost an action charge works out to: the staged cost times the
/// ratio `100 / initiative`, saturating at the `u32` top.
pub open spec fn cost_value(cost: u32, initiative: u32) -> int
    recommends
        initiative > 0,
{
    if cost * (100 as int / initiative as int) > u32::MAX {
        u32::MAX as int
    } else {
        cost * (100 as int / initiative as int)
    }
}

/// The energy-spend reactions a staged cost sequence gives rise to, in
/// order: one per nonzero cost whose entity has a positive initiative.
pub open spec fn energy_reactions(s: Seq<(u64, ActionCost)>, st: GameState) -> Seq<ActionType>
    decreases s.len(),
{
    if s.len() == 0 {
        Seq::empty()
    } else {
        energy_reactions(s.drop_last(), st) + (if s.last().1.0 != 0 && st.initiative@.contains_key(
            s.last().0,
        ) && st.initiative@[s.last().0].0 != 0 {
            seq![
                ActionType::DecreaseEnergy {
                    entity_id: EntityId(s.last().0),
                    value: cost_value(s.last().1.0, st.initiative@[s.last().0].0) as u32,
                },
            ]
        } else {
            Seq::empty()
        })
    }
}

/// For every entity whose diff sets a nonzero action cost, compute
/// `cost * (100 / initiative)` and emit an energy spend for that amount.
/// An entity without initiative, or with the configuration fault of a zero
/// one, is skipped. Never rejects, never stops the pipeline.
pub fn compute_energy_cost(action: &Action, state: &GameState, _spatial: &SpatialIndex) -> (r: (
    ActionStatus,
    RuleStatus,
    Vec<ActionType>,
))
    requires
        action.wf(),
        state.wf(),
    ensures
        r.0 == ActionStatus::Accept,
        r.1 == RuleStatus::KeepChecking,
        r.2@ =~= energy_reactions(action.updated_actioncost.pairs(), *state),
{
    let mut reactions: Vec<ActionType> = Vec::new();
    let n = action.updated_actioncost.len();
    let mut i: usize = 0;
    while i < n
        invariant
            action.wf(),
            state.wf(),
            n == action.updated_actioncost.pairs().len(),
            i <= n,
            reactions@ =~= energy_reactions(
                action.updated_actioncost.pairs().take(i as int),
                *state,
            ),
        decreases n - i,
    {
        let id = action.updated_actioncost.key_at(i);
        let action_cost = *action.updated_actioncost.val_at(i);
        if action_cost.0 != 0 {
            match state.get_initiative(EntityId(id)) {
                Some(initiative) => {
                    if initiative.0 != 0 {
                        let ratio: u32 = 100 / initiative.0;
                        proof {
                            assert((action_cost.0 as u64) * (ratio as u64) <= (u32::MAX as u64)
                                * 100) by (nonlinear_arith)
                                requires
                                    action_cost.0 as u64 <= u32::MAX as u64,
                                    ratio as u64 <= 100,
                            ;
                        }
                        let prod: u64 = (action_cost.0 as u64) * (ratio as u64);
                        let value: u32 = if prod > (u32::MAX as u64) {
                            u32::MAX
                        } else {
                            prod as u32
                        };
                        reactions.push(
                            ActionType::DecreaseEnergy { entity_id: EntityId(id), value },
                        );
                    }
                },
                None => {},
            }
        }
        proof {
            let s = action.updated_actioncost.pairs();
            assert(s.take(i as int + 1).drop_last() =~= s.take(i as int));
            assert(s.take(i as int + 1).last() == s[i as int]);
        }
        i = i + 1;
    }
    proof {
        assert(action.updated_actioncost.pairs().take(n as int)
            =~= action.updated_actioncost.pairs());
    }
    (ActionStatus::Accept, RuleStatus::KeepChecking, reactions)
}

} // verus!
