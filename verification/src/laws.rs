//! The laws the kernel keeps, each proved once and for all over the spec
//! functions the public contracts use.

use vstd::prelude::*;
use crate::action::{future_health, is_die_diff, Action, ActionType};
use crate::components::EntityId;
use crate::rules::{
    all_clear, collision_hit, die_count, die_reactions, hit_reactions, is_blocker,
    lemma_one_die_per_entity, tile_clear, ActionStatus,
};
use crate::spatial::{entities_within, spatial_map};
use crate::store::GameState;
use crate::world::{commit_rel, sync, GameWorld};

verus! {

/// After any cascade, an entity has a position in the store exactly when it
/// is present in the spatial index, and at the same coordinates: the two
/// never diverge.
pub proof fn lemma_store_index_agree(w: GameWorld)
    requires
        w.wf(),
    ensures
        forall|e: u64|
            w.state.position@.contains_key(e) <==> spatial_map(w.spatial_position).contains_key(
                e,
            ),
        forall|e: u64|
            #[trigger] w.state.position@.contains_key(e) ==> spatial_map(w.spatial_position)[e]
                == (w.state.position@[e].x, w.state.position@[e].y),
{
    assert forall|e: u64|
        w.state.position@.contains_key(e) <==> spatial_map(w.spatial_position).contains_key(
            e,
        ) by {
        if w.state.position@.contains_key(e) {
        }
        if spatial_map(w.spatial_position).contains_key(e) {
        }
    }
}

/// A move into a tile whose blockers all have health is rejected, and the
/// bump becomes exactly one attack: attacker the mover, target an occupant.
pub proof fn lemma_bump_is_attack(
    a: Action,
    s: GameState,
    spv: Map<u64, (i64, i64)>,
    status: ActionStatus,
    rs: Seq<ActionType>,
)
    requires
        a.wf(),
        s.wf(),
        (status == ActionStatus::Accept) <==> all_clear(a, s, spv),
        status == ActionStatus::Reject ==> exists|k: int, e: u64|
            #[trigger] collision_hit(a, s, spv, k, e) && hit_reactions(a, s, k, e, rs),
        a.updated_position.pairs().len() == 1,
        exists|e: u64|
            is_blocker(
                a,
                s,
                spv,
                a.updated_position.pairs()[0].0,
                a.updated_position.pairs()[0].1,
                e,
            ),
        forall|e: u64|
            #[trigger] is_blocker(
                a,
                s,
                spv,
                a.updated_position.pairs()[0].0,
                a.updated_position.pairs()[0].1,
                e,
            ) ==> future_health(a, s, e) is Some,
    ensures
        status == ActionStatus::Reject,
        rs.len() == 1,
        exists|e: u64|
            is_blocker(
                a,
                s,
                spv,
                a.updated_position.pairs()[0].0,
                a.updated_position.pairs()[0].1,
                e,
            ) && rs =~= seq![
                ActionType::DamageEntity {
                    attacker_id: EntityId(a.updated_position.pairs()[0].0),
                    target_id: EntityId(e),
                    cost: 0,
                },
            ],
{
    let b = choose|e: u64|
        is_blocker(a, s, spv, a.updated_position.pairs()[0].0, a.updated_position.pairs()[0].1, e);
    assert(!tile_clear(a, s, spv, 0));
    assert(!all_clear(a, s, spv));
    assert(status == ActionStatus::Reject);
    let (k, e) = choose|k: int, e: u64|
        #[trigger] collision_hit(a, s, spv, k, e) && hit_reactions(a, s, k, e, rs);
    assert(k == 0);
    assert(is_blocker(
        a,
        s,
        spv,
        a.updated_position.pairs()[0].0,
        a.updated_position.pairs()[0].1,
        e,
    ));
    assert(future_health(a, s, e) is Some);
    assert(rs =~= seq![
        ActionType::DamageEntity {
            attacker_id: EntityId(a.updated_position.pairs()[0].0),
            target_id: EntityId(e),
            cost: 0,
        },
    ]);
}

/// A move into a tile with a blocker, none of whose blockers has health, is
/// rejected with no reaction at all: the way is simply blocked.
pub proof fn lemma_bump_is_blocked(
    a: Action,
    s: GameState,
    spv: Map<u64, (i64, i64)>,
    status: ActionStatus,
    rs: Seq<ActionType>,
)
    requires
        a.wf(),
        s.wf(),
        (status == ActionStatus::Accept) <==> all_clear(a, s, spv),
        status == ActionStatus::Reject ==> exists|k: int, e: u64|
            #[trigger] collision_hit(a, s, spv, k, e) && hit_reactions(a, s, k, e, rs),
        a.updated_position.pairs().len() == 1,
        exists|e: u64|
            is_blocker(
                a,
                s,
                spv,
                a.updated_position.pairs()[0].0,
                a.updated_position.pairs()[0].1,
                e,
            ),
        forall|e: u64|
            #[trigger] is_blocker(
                a,
                s,
                spv,
                a.updated_position.pairs()[0].0,
                a.updated_position.pairs()[0].1,
                e,
            ) ==> future_health(a, s, e) is None,
    ensures
        status == ActionStatus::Reject,
        rs =~= Seq::<ActionType>::empty(),
{
    let b = choose|e: u64|
        is_blocker(a, s, spv, a.updated_position.pairs()[0].0, a.updated_position.pairs()[0].1, e);
    assert(!tile_clear(a, s, spv, 0));
    assert(!all_clear(a, s, spv));
    assert(status == ActionStatus::Reject);
    let (k, e) = choose|k: int, e: u64|
        #[trigger] collision_hit(a, s, spv, k, e) && hit_reactions(a, s, k, e, rs);
    assert(k == 0);
    assert(is_blocker(
        a,
        s,
        spv,
        a.updated_position.pairs()[0].0,
        a.updated_position.pairs()[0].1,
        e,
    ));
    assert(future_health(a, s, e) is None);
}

/// A diff that drives an entity's health to zero or below gives rise to
/// exactly one death notice for that entity, however many other component
/// changes share the diff.
pub proof fn lemma_low_health_one_die(a: Action, rs: Seq<ActionType>, e: u64, i: int)
    requires
        a.wf(),
        rs == die_reactions(a.updated_health.pairs()),
        0 <= i < a.updated_health.pairs().len(),
        a.updated_health.pairs()[i].0 == e,
        a.updated_health.pairs()[i].1.0 <= 0,
    ensures
        die_count(rs, e) == 1,
{
    lemma_one_die_per_entity(a.updated_health.pairs(), e, i);
}

/// Committing a death diff for an entity removes it from every component
/// table and from the spatial index in the same step: afterwards no lookup
/// finds it and no spatial query returns it.
pub proof fn lemma_die_clears_entity(
    pre: GameState,
    post: GameState,
    a: Action,
    spv_post: Map<u64, (i64, i64)>,
    e: u64,
)
    requires
        a.wf(),
        commit_rel(pre, post, a),
        is_die_diff(a, e),
        sync(post.position@, spv_post),
    ensures
        !post.position@.contains_key(e),
        !post.attack@.contains_key(e),
        !post.health@.contains_key(e),
        !post.initiative@.contains_key(e),
        !post.name@.contains_key(e),
        !post.glyph@.contains_key(e),
        !post.player@.contains_key(e),
        !post.solid@.contains_key(e),
        !post.item@.contains_key(e),
        !post.carriedby@.contains_key(e),
        !post.energy@.contains_key(e),
        !post.actioncost@.contains_key(e),
        !spv_post.contains_key(e),
        forall|x: i64, y: i64, d: i64| !entities_within(spv_post, x, y, d).contains(e),
{
    a.removed_position.lemma_view();
    a.removed_attack.lemma_view();
    a.removed_health.lemma_view();
    a.removed_initiative.lemma_view();
    a.removed_name.lemma_view();
    a.removed_glyph.lemma_view();
    a.removed_player.lemma_view();
    a.removed_solid.lemma_view();
    a.removed_item.lemma_view();
    a.removed_carriedby.lemma_view();
    a.removed_energy.lemma_view();
    a.removed_actioncost.lemma_view();
    assert(a.removed_position@.contains_key(a.removed_position.pairs()[0].0));
    assert(a.removed_attack@.contains_key(a.removed_attack.pairs()[0].0));
    assert(a.removed_health@.contains_key(a.removed_health.pairs()[0].0));
    assert(a.removed_initiative@.contains_key(a.removed_initiative.pairs()[0].0));
    assert(a.removed_name@.contains_key(a.removed_name.pairs()[0].0));
    assert(a.removed_glyph@.contains_key(a.removed_glyph.pairs()[0].0));
    assert(a.removed_player@.contains_key(a.removed_player.pairs()[0].0));
    assert(a.removed_solid@.contains_key(a.removed_solid.pairs()[0].0));
    assert(a.removed_item@.contains_key(a.removed_item.pairs()[0].0));
    assert(a.removed_carriedby@.contains_key(a.removed_carriedby.pairs()[0].0));
    assert(a.removed_energy@.contains_key(a.removed_energy.pairs()[0].0));
    assert(a.removed_actioncost@.contains_key(a.removed_actioncost.pairs()[0].0));
}

/// Two consistent worlds whose position tables agree have identical spatial
/// indexes, so every point and radius query answers with the same set of
/// entities: a restored snapshot answers queries as the saved world did.
pub proof fn lemma_equal_positions_equal_queries(w1: GameWorld, w2: GameWorld)
    requires
        w1.wf(),
        w2.wf(),
        w1.state.position@ == w2.state.position@,
    ensures
        spatial_map(w1.spatial_position) =~= spatial_map(w2.spatial_position),
        forall|x: i64, y: i64, d: i64|
            entities_within(spatial_map(w1.spatial_position), x, y, d) =~= #[trigger]
            entities_within(spatial_map(w2.spatial_position), x, y, d),
{
    assert(spatial_map(w1.spatial_position) =~= spatial_map(w2.spatial_position)) by {
        assert forall|k: u64|
            spatial_map(w1.spatial_position).contains_key(k) <==> spatial_map(
                w2.spatial_position,
            ).contains_key(k) by {
            if spatial_map(w1.spatial_position).contains_key(k) {
                assert(w1.state.position@.contains_key(k));
            }
            if spatial_map(w2.spatial_position).contains_key(k) {
                assert(w2.state.position@.contains_key(k));
            }
        }
        assert forall|k: u64|
            #[trigger] spatial_map(w1.spatial_position).contains_key(k) implies spatial_map(
            w1.spatial_position,
        )[k] == spatial_map(w2.spatial_position)[k] by {
            assert(w1.state.position@.contains_key(k));
        }
    }
}

} // verus!
