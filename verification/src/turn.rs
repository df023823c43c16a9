//! The turn/energy scheduler. Per external tick it runs a bounded loop: a
//! player with nonnegative energy spends one queued command; otherwise every
//! entity is granted energy and each active entity near the player takes a
//! placeholder step.

use vstd::prelude::*;
use crate::action::ActionType;
use crate::components::{in_bounds, Energy, EntityId, Position, COORD_LIMIT};
use crate::spatial::{entities_within, spatial_bounded, spatial_map};
use crate::table::key_index;
use crate::world::{cascades, lemma_prefix_trans, GameWorld};

verus! {

/// How much energy every entity is granted per idle cycle.
pub const ENERGY_GRANT: i64 = 50;

/// The squared radius around the player within which entities act.
pub const ACTIVE_RADIUS_SQ: i64 = 4000;

/// How many grant-or-act cycles one external tick may run.
pub const TICK_CAP: u32 = 10;

/// The queue of player commands awaiting their turn.
pub struct NextAction(pub Vec<ActionType>);

impl NextAction {
    pub fn new() -> (r: NextAction)
        ensures
            r.0@ =~= Seq::<ActionType>::empty(),
    {
        NextAction(Vec::new())
    }

    /// Append a command to the back of the queue.
    pub fn push(&mut self, action: ActionType)
        ensures
            final(self).0@ =~= old(self).0@.push(action),
    {
        self.0.push(action);
    }

    /// Take the oldest command, if any.
    pub fn pop(&mut self) -> (r: Option<ActionType>)
        ensures
            old(self).0@.len() == 0 ==> r is None && final(self).0@ =~= old(self).0@,
            old(self).0@.len() > 0 ==> r == Some(old(self).0@[0]) && final(self).0@ =~= old(
                self,
            ).0@.drop_first(),
    {
        if self.0.len() == 0 {
            None
        } else {
            Some(self.0.remove(0))
        }
    }
}

/// Relies on `rand::random_range`: the result lies within the given
/// (nonempty) range.
#[verifier::external_body]
fn random_unit_step() -> (r: i64)
    ensures
        -1 <= r <= 1,
{
    rand::random_range(-1i64..=1i64)
}

/// Relies on `rand::random::<bool>`; nothing is promised of the outcome.
#[verifier::external_body]
fn random_axis() -> bool {
    rand::random::<bool>()
}

/// The idle-cycle energy grant, saturating at the `i64` top.
pub open spec fn sat_grant(v: int) -> int {
    if v + ENERGY_GRANT > i64::MAX {
        i64::MAX as int
    } else {
        v + ENERGY_GRANT
    }
}

/// The idle grant applied whole: every entity with Energy is raised by the
/// grant, saturating; nothing else of the world changes.
pub open spec fn granted(pre: GameWorld, post: GameWorld) -> bool {
    &&& post.state.energy@.dom() =~= pre.state.energy@.dom()
    &&& forall|k: u64|
        pre.state.energy@.contains_key(k) ==> (#[trigger] post.state.energy@[k]).0 as int
            == sat_grant(pre.state.energy@[k].0 as int)
    &&& post.state.position == pre.state.position
    &&& post.state.attack == pre.state.attack
    &&& post.state.health == pre.state.health
    &&& post.state.initiative == pre.state.initiative
    &&& post.state.name == pre.state.name
    &&& post.state.glyph == pre.state.glyph
    &&& post.state.player == pre.state.player
    &&& post.state.solid == pre.state.solid
    &&& post.state.item == pre.state.item
    &&& post.state.carriedby == pre.state.carriedby
    &&& post.state.actioncost == pre.state.actioncost
    &&& post.spatial_position == pre.spatial_position
    &&& post.events_queue == pre.events_queue
    &&& post.pending() == pre.pending()
    &&& post.energy_rule_enabled == pre.energy_rule_enabled
    &&& post.nearby_listener_enabled == pre.nearby_listener_enabled
}

/// `mid` is `pre` with one more action at the tail of the pending queue.
pub open spec fn enqueued(pre: GameWorld, a: ActionType, mid: GameWorld) -> bool {
    &&& mid.state == pre.state
    &&& mid.spatial_position == pre.spatial_position
    &&& mid.events_queue == pre.events_queue
    &&& mid.pending() =~= pre.pending().push(a)
    &&& mid.energy_rule_enabled == pre.energy_rule_enabled
    &&& mid.nearby_listener_enabled == pre.nearby_listener_enabled
}

/// A single-axis step of at most one tile.
pub open spec fn unit_step(dx: i64, dy: i64) -> bool {
    -1 <= dx <= 1 && -1 <= dy <= 1 && (dx == 0 || dy == 0)
}

/// One synthesized placeholder move: an entity within the active radius of
/// the player in the granted world `g`, not itself a player and with
/// nonnegative energy at the time of its move, takes a random single-axis
/// unit step at cost 100, run through the full cascade.
pub open spec fn ai_step_witness(
    g: GameWorld,
    pre: GameWorld,
    post: GameWorld,
    player: u64,
    e: u64,
    dx: i64,
    dy: i64,
    mid: GameWorld,
) -> bool {
    &&& (match g.state.position.spec_get(player) {
        Option::Some(pp) => entities_within(
            spatial_map(g.spatial_position),
            pp.x,
            pp.y,
            ACTIVE_RADIUS_SQ,
        ).contains(e),
        Option::None => false,
    })
    &&& !pre.state.player@.contains_key(e)
    &&& pre.state.energy@.contains_key(e)
    &&& pre.state.energy@[e].0 >= 0
    &&& unit_step(dx, dy)
    &&& enqueued(pre, ActionType::MoveBy { entity_id: EntityId(e), dx, dy, cost: 100 }, mid)
    &&& cascades(mid, post)
}

pub open spec fn ai_step(g: GameWorld, pre: GameWorld, post: GameWorld, player: u64) -> bool {
    exists|e: u64, dx: i64, dy: i64, mid: GameWorld|
        #[trigger] ai_step_witness(g, pre, post, player, e, dx, dy, mid)
}

/// `post` is reached from the granted world `g` by `n` synthesized moves.
pub open spec fn ai_reach(g: GameWorld, post: GameWorld, player: u64, n: nat) -> bool
    decreases n,
{
    if n == 0 {
        post == g
    } else {
        exists|mid: GameWorld|
            ai_reach(g, mid, player, (n - 1) as nat) && #[trigger] ai_step(g, mid, post, player)
    }
}

/// One scheduler round for `player`. A player with nonnegative energy and a
/// queued command consumes the head command, which is enqueued and the
/// cascade drained; with no command, nothing happens. A player in energy
/// debt triggers the others' turn: the grant, then some number of
/// synthesized moves. A player without an Energy component does nothing.
pub open spec fn turn_round(
    pre: GameWorld,
    post: GameWorld,
    cmds_pre: Seq<ActionType>,
    cmds_post: Seq<ActionType>,
    player: u64,
) -> bool {
    match pre.state.energy.spec_get(player) {
        Option::Some(en) => {
            if en.0 >= 0 {
                if cmds_pre.len() > 0 {
                    &&& cmds_post =~= cmds_pre.drop_first()
                    &&& exists|mid: GameWorld|
                        enqueued(pre, cmds_pre[0], mid) && #[trigger] cascades(mid, post)
                } else {
                    post == pre && cmds_post == cmds_pre
                }
            } else {
                &&& cmds_post == cmds_pre
                &&& exists|g: GameWorld, n: nat|
                    granted(pre, g) && #[trigger] ai_reach(g, post, player, n)
            }
        },
        Option::None => post == pre && cmds_post == cmds_pre,
    }
}

/// `post` and `cmds_post` are reached from `pre` and `cmds_pre` by `n`
/// scheduler rounds for `player`.
pub open spec fn rounds_reach(
    pre: GameWorld,
    post: GameWorld,
    cmds_pre: Seq<ActionType>,
    cmds_post: Seq<ActionType>,
    player: u64,
    n: nat,
) -> bool
    decreases n,
{
    if n == 0 {
        post == pre && cmds_post == cmds_pre
    } else {
        exists|mid: GameWorld, cmds_mid: Seq<ActionType>|
            rounds_reach(pre, mid, cmds_pre, cmds_mid, player, (n - 1) as nat) && #[trigger]
            turn_round(mid, post, cmds_mid, cmds_post, player)
    }
}

/// One external tick: exactly `TICK_CAP` scheduler rounds for the first
/// player. While that player has energy, queued commands run; otherwise
/// everyone is granted energy and each other entity near the player with
/// nonnegative energy takes a random single-step move through the same
/// pipeline. The cap bounds per-tick work even if the player never
/// accumulates enough energy.
pub fn turn_order(world: &mut GameWorld, next_action: &mut NextAction)
    requires
        old(world).wf(),
    ensures
        final(world).wf(),
        old(world).events_queue@.is_prefix_of(final(world).events_queue@),
        exists|k: int|
            0 <= k <= old(next_action).0@.len() && final(next_action).0@ =~= #[trigger] old(
                next_action).0@.skip(k),
        old(world).state.player.pairs().len() == 0 ==> *final(world) == *old(world)
            && *final(next_action) == *old(next_action),
        old(world).state.player.pairs().len() > 0 ==> rounds_reach(
            *old(world),
            *final(world),
            old(next_action).0@,
            final(next_action).0@,
            old(world).state.player.pairs()[0].0,
            TICK_CAP as nat,
        ),
{
    let ghost w0 = *world;
    let ghost base_events = world.events_queue@;
    let ghost commands0 = next_action.0@;
    let ghost mut consumed: int = 0;
    proof {
        assert(base_events =~= world.events_queue@.subrange(0, base_events.len() as int));
        assert(commands0.skip(0) =~= commands0);
    }
    if world.state.player.len() == 0 {
        return ;
    }
    let player_id = world.state.player.key_at(0);
    let mut round: u32 = 0;
    let ghost mut rounds_done: nat = 0;
    proof {
        assert(rounds_reach(w0, *world, commands0, next_action.0@, player_id, 0));
    }
    while round < TICK_CAP
        invariant
            world.wf(),
            base_events.is_prefix_of(world.events_queue@),
            0 <= consumed <= commands0.len(),
            next_action.0@ =~= commands0.skip(consumed),
            round <= TICK_CAP,
            rounds_done == round as nat,
            rounds_reach(w0, *world, commands0, next_action.0@, player_id, rounds_done),
        decreases TICK_CAP - round,
    {
        let ghost r_pre = *world;
        let ghost c_pre = next_action.0@;
        let mut should_process_entities = false;
        match world.state.get_energy(EntityId(player_id)) {
            Some(energy) => {
                if energy.0 >= 0 {
                    let ghost cmds_pre2 = next_action.0@;
                    match next_action.pop() {
                        Some(action) => {
                            proof {
                                assert(cmds_pre2.drop_first() =~= commands0.skip(consumed + 1));
                                consumed = consumed + 1;
                            }
                            let ghost ev0 = world.events_queue@;
                            world.enqueue_action(action);
                            let ghost mid = *world;
                            world.process_actions();
                            proof {
                                lemma_prefix_trans(base_events, ev0, world.events_queue@);
                                assert(enqueued(r_pre, c_pre[0], mid));
                                assert(cascades(mid, *world));
                                assert(turn_round(
                                    r_pre,
                                    *world,
                                    c_pre,
                                    next_action.0@,
                                    player_id,
                                ));
                            }
                        },
                        None => {
                            proof {
                                assert(turn_round(
                                    r_pre,
                                    *world,
                                    c_pre,
                                    next_action.0@,
                                    player_id,
                                ));
                            }
                        },
                    }
                } else {
                    should_process_entities = true;
                }
            },
            None => {
                proof {
                    assert(turn_round(r_pre, *world, c_pre, next_action.0@, player_id));
                }
            },
        }
        if should_process_entities {
            let n = world.state.energy.len();
            let mut i: usize = 0;
            while i < n
                invariant
                    world.wf(),
                    base_events.is_prefix_of(world.events_queue@),
                    0 <= consumed <= commands0.len(),
                    next_action.0@ =~= commands0.skip(consumed),
                    n == r_pre.state.energy.pairs().len(),
                    world.state.energy.pairs().len() == n,
                    i <= n,
                    world.state.position == r_pre.state.position,
                    world.state.attack == r_pre.state.attack,
                    world.state.health == r_pre.state.health,
                    world.state.initiative == r_pre.state.initiative,
                    world.state.name == r_pre.state.name,
                    world.state.glyph == r_pre.state.glyph,
                    world.state.player == r_pre.state.player,
                    world.state.solid == r_pre.state.solid,
                    world.state.item == r_pre.state.item,
                    world.state.carriedby == r_pre.state.carriedby,
                    world.state.actioncost == r_pre.state.actioncost,
                    world.spatial_position == r_pre.spatial_position,
                    world.events_queue == r_pre.events_queue,
                    world.pending() == r_pre.pending(),
                    world.energy_rule_enabled == r_pre.energy_rule_enabled,
                    world.nearby_listener_enabled == r_pre.nearby_listener_enabled,
                    forall|j: int|
                        0 <= j < i ==> (#[trigger] world.state.energy.pairs()[j]).0
                            == r_pre.state.energy.pairs()[j].0
                            && world.state.energy.pairs()[j].1.0 as int == sat_grant(
                            r_pre.state.energy.pairs()[j].1.0 as int,
                        ),
                    forall|j: int|
                        i <= j < n ==> (#[trigger] world.state.energy.pairs()[j])
                            == r_pre.state.energy.pairs()[j],
                decreases n - i,
            {
                let ghost pre_pairs = world.state.energy.pairs();
                let k = world.state.energy.key_at(i);
                let v = *world.state.energy.val_at(i);
                proof {
                    world.state.energy.lemma_view();
                    assert(world.state.energy@.contains_key(
                        world.state.energy.pairs()[i as int].0,
                    ));
                }
                let granted_energy: i64 = if v.0 <= i64::MAX - ENERGY_GRANT {
                    v.0 + ENERGY_GRANT
                } else {
                    i64::MAX
                };
                world.state.energy.insert(k, Energy(granted_energy));
                proof {
                    assert(key_index(pre_pairs, k) == i) by {
                        assert(pre_pairs[i as int].0 == k);
                        let w = key_index(pre_pairs, k);
                        assert(0 <= w < pre_pairs.len() && pre_pairs[w].0 == k);
                    }
                    assert(world.state.energy.pairs() =~= pre_pairs.update(
                        i as int,
                        (k, Energy(granted_energy)),
                    ));
                }
                i = i + 1;
            }
            let ghost g = *world;
            proof {
                assert(granted(r_pre, g)) by {
                    r_pre.state.energy.lemma_view();
                    g.state.energy.lemma_view();
                    assert forall|k2: u64|
                        r_pre.state.energy@.contains_key(k2) <==> g.state.energy@.contains_key(
                            k2,
                        ) by {
                        if r_pre.state.energy@.contains_key(k2) {
                            let j = choose|j: int|
                                0 <= j < r_pre.state.energy.pairs().len()
                                    && r_pre.state.energy.pairs()[j] == (
                                    k2,
                                    r_pre.state.energy@[k2],
                                );
                            assert(g.state.energy@.contains_key(g.state.energy.pairs()[j].0));
                        }
                        if g.state.energy@.contains_key(k2) {
                            let j = choose|j: int|
                                0 <= j < g.state.energy.pairs().len() && g.state.energy.pairs()[j]
                                    == (k2, g.state.energy@[k2]);
                            assert(r_pre.state.energy@.contains_key(
                                r_pre.state.energy.pairs()[j].0,
                            ));
                        }
                    }
                    assert(g.state.energy@.dom() =~= r_pre.state.energy@.dom());
                    assert forall|k2: u64|
                        r_pre.state.energy@.contains_key(k2) implies (
                    #[trigger] g.state.energy@[k2]).0 as int == sat_grant(
                        r_pre.state.energy@[k2].0 as int,
                    ) by {
                        let j = choose|j: int|
                            0 <= j < r_pre.state.energy.pairs().len()
                                && r_pre.state.energy.pairs()[j] == (k2, r_pre.state.energy@[k2]);
                        assert(g.state.energy@.contains_key(g.state.energy.pairs()[j].0)
                            && g.state.energy@[g.state.energy.pairs()[j].0]
                            == g.state.energy.pairs()[j].1);
                    }
                }
            }
            let mut entities: Vec<u64> = Vec::new();
            match world.state.get_position(EntityId(player_id)) {
                Some(player_position) => {
                    let px = player_position.x;
                    let py = player_position.y;
                    proof {
                        assert(spatial_bounded(spatial_map(world.spatial_position))) by {
                            assert forall|k2: u64|
                                spatial_map(world.spatial_position).contains_key(k2)
                                    implies -COORD_LIMIT <= (#[trigger] spatial_map(
                                    world.spatial_position,
                                )[k2]).0 <= COORD_LIMIT && -COORD_LIMIT <= spatial_map(
                                    world.spatial_position,
                                )[k2].1 <= COORD_LIMIT by {
                                assert(world.state.position@.contains_key(k2));
                                assert(in_bounds(world.state.position@[k2]));
                            }
                        }
                    }
                    entities = world.spatial_position.within_distance(px, py, ACTIVE_RADIUS_SQ);
                    proof {
                        assert(g.state.position.spec_get(player_id) == Some(
                            Position { x: px, y: py },
                        ));
                    }
                },
                None => {},
            }
            let ghost expected: Set<u64> = (match g.state.position.spec_get(player_id) {
                Option::Some(pp) => entities_within(
                    spatial_map(g.spatial_position),
                    pp.x,
                    pp.y,
                    ACTIVE_RADIUS_SQ,
                ),
                Option::None => Set::empty(),
            });
            proof {
                assert(entities@.to_set() =~= expected);
            }
            let m = entities.len();
            let mut j: usize = 0;
            let ghost mut ai_done: nat = 0;
            proof {
                assert(ai_reach(g, *world, player_id, 0));
            }
            while j < m
                invariant
                    world.wf(),
                    base_events.is_prefix_of(world.events_queue@),
                    0 <= consumed <= commands0.len(),
                    next_action.0@ =~= commands0.skip(consumed),
                    m == entities@.len(),
                    j <= m,
                    entities@.to_set() =~= expected,
                    expected == (match g.state.position.spec_get(player_id) {
                        Option::Some(pp) => entities_within(
                            spatial_map(g.spatial_position),
                            pp.x,
                            pp.y,
                            ACTIVE_RADIUS_SQ,
                        ),
                        Option::None => Set::empty(),
                    }),
                    ai_reach(g, *world, player_id, ai_done),
                decreases m - j,
            {
                let ghost step_pre = *world;
                let entity_at = entities[j];
                let mut act = false;
                if world.state.get_player(EntityId(entity_at)).is_none() {
                    match world.state.get_energy(EntityId(entity_at)) {
                        Some(energy) => {
                            if energy.0 >= 0 {
                                act = true;
                            }
                        },
                        None => {},
                    }
                }
                if act {
                    let delta = random_unit_step();
                    let x_or_y = random_axis();
                    let dx: i64 = if x_or_y {
                        delta
                    } else {
                        0
                    };
                    let dy: i64 = if !x_or_y {
                        delta
                    } else {
                        0
                    };
                    let action = ActionType::MoveBy {
                        entity_id: EntityId(entity_at),
                        dx,
                        dy,
                        cost: 100,
                    };
                    let ghost ev0 = world.events_queue@;
                    world.enqueue_action(action);
                    let ghost mid = *world;
                    world.process_actions();
                    proof {
                        lemma_prefix_trans(base_events, ev0, world.events_queue@);
                        assert(entities@.contains(entity_at)) by {
                            assert(entities@[j as int] == entity_at);
                        }
                        assert(entities@.to_set().contains(entity_at));
                        assert(expected.contains(entity_at));
                        assert(ai_step_witness(
                            g,
                            step_pre,
                            *world,
                            player_id,
                            entity_at,
                            dx,
                            dy,
                            mid,
                        ));
                        assert(ai_step(g, step_pre, *world, player_id));
                        assert(ai_reach(g, *world, player_id, ai_done + 1)) by {
                            let m2 = (ai_done + 1 - 1) as nat;
                            assert(m2 == ai_done);
                            assert(ai_reach(g, step_pre, player_id, m2));
                            assert(ai_step(g, step_pre, *world, player_id));
                        }
                        ai_done = ai_done + 1;
                    }
                }
                j = j + 1;
            }
            proof {
                assert(turn_round(r_pre, *world, c_pre, next_action.0@, player_id)) by {
                    assert(granted(r_pre, g));
                    assert(ai_reach(g, *world, player_id, ai_done));
                }
            }
        }
        proof {
            assert(turn_round(r_pre, *world, c_pre, next_action.0@, player_id));
            assert(rounds_reach(
                w0,
                *world,
                commands0,
                next_action.0@,
                player_id,
                rounds_done + 1,
            )) by {
                let m3 = (rounds_done + 1 - 1) as nat;
                assert(m3 == rounds_done);
                assert(rounds_reach(w0, r_pre, commands0, c_pre, player_id, m3));
                assert(turn_round(r_pre, *world, c_pre, next_action.0@, player_id));
            }
            rounds_done = rounds_done + 1;
        }
        round = round + 1;
    }
}

} // verus!
