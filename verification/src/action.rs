//! Transactional diffs. An `Action` stages, per component type, a set of
//! inserted or updated values and a set of removed entity ids. It is built by
//! a pure population step from an `ActionType` and the current state, is
//! validated by the rules, and is then either merged into the state or
//! discarded.

use vstd::prelude::*;
use crate::components::{
    in_bounds, sq_dist, ActionCost, Attack, CarriedBy, Energy, EntityId, EntityTemplate, Glyph,
    Health, Initiative, Item, Name, Player, Position, Solid, COORD_LIMIT,
};
use crate::spatial::{entities_at, spatial_map, SpatialIndex};
use crate::store::GameState;
use crate::table::{tbl_empty, Table};

verus! {

/// A proposed top-level mutation of the world, or a reaction to one.
#[derive(Debug)]
pub enum ActionType {
    Wait { entity_id: EntityId, cost: u32 },
    MoveBy { entity_id: EntityId, dx: i64, dy: i64, cost: u32 },
    CreateEntity {
        entity_id: EntityId,
        position: Position,
        is_player: bool,
        is_solid: bool,
        template: EntityTemplate,
        cost: u32,
    },
    CreateItem { entity_id: EntityId, position: Position, glyph: Glyph, name: Name, cost: u32 },
    DamageEntity { attacker_id: EntityId, target_id: EntityId, cost: u32 },
    Die { entity_id: EntityId, cost: u32 },
    GrabItem { grabber_id: EntityId, cost: u32 },
    DecreaseEnergy { entity_id: EntityId, value: u32 },
}

/// Staged component changes: per component type, the entries to insert or
/// update and the entity ids to remove.
pub struct Action {
    pub updated_position: Table<Position>,
    pub updated_attack: Table<Attack>,
    pub updated_health: Table<Health>,
    pub updated_initiative: Table<Initiative>,
    pub updated_name: Table<Name>,
    pub updated_glyph: Table<Glyph>,
    pub updated_player: Table<Player>,
    pub updated_solid: Table<Solid>,
    pub updated_item: Table<Item>,
    pub updated_carriedby: Table<CarriedBy>,
    pub updated_energy: Table<Energy>,
    pub updated_actioncost: Table<ActionCost>,
    pub removed_position: Table<()>,
    pub removed_attack: Table<()>,
    pub removed_health: Table<()>,
    pub removed_initiative: Table<()>,
    pub removed_name: Table<()>,
    pub removed_glyph: Table<()>,
    pub removed_player: Table<()>,
    pub removed_solid: Table<()>,
    pub removed_item: Table<()>,
    pub removed_carriedby: Table<()>,
    pub removed_energy: Table<()>,
    pub removed_actioncost: Table<()>,
}

/// No staged removals at all.
pub open spec fn no_removals(a: Action) -> bool {
    &&& tbl_empty(a.removed_position)
    &&& tbl_empty(a.removed_attack)
    &&& tbl_empty(a.removed_health)
    &&& tbl_empty(a.removed_initiative)
    &&& tbl_empty(a.removed_name)
    &&& tbl_empty(a.removed_glyph)
    &&& tbl_empty(a.removed_player)
    &&& tbl_empty(a.removed_solid)
    &&& tbl_empty(a.removed_item)
    &&& tbl_empty(a.removed_carriedby)
    &&& tbl_empty(a.removed_energy)
    &&& tbl_empty(a.removed_actioncost)
}

/// Every id removed from every table: the staged form of a death.
pub open spec fn removes_all(a: Action, id: u64) -> bool {
    &&& a.removed_position.pairs() =~= seq![(id, ())]
    &&& a.removed_attack.pairs() =~= seq![(id, ())]
    &&& a.removed_health.pairs() =~= seq![(id, ())]
    &&& a.removed_initiative.pairs() =~= seq![(id, ())]
    &&& a.removed_name.pairs() =~= seq![(id, ())]
    &&& a.removed_glyph.pairs() =~= seq![(id, ())]
    &&& a.removed_player.pairs() =~= seq![(id, ())]
    &&& a.removed_solid.pairs() =~= seq![(id, ())]
    &&& a.removed_item.pairs() =~= seq![(id, ())]
    &&& a.removed_carriedby.pairs() =~= seq![(id, ())]
    &&& a.removed_energy.pairs() =~= seq![(id, ())]
    &&& a.removed_actioncost.pairs() =~= seq![(id, ())]
}

/// No staged updates at all.
pub open spec fn no_updates(a: Action) -> bool {
    &&& tbl_empty(a.updated_position)
    &&& tbl_empty(a.updated_attack)
    &&& tbl_empty(a.updated_health)
    &&& tbl_empty(a.updated_initiative)
    &&& tbl_empty(a.updated_name)
    &&& tbl_empty(a.updated_glyph)
    &&& tbl_empty(a.updated_player)
    &&& tbl_empty(a.updated_solid)
    &&& tbl_empty(a.updated_item)
    &&& tbl_empty(a.updated_carriedby)
    &&& tbl_empty(a.updated_energy)
    &&& tbl_empty(a.updated_actioncost)
}

/// A diff that stages nothing.
pub open spec fn diff_empty(a: Action) -> bool {
    no_updates(a) && no_removals(a)
}

impl Action {
    /// Every staged table well-formed and every staged position on the grid.
    pub open spec fn wf(&self) -> bool {
        &&& self.updated_position.wf()
        &&& self.updated_attack.wf()
        &&& self.updated_health.wf()
        &&& self.updated_initiative.wf()
        &&& self.updated_name.wf()
        &&& self.updated_glyph.wf()
        &&& self.updated_player.wf()
        &&& self.updated_solid.wf()
        &&& self.updated_item.wf()
        &&& self.updated_carriedby.wf()
        &&& self.updated_energy.wf()
        &&& self.updated_actioncost.wf()
        &&& self.removed_position.wf()
        &&& self.removed_attack.wf()
        &&& self.removed_health.wf()
        &&& self.removed_initiative.wf()
        &&& self.removed_name.wf()
        &&& self.removed_glyph.wf()
        &&& self.removed_player.wf()
        &&& self.removed_solid.wf()
        &&& self.removed_item.wf()
        &&& self.removed_carriedby.wf()
        &&& self.removed_energy.wf()
        &&& self.removed_actioncost.wf()
        &&& forall|k: u64|
            self.updated_position@.contains_key(k) ==> in_bounds(
                #[trigger] self.updated_position@[k],
            )
    }

    pub fn new() -> (a: Action)
        ensures
            a.wf(),
            diff_empty(a),
    {
        Action {
            updated_position: Table::new(),
            updated_attack: Table::new(),
            updated_health: Table::new(),
            updated_initiative: Table::new(),
            updated_name: Table::new(),
            updated_glyph: Table::new(),
            updated_player: Table::new(),
            updated_solid: Table::new(),
            updated_item: Table::new(),
            updated_carriedby: Table::new(),
            updated_energy: Table::new(),
            updated_actioncost: Table::new(),
            removed_position: Table::new(),
            removed_attack: Table::new(),
            removed_health: Table::new(),
            removed_initiative: Table::new(),
            removed_name: Table::new(),
            removed_glyph: Table::new(),
            removed_player: Table::new(),
            removed_solid: Table::new(),
            removed_item: Table::new(),
            removed_carriedby: Table::new(),
            removed_energy: Table::new(),
            removed_actioncost: Table::new(),
        }
    }

    /// Stage the removal of every component of `id`.
    pub fn remove_all(&mut self, id: EntityId)
        requires
            old(self).wf(),
            no_removals(*old(self)),
        ensures
            final(self).wf(),
            removes_all(*final(self), id.0),
            final(self).updated_position == old(self).updated_position,
            final(self).updated_attack == old(self).updated_attack,
            final(self).updated_health == old(self).updated_health,
            final(self).updated_initiative == old(self).updated_initiative,
            final(self).updated_name == old(self).updated_name,
            final(self).updated_glyph == old(self).updated_glyph,
            final(self).updated_player == old(self).updated_player,
            final(self).updated_solid == old(self).updated_solid,
            final(self).updated_item == old(self).updated_item,
            final(self).updated_carriedby == old(self).updated_carriedby,
            final(self).updated_energy == old(self).updated_energy,
            final(self).updated_actioncost == old(self).updated_actioncost,
    {
        self.removed_position.insert(id.0, ());
        self.removed_attack.insert(id.0, ());
        self.removed_health.insert(id.0, ());
        self.removed_initiative.insert(id.0, ());
        self.removed_name.insert(id.0, ());
        self.removed_glyph.insert(id.0, ());
        self.removed_player.insert(id.0, ());
        self.removed_solid.insert(id.0, ());
        self.removed_item.insert(id.0, ());
        self.removed_carriedby.insert(id.0, ());
        self.removed_energy.insert(id.0, ());
        self.removed_actioncost.insert(id.0, ());
    }
}

/// What a component lookup sees through a diff laid over a base table:
/// staged updates first, then staged removals, then the base.
pub open spec fn overlay_get<V>(upd: Table<V>, rem: Table<()>, base: Table<V>, k: u64) -> Option<
    V,
> {
    if upd@.contains_key(k) {
        Some(upd@[k])
    } else if rem@.contains_key(k) {
        None
    } else {
        base.spec_get(k)
    }
}

pub open spec fn future_position(a: Action, s: GameState, k: u64) -> Option<Position> {
    overlay_get(a.updated_position, a.removed_position, s.position, k)
}

pub open spec fn future_health(a: Action, s: GameState, k: u64) -> Option<Health> {
    overlay_get(a.updated_health, a.removed_health, s.health, k)
}

pub open spec fn future_solid(a: Action, s: GameState, k: u64) -> Option<Solid> {
    overlay_get(a.updated_solid, a.removed_solid, s.solid, k)
}

pub open spec fn future_glyph(a: Action, s: GameState, k: u64) -> Option<Glyph> {
    overlay_get(a.updated_glyph, a.removed_glyph, s.glyph, k)
}

pub open spec fn future_name(a: Action, s: GameState, k: u64) -> Option<Name> {
    overlay_get(a.updated_name, a.removed_name, s.name, k)
}

pub open spec fn future_player(a: Action, s: GameState, k: u64) -> Option<Player> {
    overlay_get(a.updated_player, a.removed_player, s.player, k)
}

/// Read-only composite of a diff over the authoritative state: lookups check
/// the diff first and fall back to the state. Used by rules and listeners to
/// reason about the world as it would be if the diff committed.
pub struct FutureState<'a> {
    pub action: &'a Action,
    pub state: &'a GameState,
}

impl<'a> FutureState<'a> {
    pub open spec fn wf(&self) -> bool {
        self.action.wf() && self.state.wf()
    }

    pub fn get_position(&self, id: EntityId) -> (r: Option<&Position>)
        requires
            self.wf(),
        ensures
            (match r {
                Some(v) => future_position(*self.action, *self.state, id.0) == Some(*v),
                None => future_position(*self.action, *self.state, id.0) is None,
            }),
    {
        match self.action.updated_position.get(id.0) {
            Some(v) => Some(v),
            None => {
                if self.action.removed_position.contains_key(id.0) {
                    None
                } else {
                    self.state.position.get(id.0)
                }
            },
        }
    }

    pub fn get_health(&self, id: EntityId) -> (r: Option<&Health>)
        requires
            self.wf(),
        ensures
            (match r {
                Some(v) => future_health(*self.action, *self.state, id.0) == Some(*v),
                None => future_health(*self.action, *self.state, id.0) is None,
            }),
    {
        match self.action.updated_health.get(id.0) {
            Some(v) => Some(v),
            None => {
                if self.action.removed_health.contains_key(id.0) {
                    None
                } else {
                    self.state.health.get(id.0)
                }
            },
        }
    }

    pub fn get_solid(&self, id: EntityId) -> (r: Option<&Solid>)
        requires
            self.wf(),
        ensures
            (match r {
                Some(v) => future_solid(*self.action, *self.state, id.0) == Some(*v),
                None => future_solid(*self.action, *self.state, id.0) is None,
            }),
    {
        match self.action.updated_solid.get(id.0) {
            Some(v) => Some(v),
            None => {
                if self.action.removed_solid.contains_key(id.0) {
                    None
                } else {
                    self.state.solid.get(id.0)
                }
            },
        }
    }

    pub fn get_glyph(&self, id: EntityId) -> (r: Option<&Glyph>)
        requires
            self.wf(),
        ensures
            (match r {
                Some(v) => future_glyph(*self.action, *self.state, id.0) == Some(*v),
                None => future_glyph(*self.action, *self.state, id.0) is None,
            }),
    {
        match self.action.updated_glyph.get(id.0) {
            Some(v) => Some(v),
            None => {
                if self.action.removed_glyph.contains_key(id.0) {
                    None
                } else {
                    self.state.glyph.get(id.0)
                }
            },
        }
    }

    pub fn get_name(&self, id: EntityId) -> (r: Option<&Name>)
        requires
            self.wf(),
        ensures
            (match r {
                Some(v) => future_name(*self.action, *self.state, id.0) == Some(*v),
                None => future_name(*self.action, *self.state, id.0) is None,
            }),
    {
        match self.action.updated_name.get(id.0) {
            Some(v) => Some(v),
            None => {
                if self.action.removed_name.contains_key(id.0) {
                    None
                } else {
                    self.state.name.get(id.0)
                }
            },
        }
    }

    pub fn get_player(&self, id: EntityId) -> (r: Option<&Player>)
        requires
            self.wf(),
        ensures
            (match r {
                Some(v) => future_player(*self.action, *self.state, id.0) == Some(*v),
                None => future_player(*self.action, *self.state, id.0) is None,
            }),
    {
        match self.action.updated_player.get(id.0) {
            Some(v) => Some(v),
            None => {
                if self.action.removed_player.contains_key(id.0) {
                    None
                } else {
                    self.state.player.get(id.0)
                }
            },
        }
    }
}

/// Subtraction on `i64` values, saturating at both ends.
pub open spec fn sat_sub(a: int, b: int) -> int {
    if a - b > i64::MAX {
        i64::MAX as int
    } else if a - b < i64::MIN {
        i64::MIN as int
    } else {
        a - b
    }
}

/// Where a move by `(dx, dy)` from `p` lands, if that stays on the grid.
pub open spec fn move_target(p: Position, dx: i64, dy: i64) -> Option<Position> {
    if -COORD_LIMIT <= p.x + dx <= COORD_LIMIT && -COORD_LIMIT <= p.y + dy <= COORD_LIMIT {
        Some(Position { x: (p.x + dx) as i64, y: (p.y + dy) as i64 })
    } else {
        None
    }
}

/// The diff staged by a move: the recomputed position and the action cost.
pub open spec fn is_move_diff(a: Action, id: u64, p: Position, cost: u32) -> bool {
    &&& a.updated_position.pairs() =~= seq![(id, p)]
    &&& a.updated_actioncost.pairs() =~= seq![(id, ActionCost(cost))]
    &&& tbl_empty(a.updated_attack)
    &&& tbl_empty(a.updated_health)
    &&& tbl_empty(a.updated_initiative)
    &&& tbl_empty(a.updated_name)
    &&& tbl_empty(a.updated_glyph)
    &&& tbl_empty(a.updated_player)
    &&& tbl_empty(a.updated_solid)
    &&& tbl_empty(a.updated_item)
    &&& tbl_empty(a.updated_carriedby)
    &&& tbl_empty(a.updated_energy)
    &&& no_removals(a)
}

/// The diff staged by a wait: only the action cost.
pub open spec fn is_wait_diff(a: Action, id: u64, cost: u32) -> bool {
    &&& a.updated_actioncost.pairs() =~= seq![(id, ActionCost(cost))]
    &&& tbl_empty(a.updated_position)
    &&& tbl_empty(a.updated_attack)
    &&& tbl_empty(a.updated_health)
    &&& tbl_empty(a.updated_initiative)
    &&& tbl_empty(a.updated_name)
    &&& tbl_empty(a.updated_glyph)
    &&& tbl_empty(a.updated_player)
    &&& tbl_empty(a.updated_solid)
    &&& tbl_empty(a.updated_item)
    &&& tbl_empty(a.updated_carriedby)
    &&& tbl_empty(a.updated_energy)
    &&& no_removals(a)
}

/// The diff staged by a damage step: the target's lowered health.
pub open spec fn is_damage_diff(a: Action, target: u64, h: Health) -> bool {
    &&& a.updated_health.pairs() =~= seq![(target, h)]
    &&& tbl_empty(a.updated_position)
    &&& tbl_empty(a.updated_attack)
    &&& tbl_empty(a.updated_initiative)
    &&& tbl_empty(a.updated_name)
    &&& tbl_empty(a.updated_glyph)
    &&& tbl_empty(a.updated_player)
    &&& tbl_empty(a.updated_solid)
    &&& tbl_empty(a.updated_item)
    &&& tbl_empty(a.updated_carriedby)
    &&& tbl_empty(a.updated_energy)
    &&& tbl_empty(a.updated_actioncost)
    &&& no_removals(a)
}

/// The diff staged by an energy spend: cost reset to zero, energy lowered.
pub open spec fn is_decrease_energy_diff(a: Action, id: u64, e: Energy) -> bool {
    &&& a.updated_actioncost.pairs() =~= seq![(id, ActionCost(0))]
    &&& a.updated_energy.pairs() =~= seq![(id, e)]
    &&& tbl_empty(a.updated_position)
    &&& tbl_empty(a.updated_attack)
    &&& tbl_empty(a.updated_health)
    &&& tbl_empty(a.updated_initiative)
    &&& tbl_empty(a.updated_name)
    &&& tbl_empty(a.updated_glyph)
    &&& tbl_empty(a.updated_player)
    &&& tbl_empty(a.updated_solid)
    &&& tbl_empty(a.updated_item)
    &&& tbl_empty(a.updated_carriedby)
    &&& no_removals(a)
}

/// The diff staged by a death: nothing inserted, everything of `id` removed.
pub open spec fn is_die_diff(a: Action, id: u64) -> bool {
    no_updates(a) && removes_all(a, id)
}

/// The diff staged by entity creation: the full initial component set, with
/// marker components only if requested. An off-grid spawn position is
/// skipped, like any other read that finds nothing to act on.
pub open spec fn is_create_entity_diff(
    a: Action,
    id: u64,
    position: Position,
    is_player: bool,
    is_solid: bool,
    template: EntityTemplate,
) -> bool {
    &&& a.updated_position.pairs() =~= (if in_bounds(position) {
        seq![(id, position)]
    } else {
        Seq::empty()
    })
    &&& a.updated_attack.pairs() =~= seq![(id, template.attack)]
    &&& a.updated_health.pairs() =~= seq![(id, template.health)]
    &&& a.updated_initiative.pairs() =~= seq![(id, template.initiative)]
    &&& a.updated_name.pairs() =~= seq![(id, template.name)]
    &&& a.updated_glyph.pairs() =~= seq![(id, template.glyph)]
    &&& a.updated_energy.pairs() =~= seq![(id, Energy(0))]
    &&& a.updated_actioncost.pairs() =~= seq![(id, ActionCost(0))]
    &&& a.updated_player.pairs() =~= (if is_player {
        seq![(id, Player)]
    } else {
        Seq::empty()
    })
    &&& a.updated_solid.pairs() =~= (if is_solid {
        seq![(id, Solid)]
    } else {
        Seq::empty()
    })
    &&& tbl_empty(a.updated_item)
    &&& tbl_empty(a.updated_carriedby)
    &&& no_removals(a)
}

/// The diff staged by item creation.
pub open spec fn is_create_item_diff(
    a: Action,
    id: u64,
    position: Position,
    glyph: Glyph,
    name: Name,
) -> bool {
    &&& a.updated_position.pairs() =~= (if in_bounds(position) {
        seq![(id, position)]
    } else {
        Seq::empty()
    })
    &&& a.updated_glyph.pairs() =~= seq![(id, glyph)]
    &&& a.updated_name.pairs() =~= seq![(id, name)]
    &&& a.updated_item.pairs() =~= seq![(id, Item)]
    &&& tbl_empty(a.updated_attack)
    &&& tbl_empty(a.updated_health)
    &&& tbl_empty(a.updated_initiative)
    &&& tbl_empty(a.updated_player)
    &&& tbl_empty(a.updated_solid)
    &&& tbl_empty(a.updated_carriedby)
    &&& tbl_empty(a.updated_energy)
    &&& tbl_empty(a.updated_actioncost)
    &&& no_removals(a)
}

/// The diff staged by a grab: every item at the grabber's position loses its
/// position and is marked as carried by the grabber.
pub open spec fn is_grab_diff(
    a: Action,
    s: GameState,
    spv: Map<u64, (i64, i64)>,
    grabber: u64,
    p: Position,
) -> bool {
    &&& tbl_empty(a.updated_position)
    &&& tbl_empty(a.updated_attack)
    &&& tbl_empty(a.updated_health)
    &&& tbl_empty(a.updated_initiative)
    &&& tbl_empty(a.updated_name)
    &&& tbl_empty(a.updated_glyph)
    &&& tbl_empty(a.updated_player)
    &&& tbl_empty(a.updated_solid)
    &&& tbl_empty(a.updated_item)
    &&& tbl_empty(a.updated_energy)
    &&& tbl_empty(a.updated_actioncost)
    &&& tbl_empty(a.removed_attack)
    &&& tbl_empty(a.removed_health)
    &&& tbl_empty(a.removed_initiative)
    &&& tbl_empty(a.removed_name)
    &&& tbl_empty(a.removed_glyph)
    &&& tbl_empty(a.removed_player)
    &&& tbl_empty(a.removed_solid)
    &&& tbl_empty(a.removed_item)
    &&& tbl_empty(a.removed_carriedby)
    &&& tbl_empty(a.removed_energy)
    &&& tbl_empty(a.removed_actioncost)
    &&& forall|e: u64|
        a.removed_position@.contains_key(e) <==> entities_at(spv, p.x, p.y).contains(e)
            && s.item@.contains_key(e)
    &&& forall|e: u64|
        a.updated_carriedby@.contains_key(e) <==> entities_at(spv, p.x, p.y).contains(e)
            && s.item@.contains_key(e)
    &&& forall|e: u64|
        a.updated_carriedby@.contains_key(e) ==> a.updated_carriedby@[e] == (CarriedBy(
            EntityId(grabber),
        ))
}

/// What the population step stages for each kind of action. A read that
/// finds no current value for its entity stages nothing.
pub open spec fn populated(
    at: ActionType,
    s: GameState,
    spv: Map<u64, (i64, i64)>,
    a: Action,
) -> bool {
    match at {
        ActionType::Wait { entity_id, cost } => is_wait_diff(a, entity_id.0, cost),
        ActionType::MoveBy { entity_id, dx, dy, cost } => {
            match s.position.spec_get(entity_id.0) {
                Some(p) => {
                    match move_target(p, dx, dy) {
                        Some(q) => is_move_diff(a, entity_id.0, q, cost),
                        None => diff_empty(a),
                    }
                },
                None => diff_empty(a),
            }
        },
        ActionType::CreateEntity { entity_id, position, is_player, is_solid, template, .. } => {
            is_create_entity_diff(a, entity_id.0, position, is_player, is_solid, template)
        },
        ActionType::CreateItem { entity_id, position, glyph, name, .. } => {
            is_create_item_diff(a, entity_id.0, position, glyph, name)
        },
        ActionType::DamageEntity { attacker_id, target_id, .. } => {
            match (s.attack.spec_get(attacker_id.0), s.health.spec_get(target_id.0)) {
                (Some(att), Some(h)) => {
                    is_damage_diff(a, target_id.0, Health(sat_sub(h.0 as int, att.0 as int) as i64))
                },
                _ => diff_empty(a),
            }
        },
        ActionType::Die { entity_id, .. } => is_die_diff(a, entity_id.0),
        ActionType::GrabItem { grabber_id, .. } => {
            match s.position.spec_get(grabber_id.0) {
                Some(p) => is_grab_diff(a, s, spv, grabber_id.0, p),
                None => diff_empty(a),
            }
        },
        ActionType::DecreaseEnergy { entity_id, value } => {
            match s.energy.spec_get(entity_id.0) {
                Some(e) => {
                    is_decrease_energy_diff(
                        a,
                        entity_id.0,
                        Energy(sat_sub(e.0 as int, value as int) as i64),
                    )
                },
                None => diff_empty(a),
            }
        },
    }
}

/// Maps each kind of action to its population routine.
pub fn populate_action(
    action_type: ActionType,
    state: &GameState,
    action: &mut Action,
    spatial: &SpatialIndex,
)
    requires
        state.wf(),
        old(action).wf(),
        diff_empty(*old(action)),
        crate::spatial::spatial_bounded(spatial_map(*spatial)),
    ensures
        final(action).wf(),
        populated(action_type, *state, spatial_map(*spatial), *final(action)),
{
    match action_type {
        ActionType::MoveBy { entity_id, dx, dy, cost } => {
            move_by(action, state, entity_id, dx, dy, cost);
        },
        ActionType::CreateEntity { entity_id, position, is_player, is_solid, template, .. } => {
            create_entity(action, entity_id, position, is_player, is_solid, template);
        },
        ActionType::DamageEntity { attacker_id, target_id, .. } => {
            damage_entity(action, state, attacker_id, target_id);
        },
        ActionType::Die { entity_id, .. } => {
            die(action, entity_id);
        },
        ActionType::CreateItem { entity_id, position, glyph, name, .. } => {
            create_item(action, entity_id, position, glyph, name);
        },
        ActionType::GrabItem { grabber_id, .. } => {
            grab_item(action, state, spatial, grabber_id);
        },
        ActionType::DecreaseEnergy { entity_id, value } => {
            decrease_energy(action, state, entity_id, value);
        },
        ActionType::Wait { entity_id, cost } => {
            wait(action, entity_id, cost);
        },
    }
}

/// Stage a move: the entity's current position plus the delta, and the
/// action cost. An entity with no position, or a target off the grid,
/// stages nothing.
pub fn move_by(
    action: &mut Action,
    state: &GameState,
    entity_id: EntityId,
    dx: i64,
    dy: i64,
    cost: u32,
)
    requires
        state.wf(),
        old(action).wf(),
        diff_empty(*old(action)),
    ensures
        final(action).wf(),
        (match state.position.spec_get(entity_id.0) {
            Some(p) => {
                match move_target(p, dx, dy) {
                    Some(q) => is_move_diff(*final(action), entity_id.0, q, cost),
                    None => diff_empty(*final(action)),
                }
            },
            None => diff_empty(*final(action)),
        }),
{
    if let Some(position) = state.get_position(entity_id) {
        let px = position.x;
        let py = position.y;
        if dx >= -(2 * COORD_LIMIT) && dx <= 2 * COORD_LIMIT && dy >= -(2 * COORD_LIMIT) && dy
            <= 2 * COORD_LIMIT {
            let nx = px + dx;
            let ny = py + dy;
            if nx >= -COORD_LIMIT && nx <= COORD_LIMIT && ny >= -COORD_LIMIT && ny <= COORD_LIMIT {
                action.updated_position.insert(entity_id.0, Position { x: nx, y: ny });
                action.updated_actioncost.insert(entity_id.0, ActionCost(cost));
            }
        }
    }
}

/// Stage the full initial component set of a creature from its template.
pub fn create_entity(
    action: &mut Action,
    entity_id: EntityId,
    position: Position,
    is_player: bool,
    is_solid: bool,
    template: EntityTemplate,
)
    requires
        old(action).wf(),
        diff_empty(*old(action)),
    ensures
        final(action).wf(),
        is_create_entity_diff(
            *final(action),
            entity_id.0,
            position,
            is_player,
            is_solid,
            template,
        ),
{
    if position.x >= -COORD_LIMIT && position.x <= COORD_LIMIT && position.y >= -COORD_LIMIT
        && position.y <= COORD_LIMIT {
        action.updated_position.insert(entity_id.0, position);
    }
    action.updated_attack.insert(entity_id.0, template.attack);
    action.updated_health.insert(entity_id.0, template.health);
    action.updated_initiative.insert(entity_id.0, template.initiative);
    action.updated_glyph.insert(entity_id.0, template.glyph);
    action.updated_name.insert(entity_id.0, template.name);
    action.updated_energy.insert(entity_id.0, Energy(0));
    action.updated_actioncost.insert(entity_id.0, ActionCost(0));
    if is_player {
        action.updated_player.insert(entity_id.0, Player);
    }
    if is_solid {
        action.updated_solid.insert(entity_id.0, Solid);
    }
}

/// Stage the component set of a ground item.
pub fn create_item(
    action: &mut Action,
    entity_id: EntityId,
    position: Position,
    glyph: Glyph,
    name: Name,
)
    requires
        old(action).wf(),
        diff_empty(*old(action)),
    ensures
        final(action).wf(),
        is_create_item_diff(*final(action), entity_id.0, position, glyph, name),
{
    if position.x >= -COORD_LIMIT && position.x <= COORD_LIMIT && position.y >= -COORD_LIMIT
        && position.y <= COORD_LIMIT {
        action.updated_position.insert(entity_id.0, position);
    }
    action.updated_glyph.insert(entity_id.0, glyph);
    action.updated_name.insert(entity_id.0, name);
    action.updated_item.insert(entity_id.0, Item);
}

/// Stage the target's health lowered by the attacker's attack, saturating
/// at the `i64` ends; no floor above that, the value may go negative.
pub fn damage_entity(
    action: &mut Action,
    state: &GameState,
    attacker_id: EntityId,
    target_id: EntityId,
)
    requires
        state.wf(),
        old(action).wf(),
        diff_empty(*old(action)),
    ensures
        final(action).wf(),
        (match (state.attack.spec_get(attacker_id.0), state.health.spec_get(target_id.0)) {
            (Some(att), Some(h)) => {
                is_damage_diff(
                    *final(action),
                    target_id.0,
                    Health(sat_sub(h.0 as int, att.0 as int) as i64),
                )
            },
            _ => diff_empty(*final(action)),
        }),
{
    let att = match state.get_attack(attacker_id) {
        Some(a) => *a,
        None => {
            return ;
        },
    };
    let h = match state.get_health(target_id) {
        Some(h) => *h,
        None => {
            return ;
        },
    };
    let new_health: i64 = if att.0 >= 0 {
        if h.0 >= i64::MIN + att.0 {
            h.0 - att.0
        } else {
            i64::MIN
        }
    } else {
        if h.0 <= i64::MAX + att.0 {
            h.0 - att.0
        } else {
            i64::MAX
        }
    };
    action.updated_health.insert(target_id.0, Health(new_health));
}

/// Stage only the action cost.
pub fn wait(action: &mut Action, entity_id: EntityId, cost: u32)
    requires
        old(action).wf(),
        diff_empty(*old(action)),
    ensures
        final(action).wf(),
        is_wait_diff(*final(action), entity_id.0, cost),
{
    action.updated_actioncost.insert(entity_id.0, ActionCost(cost));
}

/// Stage the removal of every component of the entity.
pub fn die(action: &mut Action, entity_id: EntityId)
    requires
        old(action).wf(),
        diff_empty(*old(action)),
    ensures
        final(action).wf(),
        is_die_diff(*final(action), entity_id.0),
{
    action.remove_all(entity_id);
}

/// Stage, for every item at the grabber's position, the loss of its
/// position and a link to its new holder.
pub fn grab_item(
    action: &mut Action,
    state: &GameState,
    spatial: &SpatialIndex,
    grabber_id: EntityId,
)
    requires
        state.wf(),
        old(action).wf(),
        diff_empty(*old(action)),
        crate::spatial::spatial_bounded(spatial_map(*spatial)),
    ensures
        final(action).wf(),
        (match state.position.spec_get(grabber_id.0) {
            Some(p) => is_grab_diff(*final(action), *state, spatial_map(*spatial), grabber_id.0, p),
            None => diff_empty(*final(action)),
        }),
{
    let position = match state.get_position(grabber_id) {
        Some(p) => *p,
        None => {
            return ;
        },
    };
    proof {
        assert(state.position@.contains_key(grabber_id.0));
        assert(in_bounds(state.position@[grabber_id.0]));
    }
    let ids = spatial.at_point(position.x, position.y);
    let ghost spv = spatial_map(*spatial);
    let mut i: usize = 0;
    while i < ids.len()
        invariant
            state.wf(),
            action.wf(),
            i <= ids@.len(),
            ids@.no_duplicates(),
            ids@.to_set() =~= entities_at(spv, position.x, position.y),
            tbl_empty(action.updated_position),
            tbl_empty(action.updated_attack),
            tbl_empty(action.updated_health),
            tbl_empty(action.updated_initiative),
            tbl_empty(action.updated_name),
            tbl_empty(action.updated_glyph),
            tbl_empty(action.updated_player),
            tbl_empty(action.updated_solid),
            tbl_empty(action.updated_item),
            tbl_empty(action.updated_energy),
            tbl_empty(action.updated_actioncost),
            tbl_empty(action.removed_attack),
            tbl_empty(action.removed_health),
            tbl_empty(action.removed_initiative),
            tbl_empty(action.removed_name),
            tbl_empty(action.removed_glyph),
            tbl_empty(action.removed_player),
            tbl_empty(action.removed_solid),
            tbl_empty(action.removed_item),
            tbl_empty(action.removed_carriedby),
            tbl_empty(action.removed_energy),
            tbl_empty(action.removed_actioncost),
            forall|j: int|
                0 <= j < i && state.item@.contains_key(#[trigger] ids@[j]) ==> action
                    .removed_position@.contains_key(ids@[j]) && action
                    .updated_carriedby@.contains_key(ids@[j]),
            forall|e: u64| #[trigger]
                action.removed_position@.contains_key(e) ==> ids@.take(i as int).contains(e)
                    && state.item@.contains_key(e),
            forall|e: u64| #[trigger]
                action.updated_carriedby@.contains_key(e) ==> ids@.take(i as int).contains(e)
                    && state.item@.contains_key(e),
            forall|e: u64| #[trigger]
                action.updated_carriedby@.contains_key(e) ==> action.updated_carriedby@[e]
                    == (CarriedBy(grabber_id)),
        decreases ids@.len() - i,
    {
        let e = ids[i];
        let ghost pre_removed = action.removed_position@;
        let ghost pre_carried = action.updated_carriedby@;
        let is_item = state.get_item(EntityId(e)).is_some();
        if is_item {
            action.removed_position.insert(e, ());
            action.updated_carriedby.insert(e, CarriedBy(grabber_id));
        }
        proof {
            let pre = ids@.take(i as int);
            let post = ids@.take(i as int + 1);
            assert(post =~= pre.push(ids@[i as int]));
            assert forall|x: u64| pre.contains(x) implies #[trigger] post.contains(x) by {
                let j = choose|j: int| 0 <= j < pre.len() && pre[j] == x;
                assert(post[j] == x);
            }
            assert(post[i as int] == ids@[i as int]);
            assert(post.contains(ids@[i as int]));
            assert forall|e2: u64| #[trigger]
                action.removed_position@.contains_key(e2) implies post.contains(e2)
                    && state.item@.contains_key(e2) by {
                if e2 == e && is_item {
                } else {
                    assert(pre_removed.contains_key(e2));
                    assert(pre.contains(e2));
                }
            }
            assert forall|e2: u64| #[trigger]
                action.updated_carriedby@.contains_key(e2) implies post.contains(e2)
                    && state.item@.contains_key(e2) by {
                if e2 == e && is_item {
                } else {
                    assert(pre_carried.contains_key(e2));
                    assert(pre.contains(e2));
                }
            }
        }
        i = i + 1;
    }
    proof {
        assert(ids@.take(ids@.len() as int) =~= ids@);
        let p = position;
        let final_removed = action.removed_position@;
        let final_carried = action.updated_carriedby@;
        assert forall|e: u64|
            final_removed.contains_key(e) <==> entities_at(spv, p.x, p.y).contains(e)
                && state.item@.contains_key(e) by {
            if final_removed.contains_key(e) {
                assert(ids@.contains(e));
                assert(ids@.to_set().contains(e));
            }
            if entities_at(spv, p.x, p.y).contains(e) && state.item@.contains_key(e) {
                assert(ids@.to_set().contains(e));
                assert(ids@.contains(e));
                let j = choose|j: int| 0 <= j < ids@.len() && ids@[j] == e;
                assert(state.item@.contains_key(ids@[j]));
            }
        }
        assert forall|e: u64|
            final_carried.contains_key(e) <==> entities_at(spv, p.x, p.y).contains(e)
                && state.item@.contains_key(e) by {
            if final_carried.contains_key(e) {
                assert(ids@.contains(e));
                assert(ids@.to_set().contains(e));
            }
            if entities_at(spv, p.x, p.y).contains(e) && state.item@.contains_key(e) {
                assert(ids@.to_set().contains(e));
                assert(ids@.contains(e));
                let j = choose|j: int| 0 <= j < ids@.len() && ids@[j] == e;
                assert(state.item@.contains_key(ids@[j]));
            }
        }
    }
}

/// Stage the action cost reset to zero and the energy lowered by the spent
/// value, saturating at the low end.
pub fn decrease_energy(action: &mut Action, state: &GameState, entity_id: EntityId, value: u32)
    requires
        state.wf(),
        old(action).wf(),
        diff_empty(*old(action)),
    ensures
        final(action).wf(),
        (match state.energy.spec_get(entity_id.0) {
            Some(e) => {
                is_decrease_energy_diff(
                    *final(action),
                    entity_id.0,
                    Energy(sat_sub(e.0 as int, value as int) as i64),
                )
            },
            None => diff_empty(*final(action)),
        }),
{
    let e = match state.get_energy(entity_id) {
        Some(e) => *e,
        None => {
            return ;
        },
    };
    action.updated_actioncost.insert(entity_id.0, ActionCost(0));
    let v = value as i64;
    let new_energy: i64 = if e.0 >= i64::MIN + v {
        e.0 - v
    } else {
        i64::MIN
    };
    action.updated_energy.insert(entity_id.0, Energy(new_energy));
}

} // verus!
