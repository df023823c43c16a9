//! Behavioral tests of the simulation kernel: table and id plumbing, the
//! spatial index, and the population step.

use warlock_core::action::{populate_action, Action, ActionType};
use warlock_core::events::{split_events, GameEvent};
use warlock_core::components::{
    ActionCost, Attack, EntityId, EntityIdGenerator, EntityTemplate, Energy, Glyph, Health,
    Initiative, Name, Position,
};
use warlock_core::spatial::SpatialIndex;
use warlock_core::store::GameState;
use warlock_core::table::Table;

fn template(name: &str, attack: i64, health: i64, initiative: u32) -> EntityTemplate {
    EntityTemplate {
        name: Name(name.to_string()),
        glyph: Glyph { character: 'x', color: 0xffffffff },
        attack: Attack(attack),
        health: Health(health),
        initiative: Initiative(initiative),
    }
}

#[test]
fn id_generator_is_monotonic() {
    let mut gen = EntityIdGenerator::new();
    assert_eq!(gen.next(), EntityId(0));
    assert_eq!(gen.next(), EntityId(1));
    assert_eq!(gen.next(), EntityId(2));
}

#[test]
fn table_insert_get_remove() {
    let mut t: Table<Health> = Table::new();
    assert_eq!(t.len(), 0);
    t.insert(7, Health(10));
    t.insert(9, Health(3));
    t.insert(7, Health(4));
    assert_eq!(t.len(), 2);
    assert_eq!(t.get(7), Some(&Health(4)));
    assert_eq!(t.get(9), Some(&Health(3)));
    assert_eq!(t.get(8), None);
    t.remove(7);
    assert_eq!(t.get(7), None);
    assert_eq!(t.len(), 1);
}

#[test]
fn spatial_index_point_and_radius_queries() {
    let mut sp = SpatialIndex::new();
    assert_eq!(sp.size(), 0);
    sp.insert(1, 0, 0);
    sp.insert(2, 1, 0);
    sp.insert(3, 5, 5);
    assert_eq!(sp.size(), 3);
    let mut at_origin = sp.at_point(0, 0);
    at_origin.sort();
    assert_eq!(at_origin, vec![1]);
    // squared distance: entity 2 is at distance 1, entity 3 at distance 50
    let mut near = sp.within_distance(0, 0, 2);
    near.sort();
    assert_eq!(near, vec![1, 2]);
    let mut all = sp.within_distance(0, 0, 50);
    all.sort();
    assert_eq!(all, vec![1, 2, 3]);
    sp.remove(2, 1, 0);
    assert_eq!(sp.size(), 2);
    let mut near2 = sp.within_distance(0, 0, 2);
    near2.sort();
    assert_eq!(near2, vec![1]);
}

#[test]
fn populate_move_reads_current_position() {
    let mut state = GameState::new();
    state.position.insert(4, Position { x: 3, y: -2 });
    let sp = SpatialIndex::new();
    let mut diff = Action::new();
    populate_action(
        ActionType::MoveBy { entity_id: EntityId(4), dx: -1, dy: 2, cost: 100 },
        &state,
        &mut diff,
        &sp,
    );
    assert_eq!(diff.updated_position.get(4), Some(&Position { x: 2, y: 0 }));
    assert_eq!(diff.updated_actioncost.get(4), Some(&ActionCost(100)));
    assert_eq!(diff.updated_health.len(), 0);
}

#[test]
fn populate_move_without_position_stages_nothing() {
    let state = GameState::new();
    let sp = SpatialIndex::new();
    let mut diff = Action::new();
    populate_action(
        ActionType::MoveBy { entity_id: EntityId(4), dx: 1, dy: 0, cost: 100 },
        &state,
        &mut diff,
        &sp,
    );
    assert_eq!(diff.updated_position.len(), 0);
    assert_eq!(diff.updated_actioncost.len(), 0);
}

#[test]
fn populate_damage_subtracts_attack_from_health() {
    let mut state = GameState::new();
    state.attack.insert(1, Attack(5));
    state.health.insert(2, Health(3));
    let sp = SpatialIndex::new();
    let mut diff = Action::new();
    populate_action(
        ActionType::DamageEntity { attacker_id: EntityId(1), target_id: EntityId(2), cost: 0 },
        &state,
        &mut diff,
        &sp,
    );
    // no floor: health goes negative
    assert_eq!(diff.updated_health.get(2), Some(&Health(-2)));
}

#[test]
fn populate_die_stages_removal_everywhere() {
    let state = GameState::new();
    let sp = SpatialIndex::new();
    let mut diff = Action::new();
    populate_action(ActionType::Die { entity_id: EntityId(9), cost: 0 }, &state, &mut diff, &sp);
    assert!(diff.removed_position.contains_key(9));
    assert!(diff.removed_health.contains_key(9));
    assert!(diff.removed_energy.contains_key(9));
    assert!(diff.removed_name.contains_key(9));
    assert_eq!(diff.updated_position.len(), 0);
}

#[test]
fn populate_create_entity_fills_initial_set() {
    let state = GameState::new();
    let sp = SpatialIndex::new();
    let mut diff = Action::new();
    populate_action(
        ActionType::CreateEntity {
            entity_id: EntityId(0),
            position: Position { x: 1, y: 1 },
            is_player: true,
            is_solid: true,
            template: template("hero", 5, 10, 25),
            cost: 0,
        },
        &state,
        &mut diff,
        &sp,
    );
    assert_eq!(diff.updated_position.get(0), Some(&Position { x: 1, y: 1 }));
    assert_eq!(diff.updated_attack.get(0), Some(&Attack(5)));
    assert_eq!(diff.updated_health.get(0), Some(&Health(10)));
    assert_eq!(diff.updated_initiative.get(0), Some(&Initiative(25)));
    assert_eq!(diff.updated_energy.get(0), Some(&Energy(0)));
    assert_eq!(diff.updated_actioncost.get(0), Some(&ActionCost(0)));
    assert!(diff.updated_player.contains_key(0));
    assert!(diff.updated_solid.contains_key(0));
}

#[test]
fn populate_decrease_energy_resets_cost() {
    let mut state = GameState::new();
    state.energy.insert(3, Energy(100));
    let sp = SpatialIndex::new();
    let mut diff = Action::new();
    populate_action(
        ActionType::DecreaseEnergy { entity_id: EntityId(3), value: 400 },
        &state,
        &mut diff,
        &sp,
    );
    assert_eq!(diff.updated_energy.get(3), Some(&Energy(-300)));
    assert_eq!(diff.updated_actioncost.get(3), Some(&ActionCost(0)));
}

#[test]
fn split_events_partitions_in_order() {
    let events = vec![
        GameEvent::MovedTo { entity_id: EntityId(1), x: 2, y: 3 },
        GameEvent::Deleted { entity_id: EntityId(4) },
        GameEvent::Spawned {
            entity_id: EntityId(5),
            x: 0,
            y: 0,
            glyph: Glyph { character: '@', color: 0xff0000ff },
            name: Name("hero".to_string()),
            is_player: true,
        },
        GameEvent::MovedTo { entity_id: EntityId(6), x: 7, y: 8 },
    ];
    let (moves, spawns, deletes, nearbys) = split_events(events);
    assert_eq!(moves.len(), 2);
    assert_eq!(moves[0].entity_id, EntityId(1));
    assert_eq!(moves[1].entity_id, EntityId(6));
    assert_eq!(spawns.len(), 1);
    assert_eq!(spawns[0].name.0, "hero");
    assert!(spawns[0].is_player);
    assert_eq!(deletes.len(), 1);
    assert_eq!(deletes[0].entity_id, EntityId(4));
    assert_eq!(nearbys.len(), 0);
}
