//! Derived presentation-facing events, and their split into the per-kind
//! streams the presentation layer consumes.

use vstd::prelude::*;
use crate::components::{EntityId, Glyph, Name, Position};

verus! {

/// An event derived from an accepted diff, for presentation and AI.
pub enum GameEvent {
    Spawned { entity_id: EntityId, x: i64, y: i64, glyph: Glyph, name: Name, is_player: bool },
    MovedTo { entity_id: EntityId, x: i64, y: i64 },
    Deleted { entity_id: EntityId },
    EntityNearby { entity_id: EntityId, name: Name, position: Position },
}

/// A sprite must move to a new tile.
pub struct MoveSprite {
    pub entity_id: EntityId,
    pub x: i64,
    pub y: i64,
}

/// A sprite must be created.
pub struct SpawnSprite {
    pub entity_id: EntityId,
    pub x: i64,
    pub y: i64,
    pub name: Name,
    pub glyph: Glyph,
    pub is_player: bool,
}

/// A sprite must be removed.
pub struct DeleteSprite {
    pub entity_id: EntityId,
}

/// An entity stands near the player.
pub struct EntityNearby {
    pub entity_id: EntityId,
    pub name: Name,
    pub position: Position,
}

pub open spec fn moves_of(evs: Seq<GameEvent>) -> Seq<MoveSprite>
    decreases evs.len(),
{
    if evs.len() == 0 {
        Seq::empty()
    } else {
        moves_of(evs.drop_last()) + (match evs.last() {
            GameEvent::MovedTo { entity_id, x, y } => seq![MoveSprite { entity_id, x, y }],
            _ => Seq::empty(),
        })
    }
}

pub open spec fn spawns_of(evs: Seq<GameEvent>) -> Seq<SpawnSprite>
    decreases evs.len(),
{
    if evs.len() == 0 {
        Seq::empty()
    } else {
        spawns_of(evs.drop_last()) + (match evs.last() {
            GameEvent::Spawned { entity_id, x, y, glyph, name, is_player } => seq![
                SpawnSprite { entity_id, x, y, name, glyph, is_player },
            ],
            _ => Seq::empty(),
        })
    }
}

pub open spec fn deletes_of(evs: Seq<GameEvent>) -> Seq<DeleteSprite>
    decreases evs.len(),
{
    if evs.len() == 0 {
        Seq::empty()
    } else {
        deletes_of(evs.drop_last()) + (match evs.last() {
            GameEvent::Deleted { entity_id } => seq![DeleteSprite { entity_id }],
            _ => Seq::empty(),
        })
    }
}

pub open spec fn nearbys_of(evs: Seq<GameEvent>) -> Seq<EntityNearby>
    decreases evs.len(),
{
    if evs.len() == 0 {
        Seq::empty()
    } else {
        nearbys_of(evs.drop_last()) + (match evs.last() {
            GameEvent::EntityNearby { entity_id, name, position } => seq![
                EntityNearby { entity_id, name, position },
            ],
            _ => Seq::empty(),
        })
    }
}

/// Split a drained event queue into the four per-kind streams, in order.
pub fn split_events(events: Vec<GameEvent>) -> (r: (
    Vec<MoveSprite>,
    Vec<SpawnSprite>,
    Vec<DeleteSprite>,
    Vec<EntityNearby>,
))
    ensures
        r.0@ =~= moves_of(events@),
        r.1@ =~= spawns_of(events@),
        r.2@ =~= deletes_of(events@),
        r.3@ =~= nearbys_of(events@),
{
    let mut moves: Vec<MoveSprite> = Vec::new();
    let mut spawns: Vec<SpawnSprite> = Vec::new();
    let mut deletes: Vec<DeleteSprite> = Vec::new();
    let mut nearbys: Vec<EntityNearby> = Vec::new();
    let n = events.len();
    let mut events = events;
    let ghost all = events@;
    let mut i: usize = 0;
    while i < n
        invariant
            n == all.len(),
            events@ == all,
            i <= n,
            moves@ =~= moves_of(all.take(i as int)),
            spawns@ =~= spawns_of(all.take(i as int)),
            deletes@ =~= deletes_of(all.take(i as int)),
            nearbys@ =~= nearbys_of(all.take(i as int)),
        decreases n - i,
    {
        let ev = &events[i];
        match ev {
            GameEvent::MovedTo { entity_id, x, y } => {
                moves.push(MoveSprite { entity_id: *entity_id, x: *x, y: *y });
            },
            GameEvent::Spawned { entity_id, x, y, glyph, name, is_player } => {
                spawns.push(
                    SpawnSprite {
                        entity_id: *entity_id,
                        x: *x,
                        y: *y,
                        name: name.clone(),
                        glyph: *glyph,
                        is_player: *is_player,
                    },
                );
            },
            GameEvent::Deleted { entity_id } => {
                deletes.push(DeleteSprite { entity_id: *entity_id });
            },
            GameEvent::EntityNearby { entity_id, name, position } => {
                nearbys.push(
                    EntityNearby {
                        entity_id: *entity_id,
                        name: name.clone(),
                        position: *position,
                    },
                );
            },
        }
        proof {
            assert(all.take(i as int + 1).drop_last() =~= all.take(i as int));
            assert(all.take(i as int + 1).last() == all[i as int]);
        }
        i = i + 1;
    }
    proof {
        assert(all.take(n as int) =~= all);
    }
    (moves, spawns, deletes, nearbys)
}

} // verus!
