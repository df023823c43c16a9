//! The authoritative component store: one table per component type.

use vstd::prelude::*;
use crate::components::{
    in_bounds, ActionCost, Attack, CarriedBy, Energy, EntityId, Glyph, Health, Initiative, Item,
    Name, Player, Position, Solid,
};
use crate::table::Table;

verus! {

/// All component tables of the world. The spatial index over `position`
/// lives beside the store, in the world object that owns both.
pub struct GameState {
    pub position: Table<Position>,
    pub attack: Table<Attack>,
    pub health: Table<Health>,
    pub initiative: Table<Initiative>,
    pub name: Table<Name>,
    pub glyph: Table<Glyph>,
    pub player: Table<Player>,
    pub solid: Table<Solid>,
    pub item: Table<Item>,
    pub carriedby: Table<CarriedBy>,
    pub energy: Table<Energy>,
    pub actioncost: Table<ActionCost>,
}

impl GameState {
    /// Every table well-formed, and every stored position on the grid.
    pub open spec fn wf(&self) -> bool {
        &&& self.position.wf()
        &&& self.attack.wf()
        &&& self.health.wf()
        &&& self.initiative.wf()
        &&& self.name.wf()
        &&& self.glyph.wf()
        &&& self.player.wf()
        &&& self.solid.wf()
        &&& self.item.wf()
        &&& self.carriedby.wf()
        &&& self.energy.wf()
        &&& self.actioncost.wf()
        &&& forall|k: u64|
            self.position@.contains_key(k) ==> in_bounds(#[trigger] self.position@[k])
    }

    pub fn new() -> (s: Self)
        ensures
            s.wf(),
            s.position@ =~= Map::<u64, Position>::empty(),
            s.attack@ =~= Map::<u64, Attack>::empty(),
            s.health@ =~= Map::<u64, Health>::empty(),
            s.initiative@ =~= Map::<u64, Initiative>::empty(),
            s.name@ =~= Map::<u64, Name>::empty(),
            s.glyph@ =~= Map::<u64, Glyph>::empty(),
            s.player@ =~= Map::<u64, Player>::empty(),
            s.solid@ =~= Map::<u64, Solid>::empty(),
            s.item@ =~= Map::<u64, Item>::empty(),
            s.carriedby@ =~= Map::<u64, CarriedBy>::empty(),
            s.energy@ =~= Map::<u64, Energy>::empty(),
            s.actioncost@ =~= Map::<u64, ActionCost>::empty(),
    {
        GameState {
            position: Table::new(),
            attack: Table::new(),
            health: Table::new(),
            initiative: Table::new(),
            name: Table::new(),
            glyph: Table::new(),
            player: Table::new(),
            solid: Table::new(),
            item: Table::new(),
            carriedby: Table::new(),
            energy: Table::new(),
            actioncost: Table::new(),
        }
    }

    pub fn get_position(&self, id: EntityId) -> (r: Option<&Position>)
        requires
            self.wf(),
        ensures
            (match r {
                Some(v) => self.position.spec_get(id.0) == Some(*v),
                None => self.position.spec_get(id.0) is None,
            }),
    {
        self.position.get(id.0)
    }

    pub fn get_attack(&self, id: EntityId) -> (r: Option<&Attack>)
        requires
            self.wf(),
        ensures
            (match r {
                Some(v) => self.attack.spec_get(id.0) == Some(*v),
                None => self.attack.spec_get(id.0) is None,
            }),
    {
        self.attack.get(id.0)
    }

    pub fn get_health(&self, id: EntityId) -> (r: Option<&Health>)
        requires
            self.wf(),
        ensures
            (match r {
                Some(v) => self.health.spec_get(id.0) == Some(*v),
                None => self.health.spec_get(id.0) is None,
            }),
    {
        self.health.get(id.0)
    }

    pub fn get_initiative(&self, id: EntityId) -> (r: Option<&Initiative>)
        requires
            self.wf(),
        ensures
            (match r {
                Some(v) => self.initiative.spec_get(id.0) == Some(*v),
                None => self.initiative.spec_get(id.0) is None,
            }),
    {
        self.initiative.get(id.0)
    }

    pub fn get_name(&self, id: EntityId) -> (r: Option<&Name>)
        requires
            self.wf(),
        ensures
            (match r {
                Some(v) => self.name.spec_get(id.0) == Some(*v),
                None => self.name.spec_get(id.0) is None,
            }),
    {
        self.name.get(id.0)
    }

    pub fn get_glyph(&self, id: EntityId) -> (r: Option<&Glyph>)
        requires
            self.wf(),
        ensures
            (match r {
                Some(v) => self.glyph.spec_get(id.0) == Some(*v),
                None => self.glyph.spec_get(id.0) is None,
            }),
    {
        self.glyph.get(id.0)
    }

    pub fn get_player(&self, id: EntityId) -> (r: Option<&Player>)
        requires
            self.wf(),
        ensures
            (match r {
                Some(v) => self.player.spec_get(id.0) == Some(*v),
                None => self.player.spec_get(id.0) is None,
            }),
    {
        self.player.get(id.0)
    }

    pub fn get_solid(&self, id: EntityId) -> (r: Option<&Solid>)
        requires
            self.wf(),
        ensures
            (match r {
                Some(v) => self.solid.spec_get(id.0) == Some(*v),
                None => self.solid.spec_get(id.0) is None,
            }),
    {
        self.solid.get(id.0)
    }

    pub fn get_item(&self, id: EntityId) -> (r: Option<&Item>)
        requires
            self.wf(),
        ensures
            (match r {
                Some(v) => self.item.spec_get(id.0) == Some(*v),
                None => self.item.spec_get(id.0) is None,
            }),
    {
        self.item.get(id.0)
    }

    pub fn get_carriedby(&self, id: EntityId) -> (r: Option<&CarriedBy>)
        requires
            self.wf(),
        ensures
            (match r {
                Some(v) => self.carriedby.spec_get(id.0) == Some(*v),
                None => self.carriedby.spec_get(id.0) is None,
            }),
    {
        self.carriedby.get(id.0)
    }

    pub fn get_energy(&self, id: EntityId) -> (r: Option<&Energy>)
        requires
            self.wf(),
        ensures
            (match r {
                Some(v) => self.energy.spec_get(id.0) == Some(*v),
                None => self.energy.spec_get(id.0) is None,
            }),
    {
        self.energy.get(id.0)
    }

    pub fn get_actioncost(&self, id: EntityId) -> (r: Option<&ActionCost>)
        requires
            self.wf(),
        ensures
            (match r {
                Some(v) => self.actioncost.spec_get(id.0) == Some(*v),
                None => self.actioncost.spec_get(id.0) is None,
            }),
    {
        self.actioncost.get(id.0)
    }

    /// Clears every table entry for `id` in one step.
    pub fn remove_all(&mut self, id: EntityId)
        requires
            old(self).wf(),
        ensures
            final(self).wf(),
            final(self).position@ =~= old(self).position@.remove(id.0),
            final(self).attack@ =~= old(self).attack@.remove(id.0),
            final(self).health@ =~= old(self).health@.remove(id.0),
            final(self).initiative@ =~= old(self).initiative@.remove(id.0),
            final(self).name@ =~= old(self).name@.remove(id.0),
            final(self).glyph@ =~= old(self).glyph@.remove(id.0),
            final(self).player@ =~= old(self).player@.remove(id.0),
            final(self).solid@ =~= old(self).solid@.remove(id.0),
            final(self).item@ =~= old(self).item@.remove(id.0),
            final(self).carriedby@ =~= old(self).carriedby@.remove(id.0),
            final(self).energy@ =~= old(self).energy@.remove(id.0),
            final(self).actioncost@ =~= old(self).actioncost@.remove(id.0),
    {
        self.position.remove(id.0);
        self.attack.remove(id.0);
        self.health.remove(id.0);
        self.initiative.remove(id.0);
        self.name.remove(id.0);
        self.glyph.remove(id.0);
        self.player.remove(id.0);
        self.solid.remove(id.0);
        self.item.remove(id.0);
        self.carriedby.remove(id.0);
        self.energy.remove(id.0);
        self.actioncost.remove(id.0);
    }
}

} // verus!
