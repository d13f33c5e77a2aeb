//! An adventurer: a record with an item list of its own, followed by the
//! two injected capability fields.

use vstd::prelude::*;

use crate::game_actor::GameActor;
use crate::item::ItemMap;

verus! {

#[derive(Clone, Debug, PartialEq, Eq)]
pub struct Adventurer {
    pub items: ItemMap,
    pub health: u64,
    pub mana: u64,
}

impl GameActor for Adventurer {
    open spec fn actor_health(&self) -> u64 {
        self.health
    }

    open spec fn actor_mana(&self) -> u64 {
        self.mana
    }

    open spec fn actor_kind_name(&self) -> Seq<char> {
        "Adventurer"@
    }

    open spec fn actor_items(&self) -> Map<Seq<char>, Seq<char>> {
        self.items@
    }

    fn get_game_actor_type(&self) -> (r: &str) {
        "Adventurer"
    }

    fn get_health(&self) -> (r: &u64) {
        &self.health
    }

    fn get_mana(&self) -> (r: &u64) {
        &self.mana
    }

    fn set_health(&mut self, amount: u64) {
        self.health = amount;
    }

    fn set_mana(&mut self, amount: u64) {
        self.mana = amount;
    }
}

} // verus!
