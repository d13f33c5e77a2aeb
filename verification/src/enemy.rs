//! An enemy: a record with no fields of its own, so after injection it
//! carries exactly the two capability fields.

use vstd::prelude::*;

use crate::game_actor::GameActor;

verus! {

#[derive(Clone, Debug, PartialEq, Eq)]
pub struct Enemy {
    pub health: u64,
    pub mana: u64,
}

impl GameActor for Enemy {
    open spec fn actor_health(&self) -> u64 {
        self.health
    }

    open spec fn actor_mana(&self) -> u64 {
        self.mana
    }

    open spec fn actor_kind_name(&self) -> Seq<char> {
        "Enemy"@
    }

    open spec fn actor_items(&self) -> Map<Seq<char>, Seq<char>> {
        Map::empty()
    }

    fn get_game_actor_type(&self) -> (r: &str) {
        "Enemy"
    }

    fn get_health(&self) -> (r: &u64) {
        &self.health
    }

    fn get_mana(&self) -> (r: &u64) {
        &self.mana
    }

    fn set_health(&mut self, amount: u64) {
        self.health = amount;
    }

    fn set_mana(&mut self, amount: u64) {
        self.mana = amount;
    }
}

} // verus!
