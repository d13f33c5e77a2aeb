//! The capability interface: a game actor self-declares its own type name,
//! carries `health` and `mana`, and lets both be read and overwritten. These
//! are exactly the five operations whose implementation the synthesizer
//! generates for a record that carries the two injected fields.

use vstd::prelude::*;

verus! {

pub trait GameActor {
    /// Current health, at the specification level.
    spec fn actor_health(&self) -> u64;

    /// Current mana, at the specification level.
    spec fn actor_mana(&self) -> u64;

    /// The implementor's declared name, at the specification level.
    spec fn actor_kind_name(&self) -> Seq<char>;

    /// The actor's remaining state — its item list — at the specification
    /// level. An actor without items reports an empty mapping.
    spec fn actor_items(&self) -> Map<Seq<char>, Seq<char>>;

    /// The actor's type name: the literal text of its declared identifier.
    fn get_game_actor_type(&self) -> (r: &str)
        ensures
            r@ == self.actor_kind_name(),
    ;

    /// A read reference to the current amount of health.
    fn get_health(&self) -> (r: &u64)
        ensures
            *r == self.actor_health(),
    ;

    /// A read reference to the current amount of mana.
    fn get_mana(&self) -> (r: &u64)
        ensures
            *r == self.actor_mana(),
    ;

    /// Overwrites `health` with `amount`: no clamping and no other change.
    fn set_health(&mut self, amount: u64)
        ensures
            final(self).actor_health() == amount,
            final(self).actor_mana() == old(self).actor_mana(),
            final(self).actor_kind_name() == old(self).actor_kind_name(),
            final(self).actor_items() == old(self).actor_items(),
    ;

    /// Overwrites `mana` with `amount`: no clamping and no other change.
    fn set_mana(&mut self, amount: u64)
        ensures
            final(self).actor_mana() == amount,
            final(self).actor_health() == old(self).actor_health(),
            final(self).actor_kind_name() == old(self).actor_kind_name(),
            final(self).actor_items() == old(self).actor_items(),
    ;
}

} // verus!
