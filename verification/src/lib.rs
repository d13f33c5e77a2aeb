//! A small compile-time code-generation core for a text-based adventure
//! game: it parses the textual definition of a record type, injects the two
//! capability fields `health` and `mana`, and synthesizes an implementation
//! block for the five-method `GameActor` capability interface. The demo
//! types that consume the generated interface live here as well.

pub mod adapter;
pub mod adventurer;
pub mod enemy;
pub mod game_actor;
pub mod grammar;
pub mod injector;
pub mod item;
pub mod model;
pub mod pipeline;
pub mod roundtrip;
pub mod synthesizer;
