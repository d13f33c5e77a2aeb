use adventure_rs::adapter::{emit_block, parse};
use adventure_rs::model::GenError;
use adventure_rs::pipeline::{add_game_actor_attributes, game_actor_derive};
use adventure_rs::synthesizer::synthesize;

#[test]
fn attributes_are_added_to_a_record() {
    assert_eq!(
        add_game_actor_attributes("pub struct Enemy {}").unwrap(),
        "pub struct Enemy { pub health: u64, pub mana: u64, }"
    );
    assert_eq!(
        add_game_actor_attributes("pub struct Adventurer { pub items: HashMap<String, String> }")
            .unwrap(),
        "pub struct Adventurer { pub items: HashMap<String, String>, pub health: u64, pub mana: u64, }"
    );
    assert_eq!(
        add_game_actor_attributes("struct Enemy {}").unwrap(),
        "struct Enemy { pub health: u64, pub mana: u64, }"
    );
}

#[test]
fn attributes_applied_twice_duplicate_the_fields() {
    let once = add_game_actor_attributes("pub struct Enemy {}").unwrap();
    let twice = add_game_actor_attributes(&once).unwrap();
    assert_eq!(
        twice,
        "pub struct Enemy { pub health: u64, pub mana: u64, pub health: u64, pub mana: u64, }"
    );
}

#[test]
fn attributes_abort_on_an_enumeration() {
    assert_eq!(
        add_game_actor_attributes("enum Mood { Calm, Furious }"),
        Err(GenError::NotARecordType)
    );
}

#[test]
fn attributes_abort_on_a_union() {
    assert_eq!(
        add_game_actor_attributes("pub union Register { raw: u64 }"),
        Err(GenError::NotARecordType)
    );
}

#[test]
fn attributes_abort_on_a_unit_or_tuple_struct() {
    assert_eq!(add_game_actor_attributes("struct Marker;"), Err(GenError::NotARecordType));
    assert_eq!(
        add_game_actor_attributes("pub struct Pair(u32, u32);"),
        Err(GenError::NotARecordType)
    );
}

#[test]
fn attributes_abort_on_a_malformed_fragment() {
    assert_eq!(add_game_actor_attributes("struct Enemy {"), Err(GenError::MalformedSyntax));
    assert_eq!(game_actor_derive("not a declaration"), Err(GenError::MalformedSyntax));
}

#[test]
fn derive_generates_the_whole_interface_block() {
    let block = game_actor_derive("pub struct Enemy {}").unwrap();
    let expected = "impl GameActor for Enemy {\n\
                    \x20   fn get_game_actor_type(&self) -> &str {\n\
                    \x20       \"Enemy\"\n\
                    \x20   }\n\
                    \x20   fn get_health(&self) -> &u64 {\n\
                    \x20       &self.health\n\
                    \x20   }\n\
                    \x20   fn get_mana(&self) -> &u64 {\n\
                    \x20       &self.mana\n\
                    \x20   }\n\
                    \x20   fn set_health(&mut self, amount: u64) {\n\
                    \x20       self.health = amount;\n\
                    \x20   }\n\
                    \x20   fn set_mana(&mut self, amount: u64) {\n\
                    \x20       self.mana = amount;\n\
                    \x20   }\n}\n";
    assert_eq!(block, expected);
}

#[test]
fn derive_depends_on_the_name_alone() {
    let bare = game_actor_derive("pub struct Enemy {}").unwrap();
    let rich = game_actor_derive("struct Enemy { health: u64, mana: u64 }").unwrap();
    assert_eq!(bare, rich);
}

#[test]
fn derive_without_injection_references_missing_fields() {
    // The synthesizer splices field names blindly: applied to a record that
    // never got the capability fields, the block reads `self.health` and
    // `self.mana` while the declaration defines neither, so compiling the
    // pair downstream fails with an undefined-field error.
    let fragment = "pub struct Enemy {}";
    let block = emit_block(&synthesize(&parse(fragment).unwrap()));
    assert!(block.contains("&self.health"));
    assert!(block.contains("&self.mana"));
    assert!(!fragment.contains("health"));
    assert!(!fragment.contains("mana"));
}
