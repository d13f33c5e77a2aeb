use adventure_rs::adapter::parse;
use adventure_rs::injector::inject;
use adventure_rs::model::{FieldDefinition, GenError, TypeKind, Visibility};

fn field(name: &str, ty: &str, visibility: Visibility) -> FieldDefinition {
    FieldDefinition { name: name.to_string(), ty: ty.to_string(), visibility }
}

#[test]
fn injection_appends_health_then_mana() {
    let def = parse("pub struct Adventurer { pub items: HashMap<String, String> }").unwrap();
    let out = inject(def).unwrap();
    assert_eq!(out.name, "Adventurer");
    assert_eq!(out.visibility, Visibility::Public);
    assert_eq!(out.kind, TypeKind::Record);
    assert_eq!(
        out.fields,
        vec![
            field("items", "HashMap<String, String>", Visibility::Public),
            field("health", "u64", Visibility::Public),
            field("mana", "u64", Visibility::Public),
        ]
    );
}

#[test]
fn injection_into_empty_record() {
    let def = parse("pub struct Enemy {}").unwrap();
    let out = inject(def).unwrap();
    assert_eq!(
        out.fields,
        vec![
            field("health", "u64", Visibility::Public),
            field("mana", "u64", Visibility::Public),
        ]
    );
}

#[test]
fn injection_keeps_existing_fields_in_order() {
    let def = parse("struct Hero { pub level: u32, title: String }").unwrap();
    let out = inject(def).unwrap();
    assert_eq!(out.visibility, Visibility::Inherited);
    assert_eq!(
        out.fields,
        vec![
            field("level", "u32", Visibility::Public),
            field("title", "String", Visibility::Inherited),
            field("health", "u64", Visibility::Public),
            field("mana", "u64", Visibility::Public),
        ]
    );
}

#[test]
fn injecting_twice_duplicates_the_fields() {
    let def = parse("pub struct Enemy {}").unwrap();
    let once = inject(def).unwrap();
    let twice = inject(once).unwrap();
    assert_eq!(
        twice.fields,
        vec![
            field("health", "u64", Visibility::Public),
            field("mana", "u64", Visibility::Public),
            field("health", "u64", Visibility::Public),
            field("mana", "u64", Visibility::Public),
        ]
    );
}

#[test]
fn injection_rejects_an_enumeration() {
    let def = parse("enum Mood { Calm, Furious }").unwrap();
    assert_eq!(inject(def), Err(GenError::NotARecordType));
}

#[test]
fn injection_rejects_a_union() {
    let def = parse("union Register { raw: u64 }").unwrap();
    assert_eq!(inject(def), Err(GenError::NotARecordType));
}

#[test]
fn injection_rejects_a_unit_struct() {
    let def = parse("struct Marker;").unwrap();
    assert_eq!(inject(def), Err(GenError::NotARecordType));
}

#[test]
fn injection_rejects_a_tuple_struct() {
    let def = parse("pub struct Pair(u32, u32);").unwrap();
    assert_eq!(inject(def), Err(GenError::NotARecordType));
}
