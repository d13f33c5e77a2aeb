use adventure_rs::adapter::{emit, parse};
use adventure_rs::model::{GenError, OtherKeyword, TypeKind, Visibility};

#[test]
fn parse_reads_a_record() {
    let def = parse("struct Enemy {}").unwrap();
    assert_eq!(def.name, "Enemy");
    assert_eq!(def.visibility, Visibility::Inherited);
    assert_eq!(def.kind, TypeKind::Record);
    assert!(def.fields.is_empty());
}

#[test]
fn parse_reads_a_public_record() {
    let def = parse("pub struct Enemy {}").unwrap();
    assert_eq!(def.name, "Enemy");
    assert_eq!(def.visibility, Visibility::Public);
    assert_eq!(def.kind, TypeKind::Record);
    assert!(def.fields.is_empty());
}

#[test]
fn parse_reads_an_enumeration() {
    let def = parse("enum Mood { Calm, Furious }").unwrap();
    assert_eq!(def.name, "Mood");
    assert_eq!(
        def.kind,
        TypeKind::Other { keyword: OtherKeyword::Enum, body: "Calm, Furious".to_string() }
    );
    assert!(def.fields.is_empty());
}

#[test]
fn parse_reads_a_union() {
    let def = parse("pub union Register { raw: u64 }").unwrap();
    assert_eq!(def.name, "Register");
    assert_eq!(def.visibility, Visibility::Public);
    assert_eq!(
        def.kind,
        TypeKind::Other { keyword: OtherKeyword::Union, body: "raw: u64".to_string() }
    );
}

#[test]
fn parse_reads_a_unit_struct() {
    let def = parse("struct Marker;").unwrap();
    assert_eq!(def.name, "Marker");
    assert_eq!(def.kind, TypeKind::Unit);
    assert!(def.fields.is_empty());
}

#[test]
fn parse_reads_a_tuple_struct() {
    let def = parse("pub struct Pair( u32,  u32 );").unwrap();
    assert_eq!(def.name, "Pair");
    assert_eq!(def.visibility, Visibility::Public);
    assert_eq!(def.kind, TypeKind::Tuple { body: "u32,  u32".to_string() });
    assert!(def.fields.is_empty());
}

#[test]
fn parse_accepts_messy_formatting() {
    let def =
        parse("  pub   struct\n  Adventurer  {\n    items :  HashMap<String, String> ,\n  }\n")
            .unwrap();
    assert_eq!(def.name, "Adventurer");
    assert_eq!(def.visibility, Visibility::Public);
    assert_eq!(def.fields.len(), 1);
    assert_eq!(def.fields[0].name, "items");
    assert_eq!(def.fields[0].ty, "HashMap<String, String>");
}

#[test]
fn emit_after_parse_is_the_fragment_modulo_formatting() {
    for fragment in [
        "struct Enemy {}",
        "pub struct Enemy {}",
        "pub struct Adventurer { pub items: HashMap<String, String> }",
        "struct Hero { pub level: u32, title: String, }",
        "enum Mood { Calm, Furious }",
        "pub enum Mood { Calm, Furious }",
        "union Register { raw: u64 }",
        "enum Empty {}",
        "struct Marker;",
        "pub struct Pair(u32, u32);",
        "struct Wrapper((A, B));",
    ] {
        let def = parse(fragment).unwrap();
        let text = emit(&def);
        let reparsed = parse(&text).unwrap();
        assert_eq!(reparsed, def, "round trip failed for {fragment}");
        // emitting again is a fixed point: the text is already canonical
        assert_eq!(emit(&reparsed), text);
    }
}

#[test]
fn emit_produces_canonical_text() {
    let enemy = parse("pub struct Enemy {}").unwrap();
    assert_eq!(emit(&enemy), "pub struct Enemy { }");
    let adv = parse(" pub struct  Adventurer  { pub items :  HashMap<String, String> , } ").unwrap();
    assert_eq!(emit(&adv), "pub struct Adventurer { pub items: HashMap<String, String>, }");
    let mood = parse("enum Mood {  Calm, Furious  }").unwrap();
    assert_eq!(emit(&mood), "enum Mood { Calm, Furious }");
    let reg = parse("union Register { raw: u64 }").unwrap();
    assert_eq!(emit(&reg), "union Register { raw: u64 }");
    let marker = parse("struct  Marker  ;").unwrap();
    assert_eq!(emit(&marker), "struct Marker;");
    let pair = parse("pub struct Pair ( u32, u32 ) ;").unwrap();
    assert_eq!(emit(&pair), "pub struct Pair(u32, u32);");
}

#[test]
fn malformed_fragments_are_rejected_without_output() {
    for fragment in [
        "",
        "   ",
        "structEnemy {}",
        "pubstruct Enemy {}",
        "pub {}",
        "pub pub struct Enemy {}",
        "struct {}",
        "struct Enemy",
        "struct Enemy {",
        "struct Enemy { health }",
        "struct Enemy { health: }",
        "struct Enemy { health:   , }",
        "struct Enemy { health: Vec<u64 }",
        "struct Enemy { health: u64> }",
        "struct Enemy {} trailing",
        "struct Marker; trailing",
        "struct Pair(u32, u32)",
        "fn main() {}",
        "enum Mood",
        "enum Mood { Calm",
    ] {
        assert_eq!(parse(fragment), Err(GenError::MalformedSyntax), "accepted: {fragment:?}");
    }
}

#[test]
fn public_fields_keep_their_marker() {
    let def = parse("struct Hero { pub level: u32 }").unwrap();
    assert_eq!(emit(&def), "struct Hero { pub level: u32, }");
}
