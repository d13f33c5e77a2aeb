//! The field injector: appends the two capability fields, `health` then
//! `mana`, both public 64-bit unsigned integers, to a record's field list,
//! and rejects every non-record input.

use vstd::prelude::*;

use crate::model::{
    FieldDefinition, FieldModel, GenError, KindModel, TypeDefModel, TypeDefinition, TypeKind,
    Visibility,
};

verus! {

/// The injected `health` field: `pub health: u64`.
pub open spec fn health_field() -> FieldModel {
    FieldModel { name: "health"@, ty: "u64"@, vis: Visibility::Public }
}

/// The injected `mana` field: `pub mana: u64`.
pub open spec fn mana_field() -> FieldModel {
    FieldModel { name: "mana"@, ty: "u64"@, vis: Visibility::Public }
}

/// What injection does to a record's model: name and kind stay, and the two
/// capability fields are appended, in fixed order, after every existing
/// field. Nothing is deduplicated: a record that already declares `health`
/// or `mana` ends up with duplicated fields.
pub open spec fn injected(d: TypeDefModel) -> TypeDefModel {
    TypeDefModel {
        name: d.name,
        vis: d.vis,
        kind: d.kind,
        fields: d.fields.push(health_field()).push(mana_field()),
    }
}

/// Appends `pub health: u64` and `pub mana: u64` to a record's field list.
/// A non-record input is rejected with [`GenError::NotARecordType`] and
/// nothing is produced.
pub fn inject(def: TypeDefinition) -> (r: Result<TypeDefinition, GenError>)
    ensures
        def@.kind is Record ==> (r matches Ok(out) && out@ == injected(def@)),
        !(def@.kind is Record) ==> r == Err::<TypeDefinition, GenError>(GenError::NotARecordType),
{
    match def.kind {
        TypeKind::Record => {
            let mut fields = def.fields;
            fields.push(FieldDefinition {
                name: "health".to_owned(),
                ty: "u64".to_owned(),
                visibility: Visibility::Public,
            });
            fields.push(FieldDefinition {
                name: "mana".to_owned(),
                ty: "u64".to_owned(),
                visibility: Visibility::Public,
            });
            let out = TypeDefinition {
                name: def.name,
                visibility: def.visibility,
                kind: TypeKind::Record,
                fields,
            };
            proof {
                assert(out@.fields =~= injected(def@).fields);
                assert(out@ =~= injected(def@));
            }
            Ok(out)
        },
        TypeKind::Other { .. } | TypeKind::Unit | TypeKind::Tuple { .. } => Err(
            GenError::NotARecordType,
        ),
    }
}

/// Law: injection preserves every pre-existing field, unmodified and in the
/// original order, and the two new entries are always the last two: `health`
/// then `mana`, both public `u64`.
pub proof fn lemma_injection_shape(d: TypeDefModel)
    ensures
        injected(d).name == d.name,
        injected(d).vis == d.vis,
        injected(d).kind == d.kind,
        injected(d).fields.len() == d.fields.len() + 2,
        forall|i: int| 0 <= i < d.fields.len() ==> injected(d).fields[i] == d.fields[i],
        injected(d).fields[d.fields.len() as int] == health_field(),
        injected(d).fields[d.fields.len() + 1int] == mana_field(),
{
}

/// Law: injection is not idempotent. Applying it twice appends the two
/// capability fields twice, so the field list carries duplicates.
pub proof fn lemma_double_injection(d: TypeDefModel)
    ensures
        injected(injected(d)).fields == d.fields + seq![
            health_field(),
            mana_field(),
            health_field(),
            mana_field(),
        ],
{
    assert(injected(injected(d)).fields =~= d.fields + seq![
        health_field(),
        mana_field(),
        health_field(),
        mana_field(),
    ]);
}

} // verus!
