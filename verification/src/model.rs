//! The structural model: the in-memory representation of one type
//! definition (name, kind, ordered field list) that the field injector and
//! the interface synthesizer consume and produce, together with the ghost
//! counterparts that all contracts are stated over.

use vstd::prelude::*;

verus! {

/// Visibility of a declared field: `pub`, or inherited (no modifier).
#[derive(Clone, Copy, Debug, PartialEq, Eq, Structural)]
pub enum Visibility {
    Public,
    Inherited,
}

/// Ghost counterpart of [`FieldDefinition`].
#[verifier::ext_equal]
pub struct FieldModel {
    pub name: Seq<char>,
    pub ty: Seq<char>,
    pub vis: Visibility,
}

/// Ghost counterpart of [`TypeKind`]. A non-record declaration keeps its
/// keyword and its body verbatim, so that re-emitting it loses nothing.
#[verifier::ext_equal]
pub enum KindModel {
    Record,
    Other { keyword: OtherKeyword, body: Seq<char> },
    Unit,
    Tuple { body: Seq<char> },
}

/// Ghost counterpart of [`TypeDefinition`].
#[verifier::ext_equal]
pub struct TypeDefModel {
    pub name: Seq<char>,
    pub vis: Visibility,
    pub kind: KindModel,
    pub fields: Seq<FieldModel>,
}

/// One named, typed field of a record declaration.
#[derive(Clone, Debug, PartialEq, Eq)]
pub struct FieldDefinition {
    pub name: String,
    pub ty: String,
    pub visibility: Visibility,
}

impl View for FieldDefinition {
    type V = FieldModel;

    open spec fn view(&self) -> FieldModel {
        FieldModel { name: self.name@, ty: self.ty@, vis: self.visibility }
    }
}

/// The keyword a non-record declaration was written with.
#[derive(Clone, Copy, Debug, PartialEq, Eq, Structural)]
pub enum OtherKeyword {
    Enum,
    Union,
}

/// The kind of a parsed declaration: a record (a `struct` with named
/// fields); any other brace declaration (an enumeration or a union), whose
/// keyword and body are carried through verbatim; a unit struct
/// (`struct Name;`); or a tuple struct, whose parenthesised body is carried
/// through verbatim. Only a record is a valid injection target.
#[derive(Clone, Debug, PartialEq, Eq)]
pub enum TypeKind {
    Record,
    Other { keyword: OtherKeyword, body: String },
    Unit,
    Tuple { body: String },
}

impl View for TypeKind {
    type V = KindModel;

    open spec fn view(&self) -> KindModel {
        match self {
            TypeKind::Record => KindModel::Record,
            TypeKind::Other { keyword, body } => KindModel::Other {
                keyword: *keyword,
                body: body@,
            },
            TypeKind::Unit => KindModel::Unit,
            TypeKind::Tuple { body } => KindModel::Tuple { body: body@ },
        }
    }
}

/// The view of a sequence of exec field definitions.
pub open spec fn fields_view(fs: Seq<FieldDefinition>) -> Seq<FieldModel> {
    Seq::new(fs.len(), |i: int| fs[i]@)
}

/// The parsed representation of one type declaration, with its
/// declaration-level visibility. For a record, the field list is meaningful
/// and ordered; for any other kind it is empty.
#[derive(Clone, Debug, PartialEq, Eq)]
pub struct TypeDefinition {
    pub name: String,
    pub visibility: Visibility,
    pub kind: TypeKind,
    pub fields: Vec<FieldDefinition>,
}

impl View for TypeDefinition {
    type V = TypeDefModel;

    open spec fn view(&self) -> TypeDefModel {
        TypeDefModel {
            name: self.name@,
            vis: self.visibility,
            kind: self.kind@,
            fields: fields_view(self.fields@),
        }
    }
}

/// The synthesizer's output: an implementation block of the capability
/// interface. Its emitted text depends on the implementor's name alone, so
/// the name is all it needs to carry.
#[derive(Clone, Debug, PartialEq, Eq)]
pub struct GeneratedBlock {
    pub implementor: String,
}

impl View for GeneratedBlock {
    type V = Seq<char>;

    open spec fn view(&self) -> Seq<char> {
        self.implementor@
    }
}

/// The two failures of the code-generation core. Both are fatal to the
/// enclosing expansion: there is no retry and no partial output.
#[derive(Clone, Copy, Debug, PartialEq, Eq, Structural)]
pub enum GenError {
    /// The fragment is not a syntactically valid type declaration.
    MalformedSyntax,
    /// The field injector was applied to a non-record declaration.
    NotARecordType,
}

} // verus!
