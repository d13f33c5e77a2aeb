//! The parse/emit adapter: the executable boundary between raw source text
//! and the structural model. `parse` is verified to compute exactly
//! [`crate::grammar::parse_def`], and the emitters to compute exactly
//! [`crate::grammar::emit_def`] and [`block_text`].

use vstd::prelude::*;
use vstd::string::*;

use crate::grammar::{
    emit_def, field_text, fields_text, ident_end, is_ident_char, is_ident_start, is_ws,
    lemma_parse_field_at_bounds, lemma_skip_ws_at_bounds, lemma_trim_end_range, lemma_trim_range,
    parse_bare_struct, parse_decl, parse_def, parse_field_at, parse_field_tail, parse_fields_at,
    parse_header, skip_ws_at, trim, trim_end, type_end, vis_text,
};
use crate::model::{
    fields_view, FieldDefinition, FieldModel, GenError, GeneratedBlock, KindModel, OtherKeyword,
    TypeDefModel, TypeDefinition, TypeKind, Visibility,
};

verus! {

// ---------------------------------------------------------------------------
// Character tests
// ---------------------------------------------------------------------------
fn ws_char(c: char) -> (r: bool)
    ensures
        r == is_ws(c),
{
    let u = c as u32;
    u == ' ' as u32 || u == '\n' as u32 || u == '\t' as u32 || u == '\r' as u32
}

fn ident_start_char(c: char) -> (r: bool)
    ensures
        r == is_ident_start(c),
{
    let u = c as u32;
    ('a' as u32 <= u && u <= 'z' as u32) || ('A' as u32 <= u && u <= 'Z' as u32) || c == '_'
}

fn ident_char(c: char) -> (r: bool)
    ensures
        r == is_ident_char(c),
{
    let u = c as u32;
    ident_start_char(c) || ('0' as u32 <= u && u <= '9' as u32)
}

// ---------------------------------------------------------------------------
// Scanners
// ---------------------------------------------------------------------------
fn skip_ws_exec(s: &str, n: usize, i: usize) -> (r: usize)
    requires
        n == s@.len(),
        i <= n,
    ensures
        r as int == skip_ws_at(s@, i as int),
        i <= r <= n,
    decreases n - i,
{
    if i < n && ws_char(s.get_char(i)) {
        skip_ws_exec(s, n, i + 1)
    } else {
        i
    }
}

fn ident_end_exec(s: &str, n: usize, i: usize) -> (r: usize)
    requires
        n == s@.len(),
        i <= n,
    ensures
        r as int == ident_end(s@, i as int),
        i <= r <= n,
    decreases n - i,
{
    if i < n && ident_char(s.get_char(i)) {
        ident_end_exec(s, n, i + 1)
    } else {
        i
    }
}

fn type_end_exec(s: &str, n: usize, i: usize, depth: usize) -> (r: Option<usize>)
    requires
        n == s@.len(),
        i <= n,
        depth <= i,
    ensures
        type_end(s@, i as int, depth as int) == (match r {
            Some(e) => Some(e as int),
            None => None::<int>,
        }),
        r matches Some(e) ==> i <= e < n,
    decreases n - i,
{
    if !(i < n) {
        None
    } else {
        let c = s.get_char(i);
        if depth == 0 && (c == ',' || c == '}') {
            Some(i)
        } else if c == '<' {
            type_end_exec(s, n, i + 1, depth + 1)
        } else if c == '>' {
            if depth == 0 {
                None
            } else {
                type_end_exec(s, n, i + 1, depth - 1)
            }
        } else {
            type_end_exec(s, n, i + 1, depth)
        }
    }
}

// ---------------------------------------------------------------------------
// Segments
// ---------------------------------------------------------------------------
/// The characters of `s` between positions `i` and `j`, as an owned string.
fn segment(s: &str, i: usize, j: usize) -> (r: String)
    requires
        i <= j <= s@.len(),
    ensures
        r@ == s@.subrange(i as int, j as int),
{
    s.substring_char(i, j).to_owned()
}

/// Whether the segment `[i, j)` of `s` holds exactly the text of `lit`.
fn seg_eq(s: &str, i: usize, j: usize, lit: &str) -> (r: bool)
    requires
        i <= j <= s@.len(),
    ensures
        r == (s@.subrange(i as int, j as int) == lit@),
{
    let seg = s.substring_char(i, j).to_owned();
    seg == lit.to_owned()
}

/// The segment `[a, b)` of `s`, trimmed of leading and trailing whitespace.
fn trim_segment(s: &str, n: usize, a: usize, b: usize) -> (r: String)
    requires
        n == s@.len(),
        a <= b <= n,
    ensures
        r@ == trim(s@.subrange(a as int, b as int)),
{
    let mut p = a;
    while p < b && ws_char(s.get_char(p))
        invariant
            a <= p <= b <= n,
            n == s@.len(),
            forall|k: int| a <= k < p ==> is_ws(s@[k]),
        decreases b - p,
    {
        p = p + 1;
    }
    let mut q = b;
    while q > p && ws_char(s.get_char(q - 1))
        invariant
            p <= q <= b <= n,
            n == s@.len(),
            forall|k: int| q <= k < b ==> is_ws(s@[k]),
        decreases q,
    {
        q = q - 1;
    }
    let r = segment(s, p, q);
    proof {
        let t = s@.subrange(a as int, b as int);
        lemma_trim_range(t, p - a, q - a);
        assert(t.subrange(p - a, q - a) =~= s@.subrange(p as int, q as int));
    }
    r
}

// ---------------------------------------------------------------------------
// The parser
// ---------------------------------------------------------------------------
/// The tail of one field after its name: `:`, then the type text.
fn parse_field_tail_exec(s: &str, n: usize, name: String, vis: Visibility, k: usize) -> (r: Option<
    (FieldDefinition, usize),
>)
    requires
        n == s@.len(),
        k <= n,
    ensures
        r is Some <==> parse_field_tail(s@, name@, vis, k as int) is Some,
        r matches Some((f, e)) ==> parse_field_tail(s@, name@, vis, k as int) == Some(
            (f@, e as int),
        ) && e < n,
{
    let k2 = skip_ws_exec(s, n, k);
    if !(k2 < n && s.get_char(k2) == ':') {
        return None;
    }
    match type_end_exec(s, n, k2 + 1, 0) {
        None => None,
        Some(e) => {
            let ty = trim_segment(s, n, k2 + 1, e);
            if ty.as_str().is_empty() {
                None
            } else {
                let f = FieldDefinition { name, ty, visibility: vis };
                Some((f, e))
            }
        },
    }
}

/// One field: optional `pub`, name, `:`, type text.
fn parse_field_exec(s: &str, n: usize, i: usize) -> (r: Option<(FieldDefinition, usize)>)
    requires
        n == s@.len(),
        i <= n,
    ensures
        r is Some <==> parse_field_at(s@, i as int) is Some,
        r matches Some((f, e)) ==> parse_field_at(s@, i as int) == Some((f@, e as int)) && e < n,
{
    if !(i < n && ident_start_char(s.get_char(i))) {
        return None;
    }
    let j1 = ident_end_exec(s, n, i);
    if seg_eq(s, i, j1, "pub") {
        let i2 = skip_ws_exec(s, n, j1);
        if !(i2 < n && ident_start_char(s.get_char(i2))) {
            return None;
        }
        let j2 = ident_end_exec(s, n, i2);
        let name = segment(s, i2, j2);
        parse_field_tail_exec(s, n, name, Visibility::Public, j2)
    } else {
        let name = segment(s, i, j1);
        parse_field_tail_exec(s, n, name, Visibility::Inherited, j1)
    }
}

/// The field list of a record, up to and past the closing `}`.
fn parse_fields_exec(s: &str, n: usize, i: usize) -> (r: Option<(Vec<FieldDefinition>, usize)>)
    requires
        n == s@.len(),
        i <= n,
    ensures
        r is Some <==> parse_fields_at(s@, i as int) is Some,
        r matches Some((v, rest)) ==> parse_fields_at(s@, i as int) == Some(
            (fields_view(v@), rest as int),
        ) && rest <= n,
    decreases n - i,
{
    let t = skip_ws_exec(s, n, i);
    if !(t < n) {
        return None;
    }
    if s.get_char(t) == '}' {
        let v: Vec<FieldDefinition> = Vec::new();
        proof {
            assert(fields_view(v@) =~= Seq::<FieldModel>::empty());
        }
        return Some((v, t + 1));
    }
    match parse_field_exec(s, n, t) {
        None => None,
        Some((f, e)) => {
            proof {
                lemma_parse_field_at_bounds(s@, t as int);
            }
            if s.get_char(e) == ',' {
                match parse_fields_exec(s, n, e + 1) {
                    None => None,
                    Some((v, rest)) => {
                        let ghost before = v@;
                        let mut v = v;
                        v.insert(0, f);
                        proof {
                            assert(fields_view(v@) =~= seq![f@] + fields_view(before));
                        }
                        Some((v, rest))
                    },
                }
            } else {
                let mut v: Vec<FieldDefinition> = Vec::new();
                v.push(f);
                proof {
                    assert(fields_view(v@) =~= seq![f@]);
                }
                Some((v, e + 1))
            }
        },
    }
}

/// The declared name and the position just after the opening `{`.
fn parse_header_exec(s: &str, n: usize, j: usize) -> (r: Option<(String, usize)>)
    requires
        n == s@.len(),
        j <= n,
    ensures
        r is Some <==> parse_header(s@, j as int) is Some,
        r matches Some((name, b)) ==> parse_header(s@, j as int) == Some((name@, b as int)) && b
            <= n,
{
    let i1 = skip_ws_exec(s, n, j);
    if !(i1 < n && ident_start_char(s.get_char(i1))) {
        return None;
    }
    let j1 = ident_end_exec(s, n, i1);
    let i2 = skip_ws_exec(s, n, j1);
    if !(i2 < n && s.get_char(i2) == '{') {
        return None;
    }
    let name = segment(s, i1, j1);
    Some((name, i2 + 1))
}

/// A braceless `struct` declaration: a unit struct `struct Name ;`, or a
/// tuple struct `struct Name ( body ) ;`. Tried when no `{` follows the
/// name.
fn parse_bare_struct_exec(s: &str, n: usize, j: usize, vis: Visibility) -> (r: Result<
    TypeDefinition,
    GenError,
>)
    requires
        n == s@.len(),
        j <= n,
    ensures
        r matches Ok(d) ==> parse_bare_struct(s@, j as int, vis) == Some(d@),
        r matches Err(e) ==> parse_bare_struct(s@, j as int, vis) is None && e
            == GenError::MalformedSyntax,
{
    let i1 = skip_ws_exec(s, n, j);
    if !(i1 < n && ident_start_char(s.get_char(i1))) {
        return Err(GenError::MalformedSyntax);
    }
    let j1 = ident_end_exec(s, n, i1);
    let name = segment(s, i1, j1);
    let i2 = skip_ws_exec(s, n, j1);
    if !(i2 < n) {
        return Err(GenError::MalformedSyntax);
    }
    let c = s.get_char(i2);
    if c == ';' {
        if skip_ws_exec(s, n, i2 + 1) == n {
            let d = TypeDefinition { name, visibility: vis, kind: TypeKind::Unit, fields: Vec::new() };
            proof {
                assert(fields_view(d.fields@) =~= Seq::<FieldModel>::empty());
            }
            Ok(d)
        } else {
            Err(GenError::MalformedSyntax)
        }
    } else if c == '(' {
        let mut q = n;
        while q > i2 + 1 && ws_char(s.get_char(q - 1))
            invariant
                i2 + 1 <= q <= n,
                n == s@.len(),
                forall|k: int| q <= k < n ==> is_ws(s@[k]),
            decreases q,
        {
            q = q - 1;
        }
        proof {
            let rest = s@.subrange(i2 + 1, n as int);
            lemma_trim_end_range(rest, q - (i2 + 1));
            assert(rest.subrange(0, q - (i2 + 1)) =~= s@.subrange(i2 + 1, q as int));
        }
        if !(q > i2 + 1 && s.get_char(q - 1) == ';') {
            return Err(GenError::MalformedSyntax);
        }
        proof {
            let v = trim_end(s@.subrange(i2 + 1, n as int));
            assert(v.drop_last() =~= s@.subrange(i2 + 1, q - 1));
        }
        let mut q2 = q - 1;
        while q2 > i2 + 1 && ws_char(s.get_char(q2 - 1))
            invariant
                i2 + 1 <= q2 <= q - 1 <= n,
                n == s@.len(),
                forall|k: int| q2 <= k < q - 1 ==> is_ws(s@[k]),
            decreases q2,
        {
            q2 = q2 - 1;
        }
        proof {
            let w = s@.subrange(i2 + 1, q - 1);
            lemma_trim_end_range(w, q2 - (i2 + 1));
            assert(w.subrange(0, q2 - (i2 + 1)) =~= s@.subrange(i2 + 1, q2 as int));
        }
        if !(q2 > i2 + 1 && s.get_char(q2 - 1) == ')') {
            return Err(GenError::MalformedSyntax);
        }
        let body = trim_segment(s, n, i2 + 1, q2 - 1);
        proof {
            let u = trim_end(s@.subrange(i2 + 1, q - 1));
            assert(u.drop_last() =~= s@.subrange(i2 + 1, q2 - 1));
        }
        let d = TypeDefinition {
            name,
            visibility: vis,
            kind: TypeKind::Tuple { body },
            fields: Vec::new(),
        };
        proof {
            assert(fields_view(d.fields@) =~= Seq::<FieldModel>::empty());
        }
        Ok(d)
    } else {
        Err(GenError::MalformedSyntax)
    }
}

/// The rest of a declaration after its optional visibility: the keyword
/// spans `[k0, k1)`.
fn parse_decl_exec(s: &str, n: usize, k0: usize, k1: usize, vis: Visibility) -> (r: Result<
    TypeDefinition,
    GenError,
>)
    requires
        n == s@.len(),
        k0 <= k1 <= n,
    ensures
        r matches Ok(d) ==> parse_decl(s@, k0 as int, k1 as int, vis) == Some(d@),
        r matches Err(e) ==> parse_decl(s@, k0 as int, k1 as int, vis) is None && e
            == GenError::MalformedSyntax,
{
    if seg_eq(s, k0, k1, "struct") {
        match parse_header_exec(s, n, k1) {
            None => parse_bare_struct_exec(s, n, k1, vis),
            Some((name, b)) => match parse_fields_exec(s, n, b) {
                None => Err(GenError::MalformedSyntax),
                Some((v, rest)) => {
                    if skip_ws_exec(s, n, rest) == n {
                        let d = TypeDefinition {
                            name,
                            visibility: vis,
                            kind: TypeKind::Record,
                            fields: v,
                        };
                        Ok(d)
                    } else {
                        Err(GenError::MalformedSyntax)
                    }
                },
            },
        }
    } else {
        let is_enum = seg_eq(s, k0, k1, "enum");
        let is_union = seg_eq(s, k0, k1, "union");
        if !(is_enum || is_union) {
            return Err(GenError::MalformedSyntax);
        }
        match parse_header_exec(s, n, k1) {
            None => Err(GenError::MalformedSyntax),
            Some((name, b)) => {
                let mut q = n;
                while q > b && ws_char(s.get_char(q - 1))
                    invariant
                        b <= q <= n,
                        n == s@.len(),
                        forall|k: int| q <= k < n ==> is_ws(s@[k]),
                    decreases q,
                {
                    q = q - 1;
                }
                proof {
                    let t = s@.subrange(b as int, n as int);
                    lemma_trim_end_range(t, q - b);
                    assert(t.subrange(0, q - b) =~= s@.subrange(b as int, q as int));
                }
                if !(q > b && s.get_char(q - 1) == '}') {
                    return Err(GenError::MalformedSyntax);
                }
                let body = trim_segment(s, n, b, q - 1);
                proof {
                    let tail = trim_end(s@.subrange(b as int, n as int));
                    assert(tail.drop_last() =~= s@.subrange(b as int, q - 1));
                }
                let keyword = if is_enum {
                    OtherKeyword::Enum
                } else {
                    OtherKeyword::Union
                };
                let d = TypeDefinition {
                    name,
                    visibility: vis,
                    kind: TypeKind::Other { keyword, body },
                    fields: Vec::new(),
                };
                proof {
                    assert(fields_view(d.fields@) =~= Seq::<FieldModel>::empty());
                }
                Ok(d)
            },
        }
    }
}

/// Parses one type declaration, with its optional declaration-level `pub`.
/// Fails with [`GenError::MalformedSyntax`] exactly on the fragments that
/// the grammar rejects.
pub fn parse(fragment: &str) -> (r: Result<TypeDefinition, GenError>)
    ensures
        r matches Ok(d) ==> parse_def(fragment@) == Some(d@),
        r matches Err(e) ==> parse_def(fragment@) is None && e == GenError::MalformedSyntax,
{
    let n = fragment.unicode_len();
    let i0 = skip_ws_exec(fragment, n, 0);
    if !(i0 < n && ident_start_char(fragment.get_char(i0))) {
        return Err(GenError::MalformedSyntax);
    }
    let j = ident_end_exec(fragment, n, i0);
    if seg_eq(fragment, i0, j, "pub") {
        let i1 = skip_ws_exec(fragment, n, j);
        if !(i1 < n && ident_start_char(fragment.get_char(i1))) {
            return Err(GenError::MalformedSyntax);
        }
        let j1 = ident_end_exec(fragment, n, i1);
        parse_decl_exec(fragment, n, i1, j1, Visibility::Public)
    } else {
        parse_decl_exec(fragment, n, i0, j, Visibility::Inherited)
    }
}

// ---------------------------------------------------------------------------
// The emitter
// ---------------------------------------------------------------------------
/// Emits the canonical text of a type definition. Total: every structurally
/// valid definition has a text.
pub fn emit(def: &TypeDefinition) -> (r: String)
    ensures
        r@ == emit_def(def@),
{
    let mut out = match &def.visibility {
        Visibility::Public => "pub ".to_owned(),
        Visibility::Inherited => String::new(),
    };
    match &def.kind {
        TypeKind::Record => {
            out.append("struct ");
            out.append(def.name.as_str());
            out.append(" {");
            proof {
                assert(out@ =~= vis_text(def@.vis) + "struct "@ + def@.name + " {"@ + fields_text(
                    def@.fields.take(0),
                ));
            }
            let mut i: usize = 0;
            while i < def.fields.len()
                invariant
                    i <= def.fields.len(),
                    out@ == vis_text(def@.vis) + "struct "@ + def@.name + " {"@ + fields_text(
                        def@.fields.take(i as int),
                    ),
                decreases def.fields.len() - i,
            {
                out.append(" ");
                match &def.fields[i].visibility {
                    Visibility::Public => out.append("pub "),
                    Visibility::Inherited => (),
                }
                out.append(def.fields[i].name.as_str());
                out.append(": ");
                out.append(def.fields[i].ty.as_str());
                out.append(",");
                proof {
                    lemma_fields_text_snoc(def@.fields, i as int);
                    assert(out@ == vis_text(def@.vis) + "struct "@ + def@.name + " {"@
                        + fields_text(def@.fields.take(i + 1)));
                }
                i = i + 1;
            }
            out.append(" }");
            proof {
                assert(def@.fields.take(def.fields@.len() as int) =~= def@.fields);
                assert(out@ =~= emit_def(def@));
            }
            out
        },
        TypeKind::Other { keyword, body } => {
            match keyword {
                OtherKeyword::Enum => out.append("enum "),
                OtherKeyword::Union => out.append("union "),
            }
            out.append(def.name.as_str());
            out.append(" { ");
            out.append(body.as_str());
            out.append(" }");
            proof {
                assert(out@ =~= emit_def(def@));
            }
            out
        },
        TypeKind::Unit => {
            out.append("struct ");
            out.append(def.name.as_str());
            out.append(";");
            proof {
                assert(out@ =~= emit_def(def@));
            }
            out
        },
        TypeKind::Tuple { body } => {
            out.append("struct ");
            out.append(def.name.as_str());
            out.append("(");
            out.append(body.as_str());
            out.append(");");
            proof {
                assert(out@ =~= emit_def(def@));
            }
            out
        },
    }
}

/// Appending one field to a list appends its text, space-separated and
/// comma-terminated, to the list's text.
proof fn lemma_fields_text_snoc(fs: Seq<FieldModel>, i: int)
    requires
        0 <= i < fs.len(),
    ensures
        fields_text(fs.take(i + 1)) == fields_text(fs.take(i)) + (" "@ + field_text(fs[i])
            + ","@),
    decreases i,
{
    if i == 0 {
        assert(fs.take(1).drop_first() =~= Seq::<FieldModel>::empty());
        assert(fields_text(fs.take(1)) == " "@ + field_text(fs[0]) + ","@ + fields_text(
            Seq::<FieldModel>::empty(),
        ));
        assert(fields_text(fs.take(0)) =~= Seq::<char>::empty());
        assert(fields_text(fs.take(1)) =~= fields_text(fs.take(0)) + (" "@ + field_text(fs[0])
            + ","@));
    } else {
        lemma_fields_text_snoc(fs.drop_first(), i - 1);
        assert(fs.take(i + 1).drop_first() =~= fs.drop_first().take(i));
        assert(fs.take(i).drop_first() =~= fs.drop_first().take(i - 1));
        assert(fs.take(i + 1).first() == fs[0]);
        assert(fs.take(i).first() == fs[0]);
        assert(fs.drop_first()[i - 1] == fs[i]);
        assert(fields_text(fs.take(i + 1)) == " "@ + field_text(fs[0]) + ","@ + fields_text(
            fs.drop_first().take(i),
        ));
        assert(fields_text(fs.take(i)) == " "@ + field_text(fs[0]) + ","@ + fields_text(
            fs.drop_first().take(i - 1),
        ));
        assert(fields_text(fs.take(i + 1)) =~= fields_text(fs.take(i)) + (" "@ + field_text(fs[i])
            + ","@));
    }
}

// ---------------------------------------------------------------------------
// The generated block's text
// ---------------------------------------------------------------------------
/// The text of the capability-interface implementation block for a type
/// named `name`. It depends on the name alone, and references the fields
/// `health` and `mana` by literal splice, whether or not the type declares
/// them.
pub open spec fn block_text(name: Seq<char>) -> Seq<char> {
    "impl GameActor for "@ + name + " {\n    fn get_game_actor_type(&self) -> &str {\n        \""@
        + name + "\"\n    }\n    fn get_health(&self) -> &u64 {\n        &"@ + "self.health"@
        + "\n    }\n    fn get_mana(&self) -> &u64 {\n        &"@ + "self.mana"@
        + "\n    }\n    fn set_health(&mut self, amount: u64) {\n        "@ + "self.health"@
        + " = amount;\n    }\n    fn set_mana(&mut self, amount: u64) {\n        "@ + "self.mana"@
        + " = amount;\n    }\n}\n"@
}

/// `pat` occurs in `t` at position `i`.
pub open spec fn contains_at(t: Seq<char>, i: int, pat: Seq<char>) -> bool {
    0 <= i && i + pat.len() <= t.len() && t.subrange(i, i + pat.len()) == pat
}

/// Law: the synthesized block is generated by literal name splice, not by
/// lookup. The implementor's name stands right after `impl GameActor for `
/// and again as the string literal that `get_game_actor_type` returns, and
/// the block references `self.health` and `self.mana` whatever fields the
/// definition declares — applied to a record that lacks them, the block
/// reads fields that do not exist, and only a later compilation stage fails.
pub proof fn lemma_block_splices(name: Seq<char>)
    ensures
        contains_at(block_text(name), "impl GameActor for "@.len() as int, name),
        contains_at(
            block_text(name),
            ("impl GameActor for "@ + name
                + " {\n    fn get_game_actor_type(&self) -> &str {\n        \""@).len() as int,
            name,
        ),
        exists|i: int| contains_at(block_text(name), i, "self.health"@),
        exists|i: int| contains_at(block_text(name), i, "self.mana"@),
{
    let t = block_text(name);
    let l0 = "impl GameActor for "@;
    let seg_a = " {\n    fn get_game_actor_type(&self) -> &str {\n        \""@;
    let seg_b = "\"\n    }\n    fn get_health(&self) -> &u64 {\n        &"@;
    let seg_c = "\n    }\n    fn get_mana(&self) -> &u64 {\n        &"@;
    assert(t.subrange(l0.len() as int, (l0.len() + name.len()) as int) =~= name);
    let p1 = l0 + name + seg_a;
    assert(t.subrange(p1.len() as int, (p1.len() + name.len()) as int) =~= name);
    let p2 = p1 + name + seg_b;
    assert(t.subrange(p2.len() as int, (p2.len() + "self.health"@.len()) as int) =~= "self.health"@);
    assert(contains_at(t, p2.len() as int, "self.health"@));
    let p3 = p2 + "self.health"@ + seg_c;
    assert(t.subrange(p3.len() as int, (p3.len() + "self.mana"@.len()) as int) =~= "self.mana"@);
    assert(contains_at(t, p3.len() as int, "self.mana"@));
}

/// Emits the implementation block's text for a synthesized block.
pub fn emit_block(block: &GeneratedBlock) -> (r: String)
    ensures
        r@ == block_text(block@),
{
    let mut out = "impl GameActor for ".to_owned();
    out.append(block.implementor.as_str());
    out.append(" {\n    fn get_game_actor_type(&self) -> &str {\n        \"");
    out.append(block.implementor.as_str());
    out.append("\"\n    }\n    fn get_health(&self) -> &u64 {\n        &");
    out.append("self.health");
    out.append("\n    }\n    fn get_mana(&self) -> &u64 {\n        &");
    out.append("self.mana");
    out.append("\n    }\n    fn set_health(&mut self, amount: u64) {\n        ");
    out.append("self.health");
    out.append(" = amount;\n    }\n    fn set_mana(&mut self, amount: u64) {\n        ");
    out.append("self.mana");
    out.append(" = amount;\n    }\n}\n");
    out
}

} // verus!
