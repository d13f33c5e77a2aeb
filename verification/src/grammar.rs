//! The grammar of the type declarations the adapter reads and writes, as
//! specification functions over character sequences. The slice of the host
//! grammar this core handles is: an optional declaration-level `pub`, then
//! either a record declaration `struct Name { fields }` with named, typed,
//! optionally `pub` fields, or one of the non-record declarations — an
//! `enum` or `union` whose brace body is carried verbatim, a unit struct
//! `struct Name;`, or a tuple struct whose parenthesised body is carried
//! verbatim. These definitions are the single meaning of both the parser and
//! the emitter, and the round-trip law is proved about them.

use vstd::prelude::*;

use crate::model::{FieldModel, KindModel, OtherKeyword, TypeDefModel, Visibility};

verus! {

// ---------------------------------------------------------------------------
// Character classes
// ---------------------------------------------------------------------------
/// Whitespace: space, newline, tab, carriage return.
pub open spec fn is_ws(c: char) -> bool {
    c as u32 == ' ' as u32 || c as u32 == '\n' as u32 || c as u32 == '\t' as u32 || c as u32
        == '\r' as u32
}

/// A character that may open an identifier.
pub open spec fn is_ident_start(c: char) -> bool {
    ('a' as u32 <= c as u32 && c as u32 <= 'z' as u32) || ('A' as u32 <= c as u32 && c as u32
        <= 'Z' as u32) || c == '_'
}

/// A character that may continue an identifier.
pub open spec fn is_ident_char(c: char) -> bool {
    is_ident_start(c) || ('0' as u32 <= c as u32 && c as u32 <= '9' as u32)
}

/// A well-formed identifier.
pub open spec fn is_ident(x: Seq<char>) -> bool {
    &&& x.len() > 0
    &&& is_ident_start(x[0])
    &&& forall|k: int| 0 <= k < x.len() ==> is_ident_char(x[k])
}

// ---------------------------------------------------------------------------
// Scanning positions
// ---------------------------------------------------------------------------
/// The first position at or after `i` that does not hold whitespace.
pub open spec fn skip_ws_at(s: Seq<char>, i: int) -> int
    decreases s.len() - i,
{
    if 0 <= i && i < s.len() && is_ws(s[i]) {
        skip_ws_at(s, i + 1)
    } else {
        i
    }
}

/// The first position at or after `i` that does not hold an identifier
/// character.
pub open spec fn ident_end(s: Seq<char>, i: int) -> int
    decreases s.len() - i,
{
    if 0 <= i && i < s.len() && is_ident_char(s[i]) {
        ident_end(s, i + 1)
    } else {
        i
    }
}

/// The position of the `,` or `}` that ends a field's type text, scanning
/// from `i` at angle-bracket depth `depth`; nothing if the input ends first
/// or a `>` closes a bracket that was never opened.
pub open spec fn type_end(s: Seq<char>, i: int, depth: int) -> Option<int>
    decreases s.len() - i,
{
    if !(0 <= i && i < s.len()) {
        None
    } else if depth == 0 && (s[i] == ',' || s[i] == '}') {
        Some(i)
    } else if s[i] == '<' {
        type_end(s, i + 1, depth + 1)
    } else if s[i] == '>' {
        if depth == 0 {
            None
        } else {
            type_end(s, i + 1, depth - 1)
        }
    } else {
        type_end(s, i + 1, depth)
    }
}

// ---------------------------------------------------------------------------
// Trimming
// ---------------------------------------------------------------------------
pub open spec fn trim_start(t: Seq<char>) -> Seq<char>
    decreases t.len(),
{
    if t.len() > 0 && is_ws(t[0]) {
        trim_start(t.drop_first())
    } else {
        t
    }
}

pub open spec fn trim_end(t: Seq<char>) -> Seq<char>
    decreases t.len(),
{
    if t.len() > 0 && is_ws(t.last()) {
        trim_end(t.drop_last())
    } else {
        t
    }
}

/// `t` without leading and trailing whitespace.
pub open spec fn trim(t: Seq<char>) -> Seq<char> {
    trim_end(trim_start(t))
}

// ---------------------------------------------------------------------------
// The parser
// ---------------------------------------------------------------------------
/// One field: an optional `pub`, a name, `:`, and the type text up to the
/// `,` or `}` that ends it. Yields the field and the position of that
/// terminator.
pub open spec fn parse_field_at(s: Seq<char>, i: int) -> Option<(FieldModel, int)> {
    if !(0 <= i && i < s.len() && is_ident_start(s[i])) {
        None
    } else {
        let j1 = ident_end(s, i);
        let id1 = s.subrange(i, j1);
        if id1 == "pub"@ {
            let i2 = skip_ws_at(s, j1);
            if !(i2 < s.len() && is_ident_start(s[i2])) {
                None
            } else {
                let j2 = ident_end(s, i2);
                parse_field_tail(s, s.subrange(i2, j2), Visibility::Public, j2)
            }
        } else {
            parse_field_tail(s, id1, Visibility::Inherited, j1)
        }
    }
}

/// The rest of a field after its name: `:`, then the type text.
pub open spec fn parse_field_tail(s: Seq<char>, name: Seq<char>, vis: Visibility, k: int) -> Option<
    (FieldModel, int),
> {
    let k2 = skip_ws_at(s, k);
    if !(k2 < s.len() && s[k2] == ':') {
        None
    } else {
        match type_end(s, k2 + 1, 0) {
            None => None,
            Some(e) => {
                let ty = trim(s.subrange(k2 + 1, e));
                if ty.len() == 0 {
                    None
                } else {
                    Some((FieldModel { name, ty, vis }, e))
                }
            },
        }
    }
}

/// The field list of a record, from position `i` (just after `{` or after a
/// `,`) to the closing `}`. Yields the fields and the position just after
/// that `}`.
pub open spec fn parse_fields_at(s: Seq<char>, i: int) -> Option<(Seq<FieldModel>, int)>
    decreases s.len() - i,
    via parse_fields_at_decreases
{
    if !(0 <= i && i <= s.len()) {
        None
    } else {
        let t = skip_ws_at(s, i);
        if !(t < s.len()) {
            None
        } else if s[t] == '}' {
            Some((Seq::empty(), t + 1))
        } else {
            match parse_field_at(s, t) {
                None => None,
                Some((f, e)) => {
                    if s[e] == ',' {
                        match parse_fields_at(s, e + 1) {
                            None => None,
                            Some((fs, r)) => Some((seq![f] + fs, r)),
                        }
                    } else {
                        // the type scan ended on the closing `}`
                        Some((seq![f], e + 1))
                    }
                },
            }
        }
    }
}

#[via_fn]
proof fn parse_fields_at_decreases(s: Seq<char>, i: int) {
    if 0 <= i && i <= s.len() {
        lemma_skip_ws_at_bounds(s, i);
        let t = skip_ws_at(s, i);
        if t < s.len() && s[t] != '}' {
            if let Some((f, e)) = parse_field_at(s, t) {
                lemma_parse_field_at_bounds(s, t);
            }
        }
    }
}

/// The common header of both declaration forms, after the keyword: the
/// declared name, then `{`. Yields the name and the position just after
/// the `{`.
pub open spec fn parse_header(s: Seq<char>, j: int) -> Option<(Seq<char>, int)> {
    let i1 = skip_ws_at(s, j);
    if !(i1 < s.len() && is_ident_start(s[i1])) {
        None
    } else {
        let j1 = ident_end(s, i1);
        let i2 = skip_ws_at(s, j1);
        if !(i2 < s.len() && s[i2] == '{') {
            None
        } else {
            Some((s.subrange(i1, j1), i2 + 1))
        }
    }
}

/// A braceless `struct` declaration, tried when no `{` follows the name: a
/// unit struct `struct Name ;`, or a tuple struct `struct Name ( body ) ;`
/// whose parenthesised body is kept verbatim. Both are non-records.
pub open spec fn parse_bare_struct(s: Seq<char>, j: int, vis: Visibility) -> Option<TypeDefModel> {
    let i1 = skip_ws_at(s, j);
    if !(i1 < s.len() && is_ident_start(s[i1])) {
        None
    } else {
        let j1 = ident_end(s, i1);
        let name = s.subrange(i1, j1);
        let i2 = skip_ws_at(s, j1);
        if !(i2 < s.len()) {
            None
        } else if s[i2] == ';' {
            if skip_ws_at(s, i2 + 1) == s.len() {
                Some(TypeDefModel { name, vis, kind: KindModel::Unit, fields: Seq::empty() })
            } else {
                None
            }
        } else if s[i2] == '(' {
            let v = trim_end(s.subrange(i2 + 1, s.len() as int));
            if !(v.len() > 0 && v.last() == ';') {
                None
            } else {
                let u = trim_end(v.drop_last());
                if !(u.len() > 0 && u.last() == ')') {
                    None
                } else {
                    Some(
                        TypeDefModel {
                            name,
                            vis,
                            kind: KindModel::Tuple { body: trim(u.drop_last()) },
                            fields: Seq::empty(),
                        },
                    )
                }
            }
        } else {
            None
        }
    }
}

/// The rest of a declaration after its optional visibility, dispatched on
/// the keyword spanning `[i0, j)`.
pub open spec fn parse_decl(s: Seq<char>, i0: int, j: int, vis: Visibility) -> Option<
    TypeDefModel,
> {
    let kw = s.subrange(i0, j);
    if kw == "struct"@ {
        match parse_header(s, j) {
            None => parse_bare_struct(s, j, vis),
            Some((name, b)) => match parse_fields_at(s, b) {
                None => None,
                Some((fs, r)) => {
                    if skip_ws_at(s, r) == s.len() {
                        Some(TypeDefModel { name, vis, kind: KindModel::Record, fields: fs })
                    } else {
                        None
                    }
                },
            },
        }
    } else if kw == "enum"@ || kw == "union"@ {
        match parse_header(s, j) {
            None => None,
            Some((name, b)) => {
                let tail = trim_end(s.subrange(b, s.len() as int));
                if !(tail.len() > 0 && tail.last() == '}') {
                    None
                } else {
                    let keyword = if kw == "enum"@ {
                        OtherKeyword::Enum
                    } else {
                        OtherKeyword::Union
                    };
                    Some(
                        TypeDefModel {
                            name,
                            vis,
                            kind: KindModel::Other { keyword, body: trim(tail.drop_last()) },
                            fields: Seq::empty(),
                        },
                    )
                }
            },
        }
    } else {
        None
    }
}

/// One whole type declaration — an optional `pub`, a keyword, a name and a
/// brace body — with nothing but whitespace around it.
pub open spec fn parse_def(s: Seq<char>) -> Option<TypeDefModel> {
    let i0 = skip_ws_at(s, 0);
    if !(i0 < s.len() && is_ident_start(s[i0])) {
        None
    } else {
        let j = ident_end(s, i0);
        if s.subrange(i0, j) == "pub"@ {
            let i1 = skip_ws_at(s, j);
            if !(i1 < s.len() && is_ident_start(s[i1])) {
                None
            } else {
                parse_decl(s, i1, ident_end(s, i1), Visibility::Public)
            }
        } else {
            parse_decl(s, i0, j, Visibility::Inherited)
        }
    }
}

// ---------------------------------------------------------------------------
// The emitter
// ---------------------------------------------------------------------------
/// The canonical text of one field.
pub open spec fn field_text(f: FieldModel) -> Seq<char> {
    (if f.vis is Public {
        "pub "@
    } else {
        Seq::<char>::empty()
    }) + f.name + ": "@ + f.ty
}

/// The canonical text of a field list: every field ends with a comma.
pub open spec fn fields_text(fs: Seq<FieldModel>) -> Seq<char>
    decreases fs.len(),
{
    if fs.len() == 0 {
        Seq::empty()
    } else {
        " "@ + field_text(fs.first()) + ","@ + fields_text(fs.drop_first())
    }
}

/// The text of a declaration-level visibility.
pub open spec fn vis_text(v: Visibility) -> Seq<char> {
    match v {
        Visibility::Public => "pub "@,
        Visibility::Inherited => Seq::empty(),
    }
}

/// The keyword of a non-record declaration, with its trailing space.
pub open spec fn kw_text(k: OtherKeyword) -> Seq<char> {
    match k {
        OtherKeyword::Enum => "enum "@,
        OtherKeyword::Union => "union "@,
    }
}

/// The canonical text of a declaration after its visibility.
pub open spec fn core_text(d: TypeDefModel) -> Seq<char> {
    match d.kind {
        KindModel::Record => "struct "@ + d.name + " {"@ + fields_text(d.fields) + " }"@,
        KindModel::Other { keyword, body } => kw_text(keyword) + d.name + " { "@ + body + " }"@,
        KindModel::Unit => "struct "@ + d.name + ";"@,
        KindModel::Tuple { body } => "struct "@ + d.name + "("@ + body + ");"@,
    }
}

/// The canonical text of a whole declaration.
pub open spec fn emit_def(d: TypeDefModel) -> Seq<char> {
    vis_text(d.vis) + core_text(d)
}

// ---------------------------------------------------------------------------
// Well-formed models: exactly the definitions the parser can produce, and
// the domain on which emitted text parses back
// ---------------------------------------------------------------------------
/// The type scan accepts `t` whole when it starts at depth `depth`: no `,`
/// or `}` at depth zero, no unopened `>`, and all angle brackets closed at
/// the end.
pub open spec fn type_scan_ok(t: Seq<char>, depth: int) -> bool
    decreases t.len(),
{
    if t.len() == 0 {
        depth == 0
    } else if depth == 0 && (t[0] == ',' || t[0] == '}') {
        false
    } else if t[0] == '<' {
        type_scan_ok(t.drop_first(), depth + 1)
    } else if t[0] == '>' {
        depth > 0 && type_scan_ok(t.drop_first(), depth - 1)
    } else {
        type_scan_ok(t.drop_first(), depth)
    }
}

/// Well-formed type text: nonempty, trimmed, and scannable as one field's
/// type.
pub open spec fn wf_type_text(t: Seq<char>) -> bool {
    &&& t.len() > 0
    &&& !is_ws(t[0])
    &&& !is_ws(t.last())
    &&& type_scan_ok(t, 0)
}

/// Well-formed field: an identifier name (a field without a `pub` marker
/// cannot be named `pub` itself) and well-formed type text.
pub open spec fn wf_field(f: FieldModel) -> bool {
    &&& is_ident(f.name)
    &&& f.vis is Inherited ==> f.name != "pub"@
    &&& wf_type_text(f.ty)
}

/// Well-formed definition: exactly the models the parser produces, and the
/// domain on which `emit_def` round-trips.
pub open spec fn wf_def(d: TypeDefModel) -> bool {
    &&& is_ident(d.name)
    &&& match d.kind {
        KindModel::Record => forall|k: int| 0 <= k < d.fields.len() ==> wf_field(d.fields[k]),
        KindModel::Other { keyword, body } => d.fields.len() == 0 && (body.len() == 0 || (
        !is_ws(body[0]) && !is_ws(body.last()))),
        KindModel::Unit => d.fields.len() == 0,
        KindModel::Tuple { body } => d.fields.len() == 0 && (body.len() == 0 || (!is_ws(body[0])
            && !is_ws(body.last()))),
    }
}

// ---------------------------------------------------------------------------
// Bounds of the scanning positions
// ---------------------------------------------------------------------------
pub proof fn lemma_skip_ws_at_bounds(s: Seq<char>, i: int)
    requires
        0 <= i <= s.len(),
    ensures
        i <= skip_ws_at(s, i) <= s.len(),
        forall|k: int| i <= k < skip_ws_at(s, i) ==> is_ws(s[k]),
        skip_ws_at(s, i) < s.len() ==> !is_ws(s[skip_ws_at(s, i)]),
    decreases s.len() - i,
{
    if i < s.len() && is_ws(s[i]) {
        lemma_skip_ws_at_bounds(s, i + 1);
    }
}

pub proof fn lemma_ident_end_bounds(s: Seq<char>, i: int)
    requires
        0 <= i <= s.len(),
    ensures
        i <= ident_end(s, i) <= s.len(),
        forall|k: int| i <= k < ident_end(s, i) ==> is_ident_char(s[k]),
        ident_end(s, i) < s.len() ==> !is_ident_char(s[ident_end(s, i)]),
    decreases s.len() - i,
{
    if i < s.len() && is_ident_char(s[i]) {
        lemma_ident_end_bounds(s, i + 1);
    }
}

pub proof fn lemma_type_end_bounds(s: Seq<char>, i: int, depth: int)
    requires
        0 <= i,
    ensures
        type_end(s, i, depth) matches Some(e) ==> i <= e < s.len() && (s[e] == ',' || s[e] == '}'),
    decreases s.len() - i,
{
    if 0 <= i && i < s.len() {
        if !(depth == 0 && (s[i] == ',' || s[i] == '}')) {
            if s[i] == '<' {
                lemma_type_end_bounds(s, i + 1, depth + 1);
            } else if s[i] == '>' {
                if depth != 0 {
                    lemma_type_end_bounds(s, i + 1, depth - 1);
                }
            } else {
                lemma_type_end_bounds(s, i + 1, depth);
            }
        }
    }
}

pub proof fn lemma_parse_field_at_bounds(s: Seq<char>, i: int)
    requires
        0 <= i,
    ensures
        parse_field_at(s, i) matches Some((f, e)) ==> i < e < s.len() && (s[e] == ',' || s[e]
            == '}'),
{
    if 0 <= i && i < s.len() && is_ident_start(s[i]) {
        let j1 = ident_end(s, i);
        lemma_ident_end_bounds(s, i);
        let id1 = s.subrange(i, j1);
        if id1 == "pub"@ {
            let i2 = skip_ws_at(s, j1);
            lemma_skip_ws_at_bounds(s, j1);
            if i2 < s.len() && is_ident_start(s[i2]) {
                let j2 = ident_end(s, i2);
                lemma_ident_end_bounds(s, i2);
                lemma_parse_field_tail_bounds(s, s.subrange(i2, j2), Visibility::Public, j2);
            }
        } else {
            lemma_parse_field_tail_bounds(s, id1, Visibility::Inherited, j1);
        }
    }
}

proof fn lemma_parse_field_tail_bounds(s: Seq<char>, name: Seq<char>, vis: Visibility, k: int)
    requires
        0 <= k,
    ensures
        parse_field_tail(s, name, vis, k) matches Some((f, e)) ==> k <= e < s.len() && (s[e] == ','
            || s[e] == '}'),
{
    let k2 = skip_ws_at(s, k);
    if k <= s.len() {
        lemma_skip_ws_at_bounds(s, k);
    } else {
        assert(skip_ws_at(s, k) == k);
    }
    if k2 < s.len() && s[k2] == ':' {
        lemma_type_end_bounds(s, k2 + 1, 0);
    }
}

/// `trim_start` drops exactly the leading whitespace run.
pub proof fn lemma_trim_start_range(t: Seq<char>, p: int)
    requires
        0 <= p <= t.len(),
        forall|k: int| 0 <= k < p ==> is_ws(t[k]),
        p == t.len() || !is_ws(t[p]),
    ensures
        trim_start(t) == t.subrange(p, t.len() as int),
    decreases p,
{
    if p == 0 {
        assert(t.subrange(0, t.len() as int) =~= t);
    } else {
        lemma_trim_start_range(t.drop_first(), p - 1);
        assert(t.drop_first().subrange(p - 1, t.drop_first().len() as int) =~= t.subrange(
            p,
            t.len() as int,
        ));
    }
}

/// `trim_end` drops exactly the trailing whitespace run.
pub proof fn lemma_trim_end_range(t: Seq<char>, q: int)
    requires
        0 <= q <= t.len(),
        forall|k: int| q <= k < t.len() ==> is_ws(t[k]),
        q == 0 || !is_ws(t[q - 1]),
    ensures
        trim_end(t) == t.subrange(0, q),
    decreases t.len() - q,
{
    if q == t.len() {
        assert(t.subrange(0, q) =~= t);
    } else {
        lemma_trim_end_range(t.drop_last(), q);
        assert(t.drop_last().subrange(0, q) =~= t.subrange(0, q));
    }
}

/// `trim` keeps exactly the characters between the leading and the trailing
/// whitespace runs.
pub proof fn lemma_trim_range(t: Seq<char>, p: int, q: int)
    requires
        0 <= p <= q <= t.len(),
        forall|k: int| 0 <= k < p ==> is_ws(t[k]),
        forall|k: int| q <= k < t.len() ==> is_ws(t[k]),
        p == q || (!is_ws(t[p]) && !is_ws(t[q - 1])),
    ensures
        trim(t) == t.subrange(p, q),
{
    if p == q {
        lemma_trim_start_range(t, t.len() as int);
        let u = trim_start(t);
        lemma_trim_end_range(u, 0);
        assert(u.subrange(0, 0) =~= t.subrange(p, q));
    } else {
        lemma_trim_start_range(t, p);
        let u = trim_start(t);
        lemma_trim_end_range(u, q - p);
        assert(u.subrange(0, q - p) =~= t.subrange(p, q));
    }
}

} // verus!
