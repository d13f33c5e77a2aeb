//! The round-trip law of the parse/emit adapter: a fragment that parses,
//! re-emitted, parses back to the very same definition — the emitted text is
//! the original modulo formatting. Proved in two halves: the parser only
//! produces well-formed definitions, and emitting any well-formed definition
//! yields text the parser maps back to it.

use vstd::prelude::*;

use crate::grammar::{
    core_text, emit_def, field_text, fields_text, ident_end, is_ident, is_ident_char,
    is_ident_start, is_ws, lemma_ident_end_bounds, lemma_parse_field_at_bounds,
    lemma_skip_ws_at_bounds, lemma_trim_range, parse_bare_struct, parse_decl, parse_def,
    parse_field_at, parse_field_tail, parse_fields_at, parse_header, skip_ws_at, trim, trim_end,
    trim_start, type_end, type_scan_ok, vis_text, wf_def, wf_field, wf_type_text,
};
use crate::model::{FieldModel, KindModel, OtherKeyword, TypeDefModel, Visibility};

verus! {

// ---------------------------------------------------------------------------
// Exact characterizations of the scanners
// ---------------------------------------------------------------------------
/// `skip_ws_at` lands exactly on the first non-whitespace position.
proof fn lemma_skip_ws_exact(s: Seq<char>, i: int, j: int)
    requires
        0 <= i <= j <= s.len(),
        forall|k: int| i <= k < j ==> is_ws(s[k]),
        j == s.len() || !is_ws(s[j]),
    ensures
        skip_ws_at(s, i) == j,
    decreases j - i,
{
    if i < j {
        lemma_skip_ws_exact(s, i + 1, j);
    }
}

/// `ident_end` lands exactly on the first non-identifier position.
proof fn lemma_ident_end_exact(s: Seq<char>, i: int, j: int)
    requires
        0 <= i <= j <= s.len(),
        forall|k: int| i <= k < j ==> is_ident_char(s[k]),
        j == s.len() || !is_ident_char(s[j]),
    ensures
        ident_end(s, i) == j,
    decreases j - i,
{
    if i < j {
        lemma_ident_end_exact(s, i + 1, j);
    }
}

/// `type_end` lands exactly on the terminator that follows a scannable
/// region.
proof fn lemma_type_end_exact(s: Seq<char>, a: int, b: int, depth: int)
    requires
        0 <= a <= b < s.len(),
        type_scan_ok(s.subrange(a, b), depth),
        s[b] == ',' || s[b] == '}',
    ensures
        type_end(s, a, depth) == Some(b),
    decreases b - a,
{
    let t = s.subrange(a, b);
    if a == b {
    } else {
        assert(t[0] == s[a]);
        assert(t.drop_first() =~= s.subrange(a + 1, b));
        if s[a] == '<' {
            lemma_type_end_exact(s, a + 1, b, depth + 1);
        } else if s[a] == '>' {
            lemma_type_end_exact(s, a + 1, b, depth - 1);
        } else {
            lemma_type_end_exact(s, a + 1, b, depth);
        }
    }
}

/// The region a successful type scan crossed is scannable.
proof fn lemma_type_end_scan(s: Seq<char>, i: int, depth: int)
    requires
        0 <= i,
        0 <= depth,
    ensures
        type_end(s, i, depth) matches Some(e) ==> type_scan_ok(s.subrange(i, e), depth),
    decreases s.len() - i,
{
    if i < s.len() {
        if depth == 0 && (s[i] == ',' || s[i] == '}') {
            assert(s.subrange(i, i) =~= Seq::<char>::empty());
        } else {
            if s[i] == '<' {
                lemma_type_end_scan(s, i + 1, depth + 1);
                crate::grammar::lemma_type_end_bounds(s, i + 1, depth + 1);
            } else if s[i] == '>' {
                if depth != 0 {
                    lemma_type_end_scan(s, i + 1, depth - 1);
                    crate::grammar::lemma_type_end_bounds(s, i + 1, depth - 1);
                }
            } else {
                lemma_type_end_scan(s, i + 1, depth);
                crate::grammar::lemma_type_end_bounds(s, i + 1, depth);
            }
            if let Some(e) = type_end(s, i, depth) {
                assert(i + 1 <= e);
                assert(s.subrange(i, e)[0] == s[i]);
                assert(s.subrange(i, e).drop_first() =~= s.subrange(i + 1, e));
            }
        }
    }
}

// ---------------------------------------------------------------------------
// Trimming preserves scannability and produces trimmed text
// ---------------------------------------------------------------------------
proof fn lemma_scan_ok_trim_start(t: Seq<char>)
    requires
        type_scan_ok(t, 0),
    ensures
        type_scan_ok(trim_start(t), 0),
    decreases t.len(),
{
    if t.len() > 0 && is_ws(t[0]) {
        lemma_scan_ok_trim_start(t.drop_first());
    }
}

proof fn lemma_scan_ok_drop_last(t: Seq<char>, depth: int)
    requires
        type_scan_ok(t, depth),
        t.len() > 0,
        is_ws(t.last()),
    ensures
        type_scan_ok(t.drop_last(), depth),
    decreases t.len(),
{
    if t.len() == 1 {
        assert(t.drop_first() =~= Seq::<char>::empty());
        assert(t.drop_last() =~= Seq::<char>::empty());
    } else {
        assert(t.drop_last()[0] == t[0]);
        assert(t.drop_last().drop_first() =~= t.drop_first().drop_last());
        assert(t.drop_first().last() == t.last());
        if t[0] == '<' {
            lemma_scan_ok_drop_last(t.drop_first(), depth + 1);
        } else if t[0] == '>' {
            lemma_scan_ok_drop_last(t.drop_first(), depth - 1);
        } else {
            lemma_scan_ok_drop_last(t.drop_first(), depth);
        }
    }
}

proof fn lemma_scan_ok_trim_end(t: Seq<char>)
    requires
        type_scan_ok(t, 0),
    ensures
        type_scan_ok(trim_end(t), 0),
    decreases t.len(),
{
    if t.len() > 0 && is_ws(t.last()) {
        lemma_scan_ok_drop_last(t, 0);
        lemma_scan_ok_trim_end(t.drop_last());
    }
}

proof fn lemma_trim_start_first(t: Seq<char>)
    ensures
        trim_start(t).len() > 0 ==> !is_ws(trim_start(t)[0]),
    decreases t.len(),
{
    if t.len() > 0 && is_ws(t[0]) {
        lemma_trim_start_first(t.drop_first());
    }
}

proof fn lemma_trim_end_last(t: Seq<char>)
    ensures
        trim_end(t).len() > 0 ==> !is_ws(trim_end(t).last()),
    decreases t.len(),
{
    if t.len() > 0 && is_ws(t.last()) {
        lemma_trim_end_last(t.drop_last());
    }
}

proof fn lemma_trim_end_first(t: Seq<char>)
    ensures
        trim_end(t).len() > 0 ==> t.len() > 0 && trim_end(t)[0] == t[0],
    decreases t.len(),
{
    if t.len() > 0 && is_ws(t.last()) {
        lemma_trim_end_first(t.drop_last());
    }
}

/// A nonempty trimmed text neither starts nor ends with whitespace.
proof fn lemma_trim_props(t: Seq<char>)
    ensures
        trim(t).len() > 0 ==> !is_ws(trim(t)[0]) && !is_ws(trim(t).last()),
{
    lemma_trim_start_first(t);
    lemma_trim_end_last(trim_start(t));
    lemma_trim_end_first(trim_start(t));
}

// ---------------------------------------------------------------------------
// The parser only produces well-formed definitions
// ---------------------------------------------------------------------------
/// The identifier scanned from an identifier-start position is one.
proof fn lemma_ident_at(s: Seq<char>, i: int)
    requires
        0 <= i < s.len(),
        is_ident_start(s[i]),
    ensures
        i < ident_end(s, i) <= s.len(),
        is_ident(s.subrange(i, ident_end(s, i))),
{
    lemma_ident_end_bounds(s, i);
    assert(ident_end(s, i) == ident_end(s, i + 1));
    lemma_ident_end_bounds(s, i + 1);
    let name = s.subrange(i, ident_end(s, i));
    assert(name[0] == s[i]);
    assert(forall|k: int| 0 <= k < name.len() ==> name[k] == s[i + k]);
}

/// A field the parser produces is well-formed.
proof fn lemma_parse_field_wf(s: Seq<char>, i: int)
    requires
        0 <= i,
    ensures
        parse_field_at(s, i) matches Some((f, e)) ==> wf_field(f),
{
    if i < s.len() && is_ident_start(s[i]) {
        lemma_ident_at(s, i);
        let j1 = ident_end(s, i);
        let id1 = s.subrange(i, j1);
        if id1 == "pub"@ {
            lemma_skip_ws_at_bounds(s, j1);
            let i2 = skip_ws_at(s, j1);
            if i2 < s.len() && is_ident_start(s[i2]) {
                lemma_ident_at(s, i2);
                let j2 = ident_end(s, i2);
                lemma_parse_field_tail_wf(s, s.subrange(i2, j2), Visibility::Public, j2);
            }
        } else {
            lemma_parse_field_tail_wf(s, id1, Visibility::Inherited, j1);
        }
    }
}

proof fn lemma_parse_field_tail_wf(s: Seq<char>, name: Seq<char>, vis: Visibility, k: int)
    requires
        0 <= k,
        is_ident(name),
        vis is Inherited ==> name != "pub"@,
    ensures
        parse_field_tail(s, name, vis, k) matches Some((f, e)) ==> wf_field(f),
{
    let k2 = skip_ws_at(s, k);
    if k <= s.len() {
        lemma_skip_ws_at_bounds(s, k);
    }
    if k2 < s.len() && s[k2] == ':' {
        lemma_type_end_scan(s, k2 + 1, 0);
        if let Some(e) = type_end(s, k2 + 1, 0) {
            let raw = s.subrange(k2 + 1, e);
            lemma_scan_ok_trim_start(raw);
            lemma_scan_ok_trim_end(trim_start(raw));
            lemma_trim_props(raw);
        }
    }
}

/// Every field of a field list the parser produces is well-formed.
proof fn lemma_parse_fields_wf(s: Seq<char>, i: int)
    requires
        0 <= i <= s.len(),
    ensures
        parse_fields_at(s, i) matches Some((fs, r)) ==> forall|k: int|
            0 <= k < fs.len() ==> wf_field(fs[k]),
    decreases s.len() - i,
{
    lemma_skip_ws_at_bounds(s, i);
    let t = skip_ws_at(s, i);
    if t < s.len() && s[t] != '}' {
        if let Some((f, e)) = parse_field_at(s, t) {
            lemma_parse_field_at_bounds(s, t);
            lemma_parse_field_wf(s, t);
            if s[e] == ',' {
                lemma_parse_fields_wf(s, e + 1);
            }
        }
    }
}

/// A declared name the header parser produces is an identifier, and the
/// position after `{` is in bounds.
proof fn lemma_header_wf(s: Seq<char>, j: int)
    requires
        0 <= j,
    ensures
        parse_header(s, j) matches Some((name, b)) ==> is_ident(name) && j < b <= s.len(),
{
    if j <= s.len() {
        lemma_skip_ws_at_bounds(s, j);
        let i1 = skip_ws_at(s, j);
        if i1 < s.len() && is_ident_start(s[i1]) {
            lemma_ident_at(s, i1);
            let j1 = ident_end(s, i1);
            lemma_skip_ws_at_bounds(s, j1);
        }
    } else {
        assert(skip_ws_at(s, j) == j);
    }
}

/// A braceless struct declaration the parser accepts is well-formed.
proof fn lemma_parse_bare_struct_wf(s: Seq<char>, j: int, vis: Visibility)
    requires
        0 <= j,
    ensures
        parse_bare_struct(s, j, vis) matches Some(d) ==> wf_def(d),
{
    if j <= s.len() {
        lemma_skip_ws_at_bounds(s, j);
    } else {
        assert(skip_ws_at(s, j) == j);
    }
    let i1 = skip_ws_at(s, j);
    if i1 < s.len() && is_ident_start(s[i1]) {
        lemma_ident_at(s, i1);
        let j1 = ident_end(s, i1);
        lemma_skip_ws_at_bounds(s, j1);
        let i2 = skip_ws_at(s, j1);
        if i2 < s.len() && s[i2] == '(' {
            let v = trim_end(s.subrange(i2 + 1, s.len() as int));
            if v.len() > 0 && v.last() == ';' {
                let u = trim_end(v.drop_last());
                if u.len() > 0 && u.last() == ')' {
                    lemma_trim_props(u.drop_last());
                }
            }
        }
    }
}

/// A declaration the keyword dispatch accepts is well-formed.
proof fn lemma_parse_decl_wf(s: Seq<char>, i0: int, j: int, vis: Visibility)
    requires
        0 <= j,
    ensures
        parse_decl(s, i0, j, vis) matches Some(d) ==> wf_def(d),
{
    lemma_header_wf(s, j);
    let kw = s.subrange(i0, j);
    if kw == "struct"@ {
        match parse_header(s, j) {
            Some((name, b)) => lemma_parse_fields_wf(s, b),
            None => lemma_parse_bare_struct_wf(s, j, vis),
        }
    } else if kw == "enum"@ || kw == "union"@ {
        if let Some((name, b)) = parse_header(s, j) {
            let tail = trim_end(s.subrange(b, s.len() as int));
            if tail.len() > 0 && tail.last() == '}' {
                lemma_trim_props(tail.drop_last());
            }
        }
    }
}

/// Everything the parser accepts is a well-formed definition.
pub proof fn lemma_parse_def_wf(s: Seq<char>)
    ensures
        parse_def(s) matches Some(d) ==> wf_def(d),
{
    lemma_skip_ws_at_bounds(s, 0);
    let i0 = skip_ws_at(s, 0);
    if i0 < s.len() && is_ident_start(s[i0]) {
        let j = ident_end(s, i0);
        lemma_ident_end_bounds(s, i0);
        if s.subrange(i0, j) == "pub"@ {
            lemma_skip_ws_at_bounds(s, j);
            let i1 = skip_ws_at(s, j);
            if i1 < s.len() && is_ident_start(s[i1]) {
                lemma_ident_end_bounds(s, i1);
                lemma_parse_decl_wf(s, i1, ident_end(s, i1), Visibility::Public);
            }
        } else {
            lemma_parse_decl_wf(s, i0, j, Visibility::Inherited);
        }
    }
}

// ---------------------------------------------------------------------------
// Emitted text parses back
// ---------------------------------------------------------------------------
/// After a field's `name`, the emitted `: type` tail parses to exactly that
/// field, ending on the terminator that follows the type text.
proof fn lemma_parse_tail_emit(s: Seq<char>, f: FieldModel, k: int)
    requires
        0 <= k,
        k + 2 + f.ty.len() < s.len(),
        s[k] == ':',
        s[k + 1] == ' ',
        forall|j: int| 0 <= j < f.ty.len() ==> s[k + 2 + j] == f.ty[j],
        s[k + 2 + f.ty.len()] == ',' || s[k + 2 + f.ty.len()] == '}',
        wf_type_text(f.ty),
    ensures
        parse_field_tail(s, f.name, f.vis, k) == Some((f, k + 2 + f.ty.len() as int)),
{
    lemma_skip_ws_exact(s, k, k);
    let b = k + 2 + f.ty.len() as int;
    let u = s.subrange(k + 1, b);
    assert(u[0] == ' ');
    assert(u.drop_first() =~= f.ty);
    assert(type_scan_ok(u, 0));
    lemma_type_end_exact(s, k + 1, b, 0);
    lemma_trim_range(u, 1, u.len() as int);
    assert(u.subrange(1, u.len() as int) =~= f.ty);
}

/// An emitted field, followed by its terminator, parses to exactly that
/// field.
proof fn lemma_parse_field_emit(pre: Seq<char>, f: FieldModel, rest: Seq<char>)
    requires
        wf_field(f),
        rest.len() > 0,
        rest[0] == ',' || rest[0] == '}',
    ensures
        parse_field_at(pre + field_text(f) + rest, pre.len() as int) == Some(
            (f, pre.len() as int + field_text(f).len() as int),
        ),
{
    reveal_strlit("pub ");
    reveal_strlit("pub");
    reveal_strlit(": ");
    let s = pre + field_text(f) + rest;
    let i = pre.len() as int;
    let ft = field_text(f);
    let nlen = f.name.len() as int;
    assert(forall|j: int| 0 <= j < ft.len() ==> s[i + j] == ft[j]);
    assert(s.len() == i + ft.len() + rest.len());
    assert(forall|j: int| 0 <= j < rest.len() ==> s[i + ft.len() + j] == rest[j]);
    if f.vis is Public {
        assert(ft =~= "pub "@ + f.name + ": "@ + f.ty);
        assert(forall|j: int| 0 <= j < 4 ==> ft[j] == "pub "@[j]);
        assert(forall|j: int| 0 <= j < nlen ==> ft[4 + j] == f.name[j]);
        assert(ft[4 + nlen] == ':' && ft[4 + nlen + 1] == ' ');
        assert(forall|j: int| 0 <= j < f.ty.len() ==> ft[4 + nlen + 2 + j] == f.ty[j]);
        lemma_ident_end_exact(s, i, i + 3);
        assert(s.subrange(i, i + 3) =~= "pub"@);
        lemma_skip_ws_exact(s, i + 3, i + 4);
        lemma_ident_end_exact(s, i + 4, i + 4 + nlen);
        assert(s.subrange(i + 4, i + 4 + nlen) =~= f.name);
        lemma_parse_tail_emit(s, f, i + 4 + nlen);
    } else {
        assert(ft =~= f.name + ": "@ + f.ty);
        assert(forall|j: int| 0 <= j < nlen ==> ft[j] == f.name[j]);
        assert(ft[nlen] == ':' && ft[nlen + 1] == ' ');
        assert(forall|j: int| 0 <= j < f.ty.len() ==> ft[nlen + 2 + j] == f.ty[j]);
        lemma_ident_end_exact(s, i, i + nlen);
        assert(s.subrange(i, i + nlen) =~= f.name);
        lemma_parse_tail_emit(s, f, i + nlen);
    }
}

/// An emitted field list, followed by the closing ` }`, parses to exactly
/// those fields and consumes the whole text.
#[verifier::rlimit(100)]
proof fn lemma_parse_fields_emit(pre: Seq<char>, fs: Seq<FieldModel>)
    requires
        forall|k: int| 0 <= k < fs.len() ==> wf_field(fs[k]),
    ensures
        parse_fields_at(pre + fields_text(fs) + " }"@, pre.len() as int) == Some(
            (fs, (pre + fields_text(fs) + " }"@).len() as int),
        ),
    decreases fs.len(),
{
    reveal_strlit(" }");
    reveal_strlit("pub ");
    let s = pre + fields_text(fs) + " }"@;
    let i = pre.len() as int;
    if fs.len() == 0 {
        assert(s[i] == ' ' && s[i + 1] == '}' && s.len() == i + 2);
        lemma_skip_ws_exact(s, i, i + 1);
        assert(parse_fields_at(s, i) matches Some((e, r)) && e =~= fs && r == s.len());
    } else {
        let f = fs.first();
        let ft = field_text(f);
        let pre1 = pre + " "@;
        let rest1 = ","@ + fields_text(fs.drop_first()) + " }"@;
        reveal_strlit(" ");
        reveal_strlit(",");
        assert(s =~= pre1 + ft + rest1);
        assert(s[i] == ' ');
        assert(wf_field(f));
        if f.vis is Public {
            assert(ft[0] == 'p');
        } else {
            assert(ft[0] == f.name[0]);
        }
        assert(s[i + 1] == ft[0]);
        assert(!is_ws(s[i + 1]) && s[i + 1] != '}');
        lemma_skip_ws_exact(s, i, i + 1);
        lemma_parse_field_emit(pre1, f, rest1);
        let e: int = pre1.len() as int + ft.len() as int;
        assert(s[e] == ',');
        let pre2 = pre1 + ft + ","@;
        assert(s =~= pre2 + fields_text(fs.drop_first()) + " }"@);
        lemma_parse_fields_emit(pre2, fs.drop_first());
        assert(parse_fields_at(s, e + 1) == Some((fs.drop_first(), s.len() as int)));
        assert(seq![f] + fs.drop_first() =~= fs);
    }
}

/// The keyword a definition is emitted with, without its trailing space.
spec fn decl_kw(d: TypeDefModel) -> Seq<char> {
    match d.kind {
        KindModel::Record => "struct"@,
        KindModel::Other { keyword, .. } => match keyword {
            OtherKeyword::Enum => "enum"@,
            OtherKeyword::Union => "union"@,
        },
        KindModel::Unit => "struct"@,
        KindModel::Tuple { .. } => "struct"@,
    }
}

/// The emitted core of a well-formed record, after any prefix.
#[verifier::rlimit(100)]
proof fn lemma_emit_parse_core_record(d: TypeDefModel, pre: Seq<char>)
    requires
        wf_def(d),
        d.kind is Record,
    ensures
        ({
            let s = pre + core_text(d);
            let k = pre.len() as int;
            let klen = decl_kw(d).len() as int;
            &&& ident_end(s, k) == k + klen
            &&& s.subrange(k, k + klen) == decl_kw(d)
            &&& parse_decl(s, k, k + klen, d.vis) == Some(d)
        }),
{
    reveal_strlit("struct ");
    reveal_strlit("struct");
    reveal_strlit("enum ");
    reveal_strlit("enum");
    reveal_strlit("union ");
    reveal_strlit("union");
    reveal_strlit(" {");
    reveal_strlit(" { ");
    reveal_strlit(" }");
    reveal_strlit(" ");
    let s = pre + core_text(d);
    let k = pre.len() as int;
    let nlen = d.name.len() as int;

    assert(forall|t: int| 0 <= t < 7 ==> s[k + t] == "struct "@[t]);
    assert(forall|t: int| 0 <= t < nlen ==> s[k + 7 + t] == d.name[t]);
    assert(s[k + 7 + nlen] == ' ' && s[k + 8 + nlen] == '{');
    lemma_ident_end_exact(s, k, k + 6);
    assert(s.subrange(k, k + 6) =~= "struct"@);
    lemma_skip_ws_exact(s, k + 6, k + 7);
    lemma_ident_end_exact(s, k + 7, k + 7 + nlen);
    assert(s.subrange(k + 7, k + 7 + nlen) =~= d.name);
    lemma_skip_ws_exact(s, k + 7 + nlen, k + 8 + nlen);
    assert(parse_header(s, k + 6) == Some((d.name, k + 9 + nlen)));
    let pre2 = pre + "struct "@ + d.name + " {"@;
    assert(s =~= pre2 + fields_text(d.fields) + " }"@);
    lemma_parse_fields_emit(pre2, d.fields);
    assert(parse_fields_at(s, k + 9 + nlen) == Some((d.fields, s.len() as int)));
    lemma_skip_ws_exact(s, s.len() as int, s.len() as int);
    assert(parse_decl(s, k, k + 6, d.vis) matches Some(m) && m =~= d);
}

/// The emitted core of a well-formed enumeration, after any prefix.
#[verifier::rlimit(100)]
proof fn lemma_emit_parse_core_enum(d: TypeDefModel, pre: Seq<char>)
    requires
        wf_def(d),
        d.kind matches KindModel::Other { keyword: OtherKeyword::Enum, .. },
    ensures
        ({
            let s = pre + core_text(d);
            let k = pre.len() as int;
            let klen = decl_kw(d).len() as int;
            &&& ident_end(s, k) == k + klen
            &&& s.subrange(k, k + klen) == decl_kw(d)
            &&& parse_decl(s, k, k + klen, d.vis) == Some(d)
        }),
{
    reveal_strlit("struct ");
    reveal_strlit("struct");
    reveal_strlit("enum ");
    reveal_strlit("enum");
    reveal_strlit("union ");
    reveal_strlit("union");
    reveal_strlit(" {");
    reveal_strlit(" { ");
    reveal_strlit(" }");
    reveal_strlit(" ");
    let s = pre + core_text(d);
    let k = pre.len() as int;
    let nlen = d.name.len() as int;
    let body = d.kind->Other_body;

    let blen = body.len() as int;
    assert(forall|t: int| 0 <= t < 5 ==> s[k + t] == "enum "@[t]);
    assert(forall|t: int| 0 <= t < nlen ==> s[k + 5 + t] == d.name[t]);
    assert(s[k + 5 + nlen] == ' ' && s[k + 6 + nlen] == '{' && s[k + 7 + nlen] == ' ');
    assert(forall|t: int| 0 <= t < blen ==> s[k + 8 + nlen + t] == body[t]);
    assert(s[k + 8 + nlen + blen] == ' ' && s[k + 9 + nlen + blen] == '}');
    assert(s.len() == k + 10 + nlen + blen);
    lemma_ident_end_exact(s, k, k + 4);
    assert(s.subrange(k, k + 4) =~= "enum"@);
    assert(s.subrange(k, k + 4) != "struct"@);
    lemma_skip_ws_exact(s, k + 4, k + 5);
    lemma_ident_end_exact(s, k + 5, k + 5 + nlen);
    assert(s.subrange(k + 5, k + 5 + nlen) =~= d.name);
    lemma_skip_ws_exact(s, k + 5 + nlen, k + 6 + nlen);
    assert(parse_header(s, k + 4) == Some((d.name, k + 7 + nlen)));
    let u = s.subrange(k + 7 + nlen, s.len() as int);
    assert(u.last() == '}');
    assert(trim_end(u) == u);
    let w = u.drop_last();
    assert(w =~= " "@ + body + " "@);
    if blen > 0 {
        lemma_trim_range(w, 1, 1 + blen);
        assert(w.subrange(1, 1 + blen) =~= body);
    } else {
        lemma_trim_range(w, 1, 1);
        assert(w.subrange(1, 1) =~= body);
    }
    assert(parse_decl(s, k, k + 4, d.vis) matches Some(m) && m =~= d);
}

/// The emitted core of a well-formed union, after any prefix.
#[verifier::rlimit(100)]
proof fn lemma_emit_parse_core_union(d: TypeDefModel, pre: Seq<char>)
    requires
        wf_def(d),
        d.kind matches KindModel::Other { keyword: OtherKeyword::Union, .. },
    ensures
        ({
            let s = pre + core_text(d);
            let k = pre.len() as int;
            let klen = decl_kw(d).len() as int;
            &&& ident_end(s, k) == k + klen
            &&& s.subrange(k, k + klen) == decl_kw(d)
            &&& parse_decl(s, k, k + klen, d.vis) == Some(d)
        }),
{
    reveal_strlit("struct ");
    reveal_strlit("struct");
    reveal_strlit("enum ");
    reveal_strlit("enum");
    reveal_strlit("union ");
    reveal_strlit("union");
    reveal_strlit(" {");
    reveal_strlit(" { ");
    reveal_strlit(" }");
    reveal_strlit(" ");
    let s = pre + core_text(d);
    let k = pre.len() as int;
    let nlen = d.name.len() as int;
    let body = d.kind->Other_body;

    let blen = body.len() as int;
    assert(forall|t: int| 0 <= t < 6 ==> s[k + t] == "union "@[t]);
    assert(forall|t: int| 0 <= t < nlen ==> s[k + 6 + t] == d.name[t]);
    assert(s[k + 6 + nlen] == ' ' && s[k + 7 + nlen] == '{' && s[k + 8 + nlen] == ' ');
    assert(forall|t: int| 0 <= t < blen ==> s[k + 9 + nlen + t] == body[t]);
    assert(s[k + 9 + nlen + blen] == ' ' && s[k + 10 + nlen + blen] == '}');
    assert(s.len() == k + 11 + nlen + blen);
    lemma_ident_end_exact(s, k, k + 5);
    assert(s.subrange(k, k + 5) =~= "union"@);
    assert(s.subrange(k, k + 5) != "struct"@);
    assert(s.subrange(k, k + 5) != "enum"@);
    lemma_skip_ws_exact(s, k + 5, k + 6);
    lemma_ident_end_exact(s, k + 6, k + 6 + nlen);
    assert(s.subrange(k + 6, k + 6 + nlen) =~= d.name);
    lemma_skip_ws_exact(s, k + 6 + nlen, k + 7 + nlen);
    assert(parse_header(s, k + 5) == Some((d.name, k + 8 + nlen)));
    let u = s.subrange(k + 8 + nlen, s.len() as int);
    assert(u.last() == '}');
    assert(trim_end(u) == u);
    let w = u.drop_last();
    assert(w =~= " "@ + body + " "@);
    if blen > 0 {
        lemma_trim_range(w, 1, 1 + blen);
        assert(w.subrange(1, 1 + blen) =~= body);
    } else {
        lemma_trim_range(w, 1, 1);
        assert(w.subrange(1, 1) =~= body);
    }
    assert(parse_decl(s, k, k + 5, d.vis) matches Some(m) && m =~= d);
}

/// The emitted core of a well-formed unit struct, after any prefix.
#[verifier::rlimit(100)]
proof fn lemma_emit_parse_core_unit(d: TypeDefModel, pre: Seq<char>)
    requires
        wf_def(d),
        d.kind is Unit,
    ensures
        ({
            let s = pre + core_text(d);
            let k = pre.len() as int;
            let klen = decl_kw(d).len() as int;
            &&& ident_end(s, k) == k + klen
            &&& s.subrange(k, k + klen) == decl_kw(d)
            &&& parse_decl(s, k, k + klen, d.vis) == Some(d)
        }),
{
    reveal_strlit("struct ");
    reveal_strlit("struct");
    reveal_strlit(";");
    let s = pre + core_text(d);
    let k = pre.len() as int;
    let nlen = d.name.len() as int;
    assert(forall|t: int| 0 <= t < 7 ==> s[k + t] == "struct "@[t]);
    assert(forall|t: int| 0 <= t < nlen ==> s[k + 7 + t] == d.name[t]);
    assert(s[k + 7 + nlen] == ';');
    assert(s.len() == k + 8 + nlen);
    lemma_ident_end_exact(s, k, k + 6);
    assert(s.subrange(k, k + 6) =~= "struct"@);
    lemma_skip_ws_exact(s, k + 6, k + 7);
    lemma_ident_end_exact(s, k + 7, k + 7 + nlen);
    assert(s.subrange(k + 7, k + 7 + nlen) =~= d.name);
    lemma_skip_ws_exact(s, k + 7 + nlen, k + 7 + nlen);
    assert(parse_header(s, k + 6) is None);
    lemma_skip_ws_exact(s, k + 8 + nlen, k + 8 + nlen);
    assert(parse_bare_struct(s, k + 6, d.vis) matches Some(m) && m =~= d);
}

/// The emitted core of a well-formed tuple struct, after any prefix.
#[verifier::rlimit(100)]
proof fn lemma_emit_parse_core_tuple(d: TypeDefModel, pre: Seq<char>)
    requires
        wf_def(d),
        d.kind matches KindModel::Tuple { .. },
    ensures
        ({
            let s = pre + core_text(d);
            let k = pre.len() as int;
            let klen = decl_kw(d).len() as int;
            &&& ident_end(s, k) == k + klen
            &&& s.subrange(k, k + klen) == decl_kw(d)
            &&& parse_decl(s, k, k + klen, d.vis) == Some(d)
        }),
{
    reveal_strlit("struct ");
    reveal_strlit("struct");
    reveal_strlit("(");
    reveal_strlit(");");
    let s = pre + core_text(d);
    let k = pre.len() as int;
    let nlen = d.name.len() as int;
    let body = d.kind->Tuple_body;
    let blen = body.len() as int;
    assert(forall|t: int| 0 <= t < 7 ==> s[k + t] == "struct "@[t]);
    assert(forall|t: int| 0 <= t < nlen ==> s[k + 7 + t] == d.name[t]);
    assert(s[k + 7 + nlen] == '(');
    assert(forall|t: int| 0 <= t < blen ==> s[k + 8 + nlen + t] == body[t]);
    assert(s[k + 8 + nlen + blen] == ')' && s[k + 9 + nlen + blen] == ';');
    assert(s.len() == k + 10 + nlen + blen);
    lemma_ident_end_exact(s, k, k + 6);
    assert(s.subrange(k, k + 6) =~= "struct"@);
    lemma_skip_ws_exact(s, k + 6, k + 7);
    lemma_ident_end_exact(s, k + 7, k + 7 + nlen);
    assert(s.subrange(k + 7, k + 7 + nlen) =~= d.name);
    lemma_skip_ws_exact(s, k + 7 + nlen, k + 7 + nlen);
    assert(parse_header(s, k + 6) is None);
    let v = s.subrange(k + 8 + nlen, s.len() as int);
    assert(v.len() == blen + 2);
    assert(v.last() == ';');
    assert(trim_end(v) == v);
    let u = v.drop_last();
    assert(u.last() == ')');
    assert(trim_end(u) == u);
    assert(u.drop_last() =~= body);
    if blen > 0 {
        lemma_trim_range(body, 0, blen);
    } else {
        lemma_trim_range(body, 0, 0);
    }
    assert(body.subrange(0, blen) =~= body);
    assert(parse_bare_struct(s, k + 6, d.vis) matches Some(m) && m =~= d);
}

/// After any prefix, the emitted core of a well-formed definition scans as
/// its keyword followed by the declaration, and the keyword dispatch maps it
/// back to the definition.
proof fn lemma_emit_parse_core(d: TypeDefModel, pre: Seq<char>)
    requires
        wf_def(d),
    ensures
        ({
            let s = pre + core_text(d);
            let k = pre.len() as int;
            let klen = decl_kw(d).len() as int;
            &&& ident_end(s, k) == k + klen
            &&& s.subrange(k, k + klen) == decl_kw(d)
            &&& parse_decl(s, k, k + klen, d.vis) == Some(d)
        }),
{
    match d.kind {
        KindModel::Record => lemma_emit_parse_core_record(d, pre),
        KindModel::Other { keyword: OtherKeyword::Enum, .. } => lemma_emit_parse_core_enum(d, pre),
        KindModel::Other { keyword: OtherKeyword::Union, .. } => lemma_emit_parse_core_union(
            d,
            pre,
        ),
        KindModel::Unit => lemma_emit_parse_core_unit(d, pre),
        KindModel::Tuple { .. } => lemma_emit_parse_core_tuple(d, pre),
    }
}

/// Emitting any well-formed definition yields text that parses back to it.
#[verifier::rlimit(100)]
pub proof fn lemma_emit_parse(d: TypeDefModel)
    requires
        wf_def(d),
    ensures
        parse_def(emit_def(d)) == Some(d),
{
    reveal_strlit("pub ");
    reveal_strlit("pub");
    reveal_strlit("struct");
    reveal_strlit("enum");
    reveal_strlit("union");
    lemma_emit_parse_core(d, vis_text(d.vis));
    let e = emit_def(d);
    let kw = decl_kw(d);
    let klen = kw.len() as int;
    // the keyword is an identifier and differs from `pub`
    match d.kind {
        KindModel::Record => {
            assert(forall|t: int| 0 <= t < 6 ==> is_ident_char("struct"@[t]));
            assert(is_ident_start(kw[0]) && kw != "pub"@);
        },
        KindModel::Other { keyword: OtherKeyword::Enum, .. } => {
            assert(forall|t: int| 0 <= t < 4 ==> is_ident_char("enum"@[t]));
            assert(is_ident_start(kw[0]) && kw != "pub"@);
        },
        KindModel::Other { keyword: OtherKeyword::Union, .. } => {
            assert(forall|t: int| 0 <= t < 5 ==> is_ident_char("union"@[t]));
            assert(is_ident_start(kw[0]) && kw != "pub"@);
        },
        KindModel::Unit | KindModel::Tuple { .. } => {
            assert(forall|t: int| 0 <= t < 6 ==> is_ident_char("struct"@[t]));
            assert(is_ident_start(kw[0]) && kw != "pub"@);
        },
    }
    if d.vis is Public {
        let k = vis_text(d.vis).len() as int;
        assert(k == 4);
        assert(forall|t: int| 0 <= t < 4 ==> e[t] == "pub "@[t]);
        assert(forall|t: int| 0 <= t < klen ==> e[4 + t] == kw[t]) by {
            assert(forall|t: int| 0 <= t < klen ==> #[trigger] e.subrange(4, 4 + klen)[t] == kw[t]);
        }
        lemma_skip_ws_exact(e, 0, 0);
        lemma_ident_end_exact(e, 0, 3);
        assert(e.subrange(0, 3) =~= "pub"@);
        lemma_skip_ws_exact(e, 3, 4);
        assert(is_ident_start(e[4]));
    } else {
        let k = vis_text(d.vis).len() as int;
        assert(k == 0);
        assert(forall|t: int| 0 <= t < klen ==> e[t] == kw[t]) by {
            assert(forall|t: int| 0 <= t < klen ==> #[trigger] e.subrange(0, klen)[t] == kw[t]);
        }
        lemma_skip_ws_exact(e, 0, 0);
        assert(e.subrange(0, klen) != "pub"@);
    }
}

/// Round trip: a fragment that parses, re-emitted, parses back to the very
/// same definition — the emitted text is the original modulo formatting.
pub proof fn lemma_round_trip(s: Seq<char>, d: TypeDefModel)
    requires
        parse_def(s) == Some(d),
    ensures
        parse_def(emit_def(d)) == Some(d),
{
    lemma_parse_def_wf(s);
    lemma_emit_parse(d);
}

} // verus!
