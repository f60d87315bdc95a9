//! The generic value decoder: given a type's canonical path and a raw value
//! tree, construct a concrete instance via the registry. Construction is
//! atomic: failure at any depth fails the whole decode and no partial
//! instance is returned. The one exception to failure is the entity
//! reference, which resolves to the placeholder node and a diagnostic rather
//! than aborting the decode.

use vstd::prelude::*;
use vstd::string::StrSliceExecFns;
use vstd::string::StringExecFns;
use crate::PLACEHOLDER_NODE_ID;
use crate::diag::DiagKind;
use crate::diag::DiagV;
use crate::diag::Diagnostic;
use crate::diag::diags_view;
use crate::diag::push_diag;
use crate::instance::InstV;
use crate::instance::Instance;
use crate::instance::inst_fields_view;
use crate::instance::inst_items_view;
use crate::instance::inst_pairs_view;
use crate::numlex::parse_u64;
use crate::numlex::spec_parse_u64;
use crate::rawvalue::RawVal;
use crate::rawvalue::RawValue;
use crate::rawvalue::lemma_raw_entries_view_len;
use crate::rawvalue::lemma_raw_items_view_len;
use crate::rawvalue::raw_entries_view;
use crate::rawvalue::raw_items_view;
use crate::registry::TypeRegistry;
use crate::registry::spec_lookup_path;
use crate::resolver::CtxV;
use crate::resolver::ResolutionContext;
use crate::resolver::opt_ctx_view;
use crate::resolver::resolve_name;
use crate::resolver::spec_resolve;
use crate::shape::FieldDef;
use crate::shape::FieldDefV;
use crate::shape::Shape;
use crate::shape::ShapeV;
use crate::shape::TypeDescV;
use crate::shape::VariantDef;
use crate::shape::VariantDefV;
use crate::text::str_eq;

verus! {

/// Why one decode failed. Each variant names the offending path, field,
/// variant or lexeme.
#[derive(Debug)]
pub enum DecodeError {
    /// The canonical path has no registry entry.
    UnknownType { path: String },
    /// The raw value's shape does not match the type's declared shape.
    ShapeMismatch { subject: String },
    /// A raw map entry names no declared field.
    UnknownField { name: String },
    /// A raw discriminant names no declared variant.
    UnknownVariant { name: String },
    /// A numeric lexeme is malformed or out of range for its width.
    BadNumber { lexeme: String },
    /// A positional value has the wrong number of items.
    WrongLength { subject: String },
    /// An opaque primitive name outside the fixed table.
    UnsupportedPrimitive { name: String },
    /// A map key type that keys cannot be decoded into.
    UnsupportedKey { path: String },
}

/// Ghost mirror of `DecodeError`.
pub enum DecodeErrV {
    UnknownType { path: Seq<char> },
    ShapeMismatch { subject: Seq<char> },
    UnknownField { name: Seq<char> },
    UnknownVariant { name: Seq<char> },
    BadNumber { lexeme: Seq<char> },
    WrongLength { subject: Seq<char> },
    UnsupportedPrimitive { name: Seq<char> },
    UnsupportedKey { path: Seq<char> },
}

impl View for DecodeError {
    type V = DecodeErrV;

    open spec fn view(&self) -> DecodeErrV {
        match self {
            DecodeError::UnknownType { path } => DecodeErrV::UnknownType { path: path@ },
            DecodeError::ShapeMismatch { subject } => DecodeErrV::ShapeMismatch {
                subject: subject@,
            },
            DecodeError::UnknownField { name } => DecodeErrV::UnknownField { name: name@ },
            DecodeError::UnknownVariant { name } => DecodeErrV::UnknownVariant { name: name@ },
            DecodeError::BadNumber { lexeme } => DecodeErrV::BadNumber { lexeme: lexeme@ },
            DecodeError::WrongLength { subject } => DecodeErrV::WrongLength { subject: subject@ },
            DecodeError::UnsupportedPrimitive { name } => DecodeErrV::UnsupportedPrimitive {
                name: name@,
            },
            DecodeError::UnsupportedKey { path } => DecodeErrV::UnsupportedKey { path: path@ },
        }
    }
}

pub open spec fn is_bool_prim(p: Seq<char>) -> bool {
    p == "bool"@
}

pub open spec fn is_float_prim(p: Seq<char>) -> bool {
    p == "f32"@ || p == "f64"@
}

pub open spec fn is_uint_prim(p: Seq<char>) -> bool {
    p == "u8"@ || p == "u16"@ || p == "u32"@ || p == "u64"@ || p == "u128"@ || p == "usize"@
}

pub open spec fn is_int_prim(p: Seq<char>) -> bool {
    p == "i8"@ || p == "i16"@ || p == "i32"@ || p == "i64"@ || p == "i128"@ || p == "isize"@
}

pub open spec fn is_string_prim(p: Seq<char>) -> bool {
    p == "str"@ || p == "alloc::string::String"@
}

pub open spec fn is_char_prim(p: Seq<char>) -> bool {
    p == "char"@
}

/// Largest value accepted for an unsigned width; wider-than-64-bit values are
/// not representable in an instance and are rejected.
pub open spec fn uint_max(p: Seq<char>) -> nat {
    if p == "u8"@ {
        0xff
    } else if p == "u16"@ {
        0xffff
    } else if p == "u32"@ {
        0xffff_ffff
    } else {
        0xffff_ffff_ffff_ffff
    }
}

/// Largest positive value accepted for a signed width.
pub open spec fn int_max(p: Seq<char>) -> nat {
    if p == "i8"@ {
        0x7f
    } else if p == "i16"@ {
        0x7fff
    } else if p == "i32"@ {
        0x7fff_ffff
    } else {
        0x7fff_ffff_ffff_ffff
    }
}

/// Largest magnitude accepted for a negative value of a signed width.
pub open spec fn int_min_mag(p: Seq<char>) -> nat {
    if p == "i8"@ {
        0x80
    } else if p == "i16"@ {
        0x8000
    } else if p == "i32"@ {
        0x8000_0000
    } else {
        0x8000_0000_0000_0000
    }
}

/// Decode a raw scalar against an opaque primitive kind.
pub open spec fn spec_decode_opaque(prim: Seq<char>, raw: RawVal) -> Result<InstV, DecodeErrV> {
    if is_bool_prim(prim) {
        match raw {
            RawVal::Flag { value } => Ok(InstV::BoolVal { value }),
            _ => Err(DecodeErrV::ShapeMismatch { subject: prim }),
        }
    } else if is_float_prim(prim) {
        match raw {
            RawVal::Num { lexeme } => Ok(InstV::FloatLex { lexeme }),
            _ => Err(DecodeErrV::ShapeMismatch { subject: prim }),
        }
    } else if is_uint_prim(prim) {
        match raw {
            RawVal::Num { lexeme } => match spec_parse_u64(lexeme) {
                Some(v) => if v as nat <= uint_max(prim) {
                    Ok(InstV::UIntVal { value: v })
                } else {
                    Err(DecodeErrV::BadNumber { lexeme })
                },
                None => Err(DecodeErrV::BadNumber { lexeme }),
            },
            _ => Err(DecodeErrV::ShapeMismatch { subject: prim }),
        }
    } else if is_int_prim(prim) {
        match raw {
            RawVal::Num { lexeme } => {
                if lexeme.len() > 0 && lexeme[0] == '-' {
                    match spec_parse_u64(lexeme.subrange(1, lexeme.len() as int)) {
                        Some(m) => if m as nat <= int_min_mag(prim) {
                            Ok(InstV::IntVal { negative: m > 0, magnitude: m })
                        } else {
                            Err(DecodeErrV::BadNumber { lexeme })
                        },
                        None => Err(DecodeErrV::BadNumber { lexeme }),
                    }
                } else {
                    match spec_parse_u64(lexeme) {
                        Some(v) => if v as nat <= int_max(prim) {
                            Ok(InstV::IntVal { negative: false, magnitude: v })
                        } else {
                            Err(DecodeErrV::BadNumber { lexeme })
                        },
                        None => Err(DecodeErrV::BadNumber { lexeme }),
                    }
                }
            },
            _ => Err(DecodeErrV::ShapeMismatch { subject: prim }),
        }
    } else if is_string_prim(prim) {
        match raw {
            RawVal::Text { value } => Ok(InstV::TextVal { value }),
            _ => Err(DecodeErrV::ShapeMismatch { subject: prim }),
        }
    } else if is_char_prim(prim) {
        match raw {
            RawVal::Text { value } => if value.len() == 1 {
                Ok(InstV::TextVal { value })
            } else {
                Err(DecodeErrV::ShapeMismatch { subject: prim })
            },
            _ => Err(DecodeErrV::ShapeMismatch { subject: prim }),
        }
    } else {
        Err(DecodeErrV::UnsupportedPrimitive { name: prim })
    }
}

/// First declared field named `name`.
pub open spec fn spec_find_field(fields: Seq<FieldDefV>, name: Seq<char>) -> Option<FieldDefV>
    decreases fields.len(),
{
    if fields.len() == 0 {
        None
    } else if fields[0].name == name {
        Some(fields[0])
    } else {
        spec_find_field(fields.subrange(1, fields.len() as int), name)
    }
}

pub open spec fn variant_name(v: VariantDefV) -> Seq<char> {
    match v {
        VariantDefV::UnitLike { name } => name,
        VariantDefV::TupleLike { name, .. } => name,
        VariantDefV::StructLike { name, .. } => name,
    }
}

/// First declared variant named `name`.
pub open spec fn spec_find_variant(vs: Seq<VariantDefV>, name: Seq<char>) -> Option<VariantDefV>
    decreases vs.len(),
{
    if vs.len() == 0 {
        None
    } else if variant_name(vs[0]) == name {
        Some(vs[0])
    } else {
        spec_find_variant(vs.subrange(1, vs.len() as int), name)
    }
}

/// First raw map entry under `key`.
pub open spec fn spec_find_raw_entry(es: Seq<(Seq<char>, RawVal)>, key: Seq<char>) -> Option<
    RawVal,
>
    decreases es.len(),
{
    if es.len() == 0 {
        None
    } else if es[0].0 == key {
        Some(es[0].1)
    } else {
        spec_find_raw_entry(es.subrange(1, es.len() as int), key)
    }
}

/// Decode one map key lexeme against the declared key type: textual keys
/// stay text, integer keys are parsed, anything else cannot key a map.
pub open spec fn spec_decode_key(
    reg: Seq<TypeDescV>,
    key_path: Seq<char>,
    k: Seq<char>,
) -> Result<InstV, DecodeErrV> {
    match spec_lookup_path(reg, key_path) {
        None => Err(DecodeErrV::UnknownType { path: key_path }),
        Some(d) => match d.shape {
            ShapeV::OpaqueShape { primitive } => if is_string_prim(primitive) || is_char_prim(
                primitive,
            ) {
                spec_decode_opaque(primitive, RawVal::Text { value: k })
            } else if is_uint_prim(primitive) || is_int_prim(primitive) {
                spec_decode_opaque(primitive, RawVal::Num { lexeme: k })
            } else {
                Err(DecodeErrV::UnsupportedKey { path: key_path })
            },
            _ => Err(DecodeErrV::UnsupportedKey { path: key_path }),
        },
    }
}

/// The full decode relation: result and emitted diagnostics.
pub open spec fn spec_decode(
    reg: Seq<TypeDescV>,
    path: Seq<char>,
    raw: RawVal,
    ctx: Option<CtxV>,
) -> (Result<InstV, DecodeErrV>, Seq<DiagV>)
    decreases raw, 1nat,
{
    match spec_lookup_path(reg, path) {
        None => (Err(DecodeErrV::UnknownType { path }), Seq::empty()),
        Some(d) => match d.shape {
            ShapeV::StructShape { fields } => match raw {
                RawVal::MapEntries { entries } => {
                    let (r, ds) = spec_decode_fields(reg, fields, entries, 0, ctx);
                    match r {
                        Ok(fs) => (Ok(InstV::StructVal { fields: fs }), ds),
                        Err(e) => (Err(e), ds),
                    }
                },
                _ => (Err(DecodeErrV::ShapeMismatch { subject: path }), Seq::empty()),
            },
            ShapeV::EnumShape { variants } => spec_decode_enum(reg, path, variants, raw, ctx),
            ShapeV::TupleStructShape { elems } => spec_decode_tuple_like(
                reg,
                path,
                elems,
                raw,
                ctx,
            ),
            ShapeV::TupleShape { elems } => spec_decode_tuple_like(reg, path, elems, raw, ctx),
            ShapeV::ListShape { item } => match raw {
                RawVal::ListItems { items } => {
                    let (r, ds) = spec_decode_items(reg, item, items, 0, ctx);
                    match r {
                        Ok(xs) => (Ok(InstV::ListVal { items: xs }), ds),
                        Err(e) => (Err(e), ds),
                    }
                },
                _ => (Err(DecodeErrV::ShapeMismatch { subject: path }), Seq::empty()),
            },
            ShapeV::ArrayShape { item, len } => match raw {
                RawVal::ListItems { items } => if items.len() == len {
                    let (r, ds) = spec_decode_items(reg, item, items, 0, ctx);
                    match r {
                        Ok(xs) => (Ok(InstV::ListVal { items: xs }), ds),
                        Err(e) => (Err(e), ds),
                    }
                } else {
                    (Err(DecodeErrV::WrongLength { subject: path }), Seq::empty())
                },
                _ => (Err(DecodeErrV::ShapeMismatch { subject: path }), Seq::empty()),
            },
            ShapeV::MapShape { key, value } => match raw {
                RawVal::MapEntries { entries } => {
                    let (r, ds) = spec_decode_pairs(reg, key, value, entries, 0, ctx);
                    match r {
                        Ok(ps) => (Ok(InstV::MapVal { pairs: ps }), ds),
                        Err(e) => (Err(e), ds),
                    }
                },
                _ => (Err(DecodeErrV::ShapeMismatch { subject: path }), Seq::empty()),
            },
            ShapeV::OpaqueShape { primitive } => (
                spec_decode_opaque(primitive, raw),
                Seq::empty(),
            ),
            ShapeV::EntityRefShape => match raw {
                RawVal::MapEntries { entries } => match spec_find_raw_entry(entries, "name"@) {
                    Some(RawVal::Text { value }) => {
                        let (id, okk) = spec_resolve(ctx, value);
                        if okk {
                            (Ok(InstV::NodeRef { id }), Seq::empty())
                        } else {
                            (
                                Ok(InstV::NodeRef { id }),
                                seq![
                                    DiagV {
                                        kind: DiagKind::UnresolvedEntityRef,
                                        node: None,
                                        subject: value,
                                    },
                                ],
                            )
                        }
                    },
                    Some(_) => (Err(DecodeErrV::ShapeMismatch { subject: path }), Seq::empty()),
                    None => (
                        Ok(InstV::NodeRef { id: PLACEHOLDER_NODE_ID }),
                        seq![
                            DiagV { kind: DiagKind::UnresolvedEntityRef, node: None, subject: path },
                        ],
                    ),
                },
                _ => (Err(DecodeErrV::ShapeMismatch { subject: path }), Seq::empty()),
            },
        },
    }
}

/// Decode a tuple or tuple-struct: positional items, exact length.
pub open spec fn spec_decode_tuple_like(
    reg: Seq<TypeDescV>,
    path: Seq<char>,
    elems: Seq<Seq<char>>,
    raw: RawVal,
    ctx: Option<CtxV>,
) -> (Result<InstV, DecodeErrV>, Seq<DiagV>)
    decreases raw, 0nat,
{
    match raw {
        RawVal::ListItems { items } => if items.len() == elems.len() {
            let (r, ds) = spec_decode_positional(reg, path, elems, items, 0, ctx);
            match r {
                Ok(xs) => (Ok(InstV::ListVal { items: xs }), ds),
                Err(e) => (Err(e), ds),
            }
        } else {
            (Err(DecodeErrV::WrongLength { subject: path }), Seq::empty())
        },
        _ => (Err(DecodeErrV::ShapeMismatch { subject: path }), Seq::empty()),
    }
}

/// Decode an enum from its discriminant shape: a bare string is a unit
/// variant; a single-entry map carries a data variant's payload.
pub open spec fn spec_decode_enum(
    reg: Seq<TypeDescV>,
    path: Seq<char>,
    variants: Seq<VariantDefV>,
    raw: RawVal,
    ctx: Option<CtxV>,
) -> (Result<InstV, DecodeErrV>, Seq<DiagV>)
    decreases raw, 0nat,
{
    match raw {
        RawVal::Text { value } => match spec_find_variant(variants, value) {
            Some(VariantDefV::UnitLike { name }) => (
                Ok(InstV::EnumVal { variant: name, payload: None }),
                Seq::empty(),
            ),
            Some(_) => (Err(DecodeErrV::ShapeMismatch { subject: path }), Seq::empty()),
            None => (Err(DecodeErrV::UnknownVariant { name: value }), Seq::empty()),
        },
        RawVal::MapEntries { entries } => {
            if entries.len() != 1 {
                (Err(DecodeErrV::ShapeMismatch { subject: path }), Seq::empty())
            } else {
                let vn = entries[0].0;
                let payload = entries[0].1;
                match spec_find_variant(variants, vn) {
                    None => (Err(DecodeErrV::UnknownVariant { name: vn }), Seq::empty()),
                    Some(VariantDefV::UnitLike { name }) => (
                        Err(DecodeErrV::ShapeMismatch { subject: path }),
                        Seq::empty(),
                    ),
                    Some(VariantDefV::TupleLike { name, elems }) => match payload {
                        RawVal::ListItems { items } => if items.len() == elems.len() {
                            let (r, ds) = spec_decode_positional(reg, path, elems, items, 0, ctx);
                            match r {
                                Ok(xs) => (
                                    Ok(
                                        InstV::EnumVal {
                                            variant: vn,
                                            payload: Some(
                                                Box::new(InstV::ListVal { items: xs }),
                                            ),
                                        },
                                    ),
                                    ds,
                                ),
                                Err(e) => (Err(e), ds),
                            }
                        } else {
                            (Err(DecodeErrV::WrongLength { subject: path }), Seq::empty())
                        },
                        _ => (Err(DecodeErrV::ShapeMismatch { subject: path }), Seq::empty()),
                    },
                    Some(VariantDefV::StructLike { name, fields }) => match payload {
                        RawVal::MapEntries { entries: fes } => {
                            let (r, ds) = spec_decode_fields(reg, fields, fes, 0, ctx);
                            match r {
                                Ok(fs) => (
                                    Ok(
                                        InstV::EnumVal {
                                            variant: vn,
                                            payload: Some(
                                                Box::new(InstV::StructVal { fields: fs }),
                                            ),
                                        },
                                    ),
                                    ds,
                                ),
                                Err(e) => (Err(e), ds),
                            }
                        },
                        _ => (Err(DecodeErrV::ShapeMismatch { subject: path }), Seq::empty()),
                    },
                }
            }
        },
        _ => (Err(DecodeErrV::ShapeMismatch { subject: path }), Seq::empty()),
    }
}

/// Decode raw struct entries from index `i` on: every present entry must name
/// a declared field and decode against that field's type; absent fields are
/// tolerated, matching patch-style construction.
pub open spec fn spec_decode_fields(
    reg: Seq<TypeDescV>,
    fields: Seq<FieldDefV>,
    es: Seq<(Seq<char>, RawVal)>,
    i: nat,
    ctx: Option<CtxV>,
) -> (Result<Seq<(Seq<char>, InstV)>, DecodeErrV>, Seq<DiagV>)
    decreases es, es.len() - i,
{
    if i >= es.len() {
        (Ok(Seq::empty()), Seq::empty())
    } else {
        let k = es[i as int].0;
        let v = es[i as int].1;
        match spec_find_field(fields, k) {
            None => (Err(DecodeErrV::UnknownField { name: k }), Seq::empty()),
            Some(f) => {
                let (r0, d0) = spec_decode(reg, f.type_path, v, ctx);
                match r0 {
                    Err(e) => (Err(e), d0),
                    Ok(inst) => {
                        let (rr, dr) = spec_decode_fields(reg, fields, es, i + 1, ctx);
                        match rr {
                            Err(e) => (Err(e), d0 + dr),
                            Ok(rest) => (Ok(seq![(k, inst)] + rest), d0 + dr),
                        }
                    },
                }
            },
        }
    }
}

/// Decode positional items from index `i` on, item `i` against `elems[i]`.
pub open spec fn spec_decode_positional(
    reg: Seq<TypeDescV>,
    owner: Seq<char>,
    elems: Seq<Seq<char>>,
    items: Seq<RawVal>,
    i: nat,
    ctx: Option<CtxV>,
) -> (Result<Seq<InstV>, DecodeErrV>, Seq<DiagV>)
    decreases items, items.len() - i,
{
    if i >= items.len() {
        (Ok(Seq::empty()), Seq::empty())
    } else if i >= elems.len() {
        (Err(DecodeErrV::WrongLength { subject: owner }), Seq::empty())
    } else {
        let (r0, d0) = spec_decode(reg, elems[i as int], items[i as int], ctx);
        match r0 {
            Err(e) => (Err(e), d0),
            Ok(inst) => {
                let (rr, dr) = spec_decode_positional(reg, owner, elems, items, i + 1, ctx);
                match rr {
                    Err(e) => (Err(e), d0 + dr),
                    Ok(rest) => (Ok(seq![inst] + rest), d0 + dr),
                }
            },
        }
    }
}

/// Decode homogeneous list items from index `i` on.
pub open spec fn spec_decode_items(
    reg: Seq<TypeDescV>,
    item_path: Seq<char>,
    items: Seq<RawVal>,
    i: nat,
    ctx: Option<CtxV>,
) -> (Result<Seq<InstV>, DecodeErrV>, Seq<DiagV>)
    decreases items, items.len() - i,
{
    if i >= items.len() {
        (Ok(Seq::empty()), Seq::empty())
    } else {
        let (r0, d0) = spec_decode(reg, item_path, items[i as int], ctx);
        match r0 {
            Err(e) => (Err(e), d0),
            Ok(inst) => {
                let (rr, dr) = spec_decode_items(reg, item_path, items, i + 1, ctx);
                match rr {
                    Err(e) => (Err(e), d0 + dr),
                    Ok(rest) => (Ok(seq![inst] + rest), d0 + dr),
                }
            },
        }
    }
}

/// Decode map pairs from index `i` on: the key against the key type, the
/// value against the value type.
pub open spec fn spec_decode_pairs(
    reg: Seq<TypeDescV>,
    key_path: Seq<char>,
    val_path: Seq<char>,
    es: Seq<(Seq<char>, RawVal)>,
    i: nat,
    ctx: Option<CtxV>,
) -> (Result<Seq<(InstV, InstV)>, DecodeErrV>, Seq<DiagV>)
    decreases es, es.len() - i,
{
    if i >= es.len() {
        (Ok(Seq::empty()), Seq::empty())
    } else {
        match spec_decode_key(reg, key_path, es[i as int].0) {
            Err(e) => (Err(e), Seq::empty()),
            Ok(ki) => {
                let (r0, d0) = spec_decode(reg, val_path, es[i as int].1, ctx);
                match r0 {
                    Err(e) => (Err(e), d0),
                    Ok(vi) => {
                        let (rr, dr) = spec_decode_pairs(reg, key_path, val_path, es, i + 1, ctx);
                        match rr {
                            Err(e) => (Err(e), d0 + dr),
                            Ok(rest) => (Ok(seq![(ki, vi)] + rest), d0 + dr),
                        }
                    },
                }
            },
        }
    }
}


/// First declared field named `name`, as executable lookup.
fn find_field<'a>(fields: &'a Vec<FieldDef>, name: &str) -> (r: Option<&'a FieldDef>)
    ensures
        match r {
            Some(f) => spec_find_field(fields@.map_values(|x: FieldDef| x@), name@) == Some(f@),
            None => spec_find_field(fields@.map_values(|x: FieldDef| x@), name@) is None,
        },
{
    let ghost fv = fields@.map_values(|x: FieldDef| x@);
    let n = fields.len();
    let mut i: usize = 0;
    proof {
        assert(fv.subrange(0, n as int) =~= fv);
    }
    while i < n
        invariant
            n as nat == fields@.len(),
            fv == fields@.map_values(|x: FieldDef| x@),
            i <= n,
            spec_find_field(fv, name@) == spec_find_field(fv.subrange(i as int, n as int), name@),
        decreases n - i,
    {
        if str_eq(fields[i].name.as_str(), name) {
            proof {
                let tail = fv.subrange(i as int, n as int);
                assert(tail[0] == fv[i as int]);
            }
            return Some(&fields[i]);
        }
        proof {
            let tail = fv.subrange(i as int, n as int);
            assert(tail[0] == fv[i as int]);
            assert(tail.subrange(1, tail.len() as int) =~= fv.subrange(i as int + 1, n as int));
        }
        i = i + 1;
    }
    proof {
        assert(fv.subrange(n as int, n as int) =~= Seq::<FieldDefV>::empty());
    }
    None
}

fn exec_variant_name<'a>(v: &'a VariantDef) -> (r: &'a String)
    ensures
        r@ == variant_name(v@),
{
    match v {
        VariantDef::UnitLike { name } => name,
        VariantDef::TupleLike { name, .. } => name,
        VariantDef::StructLike { name, .. } => name,
    }
}

/// First declared variant named `name`, as executable lookup.
fn find_variant<'a>(variants: &'a Vec<VariantDef>, name: &str) -> (r: Option<&'a VariantDef>)
    ensures
        match r {
            Some(v) => spec_find_variant(variants@.map_values(|x: VariantDef| x@), name@) == Some(
                v@,
            ),
            None => spec_find_variant(variants@.map_values(|x: VariantDef| x@), name@) is None,
        },
{
    let ghost vv = variants@.map_values(|x: VariantDef| x@);
    let n = variants.len();
    let mut i: usize = 0;
    proof {
        assert(vv.subrange(0, n as int) =~= vv);
    }
    while i < n
        invariant
            n as nat == variants@.len(),
            vv == variants@.map_values(|x: VariantDef| x@),
            i <= n,
            spec_find_variant(vv, name@) == spec_find_variant(
                vv.subrange(i as int, n as int),
                name@,
            ),
        decreases n - i,
    {
        if str_eq(exec_variant_name(&variants[i]).as_str(), name) {
            proof {
                let tail = vv.subrange(i as int, n as int);
                assert(tail[0] == vv[i as int]);
            }
            return Some(&variants[i]);
        }
        proof {
            let tail = vv.subrange(i as int, n as int);
            assert(tail[0] == vv[i as int]);
            assert(tail.subrange(1, tail.len() as int) =~= vv.subrange(i as int + 1, n as int));
        }
        i = i + 1;
    }
    proof {
        assert(vv.subrange(n as int, n as int) =~= Seq::<VariantDefV>::empty());
    }
    None
}

/// First raw entry under `key`, as executable lookup.
fn find_raw_entry<'a>(es: &'a Vec<(String, RawValue)>, key: &str) -> (r: Option<&'a RawValue>)
    ensures
        match r {
            Some(v) => spec_find_raw_entry(raw_entries_view(es@), key@) == Some(v@),
            None => spec_find_raw_entry(raw_entries_view(es@), key@) is None,
        },
{
    let ghost ev = raw_entries_view(es@);
    proof {
        lemma_raw_entries_view_len(es@);
    }
    let n = es.len();
    let mut i: usize = 0;
    proof {
        assert(ev.subrange(0, n as int) =~= ev);
    }
    while i < n
        invariant
            n as nat == es@.len(),
            ev == raw_entries_view(es@),
            ev.len() == n as nat,
            forall|j: int|
                0 <= j < n ==> #[trigger] ev[j] == (es@[j].0@, crate::rawvalue::raw_value_view(
                    es@[j].1,
                )),
            i <= n,
            spec_find_raw_entry(ev, key@) == spec_find_raw_entry(
                ev.subrange(i as int, n as int),
                key@,
            ),
        decreases n - i,
    {
        if str_eq(es[i].0.as_str(), key) {
            proof {
                let tail = ev.subrange(i as int, n as int);
                assert(tail[0] == ev[i as int]);
            }
            return Some(&es[i].1);
        }
        proof {
            let tail = ev.subrange(i as int, n as int);
            assert(tail[0] == ev[i as int]);
            assert(tail.subrange(1, tail.len() as int) =~= ev.subrange(i as int + 1, n as int));
        }
        i = i + 1;
    }
    proof {
        assert(ev.subrange(n as int, n as int) =~= Seq::<(Seq<char>, RawVal)>::empty());
    }
    None
}

fn uint_max_of(prim: &str) -> (r: u64)
    ensures
        r as nat == uint_max(prim@),
{
    if str_eq(prim, "u8") {
        0xff
    } else if str_eq(prim, "u16") {
        0xffff
    } else if str_eq(prim, "u32") {
        0xffff_ffff
    } else {
        0xffff_ffff_ffff_ffff
    }
}

fn int_max_of(prim: &str) -> (r: u64)
    ensures
        r as nat == int_max(prim@),
{
    if str_eq(prim, "i8") {
        0x7f
    } else if str_eq(prim, "i16") {
        0x7fff
    } else if str_eq(prim, "i32") {
        0x7fff_ffff
    } else {
        0x7fff_ffff_ffff_ffff
    }
}

fn int_min_mag_of(prim: &str) -> (r: u64)
    ensures
        r as nat == int_min_mag(prim@),
{
    if str_eq(prim, "i8") {
        0x80
    } else if str_eq(prim, "i16") {
        0x8000
    } else if str_eq(prim, "i32") {
        0x8000_0000
    } else {
        0x8000_0000_0000_0000
    }
}

/// Decode a raw scalar against an opaque primitive kind.
fn decode_opaque(prim: &str, raw: &RawValue) -> (r: Result<Instance, DecodeError>)
    ensures
        match r {
            Ok(inst) => spec_decode_opaque(prim@, raw@) == Ok::<InstV, DecodeErrV>(inst@),
            Err(e) => spec_decode_opaque(prim@, raw@) == Err::<InstV, DecodeErrV>(e@),
        },
{
    if str_eq(prim, "bool") {
        match raw {
            RawValue::Flag { value } => Ok(Instance::BoolVal { value: *value }),
            _ => Err(DecodeError::ShapeMismatch { subject: prim.to_owned() }),
        }
    } else if str_eq(prim, "f32") || str_eq(prim, "f64") {
        match raw {
            RawValue::Num { lexeme } => Ok(Instance::FloatLex { lexeme: lexeme.clone() }),
            _ => Err(DecodeError::ShapeMismatch { subject: prim.to_owned() }),
        }
    } else if str_eq(prim, "u8") || str_eq(prim, "u16") || str_eq(prim, "u32") || str_eq(
        prim,
        "u64",
    ) || str_eq(prim, "u128") || str_eq(prim, "usize") {
        match raw {
            RawValue::Num { lexeme } => match parse_u64(lexeme.as_str()) {
                Some(v) => if v <= uint_max_of(prim) {
                    Ok(Instance::UIntVal { value: v })
                } else {
                    Err(DecodeError::BadNumber { lexeme: lexeme.clone() })
                },
                None => Err(DecodeError::BadNumber { lexeme: lexeme.clone() }),
            },
            _ => Err(DecodeError::ShapeMismatch { subject: prim.to_owned() }),
        }
    } else if str_eq(prim, "i8") || str_eq(prim, "i16") || str_eq(prim, "i32") || str_eq(
        prim,
        "i64",
    ) || str_eq(prim, "i128") || str_eq(prim, "isize") {
        match raw {
            RawValue::Num { lexeme } => {
                let ll = lexeme.as_str().unicode_len();
                if ll > 0 && lexeme.as_str().get_char(0) == '-' {
                    let magtext = lexeme.as_str().substring_char(1, ll);
                    proof {
                        assert(magtext@ =~= lexeme@.subrange(1, lexeme@.len() as int));
                    }
                    match parse_u64(magtext) {
                        Some(m) => if m <= int_min_mag_of(prim) {
                            Ok(Instance::IntVal { negative: m > 0, magnitude: m })
                        } else {
                            Err(DecodeError::BadNumber { lexeme: lexeme.clone() })
                        },
                        None => Err(DecodeError::BadNumber { lexeme: lexeme.clone() }),
                    }
                } else {
                    match parse_u64(lexeme.as_str()) {
                        Some(v) => if v <= int_max_of(prim) {
                            Ok(Instance::IntVal { negative: false, magnitude: v })
                        } else {
                            Err(DecodeError::BadNumber { lexeme: lexeme.clone() })
                        },
                        None => Err(DecodeError::BadNumber { lexeme: lexeme.clone() }),
                    }
                }
            },
            _ => Err(DecodeError::ShapeMismatch { subject: prim.to_owned() }),
        }
    } else if str_eq(prim, "str") || str_eq(prim, "alloc::string::String") {
        match raw {
            RawValue::Text { value } => Ok(Instance::TextVal { value: value.clone() }),
            _ => Err(DecodeError::ShapeMismatch { subject: prim.to_owned() }),
        }
    } else if str_eq(prim, "char") {
        match raw {
            RawValue::Text { value } => if value.as_str().unicode_len() == 1 {
                Ok(Instance::TextVal { value: value.clone() })
            } else {
                Err(DecodeError::ShapeMismatch { subject: prim.to_owned() })
            },
            _ => Err(DecodeError::ShapeMismatch { subject: prim.to_owned() }),
        }
    } else {
        Err(DecodeError::UnsupportedPrimitive { name: prim.to_owned() })
    }
}

/// Decode one map key lexeme against the declared key type.
fn decode_key(reg: &TypeRegistry, key_path: &str, k: &String) -> (r: Result<Instance, DecodeError>)
    ensures
        match r {
            Ok(inst) => spec_decode_key(reg@, key_path@, k@) == Ok::<InstV, DecodeErrV>(inst@),
            Err(e) => spec_decode_key(reg@, key_path@, k@) == Err::<InstV, DecodeErrV>(e@),
        },
{
    let d = match reg.lookup_by_path(key_path) {
        Some(d) => d,
        None => {
            return Err(DecodeError::UnknownType { path: key_path.to_owned() });
        },
    };
    match &d.shape {
        Shape::OpaqueShape { primitive } => {
            let p = primitive.as_str();
            if str_eq(p, "str") || str_eq(p, "alloc::string::String") || str_eq(p, "char") {
                decode_opaque(p, &RawValue::Text { value: k.clone() })
            } else if str_eq(p, "u8") || str_eq(p, "u16") || str_eq(p, "u32") || str_eq(p, "u64")
                || str_eq(p, "u128") || str_eq(p, "usize") || str_eq(p, "i8") || str_eq(p, "i16")
                || str_eq(p, "i32") || str_eq(p, "i64") || str_eq(p, "i128") || str_eq(
                p,
                "isize",
            ) {
                decode_opaque(p, &RawValue::Num { lexeme: k.clone() })
            } else {
                Err(DecodeError::UnsupportedKey { path: key_path.to_owned() })
            }
        },
        _ => Err(DecodeError::UnsupportedKey { path: key_path.to_owned() }),
    }
}

/// Decode one raw value against the type registered under `path`, consulting
/// the optional reference-resolution context, appending any diagnostics.
pub fn decode_value(
    reg: &TypeRegistry,
    path: &str,
    raw: &RawValue,
    ctx: Option<&ResolutionContext>,
    diags: &mut Vec<Diagnostic>,
) -> (r: Result<Instance, DecodeError>)
    ensures
        diags_view(final(diags)@) == diags_view(old(diags)@) + spec_decode(
            reg@,
            path@,
            raw@,
            opt_ctx_view(ctx),
        ).1,
        match r {
            Ok(inst) => spec_decode(reg@, path@, raw@, opt_ctx_view(ctx)).0 == Ok::<
                InstV,
                DecodeErrV,
            >(inst@),
            Err(e) => spec_decode(reg@, path@, raw@, opt_ctx_view(ctx)).0 == Err::<
                InstV,
                DecodeErrV,
            >(e@),
        },
    decreases raw, 1nat,
{
    let ghost sd = spec_decode(reg@, path@, raw@, opt_ctx_view(ctx));
    let d = match reg.lookup_by_path(path) {
        Some(d) => d,
        None => {
            proof {
                assert(diags_view(diags@) =~= diags_view(old(diags)@) + sd.1);
            }
            return Err(DecodeError::UnknownType { path: path.to_owned() });
        },
    };
    match &d.shape {
        Shape::StructShape { fields } => match raw {
            RawValue::MapEntries { entries } => {
                let r = decode_fields_from(reg, fields, entries, 0, ctx, diags);
                match r {
                    Ok(fs) => Ok(Instance::StructVal { fields: fs }),
                    Err(e) => Err(e),
                }
            },
            _ => {
                proof {
                    assert(diags_view(diags@) =~= diags_view(old(diags)@) + sd.1);
                }
                Err(DecodeError::ShapeMismatch { subject: path.to_owned() })
            },
        },
        Shape::EnumShape { variants } => decode_enum(reg, path, variants, raw, ctx, diags),
        Shape::TupleStructShape { elems } => decode_tuple_like(reg, path, elems, raw, ctx, diags),
        Shape::TupleShape { elems } => decode_tuple_like(reg, path, elems, raw, ctx, diags),
        Shape::ListShape { item } => match raw {
            RawValue::ListItems { items } => {
                let r = decode_items_from(reg, item.as_str(), items, 0, ctx, diags);
                match r {
                    Ok(xs) => Ok(Instance::ListVal { items: xs }),
                    Err(e) => Err(e),
                }
            },
            _ => {
                proof {
                    assert(diags_view(diags@) =~= diags_view(old(diags)@) + sd.1);
                }
                Err(DecodeError::ShapeMismatch { subject: path.to_owned() })
            },
        },
        Shape::ArrayShape { item, len } => match raw {
            RawValue::ListItems { items } => {
                proof {
                    lemma_raw_items_view_len(items@);
                }
                if items.len() == *len {
                    let r = decode_items_from(reg, item.as_str(), items, 0, ctx, diags);
                    match r {
                        Ok(xs) => Ok(Instance::ListVal { items: xs }),
                        Err(e) => Err(e),
                    }
                } else {
                    proof {
                        assert(diags_view(diags@) =~= diags_view(old(diags)@) + sd.1);
                    }
                    Err(DecodeError::WrongLength { subject: path.to_owned() })
                }
            },
            _ => {
                proof {
                    assert(diags_view(diags@) =~= diags_view(old(diags)@) + sd.1);
                }
                Err(DecodeError::ShapeMismatch { subject: path.to_owned() })
            },
        },
        Shape::MapShape { key, value } => match raw {
            RawValue::MapEntries { entries } => {
                let r = decode_pairs_from(reg, key.as_str(), value.as_str(), entries, 0, ctx,
                    diags);
                match r {
                    Ok(ps) => Ok(Instance::MapVal { pairs: ps }),
                    Err(e) => Err(e),
                }
            },
            _ => {
                proof {
                    assert(diags_view(diags@) =~= diags_view(old(diags)@) + sd.1);
                }
                Err(DecodeError::ShapeMismatch { subject: path.to_owned() })
            },
        },
        Shape::OpaqueShape { primitive } => {
            proof {
                assert(diags_view(diags@) =~= diags_view(old(diags)@) + sd.1);
            }
            decode_opaque(primitive.as_str(), raw)
        },
        Shape::EntityRefShape => match raw {
            RawValue::MapEntries { entries } => match find_raw_entry(entries, "name") {
                Some(RawValue::Text { value }) => {
                    let (id, okk) = resolve_name(ctx, value.as_str());
                    if okk {
                        proof {
                            assert(diags_view(diags@) =~= diags_view(old(diags)@) + sd.1);
                        }
                        Ok(Instance::NodeRef { id })
                    } else {
                        push_diag(diags, DiagKind::UnresolvedEntityRef, None, value.as_str());
                        proof {
                            assert(diags_view(diags@) =~= diags_view(old(diags)@) + sd.1);
                        }
                        Ok(Instance::NodeRef { id })
                    }
                },
                Some(_) => {
                    proof {
                        assert(diags_view(diags@) =~= diags_view(old(diags)@) + sd.1);
                    }
                    Err(DecodeError::ShapeMismatch { subject: path.to_owned() })
                },
                None => {
                    push_diag(diags, DiagKind::UnresolvedEntityRef, None, path);
                    proof {
                        assert(diags_view(diags@) =~= diags_view(old(diags)@) + sd.1);
                    }
                    Ok(Instance::NodeRef { id: PLACEHOLDER_NODE_ID })
                },
            },
            _ => {
                proof {
                    assert(diags_view(diags@) =~= diags_view(old(diags)@) + sd.1);
                }
                Err(DecodeError::ShapeMismatch { subject: path.to_owned() })
            },
        },
    }
}

/// Decode an enum from its discriminant shape.
fn decode_enum(
    reg: &TypeRegistry,
    path: &str,
    variants: &Vec<VariantDef>,
    raw: &RawValue,
    ctx: Option<&ResolutionContext>,
    diags: &mut Vec<Diagnostic>,
) -> (r: Result<Instance, DecodeError>)
    ensures
        diags_view(final(diags)@) == diags_view(old(diags)@) + spec_decode_enum(
            reg@,
            path@,
            variants@.map_values(|x: VariantDef| x@),
            raw@,
            opt_ctx_view(ctx),
        ).1,
        match r {
            Ok(inst) => spec_decode_enum(
                reg@,
                path@,
                variants@.map_values(|x: VariantDef| x@),
                raw@,
                opt_ctx_view(ctx),
            ).0 == Ok::<InstV, DecodeErrV>(inst@),
            Err(e) => spec_decode_enum(
                reg@,
                path@,
                variants@.map_values(|x: VariantDef| x@),
                raw@,
                opt_ctx_view(ctx),
            ).0 == Err::<InstV, DecodeErrV>(e@),
        },
    decreases raw, 0nat,
{
    let ghost sd = spec_decode_enum(
        reg@,
        path@,
        variants@.map_values(|x: VariantDef| x@),
        raw@,
        opt_ctx_view(ctx),
    );
    match raw {
        RawValue::Text { value } => {
            proof {
                assert(diags_view(diags@) =~= diags_view(old(diags)@) + sd.1);
            }
            match find_variant(variants, value.as_str()) {
                Some(v) => match v {
                    VariantDef::UnitLike { name } => {
                        let out = Instance::EnumVal { variant: name.clone(), payload: None };
                        proof {
                            assert(v@ matches VariantDefV::UnitLike { name: nn } && out@
                                == InstV::EnumVal { variant: nn, payload: None });
                            assert(sd.0 == Ok::<InstV, DecodeErrV>(out@));
                        }
                        Ok(out)
                    },
                    _ => Err(DecodeError::ShapeMismatch { subject: path.to_owned() }),
                },
                None => Err(DecodeError::UnknownVariant { name: value.clone() }),
            }
        },
        RawValue::MapEntries { entries } => {
            proof {
                lemma_raw_entries_view_len(entries@);
            }
            if entries.len() != 1 {
                proof {
                    assert(diags_view(diags@) =~= diags_view(old(diags)@) + sd.1);
                }
                return Err(DecodeError::ShapeMismatch { subject: path.to_owned() });
            }
            let vn = &entries[0].0;
            let payload = &entries[0].1;
            match find_variant(variants, vn.as_str()) {
                None => {
                    proof {
                        assert(diags_view(diags@) =~= diags_view(old(diags)@) + sd.1);
                    }
                    Err(DecodeError::UnknownVariant { name: vn.clone() })
                },
                Some(VariantDef::UnitLike { name }) => {
                    proof {
                        assert(diags_view(diags@) =~= diags_view(old(diags)@) + sd.1);
                    }
                    Err(DecodeError::ShapeMismatch { subject: path.to_owned() })
                },
                Some(VariantDef::TupleLike { name, elems }) => match payload {
                    RawValue::ListItems { items } => {
                        proof {
                            lemma_raw_items_view_len(items@);
                        }
                        if items.len() == elems.len() {
                            let r = decode_positional_from(reg, path, elems, items, 0, ctx,
                                diags);
                            match r {
                                Ok(xs) => {
                                    let ghost xsv = crate::instance::inst_items_view(xs@);
                                    let inner = Instance::ListVal { items: xs };
                                    proof {
                                        assert(inner@ == InstV::ListVal { items: xsv });
                                    }
                                    let out = Instance::EnumVal {
                                        variant: vn.clone(),
                                        payload: Some(Box::new(inner)),
                                    };
                                    proof {
                                        assert(out@ matches InstV::EnumVal {
                                            variant: ov,
                                            payload: op,
                                        } && ov == vn@ && op == Some(
                                            Box::new(InstV::ListVal { items: xsv }),
                                        ));
                                        assert(sd.0 == Ok::<InstV, DecodeErrV>(out@));
                                    }
                                    Ok(out)
                                },
                                Err(e) => Err(e),
                            }
                        } else {
                            proof {
                                assert(diags_view(diags@) =~= diags_view(old(diags)@) + sd.1);
                            }
                            Err(DecodeError::WrongLength { subject: path.to_owned() })
                        }
                    },
                    _ => {
                        proof {
                            assert(diags_view(diags@) =~= diags_view(old(diags)@) + sd.1);
                        }
                        Err(DecodeError::ShapeMismatch { subject: path.to_owned() })
                    },
                },
                Some(VariantDef::StructLike { name, fields }) => match payload {
                    RawValue::MapEntries { entries: fes } => {
                        let r = decode_fields_from(reg, fields, fes, 0, ctx, diags);
                        match r {
                            Ok(fs) => {
                                let ghost fsv = crate::instance::inst_fields_view(fs@);
                                let inner = Instance::StructVal { fields: fs };
                                proof {
                                    assert(inner@ == InstV::StructVal { fields: fsv });
                                }
                                let out = Instance::EnumVal {
                                    variant: vn.clone(),
                                    payload: Some(Box::new(inner)),
                                };
                                proof {
                                    assert(out@ matches InstV::EnumVal {
                                        variant: ov,
                                        payload: op,
                                    } && ov == vn@ && op == Some(
                                        Box::new(InstV::StructVal { fields: fsv }),
                                    ));
                                    assert(sd.0 == Ok::<InstV, DecodeErrV>(out@));
                                }
                                Ok(out)
                            },
                            Err(e) => Err(e),
                        }
                    },
                    _ => {
                        proof {
                            assert(diags_view(diags@) =~= diags_view(old(diags)@) + sd.1);
                        }
                        Err(DecodeError::ShapeMismatch { subject: path.to_owned() })
                    },
                },
            }
        },
        _ => {
            proof {
                assert(diags_view(diags@) =~= diags_view(old(diags)@) + sd.1);
            }
            Err(DecodeError::ShapeMismatch { subject: path.to_owned() })
        },
    }
}

/// Decode a tuple or tuple-struct: positional items, exact length.
fn decode_tuple_like(
    reg: &TypeRegistry,
    path: &str,
    elems: &Vec<String>,
    raw: &RawValue,
    ctx: Option<&ResolutionContext>,
    diags: &mut Vec<Diagnostic>,
) -> (r: Result<Instance, DecodeError>)
    ensures
        diags_view(final(diags)@) == diags_view(old(diags)@) + spec_decode_tuple_like(
            reg@,
            path@,
            elems@.map_values(|e: String| e@),
            raw@,
            opt_ctx_view(ctx),
        ).1,
        match r {
            Ok(inst) => spec_decode_tuple_like(
                reg@,
                path@,
                elems@.map_values(|e: String| e@),
                raw@,
                opt_ctx_view(ctx),
            ).0 == Ok::<InstV, DecodeErrV>(inst@),
            Err(e) => spec_decode_tuple_like(
                reg@,
                path@,
                elems@.map_values(|e: String| e@),
                raw@,
                opt_ctx_view(ctx),
            ).0 == Err::<InstV, DecodeErrV>(e@),
        },
    decreases raw, 0nat,
{
    let ghost sd = spec_decode_tuple_like(
        reg@,
        path@,
        elems@.map_values(|e: String| e@),
        raw@,
        opt_ctx_view(ctx),
    );
    match raw {
        RawValue::ListItems { items } => {
            proof {
                lemma_raw_items_view_len(items@);
            }
            if items.len() == elems.len() {
                let r = decode_positional_from(reg, path, elems, items, 0, ctx, diags);
                match r {
                    Ok(xs) => Ok(Instance::ListVal { items: xs }),
                    Err(e) => Err(e),
                }
            } else {
                proof {
                    assert(diags_view(diags@) =~= diags_view(old(diags)@) + sd.1);
                }
                Err(DecodeError::WrongLength { subject: path.to_owned() })
            }
        },
        _ => {
            proof {
                assert(diags_view(diags@) =~= diags_view(old(diags)@) + sd.1);
            }
            Err(DecodeError::ShapeMismatch { subject: path.to_owned() })
        },
    }
}

/// Decode raw struct entries from index `i` on.
fn decode_fields_from(
    reg: &TypeRegistry,
    fields: &Vec<FieldDef>,
    es: &Vec<(String, RawValue)>,
    i: usize,
    ctx: Option<&ResolutionContext>,
    diags: &mut Vec<Diagnostic>,
) -> (r: Result<Vec<(String, Instance)>, DecodeError>)
    requires
        i <= es@.len(),
    ensures
        diags_view(final(diags)@) == diags_view(old(diags)@) + spec_decode_fields(
            reg@,
            fields@.map_values(|x: FieldDef| x@),
            raw_entries_view(es@),
            i as nat,
            opt_ctx_view(ctx),
        ).1,
        match r {
            Ok(v) => spec_decode_fields(
                reg@,
                fields@.map_values(|x: FieldDef| x@),
                raw_entries_view(es@),
                i as nat,
                opt_ctx_view(ctx),
            ).0 == Ok::<Seq<(Seq<char>, InstV)>, DecodeErrV>(inst_fields_view(v@)),
            Err(e) => spec_decode_fields(
                reg@,
                fields@.map_values(|x: FieldDef| x@),
                raw_entries_view(es@),
                i as nat,
                opt_ctx_view(ctx),
            ).0 == Err::<Seq<(Seq<char>, InstV)>, DecodeErrV>(e@),
        },
    decreases es, es@.len() - i,
{
    let ghost sd = spec_decode_fields(
        reg@,
        fields@.map_values(|x: FieldDef| x@),
        raw_entries_view(es@),
        i as nat,
        opt_ctx_view(ctx),
    );
    proof {
        lemma_raw_entries_view_len(es@);
    }
    if i >= es.len() {
        let out: Vec<(String, Instance)> = Vec::new();
        proof {
            assert(inst_fields_view(out@) =~= Seq::<(Seq<char>, InstV)>::empty());
            assert(diags_view(diags@) =~= diags_view(old(diags)@) + sd.1);
        }
        return Ok(out);
    }
    let k = &es[i].0;
    let v = &es[i].1;
    let f = match find_field(fields, k.as_str()) {
        Some(f) => f,
        None => {
            proof {
                assert(diags_view(diags@) =~= diags_view(old(diags)@) + sd.1);
            }
            return Err(DecodeError::UnknownField { name: k.clone() });
        },
    };
    let r0 = decode_value(reg, f.type_path.as_str(), v, ctx, diags);
    let inst = match r0 {
        Ok(inst) => inst,
        Err(e) => {
            proof {
                assert(diags_view(diags@) =~= diags_view(old(diags)@) + sd.1);
            }
            return Err(e);
        },
    };
    let ghost mid = diags@;
    let rr = decode_fields_from(reg, fields, es, i + 1, ctx, diags);
    match rr {
        Ok(mut rest) => {
            let ghost restv = rest@;
            let ghost instv = inst@;
            let ghost kv = k@;
            let mut out: Vec<(String, Instance)> = Vec::new();
            out.push((k.clone(), inst));
            out.append(&mut rest);
            proof {
                assert(out@ =~= seq![out@[0]].add(restv));
                assert(out@[0].0@ == kv);
                assert(crate::instance::inst_view(out@[0].1) == instv);
                assert(out@.subrange(1, out@.len() as int) =~= restv);
                assert(inst_fields_view(out@) =~= seq![(kv, instv)] + inst_fields_view(restv));
                assert(diags_view(diags@) =~= diags_view(old(diags)@) + sd.1);
            }
            Ok(out)
        },
        Err(e) => {
            proof {
                assert(diags_view(diags@) =~= diags_view(old(diags)@) + sd.1);
            }
            Err(e)
        },
    }
}

/// Decode positional items from index `i` on.
fn decode_positional_from(
    reg: &TypeRegistry,
    owner: &str,
    elems: &Vec<String>,
    items: &Vec<RawValue>,
    i: usize,
    ctx: Option<&ResolutionContext>,
    diags: &mut Vec<Diagnostic>,
) -> (r: Result<Vec<Instance>, DecodeError>)
    requires
        i <= items@.len(),
    ensures
        diags_view(final(diags)@) == diags_view(old(diags)@) + spec_decode_positional(
            reg@,
            owner@,
            elems@.map_values(|e: String| e@),
            raw_items_view(items@),
            i as nat,
            opt_ctx_view(ctx),
        ).1,
        match r {
            Ok(v) => spec_decode_positional(
                reg@,
                owner@,
                elems@.map_values(|e: String| e@),
                raw_items_view(items@),
                i as nat,
                opt_ctx_view(ctx),
            ).0 == Ok::<Seq<InstV>, DecodeErrV>(inst_items_view(v@)),
            Err(e) => spec_decode_positional(
                reg@,
                owner@,
                elems@.map_values(|e: String| e@),
                raw_items_view(items@),
                i as nat,
                opt_ctx_view(ctx),
            ).0 == Err::<Seq<InstV>, DecodeErrV>(e@),
        },
    decreases items, items@.len() - i,
{
    let ghost sd = spec_decode_positional(
        reg@,
        owner@,
        elems@.map_values(|e: String| e@),
        raw_items_view(items@),
        i as nat,
        opt_ctx_view(ctx),
    );
    proof {
        lemma_raw_items_view_len(items@);
    }
    if i >= items.len() {
        let out: Vec<Instance> = Vec::new();
        proof {
            assert(inst_items_view(out@) =~= Seq::<InstV>::empty());
            assert(diags_view(diags@) =~= diags_view(old(diags)@) + sd.1);
        }
        return Ok(out);
    }
    if i >= elems.len() {
        proof {
            assert(diags_view(diags@) =~= diags_view(old(diags)@) + sd.1);
        }
        return Err(DecodeError::WrongLength { subject: owner.to_owned() });
    }
    let r0 = decode_value(reg, elems[i].as_str(), &items[i], ctx, diags);
    let inst = match r0 {
        Ok(inst) => inst,
        Err(e) => {
            proof {
                assert(diags_view(diags@) =~= diags_view(old(diags)@) + sd.1);
            }
            return Err(e);
        },
    };
    let rr = decode_positional_from(reg, owner, elems, items, i + 1, ctx, diags);
    match rr {
        Ok(mut rest) => {
            let ghost restv = rest@;
            let ghost instv = inst@;
            let mut out: Vec<Instance> = Vec::new();
            out.push(inst);
            out.append(&mut rest);
            proof {
                assert(out@ =~= seq![out@[0]].add(restv));
                assert(crate::instance::inst_view(out@[0]) == instv);
                assert(out@.subrange(1, out@.len() as int) =~= restv);
                assert(inst_items_view(out@) =~= seq![instv] + inst_items_view(restv));
                assert(diags_view(diags@) =~= diags_view(old(diags)@) + sd.1);
            }
            Ok(out)
        },
        Err(e) => {
            proof {
                assert(diags_view(diags@) =~= diags_view(old(diags)@) + sd.1);
            }
            Err(e)
        },
    }
}

/// Decode homogeneous list items from index `i` on.
fn decode_items_from(
    reg: &TypeRegistry,
    item_path: &str,
    items: &Vec<RawValue>,
    i: usize,
    ctx: Option<&ResolutionContext>,
    diags: &mut Vec<Diagnostic>,
) -> (r: Result<Vec<Instance>, DecodeError>)
    requires
        i <= items@.len(),
    ensures
        diags_view(final(diags)@) == diags_view(old(diags)@) + spec_decode_items(
            reg@,
            item_path@,
            raw_items_view(items@),
            i as nat,
            opt_ctx_view(ctx),
        ).1,
        match r {
            Ok(v) => spec_decode_items(
                reg@,
                item_path@,
                raw_items_view(items@),
                i as nat,
                opt_ctx_view(ctx),
            ).0 == Ok::<Seq<InstV>, DecodeErrV>(inst_items_view(v@)),
            Err(e) => spec_decode_items(
                reg@,
                item_path@,
                raw_items_view(items@),
                i as nat,
                opt_ctx_view(ctx),
            ).0 == Err::<Seq<InstV>, DecodeErrV>(e@),
        },
    decreases items, items@.len() - i,
{
    let ghost sd = spec_decode_items(
        reg@,
        item_path@,
        raw_items_view(items@),
        i as nat,
        opt_ctx_view(ctx),
    );
    proof {
        lemma_raw_items_view_len(items@);
    }
    if i >= items.len() {
        let out: Vec<Instance> = Vec::new();
        proof {
            assert(inst_items_view(out@) =~= Seq::<InstV>::empty());
            assert(diags_view(diags@) =~= diags_view(old(diags)@) + sd.1);
        }
        return Ok(out);
    }
    let r0 = decode_value(reg, item_path, &items[i], ctx, diags);
    let inst = match r0 {
        Ok(inst) => inst,
        Err(e) => {
            proof {
                assert(diags_view(diags@) =~= diags_view(old(diags)@) + sd.1);
            }
            return Err(e);
        },
    };
    let rr = decode_items_from(reg, item_path, items, i + 1, ctx, diags);
    match rr {
        Ok(mut rest) => {
            let ghost restv = rest@;
            let ghost instv = inst@;
            let mut out: Vec<Instance> = Vec::new();
            out.push(inst);
            out.append(&mut rest);
            proof {
                assert(out@ =~= seq![out@[0]].add(restv));
                assert(crate::instance::inst_view(out@[0]) == instv);
                assert(out@.subrange(1, out@.len() as int) =~= restv);
                assert(inst_items_view(out@) =~= seq![instv] + inst_items_view(restv));
                assert(diags_view(diags@) =~= diags_view(old(diags)@) + sd.1);
            }
            Ok(out)
        },
        Err(e) => {
            proof {
                assert(diags_view(diags@) =~= diags_view(old(diags)@) + sd.1);
            }
            Err(e)
        },
    }
}

/// Decode map pairs from index `i` on.
fn decode_pairs_from(
    reg: &TypeRegistry,
    key_path: &str,
    val_path: &str,
    es: &Vec<(String, RawValue)>,
    i: usize,
    ctx: Option<&ResolutionContext>,
    diags: &mut Vec<Diagnostic>,
) -> (r: Result<Vec<(Instance, Instance)>, DecodeError>)
    requires
        i <= es@.len(),
    ensures
        diags_view(final(diags)@) == diags_view(old(diags)@) + spec_decode_pairs(
            reg@,
            key_path@,
            val_path@,
            raw_entries_view(es@),
            i as nat,
            opt_ctx_view(ctx),
        ).1,
        match r {
            Ok(v) => spec_decode_pairs(
                reg@,
                key_path@,
                val_path@,
                raw_entries_view(es@),
                i as nat,
                opt_ctx_view(ctx),
            ).0 == Ok::<Seq<(InstV, InstV)>, DecodeErrV>(inst_pairs_view(v@)),
            Err(e) => spec_decode_pairs(
                reg@,
                key_path@,
                val_path@,
                raw_entries_view(es@),
                i as nat,
                opt_ctx_view(ctx),
            ).0 == Err::<Seq<(InstV, InstV)>, DecodeErrV>(e@),
        },
    decreases es, es@.len() - i,
{
    let ghost sd = spec_decode_pairs(
        reg@,
        key_path@,
        val_path@,
        raw_entries_view(es@),
        i as nat,
        opt_ctx_view(ctx),
    );
    proof {
        lemma_raw_entries_view_len(es@);
    }
    if i >= es.len() {
        let out: Vec<(Instance, Instance)> = Vec::new();
        proof {
            assert(inst_pairs_view(out@) =~= Seq::<(InstV, InstV)>::empty());
            assert(diags_view(diags@) =~= diags_view(old(diags)@) + sd.1);
        }
        return Ok(out);
    }
    let ki = match decode_key(reg, key_path, &es[i].0) {
        Ok(ki) => ki,
        Err(e) => {
            proof {
                assert(diags_view(diags@) =~= diags_view(old(diags)@) + sd.1);
            }
            return Err(e);
        },
    };
    let r0 = decode_value(reg, val_path, &es[i].1, ctx, diags);
    let vi = match r0 {
        Ok(vi) => vi,
        Err(e) => {
            proof {
                assert(diags_view(diags@) =~= diags_view(old(diags)@) + sd.1);
            }
            return Err(e);
        },
    };
    let rr = decode_pairs_from(reg, key_path, val_path, es, i + 1, ctx, diags);
    match rr {
        Ok(mut rest) => {
            let ghost restv = rest@;
            let ghost kiv = ki@;
            let ghost viv = vi@;
            let mut out: Vec<(Instance, Instance)> = Vec::new();
            out.push((ki, vi));
            out.append(&mut rest);
            proof {
                assert(out@ =~= seq![out@[0]].add(restv));
                assert(crate::instance::inst_view(out@[0].0) == kiv);
                assert(crate::instance::inst_view(out@[0].1) == viv);
                assert(out@.subrange(1, out@.len() as int) =~= restv);
                assert(inst_pairs_view(out@) =~= seq![(kiv, viv)] + inst_pairs_view(restv));
                assert(diags_view(diags@) =~= diags_view(old(diags)@) + sd.1);
            }
            Ok(out)
        },
        Err(e) => {
            proof {
                assert(diags_view(diags@) =~= diags_view(old(diags)@) + sd.1);
            }
            Err(e)
        },
    }
}


} // verus!
