//! The structural vocabulary of registered types: a descriptor records a
//! type's canonical path, its display name, its shape and its capability
//! flags.

use vstd::prelude::*;
use vstd::string::StringExecFns;
use crate::text::spec_starts_with;
use crate::text::starts_with_str;

verus! {

/// One named field of a struct shape or of a struct-like enum variant. The
/// field counts as optional exactly when its type path names the standard
/// optional wrapper.
pub struct FieldDef {
    pub name: String,
    pub type_path: String,
}

/// Ghost mirror of `FieldDef`.
pub struct FieldDefV {
    pub name: Seq<char>,
    pub type_path: Seq<char>,
}

impl View for FieldDef {
    type V = FieldDefV;

    open spec fn view(&self) -> FieldDefV {
        FieldDefV { name: self.name@, type_path: self.type_path@ }
    }
}

/// One variant of an enum shape.
pub enum VariantDef {
    UnitLike { name: String },
    TupleLike { name: String, elems: Vec<String> },
    StructLike { name: String, fields: Vec<FieldDef> },
}

/// Ghost mirror of `VariantDef`.
pub enum VariantDefV {
    UnitLike { name: Seq<char> },
    TupleLike { name: Seq<char>, elems: Seq<Seq<char>> },
    StructLike { name: Seq<char>, fields: Seq<FieldDefV> },
}

impl View for VariantDef {
    type V = VariantDefV;

    open spec fn view(&self) -> VariantDefV {
        match self {
            VariantDef::UnitLike { name } => VariantDefV::UnitLike { name: name@ },
            VariantDef::TupleLike { name, elems } => VariantDefV::TupleLike {
                name: name@,
                elems: elems@.map_values(|e: String| e@),
            },
            VariantDef::StructLike { name, fields } => VariantDefV::StructLike {
                name: name@,
                fields: fields@.map_values(|f: FieldDef| f@),
            },
        }
    }
}

/// The closed set of structural kinds a registered type can have. Type
/// references are canonical paths into the registry. `EntityRef` is the
/// dedicated reference kind of the value language: a value of it names
/// another node of the same graph instantiation.
pub enum Shape {
    StructShape { fields: Vec<FieldDef> },
    EnumShape { variants: Vec<VariantDef> },
    TupleStructShape { elems: Vec<String> },
    ListShape { item: String },
    ArrayShape { item: String, len: usize },
    MapShape { key: String, value: String },
    TupleShape { elems: Vec<String> },
    OpaqueShape { primitive: String },
    EntityRefShape,
}

/// Ghost mirror of `Shape`.
pub enum ShapeV {
    StructShape { fields: Seq<FieldDefV> },
    EnumShape { variants: Seq<VariantDefV> },
    TupleStructShape { elems: Seq<Seq<char>> },
    ListShape { item: Seq<char> },
    ArrayShape { item: Seq<char>, len: nat },
    MapShape { key: Seq<char>, value: Seq<char> },
    TupleShape { elems: Seq<Seq<char>> },
    OpaqueShape { primitive: Seq<char> },
    EntityRefShape,
}

impl View for Shape {
    type V = ShapeV;

    open spec fn view(&self) -> ShapeV {
        match self {
            Shape::StructShape { fields } => ShapeV::StructShape {
                fields: fields@.map_values(|f: FieldDef| f@),
            },
            Shape::EnumShape { variants } => ShapeV::EnumShape {
                variants: variants@.map_values(|v: VariantDef| v@),
            },
            Shape::TupleStructShape { elems } => ShapeV::TupleStructShape {
                elems: elems@.map_values(|e: String| e@),
            },
            Shape::ListShape { item } => ShapeV::ListShape { item: item@ },
            Shape::ArrayShape { item, len } => ShapeV::ArrayShape {
                item: item@,
                len: *len as nat,
            },
            Shape::MapShape { key, value } => ShapeV::MapShape { key: key@, value: value@ },
            Shape::TupleShape { elems } => ShapeV::TupleShape {
                elems: elems@.map_values(|e: String| e@),
            },
            Shape::OpaqueShape { primitive } => ShapeV::OpaqueShape { primitive: primitive@ },
            Shape::EntityRefShape => ShapeV::EntityRefShape,
        }
    }
}

/// Descriptor of one registered type. The canonical path is the only stable
/// identifier; the short name is derived and may collide across namespaces.
pub struct TypeDescriptor {
    pub canonical_path: String,
    pub short_name: String,
    pub shape: Shape,
    pub is_component: bool,
    pub is_resource: bool,
}

/// Ghost mirror of `TypeDescriptor`.
pub struct TypeDescV {
    pub canonical_path: Seq<char>,
    pub short_name: Seq<char>,
    pub shape: ShapeV,
    pub is_component: bool,
    pub is_resource: bool,
}

impl View for TypeDescriptor {
    type V = TypeDescV;

    open spec fn view(&self) -> TypeDescV {
        TypeDescV {
            canonical_path: self.canonical_path@,
            short_name: self.short_name@,
            shape: self.shape@,
            is_component: self.is_component,
            is_resource: self.is_resource,
        }
    }
}

/// A field is optional when its declared type is the optional wrapper.
pub open spec fn spec_is_optional_path(p: Seq<char>) -> bool {
    spec_starts_with(p, "core::option::Option"@)
}

pub fn is_optional_path(p: &str) -> (r: bool)
    ensures
        r == spec_is_optional_path(p@),
{
    starts_with_str(p, "core::option::Option")
}

fn clone_string_vec(v: &Vec<String>) -> (r: Vec<String>)
    ensures
        r@.map_values(|e: String| e@) == v@.map_values(|e: String| e@),
{
    let mut out: Vec<String> = Vec::new();
    let mut i: usize = 0;
    while i < v.len()
        invariant
            i <= v@.len(),
            out@.len() == i as nat,
            forall|j: int| 0 <= j < i ==> out@[j]@ == v@[j]@,
        decreases v@.len() - i,
    {
        out.push(v[i].clone());
        i = i + 1;
    }
    proof {
        assert(out@.map_values(|e: String| e@) =~= v@.map_values(|e: String| e@));
    }
    out
}

fn clone_field(f: &FieldDef) -> (r: FieldDef)
    ensures
        r@ == f@,
{
    FieldDef { name: f.name.clone(), type_path: f.type_path.clone() }
}

fn clone_fields(v: &Vec<FieldDef>) -> (r: Vec<FieldDef>)
    ensures
        r@.map_values(|f: FieldDef| f@) == v@.map_values(|f: FieldDef| f@),
{
    let mut out: Vec<FieldDef> = Vec::new();
    let mut i: usize = 0;
    while i < v.len()
        invariant
            i <= v@.len(),
            out@.len() == i as nat,
            forall|j: int| 0 <= j < i ==> out@[j]@ == v@[j]@,
        decreases v@.len() - i,
    {
        out.push(clone_field(&v[i]));
        i = i + 1;
    }
    proof {
        assert(out@.map_values(|f: FieldDef| f@) =~= v@.map_values(|f: FieldDef| f@));
    }
    out
}

fn clone_variant(v: &VariantDef) -> (r: VariantDef)
    ensures
        r@ == v@,
{
    match v {
        VariantDef::UnitLike { name } => VariantDef::UnitLike { name: name.clone() },
        VariantDef::TupleLike { name, elems } => VariantDef::TupleLike {
            name: name.clone(),
            elems: clone_string_vec(elems),
        },
        VariantDef::StructLike { name, fields } => VariantDef::StructLike {
            name: name.clone(),
            fields: clone_fields(fields),
        },
    }
}

fn clone_variants(v: &Vec<VariantDef>) -> (r: Vec<VariantDef>)
    ensures
        r@.map_values(|x: VariantDef| x@) == v@.map_values(|x: VariantDef| x@),
{
    let mut out: Vec<VariantDef> = Vec::new();
    let mut i: usize = 0;
    while i < v.len()
        invariant
            i <= v@.len(),
            out@.len() == i as nat,
            forall|j: int| 0 <= j < i ==> out@[j]@ == v@[j]@,
        decreases v@.len() - i,
    {
        out.push(clone_variant(&v[i]));
        i = i + 1;
    }
    proof {
        assert(out@.map_values(|x: VariantDef| x@) =~= v@.map_values(|x: VariantDef| x@));
    }
    out
}

pub fn clone_shape(s: &Shape) -> (r: Shape)
    ensures
        r@ == s@,
{
    match s {
        Shape::StructShape { fields } => Shape::StructShape { fields: clone_fields(fields) },
        Shape::EnumShape { variants } => Shape::EnumShape { variants: clone_variants(variants) },
        Shape::TupleStructShape { elems } => Shape::TupleStructShape {
            elems: clone_string_vec(elems),
        },
        Shape::ListShape { item } => Shape::ListShape { item: item.clone() },
        Shape::ArrayShape { item, len } => Shape::ArrayShape { item: item.clone(), len: *len },
        Shape::MapShape { key, value } => Shape::MapShape {
            key: key.clone(),
            value: value.clone(),
        },
        Shape::TupleShape { elems } => Shape::TupleShape { elems: clone_string_vec(elems) },
        Shape::OpaqueShape { primitive } => Shape::OpaqueShape { primitive: primitive.clone() },
        Shape::EntityRefShape => Shape::EntityRefShape,
    }
}

pub fn clone_descriptor(d: &TypeDescriptor) -> (r: TypeDescriptor)
    ensures
        r@ == d@,
{
    TypeDescriptor {
        canonical_path: d.canonical_path.clone(),
        short_name: d.short_name.clone(),
        shape: clone_shape(&d.shape),
        is_component: d.is_component,
        is_resource: d.is_resource,
    }
}

} // verus!
