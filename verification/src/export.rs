//! The schema exporter: walks the type registry once and renders one schema
//! fragment per exported entry, keyed by canonical path, into a single
//! deterministic document. Exporting twice from an unchanged registry yields
//! byte-identical output, because the registry iterates in registration
//! order and rendering is a pure function of the tree.

use vstd::prelude::*;
use vstd::string::StringExecFns;
use crate::decode::is_bool_prim;
use crate::decode::is_char_prim;
use crate::decode::is_float_prim;
use crate::decode::is_int_prim;
use crate::decode::is_string_prim;
use crate::decode::is_uint_prim;
use crate::json::Json;
use crate::json::JsonV;
use crate::json::json_entries_view;
use crate::json::json_items_view;
use crate::json::json_to_pretty_string;
use crate::json::lemma_json_entries_view_len;
use crate::json::lemma_json_entries_view_push;
use crate::json::lemma_json_items_view_push;
use crate::json::sp_render;
use crate::shape::FieldDef;
use crate::shape::FieldDefV;
use crate::shape::Shape;
use crate::shape::ShapeV;
use crate::shape::TypeDescV;
use crate::shape::TypeDescriptor;
use crate::shape::VariantDef;
use crate::shape::VariantDefV;
use crate::shape::is_optional_path;
use crate::shape::spec_is_optional_path;
use crate::registry::TypeRegistry;
use crate::text::str_eq;

verus! {

/// The allow/deny filter restricting which registry entries are exported or
/// injected.
pub enum TypeFilter {
    Unset,
    Allowlist { paths: Vec<String> },
    Denylist { paths: Vec<String> },
}

/// Ghost mirror of `TypeFilter`.
pub enum FilterV {
    Unset,
    Allowlist { paths: Seq<Seq<char>> },
    Denylist { paths: Seq<Seq<char>> },
}

impl View for TypeFilter {
    type V = FilterV;

    open spec fn view(&self) -> FilterV {
        match self {
            TypeFilter::Unset => FilterV::Unset,
            TypeFilter::Allowlist { paths } => FilterV::Allowlist {
                paths: paths@.map_values(|p: String| p@),
            },
            TypeFilter::Denylist { paths } => FilterV::Denylist {
                paths: paths@.map_values(|p: String| p@),
            },
        }
    }
}

pub open spec fn spec_list_has(paths: Seq<Seq<char>>, p: Seq<char>) -> bool {
    exists|i: int| 0 <= i < paths.len() && paths[i] == p
}

/// What the filter allows: everything when unset, listed paths for an
/// allowlist, everything but listed paths for a denylist.
pub open spec fn spec_allowed(f: FilterV, p: Seq<char>) -> bool {
    match f {
        FilterV::Unset => true,
        FilterV::Allowlist { paths } => spec_list_has(paths, p),
        FilterV::Denylist { paths } => !spec_list_has(paths, p),
    }
}

fn list_has(paths: &Vec<String>, p: &str) -> (r: bool)
    ensures
        r == spec_list_has(paths@.map_values(|x: String| x@), p@),
{
    let ghost pv = paths@.map_values(|x: String| x@);
    let n = paths.len();
    let mut i: usize = 0;
    while i < n
        invariant
            n as nat == paths@.len(),
            pv == paths@.map_values(|x: String| x@),
            i <= n,
            forall|j: int| 0 <= j < i ==> pv[j] != p@,
        decreases n - i,
    {
        if str_eq(paths[i].as_str(), p) {
            proof {
                assert(pv[i as int] == p@);
            }
            return true;
        }
        i = i + 1;
    }
    false
}

impl TypeFilter {
    pub fn is_allowed(&self, p: &str) -> (r: bool)
        ensures
            r == spec_allowed(self@, p@),
    {
        match self {
            TypeFilter::Unset => true,
            TypeFilter::Allowlist { paths } => list_has(paths, p),
            TypeFilter::Denylist { paths } => !list_has(paths, p),
        }
    }
}

/// The configuration the host hands the exporter and the injection passes.
pub struct SparrowConfig {
    /// Where the schema document is written, relative to the asset folder.
    pub save_path: String,
    /// Which registry entries are exported.
    pub component_filter: TypeFilter,
    /// Substrings suppressing the unregistered-type diagnostic.
    pub ignore: Vec<String>,
}

impl Default for SparrowConfig {
    fn default() -> (r: SparrowConfig)
        ensures
            r.save_path@ == "../registry.json"@,
            r.component_filter@ is Unset,
            r.ignore@.len() == 0,
    {
        SparrowConfig {
            save_path: "../registry.json".to_owned(),
            component_filter: TypeFilter::Unset,
            ignore: Vec::new(),
        }
    }
}

/// The asset folder the save path is resolved against.
pub struct AssetRoot(pub String);

/// A `$ref` leaf pointing at another type's fragment.
pub open spec fn spec_typ_ref(t: Seq<char>) -> JsonV {
    JsonV::JObj { entries: seq![("$ref"@, JsonV::JStr { value: "#/$defs/"@ + t })] }
}

/// Build a `$ref` leaf for a type path.
pub fn typ(t: &str) -> (r: Json)
    ensures
        r@ == spec_typ_ref(t@),
{
    let mut s = "#/$defs/".to_owned();
    s.append(t);
    let entries: Vec<(String, Json)> = vec![("$ref".to_owned(), Json::JStr { value: s })];
    proof {
        lemma_json_entries_view_len(entries@);
        assert(json_entries_view(entries@) =~= spec_typ_ref(t@)->JObj_entries);
    }
    Json::JObj { entries }
}

/// The fixed primitive-name table: opaque primitives map to one of the
/// schema's scalar kinds, everything else to `object`.
pub open spec fn spec_map_json_type(t: Seq<char>) -> Seq<char> {
    if is_bool_prim(t) {
        "boolean"@
    } else if is_uint_prim(t) {
        "uint"@
    } else if is_int_prim(t) {
        "int"@
    } else if is_float_prim(t) {
        "float"@
    } else if is_char_prim(t) || is_string_prim(t) {
        "string"@
    } else {
        "object"@
    }
}

pub fn map_json_type(t: &str) -> (r: String)
    ensures
        r@ == spec_map_json_type(t@),
{
    if str_eq(t, "bool") {
        "boolean".to_owned()
    } else if str_eq(t, "u8") || str_eq(t, "u16") || str_eq(t, "u32") || str_eq(t, "u64")
        || str_eq(t, "u128") || str_eq(t, "usize") {
        "uint".to_owned()
    } else if str_eq(t, "i8") || str_eq(t, "i16") || str_eq(t, "i32") || str_eq(t, "i64")
        || str_eq(t, "i128") || str_eq(t, "isize") {
        "int".to_owned()
    } else if str_eq(t, "f32") || str_eq(t, "f64") {
        "float".to_owned()
    } else if str_eq(t, "char") || str_eq(t, "str") || str_eq(t, "alloc::string::String") {
        "string".to_owned()
    } else {
        "object".to_owned()
    }
}

/// Property entries for the first `i` fields; each property is a `$ref`
/// leaf, with the field name repeated under `long_name` inside variant
/// payloads.
pub open spec fn spec_prop_entries(fields: Seq<FieldDefV>, i: nat, with_long: bool) -> Seq<
    (Seq<char>, JsonV),
>
    decreases i,
{
    if i == 0 || i > fields.len() {
        Seq::empty()
    } else {
        let f = fields[i - 1];
        let inner: Seq<(Seq<char>, JsonV)> = if with_long {
            seq![("type"@, spec_typ_ref(f.type_path)), ("long_name"@, JsonV::JStr { value: f.name })]
        } else {
            seq![("type"@, spec_typ_ref(f.type_path))]
        };
        spec_prop_entries(fields, (i - 1) as nat, with_long).push(
            (f.name, JsonV::JObj { entries: inner }),
        )
    }
}

/// The names of the first `i` fields whose type is not the optional
/// wrapper: these are the required properties.
pub open spec fn spec_required_items(fields: Seq<FieldDefV>, i: nat) -> Seq<JsonV>
    decreases i,
{
    if i == 0 || i > fields.len() {
        Seq::empty()
    } else {
        let f = fields[i - 1];
        let rest = spec_required_items(fields, (i - 1) as nat);
        if spec_is_optional_path(f.type_path) {
            rest
        } else {
            rest.push(JsonV::JStr { value: f.name })
        }
    }
}

/// Positional `$ref` leaves for the first `i` element types.
pub open spec fn spec_prefix_items(elems: Seq<Seq<char>>, i: nat) -> Seq<JsonV>
    decreases i,
{
    if i == 0 || i > elems.len() {
        Seq::empty()
    } else {
        spec_prefix_items(elems, (i - 1) as nat).push(
            JsonV::JObj { entries: seq![("type"@, spec_typ_ref(elems[i - 1]))] },
        )
    }
}

pub open spec fn spec_variant_is_unit(v: VariantDefV) -> bool {
    v is UnitLike
}

/// A simple enum has only unit variants and exports as a string schema.
pub open spec fn spec_all_unit(variants: Seq<VariantDefV>) -> bool {
    forall|i: int| 0 <= i < variants.len() ==> spec_variant_is_unit(#[trigger] variants[i])
}

/// The names of the first `i` variants, for a simple enum's allowed values.
pub open spec fn spec_unit_names(variants: Seq<VariantDefV>, i: nat) -> Seq<JsonV>
    decreases i,
{
    if i == 0 || i > variants.len() {
        Seq::empty()
    } else {
        spec_unit_names(variants, (i - 1) as nat).push(
            JsonV::JStr { value: crate::decode::variant_name(variants[i - 1]) },
        )
    }
}

/// One data variant's sub-schema, shaped by the variant's own kind.
pub open spec fn spec_variant_schema(v: VariantDefV) -> JsonV {
    match v {
        VariantDefV::UnitLike { name } => JsonV::JObj {
            entries: seq![("long_name"@, JsonV::JStr { value: name })],
        },
        VariantDefV::TupleLike { name, elems } => JsonV::JObj {
            entries: seq![
                ("type"@, JsonV::JStr { value: "array"@ }),
                ("type_info"@, JsonV::JStr { value: "Tuple"@ }),
                ("long_name"@, JsonV::JStr { value: name }),
                ("short_name"@, JsonV::JStr { value: name }),
                ("prefix_items"@, JsonV::JArr { items: spec_prefix_items(elems, elems.len()) }),
                ("items"@, JsonV::JArr { items: Seq::empty() }),
            ],
        },
        VariantDefV::StructLike { name, fields } => JsonV::JObj {
            entries: seq![
                ("type"@, JsonV::JStr { value: "object"@ }),
                ("type_info"@, JsonV::JStr { value: "Struct"@ }),
                ("long_name"@, JsonV::JStr { value: name }),
                ("short_name"@, JsonV::JStr { value: name }),
                (
                    "properties"@,
                    JsonV::JObj { entries: spec_prop_entries(fields, fields.len(), true) },
                ),
                ("additional_properties"@, JsonV::JBool { value: false }),
                ("required"@, JsonV::JArr { items: spec_required_items(fields, fields.len()) }),
            ],
        },
    }
}

/// The sub-schemas of the first `i` variants of a data enum.
pub open spec fn spec_variant_items(variants: Seq<VariantDefV>, i: nat) -> Seq<JsonV>
    decreases i,
{
    if i == 0 || i > variants.len() {
        Seq::empty()
    } else {
        spec_variant_items(variants, (i - 1) as nat).push(spec_variant_schema(variants[i - 1]))
    }
}

/// The shape-specific part of one type's schema fragment.
pub open spec fn spec_shape_entries(d: TypeDescV) -> Seq<(Seq<char>, JsonV)> {
    match d.shape {
        ShapeV::StructShape { fields } => seq![
            ("type"@, JsonV::JStr { value: "object"@ }),
            ("type_info"@, JsonV::JStr { value: "Struct"@ }),
            ("long_name"@, JsonV::JStr { value: d.canonical_path }),
            (
                "properties"@,
                JsonV::JObj { entries: spec_prop_entries(fields, fields.len(), false) },
            ),
            ("additional_properties"@, JsonV::JBool { value: false }),
            ("required"@, JsonV::JArr { items: spec_required_items(fields, fields.len()) }),
        ],
        ShapeV::EnumShape { variants } => if spec_all_unit(variants) {
            seq![
                ("type"@, JsonV::JStr { value: "string"@ }),
                ("type_info"@, JsonV::JStr { value: "Enum"@ }),
                ("long_name"@, JsonV::JStr { value: d.canonical_path }),
                ("one_of"@, JsonV::JArr { items: spec_unit_names(variants, variants.len()) }),
            ]
        } else {
            seq![
                ("type"@, JsonV::JStr { value: "object"@ }),
                ("type_info"@, JsonV::JStr { value: "Enum"@ }),
                ("long_name"@, JsonV::JStr { value: d.canonical_path }),
                ("one_of"@, JsonV::JArr { items: spec_variant_items(variants, variants.len()) }),
            ]
        },
        ShapeV::TupleStructShape { elems } => seq![
            ("long_name"@, JsonV::JStr { value: d.canonical_path }),
            ("type"@, JsonV::JStr { value: "array"@ }),
            ("type_info"@, JsonV::JStr { value: "TupleStruct"@ }),
            ("prefix_items"@, JsonV::JArr { items: spec_prefix_items(elems, elems.len()) }),
            ("items"@, JsonV::JArr { items: Seq::empty() }),
        ],
        ShapeV::ListShape { item } => seq![
            ("long_name"@, JsonV::JStr { value: d.canonical_path }),
            ("type"@, JsonV::JStr { value: "array"@ }),
            ("type_info"@, JsonV::JStr { value: "List"@ }),
            ("items"@, JsonV::JObj { entries: seq![("type"@, spec_typ_ref(item))] }),
        ],
        ShapeV::ArrayShape { item, len } => seq![
            ("long_name"@, JsonV::JStr { value: d.canonical_path }),
            ("type"@, JsonV::JStr { value: "array"@ }),
            ("type_info"@, JsonV::JStr { value: "Array"@ }),
            ("items"@, JsonV::JObj { entries: seq![("type"@, spec_typ_ref(item))] }),
        ],
        ShapeV::MapShape { key, value } => seq![
            ("long_name"@, JsonV::JStr { value: d.canonical_path }),
            ("type"@, JsonV::JStr { value: "object"@ }),
            ("type_info"@, JsonV::JStr { value: "Map"@ }),
            ("value_type"@, JsonV::JObj { entries: seq![("type"@, spec_typ_ref(value))] }),
            ("key_type"@, JsonV::JObj { entries: seq![("type"@, spec_typ_ref(key))] }),
        ],
        ShapeV::TupleShape { elems } => seq![
            ("long_name"@, JsonV::JStr { value: d.canonical_path }),
            ("type"@, JsonV::JStr { value: "array"@ }),
            ("type_info"@, JsonV::JStr { value: "Tuple"@ }),
            ("prefix_items"@, JsonV::JArr { items: spec_prefix_items(elems, elems.len()) }),
            ("items"@, JsonV::JArr { items: Seq::empty() }),
        ],
        ShapeV::OpaqueShape { primitive } => seq![
            ("long_name"@, JsonV::JStr { value: d.canonical_path }),
            ("type"@, JsonV::JStr { value: spec_map_json_type(primitive) }),
            ("type_info"@, JsonV::JStr { value: "Value"@ }),
        ],
        ShapeV::EntityRefShape => seq![
            ("long_name"@, JsonV::JStr { value: d.canonical_path }),
            ("type"@, JsonV::JStr { value: "object"@ }),
            ("type_info"@, JsonV::JStr { value: "Value"@ }),
        ],
    }
}

/// One type's whole schema fragment: the shape-specific entries followed by
/// the capability flags and the derived display name.
pub open spec fn spec_export_type(d: TypeDescV) -> JsonV {
    JsonV::JObj {
        entries: spec_shape_entries(d) + seq![
            ("is_component"@, JsonV::JBool { value: d.is_component }),
            ("is_resource"@, JsonV::JBool { value: d.is_resource }),
            ("short_name"@, JsonV::JStr { value: d.short_name }),
        ],
    }
}

fn build_prop_entries(fields: &Vec<FieldDef>, with_long: bool) -> (r: Vec<(String, Json)>)
    ensures
        json_entries_view(r@) == spec_prop_entries(
            fields@.map_values(|f: FieldDef| f@),
            fields@.len(),
            with_long,
        ),
{
    let ghost fv = fields@.map_values(|f: FieldDef| f@);
    let n = fields.len();
    let mut out: Vec<(String, Json)> = Vec::new();
    let mut i: usize = 0;
    proof {
        lemma_json_entries_view_len(out@);
        assert(json_entries_view(out@) =~= spec_prop_entries(fv, 0, with_long));
    }
    while i < n
        invariant
            n as nat == fields@.len(),
            fv == fields@.map_values(|f: FieldDef| f@),
            i <= n,
            json_entries_view(out@) == spec_prop_entries(fv, i as nat, with_long),
        decreases n - i,
    {
        let f = &fields[i];
        let inner: Vec<(String, Json)> = if with_long {
            vec![
                ("type".to_owned(), typ(f.type_path.as_str())),
                ("long_name".to_owned(), Json::JStr { value: f.name.clone() }),
            ]
        } else {
            vec![("type".to_owned(), typ(f.type_path.as_str()))]
        };
        let ghost innerv = json_entries_view(inner@);
        proof {
            lemma_json_entries_view_len(inner@);
            if with_long {
                assert(innerv =~= seq![
                    ("type"@, spec_typ_ref(fv[i as int].type_path)),
                    ("long_name"@, JsonV::JStr { value: fv[i as int].name }),
                ]);
            } else {
                assert(innerv =~= seq![("type"@, spec_typ_ref(fv[i as int].type_path))]);
            }
        }
        let ghost outv = json_entries_view(out@);
        let ghost oldout = out@;
        out.push((f.name.clone(), Json::JObj { entries: inner }));
        proof {
            lemma_json_entries_view_push(oldout, out@[out@.len() - 1]);
            assert(json_entries_view(out@) =~= outv.push(
                (fv[i as int].name, JsonV::JObj { entries: innerv }),
            ));
        }
        i = i + 1;
    }
    out
}

fn build_required_items(fields: &Vec<FieldDef>) -> (r: Vec<Json>)
    ensures
        json_items_view(r@) == spec_required_items(
            fields@.map_values(|f: FieldDef| f@),
            fields@.len(),
        ),
{
    let ghost fv = fields@.map_values(|f: FieldDef| f@);
    let n = fields.len();
    let mut out: Vec<Json> = Vec::new();
    let mut i: usize = 0;
    proof {
        assert(json_items_view(out@) =~= spec_required_items(fv, 0));
    }
    while i < n
        invariant
            n as nat == fields@.len(),
            fv == fields@.map_values(|f: FieldDef| f@),
            i <= n,
            json_items_view(out@) == spec_required_items(fv, i as nat),
        decreases n - i,
    {
        let f = &fields[i];
        if !is_optional_path(f.type_path.as_str()) {
            let ghost outv = json_items_view(out@);
            let ghost oldout = out@;
            out.push(Json::JStr { value: f.name.clone() });
            proof {
                lemma_json_items_view_push(oldout, out@[out@.len() - 1]);
                assert(json_items_view(out@) =~= outv.push(
                    JsonV::JStr { value: fv[i as int].name },
                ));
            }
        }
        i = i + 1;
    }
    out
}

fn build_prefix_items(elems: &Vec<String>) -> (r: Vec<Json>)
    ensures
        json_items_view(r@) == spec_prefix_items(
            elems@.map_values(|e: String| e@),
            elems@.len(),
        ),
{
    let ghost ev = elems@.map_values(|e: String| e@);
    let n = elems.len();
    let mut out: Vec<Json> = Vec::new();
    let mut i: usize = 0;
    proof {
        assert(json_items_view(out@) =~= spec_prefix_items(ev, 0));
    }
    while i < n
        invariant
            n as nat == elems@.len(),
            ev == elems@.map_values(|e: String| e@),
            i <= n,
            json_items_view(out@) == spec_prefix_items(ev, i as nat),
        decreases n - i,
    {
        let inner: Vec<(String, Json)> = vec![("type".to_owned(), typ(elems[i].as_str()))];
        let ghost innerv = json_entries_view(inner@);
        proof {
            lemma_json_entries_view_len(inner@);
            assert(innerv =~= seq![("type"@, spec_typ_ref(ev[i as int]))]);
        }
        let ghost outv = json_items_view(out@);
        let ghost oldout = out@;
        out.push(Json::JObj { entries: inner });
        proof {
            lemma_json_items_view_push(oldout, out@[out@.len() - 1]);
            assert(json_items_view(out@) =~= outv.push(JsonV::JObj { entries: innerv }));
        }
        i = i + 1;
    }
    out
}

fn all_unit_variants(variants: &Vec<VariantDef>) -> (r: bool)
    ensures
        r == spec_all_unit(variants@.map_values(|v: VariantDef| v@)),
{
    let ghost vv = variants@.map_values(|v: VariantDef| v@);
    let n = variants.len();
    let mut i: usize = 0;
    while i < n
        invariant
            n as nat == variants@.len(),
            vv == variants@.map_values(|v: VariantDef| v@),
            i <= n,
            forall|j: int| 0 <= j < i ==> spec_variant_is_unit(#[trigger] vv[j]),
        decreases n - i,
    {
        match &variants[i] {
            VariantDef::UnitLike { .. } => {},
            _ => {
                proof {
                    assert(!spec_variant_is_unit(vv[i as int]));
                }
                return false;
            },
        }
        i = i + 1;
    }
    true
}

fn build_unit_names(variants: &Vec<VariantDef>) -> (r: Vec<Json>)
    ensures
        json_items_view(r@) == spec_unit_names(
            variants@.map_values(|v: VariantDef| v@),
            variants@.len(),
        ),
{
    let ghost vv = variants@.map_values(|v: VariantDef| v@);
    let n = variants.len();
    let mut out: Vec<Json> = Vec::new();
    let mut i: usize = 0;
    proof {
        assert(json_items_view(out@) =~= spec_unit_names(vv, 0));
    }
    while i < n
        invariant
            n as nat == variants@.len(),
            vv == variants@.map_values(|v: VariantDef| v@),
            i <= n,
            json_items_view(out@) == spec_unit_names(vv, i as nat),
        decreases n - i,
    {
        let name: &String = match &variants[i] {
            VariantDef::UnitLike { name } => name,
            VariantDef::TupleLike { name, .. } => name,
            VariantDef::StructLike { name, .. } => name,
        };
        let ghost outv = json_items_view(out@);
        let ghost oldout = out@;
        out.push(Json::JStr { value: name.clone() });
        proof {
            lemma_json_items_view_push(oldout, out@[out@.len() - 1]);
            assert(json_items_view(out@) =~= outv.push(
                JsonV::JStr { value: crate::decode::variant_name(vv[i as int]) },
            ));
        }
        i = i + 1;
    }
    out
}

fn build_variant_schema(v: &VariantDef) -> (r: Json)
    ensures
        r@ == spec_variant_schema(v@),
{
    match v {
        VariantDef::UnitLike { name } => {
            let entries: Vec<(String, Json)> = vec![
                ("long_name".to_owned(), Json::JStr { value: name.clone() }),
            ];
            let ghost ev = json_entries_view(entries@);
            proof {
                lemma_json_entries_view_len(entries@);
                assert(ev =~= seq![("long_name"@, JsonV::JStr { value: name@ })]);
            }
            Json::JObj { entries }
        },
        VariantDef::TupleLike { name, elems } => {
            let prefix = build_prefix_items(elems);
            let empty_items: Vec<Json> = Vec::new();
            proof {
                assert(json_items_view(empty_items@) =~= Seq::<JsonV>::empty());
            }
            let entries: Vec<(String, Json)> = vec![
                ("type".to_owned(), Json::JStr { value: "array".to_owned() }),
                ("type_info".to_owned(), Json::JStr { value: "Tuple".to_owned() }),
                ("long_name".to_owned(), Json::JStr { value: name.clone() }),
                ("short_name".to_owned(), Json::JStr { value: name.clone() }),
                ("prefix_items".to_owned(), Json::JArr { items: prefix }),
                ("items".to_owned(), Json::JArr { items: empty_items }),
            ];
            proof {
                lemma_json_entries_view_len(entries@);
                assert(json_entries_view(entries@) =~= spec_variant_schema(v@)->JObj_entries);
            }
            Json::JObj { entries }
        },
        VariantDef::StructLike { name, fields } => {
            let props = build_prop_entries(fields, true);
            let req = build_required_items(fields);
            let entries: Vec<(String, Json)> = vec![
                ("type".to_owned(), Json::JStr { value: "object".to_owned() }),
                ("type_info".to_owned(), Json::JStr { value: "Struct".to_owned() }),
                ("long_name".to_owned(), Json::JStr { value: name.clone() }),
                ("short_name".to_owned(), Json::JStr { value: name.clone() }),
                ("properties".to_owned(), Json::JObj { entries: props }),
                ("additional_properties".to_owned(), Json::JBool { value: false }),
                ("required".to_owned(), Json::JArr { items: req }),
            ];
            proof {
                lemma_json_entries_view_len(entries@);
                assert(json_entries_view(entries@) =~= spec_variant_schema(v@)->JObj_entries);
            }
            Json::JObj { entries }
        },
    }
}

fn build_variant_items(variants: &Vec<VariantDef>) -> (r: Vec<Json>)
    ensures
        json_items_view(r@) == spec_variant_items(
            variants@.map_values(|v: VariantDef| v@),
            variants@.len(),
        ),
{
    let ghost vv = variants@.map_values(|v: VariantDef| v@);
    let n = variants.len();
    let mut out: Vec<Json> = Vec::new();
    let mut i: usize = 0;
    proof {
        assert(json_items_view(out@) =~= spec_variant_items(vv, 0));
    }
    while i < n
        invariant
            n as nat == variants@.len(),
            vv == variants@.map_values(|v: VariantDef| v@),
            i <= n,
            json_items_view(out@) == spec_variant_items(vv, i as nat),
        decreases n - i,
    {
        let vs = build_variant_schema(&variants[i]);
        let ghost vsv = vs@;
        let ghost outv = json_items_view(out@);
        let ghost oldout = out@;
        out.push(vs);
        proof {
            lemma_json_items_view_push(oldout, out@[out@.len() - 1]);
            assert(json_items_view(out@) =~= outv.push(vsv));
        }
        i = i + 1;
    }
    out
}

/// One registry entry's schema fragment, keyed by its canonical path.
pub fn export_type(reg: &TypeDescriptor) -> (r: (String, Json))
    ensures
        r.0@ == reg@.canonical_path,
        r.1@ == spec_export_type(reg@),
{
    let entries: Vec<(String, Json)> = match &reg.shape {
        Shape::StructShape { fields } => {
            let props = build_prop_entries(fields, false);
            let req = build_required_items(fields);
            let es: Vec<(String, Json)> = vec![
                ("type".to_owned(), Json::JStr { value: "object".to_owned() }),
                ("type_info".to_owned(), Json::JStr { value: "Struct".to_owned() }),
                ("long_name".to_owned(), Json::JStr { value: reg.canonical_path.clone() }),
                ("properties".to_owned(), Json::JObj { entries: props }),
                ("additional_properties".to_owned(), Json::JBool { value: false }),
                ("required".to_owned(), Json::JArr { items: req }),
            ];
            proof {
                lemma_json_entries_view_len(es@);
                assert(json_entries_view(es@) =~= spec_shape_entries(reg@));
            }
            es
        },
        Shape::EnumShape { variants } => {
            if all_unit_variants(variants) {
                let names = build_unit_names(variants);
                let es: Vec<(String, Json)> = vec![
                    ("type".to_owned(), Json::JStr { value: "string".to_owned() }),
                    ("type_info".to_owned(), Json::JStr { value: "Enum".to_owned() }),
                    ("long_name".to_owned(), Json::JStr { value: reg.canonical_path.clone() }),
                    ("one_of".to_owned(), Json::JArr { items: names }),
                ];
                proof {
                    lemma_json_entries_view_len(es@);
                    assert(json_entries_view(es@) =~= spec_shape_entries(reg@));
                }
                es
            } else {
                let subs = build_variant_items(variants);
                let es: Vec<(String, Json)> = vec![
                    ("type".to_owned(), Json::JStr { value: "object".to_owned() }),
                    ("type_info".to_owned(), Json::JStr { value: "Enum".to_owned() }),
                    ("long_name".to_owned(), Json::JStr { value: reg.canonical_path.clone() }),
                    ("one_of".to_owned(), Json::JArr { items: subs }),
                ];
                proof {
                    lemma_json_entries_view_len(es@);
                    assert(json_entries_view(es@) =~= spec_shape_entries(reg@));
                }
                es
            }
        },
        Shape::TupleStructShape { elems } => {
            let prefix = build_prefix_items(elems);
            let empty_items: Vec<Json> = Vec::new();
            proof {
                assert(json_items_view(empty_items@) =~= Seq::<JsonV>::empty());
            }
            let es: Vec<(String, Json)> = vec![
                ("long_name".to_owned(), Json::JStr { value: reg.canonical_path.clone() }),
                ("type".to_owned(), Json::JStr { value: "array".to_owned() }),
                ("type_info".to_owned(), Json::JStr { value: "TupleStruct".to_owned() }),
                ("prefix_items".to_owned(), Json::JArr { items: prefix }),
                ("items".to_owned(), Json::JArr { items: empty_items }),
            ];
            proof {
                lemma_json_entries_view_len(es@);
                assert(json_entries_view(es@) =~= spec_shape_entries(reg@));
            }
            es
        },
        Shape::ListShape { item } => {
            let inner: Vec<(String, Json)> = vec![("type".to_owned(), typ(item.as_str()))];
            proof {
                lemma_json_entries_view_len(inner@);
                assert(json_entries_view(inner@) =~= seq![("type"@, spec_typ_ref(item@))]);
            }
            let es: Vec<(String, Json)> = vec![
                ("long_name".to_owned(), Json::JStr { value: reg.canonical_path.clone() }),
                ("type".to_owned(), Json::JStr { value: "array".to_owned() }),
                ("type_info".to_owned(), Json::JStr { value: "List".to_owned() }),
                ("items".to_owned(), Json::JObj { entries: inner }),
            ];
            proof {
                lemma_json_entries_view_len(es@);
                assert(json_entries_view(es@) =~= spec_shape_entries(reg@));
            }
            es
        },
        Shape::ArrayShape { item, len } => {
            let inner: Vec<(String, Json)> = vec![("type".to_owned(), typ(item.as_str()))];
            proof {
                lemma_json_entries_view_len(inner@);
                assert(json_entries_view(inner@) =~= seq![("type"@, spec_typ_ref(item@))]);
            }
            let es: Vec<(String, Json)> = vec![
                ("long_name".to_owned(), Json::JStr { value: reg.canonical_path.clone() }),
                ("type".to_owned(), Json::JStr { value: "array".to_owned() }),
                ("type_info".to_owned(), Json::JStr { value: "Array".to_owned() }),
                ("items".to_owned(), Json::JObj { entries: inner }),
            ];
            proof {
                lemma_json_entries_view_len(es@);
                assert(json_entries_view(es@) =~= spec_shape_entries(reg@));
            }
            es
        },
        Shape::MapShape { key, value } => {
            let vinner: Vec<(String, Json)> = vec![("type".to_owned(), typ(value.as_str()))];
            let kinner: Vec<(String, Json)> = vec![("type".to_owned(), typ(key.as_str()))];
            proof {
                lemma_json_entries_view_len(vinner@);
                lemma_json_entries_view_len(kinner@);
                assert(json_entries_view(vinner@) =~= seq![("type"@, spec_typ_ref(value@))]);
                assert(json_entries_view(kinner@) =~= seq![("type"@, spec_typ_ref(key@))]);
            }
            let es: Vec<(String, Json)> = vec![
                ("long_name".to_owned(), Json::JStr { value: reg.canonical_path.clone() }),
                ("type".to_owned(), Json::JStr { value: "object".to_owned() }),
                ("type_info".to_owned(), Json::JStr { value: "Map".to_owned() }),
                ("value_type".to_owned(), Json::JObj { entries: vinner }),
                ("key_type".to_owned(), Json::JObj { entries: kinner }),
            ];
            proof {
                lemma_json_entries_view_len(es@);
                assert(json_entries_view(es@) =~= spec_shape_entries(reg@));
            }
            es
        },
        Shape::TupleShape { elems } => {
            let prefix = build_prefix_items(elems);
            let empty_items: Vec<Json> = Vec::new();
            proof {
                assert(json_items_view(empty_items@) =~= Seq::<JsonV>::empty());
            }
            let es: Vec<(String, Json)> = vec![
                ("long_name".to_owned(), Json::JStr { value: reg.canonical_path.clone() }),
                ("type".to_owned(), Json::JStr { value: "array".to_owned() }),
                ("type_info".to_owned(), Json::JStr { value: "Tuple".to_owned() }),
                ("prefix_items".to_owned(), Json::JArr { items: prefix }),
                ("items".to_owned(), Json::JArr { items: empty_items }),
            ];
            proof {
                lemma_json_entries_view_len(es@);
                assert(json_entries_view(es@) =~= spec_shape_entries(reg@));
            }
            es
        },
        Shape::OpaqueShape { primitive } => {
            let es: Vec<(String, Json)> = vec![
                ("long_name".to_owned(), Json::JStr { value: reg.canonical_path.clone() }),
                ("type".to_owned(), Json::JStr { value: map_json_type(primitive.as_str()) }),
                ("type_info".to_owned(), Json::JStr { value: "Value".to_owned() }),
            ];
            proof {
                lemma_json_entries_view_len(es@);
                assert(json_entries_view(es@) =~= spec_shape_entries(reg@));
            }
            es
        },
        Shape::EntityRefShape => {
            let es: Vec<(String, Json)> = vec![
                ("long_name".to_owned(), Json::JStr { value: reg.canonical_path.clone() }),
                ("type".to_owned(), Json::JStr { value: "object".to_owned() }),
                ("type_info".to_owned(), Json::JStr { value: "Value".to_owned() }),
            ];
            proof {
                lemma_json_entries_view_len(es@);
                assert(json_entries_view(es@) =~= spec_shape_entries(reg@));
            }
            es
        },
    };
    let mut entries = entries;
    proof {
        assert(json_entries_view(entries@) == spec_shape_entries(reg@));
    }
    let ghost basev = json_entries_view(entries@);
    let ghost e0 = entries@;
    entries.push(("is_component".to_owned(), Json::JBool { value: reg.is_component }));
    let ghost e1 = entries@;
    entries.push(("is_resource".to_owned(), Json::JBool { value: reg.is_resource }));
    let ghost e2 = entries@;
    entries.push(("short_name".to_owned(), Json::JStr { value: reg.short_name.clone() }));
    proof {
        lemma_json_entries_view_push(e0, e1[e1.len() - 1]);
        lemma_json_entries_view_push(e1, e2[e2.len() - 1]);
        lemma_json_entries_view_push(e2, entries@[entries@.len() - 1]);
        assert(json_entries_view(entries@) =~= basev + seq![
            ("is_component"@, JsonV::JBool { value: reg@.is_component }),
            ("is_resource"@, JsonV::JBool { value: reg@.is_resource }),
            ("short_name"@, JsonV::JStr { value: reg@.short_name }),
        ]);
    }
    (reg.canonical_path.clone(), Json::JObj { entries })
}

/// Is the entry exported? The filter decides, and the entity-reference kind
/// is always exported so authored references validate.
pub open spec fn spec_exported(d: TypeDescV, f: FilterV) -> bool {
    spec_allowed(f, d.canonical_path) || d.shape is EntityRefShape
}

/// The `$defs` entries of the first `i` registry entries that pass the
/// filter, in registration order.
pub open spec fn spec_defs_entries(reg: Seq<TypeDescV>, f: FilterV, i: nat) -> Seq<
    (Seq<char>, JsonV),
>
    decreases i,
{
    if i == 0 || i > reg.len() {
        Seq::empty()
    } else {
        let rest = spec_defs_entries(reg, f, (i - 1) as nat);
        if spec_exported(reg[i - 1], f) {
            rest.push((reg[i - 1].canonical_path, spec_export_type(reg[i - 1])))
        } else {
            rest
        }
    }
}

/// The whole schema document tree.
pub open spec fn spec_export_doc(reg: Seq<TypeDescV>, f: FilterV) -> JsonV {
    JsonV::JObj {
        entries: seq![
            (
                "$schema"@,
                JsonV::JStr { value: "https://json-schema.org/draft/2020-12/schema"@ },
            ),
            ("long_name"@, JsonV::JStr { value: "bevy component registry schema"@ }),
            ("$defs"@, JsonV::JObj { entries: spec_defs_entries(reg, f, reg.len()) }),
        ],
    }
}

/// The rendered schema document: a pure function of the registry's contents
/// and the filter, so the export is idempotent.
pub open spec fn spec_export_document(reg: Seq<TypeDescV>, f: FilterV) -> Seq<char> {
    sp_render(spec_export_doc(reg, f), ""@)
}

/// Walk the registry once and render the full schema document. The caller
/// writes the returned text to the configured path; a write failure there
/// aborts only the export step.
pub fn export_types(reg: &TypeRegistry, config: &SparrowConfig) -> (r: String)
    ensures
        r@ == spec_export_document(reg@, config.component_filter@),
{
    let n = reg.len();
    let mut defs: Vec<(String, Json)> = Vec::new();
    let mut i: usize = 0;
    proof {
        assert(json_entries_view(defs@) =~= spec_defs_entries(
            reg@,
            config.component_filter@,
            0,
        ));
    }
    while i < n
        invariant
            n as nat == reg@.len(),
            i <= n,
            json_entries_view(defs@) == spec_defs_entries(
                reg@,
                config.component_filter@,
                i as nat,
            ),
        decreases n - i,
    {
        let d = reg.entry_at(i);
        let exported = config.component_filter.is_allowed(d.canonical_path.as_str()) || matches!(
            &d.shape,
            Shape::EntityRefShape,
        );
        if exported {
            let (path, frag) = export_type(d);
            let ghost fragv = frag@;
            let ghost pathv = path@;
            let ghost outv = json_entries_view(defs@);
            let ghost olddefs = defs@;
            defs.push((path, frag));
            proof {
                lemma_json_entries_view_push(olddefs, defs@[defs@.len() - 1]);
                assert(json_entries_view(defs@) =~= outv.push((pathv, fragv)));
            }
        }
        i = i + 1;
    }
    let doc = Json::JObj {
        entries: vec![
            (
                "$schema".to_owned(),
                Json::JStr { value: "https://json-schema.org/draft/2020-12/schema".to_owned() },
            ),
            (
                "long_name".to_owned(),
                Json::JStr { value: "bevy component registry schema".to_owned() },
            ),
            ("$defs".to_owned(), Json::JObj { entries: defs }),
        ],
    };
    proof {
        lemma_json_entries_view_len(doc->JObj_entries@);
        assert(json_entries_view(doc->JObj_entries@) =~= spec_export_doc(
            reg@,
            config.component_filter@,
        )->JObj_entries);
    }
    json_to_pretty_string(&doc)
}

/// The export is idempotent: two walks of registries with the same contents
/// under the same filter render byte-identical documents, because the
/// document is a function of the registry view and the filter alone.
pub proof fn lemma_export_idempotent(
    r1: Seq<TypeDescV>,
    r2: Seq<TypeDescV>,
    f1: FilterV,
    f2: FilterV,
)
    requires
        r1 == r2,
        f1 == f2,
    ensures
        spec_export_document(r1, f1) == spec_export_document(r2, f2),
{
}

} // verus!
