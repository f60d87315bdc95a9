use sparrow::export::SparrowConfig;
use sparrow::export::TypeFilter;
use sparrow::export::export_type;
use sparrow::export::export_types;
use sparrow::export::map_json_type;
use sparrow::json::Json;
use sparrow::registry::TypeRegistry;
use sparrow::shape::FieldDef;
use sparrow::shape::Shape;
use sparrow::shape::TypeDescriptor;
use sparrow::shape::VariantDef;

fn desc(path: &str, short: &str, shape: Shape) -> TypeDescriptor {
    TypeDescriptor {
        canonical_path: path.to_string(),
        short_name: short.to_string(),
        shape,
        is_component: true,
        is_resource: false,
    }
}

fn get<'a>(j: &'a Json, key: &str) -> &'a Json {
    match j {
        Json::JObj { entries } => {
            for (k, v) in entries {
                if k == key {
                    return v;
                }
            }
            panic!("missing key {key}");
        },
        _ => panic!("not an object"),
    }
}

fn as_str(j: &Json) -> &str {
    match j {
        Json::JStr { value } => value.as_str(),
        _ => panic!("not a string"),
    }
}

fn as_arr(j: &Json) -> &Vec<Json> {
    match j {
        Json::JArr { items } => items,
        _ => panic!("not an array"),
    }
}

#[test]
fn struct_shape_exports_required_and_refs() {
    // a struct {a: u32, b: Option<string>} must require only "a"
    let d = desc(
        "game::Label",
        "Label",
        Shape::StructShape {
            fields: vec![
                FieldDef { name: "a".to_string(), type_path: "u32".to_string() },
                FieldDef {
                    name: "b".to_string(),
                    type_path: "core::option::Option<alloc::string::String>".to_string(),
                },
            ],
        },
    );
    let (path, frag) = export_type(&d);
    assert_eq!(path.as_str(), "game::Label");
    assert_eq!(as_str(get(&frag, "type")), "object");
    assert_eq!(as_str(get(&frag, "type_info")), "Struct");
    let req = as_arr(get(&frag, "required"));
    assert_eq!(req.len(), 1);
    assert_eq!(as_str(&req[0]), "a");
    let props = get(&frag, "properties");
    let a_ref = get(get(props, "a"), "type");
    assert_eq!(as_str(get(a_ref, "$ref")), "#/$defs/u32");
    assert_eq!(map_json_type("u32").as_str(), "uint");
    assert_eq!(as_str(get(&frag, "short_name")), "Label");
    assert!(matches!(get(&frag, "is_component"), Json::JBool { value: true }));
    assert!(matches!(get(&frag, "is_resource"), Json::JBool { value: false }));
}

#[test]
fn simple_enum_exports_as_string_schema() {
    let d = desc(
        "game::Mode",
        "Mode",
        Shape::EnumShape {
            variants: vec![
                VariantDef::UnitLike { name: "Object".to_string() },
                VariantDef::UnitLike { name: "Collection".to_string() },
                VariantDef::UnitLike { name: "Scene".to_string() },
            ],
        },
    );
    let (_, frag) = export_type(&d);
    assert_eq!(as_str(get(&frag, "type")), "string");
    assert_eq!(as_str(get(&frag, "type_info")), "Enum");
    let one_of = as_arr(get(&frag, "one_of"));
    let names: Vec<&str> = one_of.iter().map(as_str).collect();
    assert_eq!(names, ["Object", "Collection", "Scene"]);
}

#[test]
fn data_enum_exports_one_sub_schema_per_variant() {
    let d = desc(
        "game::Shift",
        "Shift",
        Shape::EnumShape {
            variants: vec![
                VariantDef::UnitLike { name: "Off".to_string() },
                VariantDef::TupleLike {
                    name: "By".to_string(),
                    elems: vec!["i32".to_string()],
                },
                VariantDef::StructLike {
                    name: "Ramp".to_string(),
                    fields: vec![
                        FieldDef { name: "from".to_string(), type_path: "u32".to_string() },
                    ],
                },
            ],
        },
    );
    let (_, frag) = export_type(&d);
    assert_eq!(as_str(get(&frag, "type")), "object");
    assert_eq!(as_str(get(&frag, "type_info")), "Enum");
    let one_of = as_arr(get(&frag, "one_of"));
    assert_eq!(one_of.len(), 3);
    assert_eq!(as_str(get(&one_of[0], "long_name")), "Off");
    assert_eq!(as_str(get(&one_of[1], "type")), "array");
    assert_eq!(as_str(get(&one_of[1], "type_info")), "Tuple");
    assert_eq!(as_arr(get(&one_of[1], "prefix_items")).len(), 1);
    assert_eq!(as_str(get(&one_of[2], "type")), "object");
    assert_eq!(as_str(get(&one_of[2], "type_info")), "Struct");
    let req = as_arr(get(&one_of[2], "required"));
    assert_eq!(as_str(&req[0]), "from");
}

#[test]
fn container_shapes_export_their_kind() {
    let (_, list) = export_type(
        &desc("game::Tags", "Tags", Shape::ListShape { item: "alloc::string::String".into() }),
    );
    assert_eq!(as_str(get(&list, "type_info")), "List");
    assert_eq!(
        as_str(get(get(get(&list, "items"), "type"), "$ref")),
        "#/$defs/alloc::string::String"
    );

    let (_, arr) = export_type(
        &desc("game::Grid", "Grid", Shape::ArrayShape { item: "u32".into(), len: 3 }),
    );
    assert_eq!(as_str(get(&arr, "type_info")), "Array");

    let (_, m) = export_type(
        &desc(
            "game::Scores",
            "Scores",
            Shape::MapShape { key: "alloc::string::String".into(), value: "u32".into() },
        ),
    );
    assert_eq!(as_str(get(&m, "type_info")), "Map");
    assert_eq!(as_str(get(get(get(&m, "key_type"), "type"), "$ref")),
        "#/$defs/alloc::string::String");
    assert_eq!(as_str(get(get(get(&m, "value_type"), "type"), "$ref")), "#/$defs/u32");

    let (_, ts) = export_type(
        &desc(
            "game::Blueprint",
            "Blueprint",
            Shape::TupleStructShape { elems: vec!["alloc::string::String".into()] },
        ),
    );
    assert_eq!(as_str(get(&ts, "type_info")), "TupleStruct");
    assert!(as_arr(get(&ts, "items")).is_empty());

    let (_, op) = export_type(
        &desc("f32", "f32", Shape::OpaqueShape { primitive: "f32".into() }),
    );
    assert_eq!(as_str(get(&op, "type")), "float");
    assert_eq!(as_str(get(&op, "type_info")), "Value");

    let (_, er) = export_type(
        &desc("bevy_ecs::entity::Entity", "Entity", Shape::EntityRefShape),
    );
    assert_eq!(as_str(get(&er, "type")), "object");
    assert_eq!(as_str(get(&er, "type_info")), "Value");
}

#[test]
fn primitive_name_table() {
    assert_eq!(map_json_type("bool").as_str(), "boolean");
    assert_eq!(map_json_type("u8").as_str(), "uint");
    assert_eq!(map_json_type("usize").as_str(), "uint");
    assert_eq!(map_json_type("i64").as_str(), "int");
    assert_eq!(map_json_type("f64").as_str(), "float");
    assert_eq!(map_json_type("char").as_str(), "string");
    assert_eq!(map_json_type("str").as_str(), "string");
    assert_eq!(map_json_type("alloc::string::String").as_str(), "string");
    assert_eq!(map_json_type("glam::Vec3").as_str(), "object");
}

fn sample_registry() -> TypeRegistry {
    let mut reg = TypeRegistry::new();
    reg.register(desc("u32", "u32", Shape::OpaqueShape { primitive: "u32".into() })).unwrap();
    reg.register(
        desc(
            "game::Health",
            "Health",
            Shape::StructShape {
                fields: vec![FieldDef { name: "hp".to_string(), type_path: "u32".to_string() }],
            },
        ),
    )
        .unwrap();
    reg.register(desc("bevy_ecs::entity::Entity", "Entity", Shape::EntityRefShape)).unwrap();
    reg
}

#[test]
fn exporting_twice_is_byte_identical() {
    let reg = sample_registry();
    let config = SparrowConfig::default();
    let first = export_types(&reg, &config);
    let second = export_types(&reg, &config);
    assert_eq!(first, second);
    assert!(first.contains("\"$schema\": \"https://json-schema.org/draft/2020-12/schema\""));
    assert!(first.contains("\"$defs\""));
    assert!(first.contains("game::Health"));
}

#[test]
fn filter_restricts_exports_but_entity_kind_stays() {
    let reg = sample_registry();
    let config = SparrowConfig {
        save_path: "../registry.json".to_string(),
        component_filter: TypeFilter::Allowlist { paths: vec!["game::Health".to_string()] },
        ignore: Vec::new(),
    };
    let doc = export_types(&reg, &config);
    assert!(doc.contains("game::Health"));
    // the filtered-out primitive has no definition of its own (references
    // to it inside other fragments remain); the entity kind is always kept
    assert!(!doc.contains("\"long_name\": \"u32\""));
    assert!(doc.contains("bevy_ecs::entity::Entity"));

    let deny = SparrowConfig {
        save_path: "../registry.json".to_string(),
        component_filter: TypeFilter::Denylist { paths: vec!["game::Health".to_string()] },
        ignore: Vec::new(),
    };
    let doc2 = export_types(&reg, &deny);
    assert!(!doc2.contains("game::Health"));
}

#[test]
fn rendering_escapes_strings() {
    let d = desc("game::Odd\"Name", "Odd", Shape::OpaqueShape { primitive: "bool".into() });
    let mut reg = TypeRegistry::new();
    reg.register(d).unwrap();
    let doc = export_types(&reg, &SparrowConfig::default());
    assert!(doc.contains("game::Odd\\\"Name"));
}

#[test]
fn rendering_is_pretty_printed_exactly() {
    let j = Json::JObj {
        entries: vec![
            ("a".to_string(), Json::JBool { value: true }),
            ("b".to_string(), Json::JArr { items: vec![] }),
            (
                "c".to_string(),
                Json::JArr { items: vec![Json::JStr { value: "x\"y".to_string() }] },
            ),
        ],
    };
    let s = sparrow::json::json_to_pretty_string(&j);
    assert_eq!(s, "{\n  \"a\": true,\n  \"b\": [],\n  \"c\": [\n    \"x\\\"y\"\n  ]\n}");
}
