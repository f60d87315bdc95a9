use sparrow::PLACEHOLDER_NODE_ID;
use sparrow::decode::DecodeError;
use sparrow::decode::decode_value;
use sparrow::diag::DiagKind;
use sparrow::diag::Diagnostic;
use sparrow::instance::Instance;
use sparrow::parse::parse_blob;
use sparrow::rawvalue::RawValue;
use sparrow::registry::TypeRegistry;
use sparrow::resolver::ResolutionContext;
use sparrow::shape::FieldDef;
use sparrow::shape::Shape;
use sparrow::shape::TypeDescriptor;
use sparrow::shape::VariantDef;

fn desc(path: &str, short: &str, shape: Shape) -> TypeDescriptor {
    TypeDescriptor {
        canonical_path: path.to_string(),
        short_name: short.to_string(),
        shape,
        is_component: true,
        is_resource: false,
    }
}

fn test_registry() -> TypeRegistry {
    let mut reg = TypeRegistry::new();
    reg.register(desc("u8", "u8", Shape::OpaqueShape { primitive: "u8".to_string() })).unwrap();
    reg.register(desc("u32", "u32", Shape::OpaqueShape { primitive: "u32".to_string() }))
        .unwrap();
    reg.register(desc("u64", "u64", Shape::OpaqueShape { primitive: "u64".to_string() }))
        .unwrap();
    reg.register(desc("i32", "i32", Shape::OpaqueShape { primitive: "i32".to_string() }))
        .unwrap();
    reg.register(desc("f32", "f32", Shape::OpaqueShape { primitive: "f32".to_string() }))
        .unwrap();
    reg.register(desc("bool", "bool", Shape::OpaqueShape { primitive: "bool".to_string() }))
        .unwrap();
    reg.register(
        desc(
            "alloc::string::String",
            "String",
            Shape::OpaqueShape { primitive: "alloc::string::String".to_string() },
        ),
    )
        .unwrap();
    reg.register(
        desc(
            "game::Health",
            "Health",
            Shape::StructShape {
                fields: vec![
                    FieldDef { name: "hp".to_string(), type_path: "u32".to_string() },
                    FieldDef { name: "armor".to_string(), type_path: "i32".to_string() },
                ],
            },
        ),
    )
        .unwrap();
    reg.register(
        desc(
            "game::Mode",
            "Mode",
            Shape::EnumShape {
                variants: vec![
                    VariantDef::UnitLike { name: "Object".to_string() },
                    VariantDef::UnitLike { name: "Collection".to_string() },
                    VariantDef::UnitLike { name: "Scene".to_string() },
                ],
            },
        ),
    )
        .unwrap();
    reg.register(
        desc(
            "game::Shift",
            "Shift",
            Shape::EnumShape {
                variants: vec![
                    VariantDef::UnitLike { name: "Off".to_string() },
                    VariantDef::TupleLike {
                        name: "By".to_string(),
                        elems: vec!["i32".to_string(), "i32".to_string()],
                    },
                    VariantDef::StructLike {
                        name: "Ramp".to_string(),
                        fields: vec![
                            FieldDef { name: "from".to_string(), type_path: "u32".to_string() },
                            FieldDef { name: "to".to_string(), type_path: "u32".to_string() },
                        ],
                    },
                ],
            },
        ),
    )
        .unwrap();
    reg.register(
        desc(
            "game::Tags",
            "Tags",
            Shape::ListShape { item: "alloc::string::String".to_string() },
        ),
    )
        .unwrap();
    reg.register(
        desc("game::Grid", "Grid", Shape::ArrayShape { item: "u32".to_string(), len: 3 }),
    )
        .unwrap();
    reg.register(
        desc(
            "game::Scores",
            "Scores",
            Shape::MapShape {
                key: "alloc::string::String".to_string(),
                value: "u32".to_string(),
            },
        ),
    )
        .unwrap();
    reg.register(
        desc(
            "game::Blueprint",
            "Blueprint",
            Shape::TupleStructShape { elems: vec!["alloc::string::String".to_string()] },
        ),
    )
        .unwrap();
    reg.register(desc("bevy_ecs::entity::Entity", "Entity", Shape::EntityRefShape)).unwrap();
    reg
}

fn one_value(text: &str) -> RawValue {
    let mut es = parse_blob(text).expect("well-formed");
    assert_eq!(es.len(), 1);
    es.remove(0).1
}

#[test]
fn decodes_struct_fields() {
    let reg = test_registry();
    let raw = one_value("{\"v\": {\"hp\": 30, \"armor\": -2}}");
    let mut diags: Vec<Diagnostic> = Vec::new();
    let inst = decode_value(&reg, "game::Health", &raw, None, &mut diags).unwrap();
    match inst {
        Instance::StructVal { fields } => {
            assert_eq!(fields.len(), 2);
            assert_eq!(fields[0].0.as_str(), "hp");
            assert!(matches!(fields[0].1, Instance::UIntVal { value: 30 }));
            assert!(
                matches!(fields[1].1, Instance::IntVal { negative: true, magnitude: 2 })
            );
        },
        _ => panic!("expected struct instance"),
    }
    assert!(diags.is_empty());
}

#[test]
fn missing_struct_field_is_tolerated() {
    let reg = test_registry();
    let raw = one_value("{\"v\": {\"hp\": 7}}");
    let mut diags: Vec<Diagnostic> = Vec::new();
    let inst = decode_value(&reg, "game::Health", &raw, None, &mut diags).unwrap();
    assert!(matches!(inst, Instance::StructVal { ref fields } if fields.len() == 1));
}

#[test]
fn unknown_struct_field_fails_whole_decode() {
    let reg = test_registry();
    let raw = one_value("{\"v\": {\"hp\": 7, \"mana\": 3}}");
    let mut diags: Vec<Diagnostic> = Vec::new();
    let r = decode_value(&reg, "game::Health", &raw, None, &mut diags);
    assert!(matches!(r, Err(DecodeError::UnknownField { ref name }) if name == "mana"));
}

#[test]
fn decode_is_atomic_on_inner_failure() {
    let reg = test_registry();
    // the second field's value has the wrong shape, so no partial instance
    let raw = one_value("{\"v\": {\"hp\": 7, \"armor\": \"lots\"}}");
    let mut diags: Vec<Diagnostic> = Vec::new();
    let r = decode_value(&reg, "game::Health", &raw, None, &mut diags);
    assert!(r.is_err());
}

#[test]
fn decodes_unit_enum_from_string() {
    let reg = test_registry();
    let raw = one_value("{\"v\": \"Collection\"}");
    let mut diags: Vec<Diagnostic> = Vec::new();
    let inst = decode_value(&reg, "game::Mode", &raw, None, &mut diags).unwrap();
    assert!(matches!(
        inst,
        Instance::EnumVal { ref variant, payload: None } if variant == "Collection"
    ));
}

#[test]
fn unknown_variant_is_an_error() {
    let reg = test_registry();
    let raw = one_value("{\"v\": \"Cluster\"}");
    let mut diags: Vec<Diagnostic> = Vec::new();
    let r = decode_value(&reg, "game::Mode", &raw, None, &mut diags);
    assert!(matches!(r, Err(DecodeError::UnknownVariant { ref name }) if name == "Cluster"));
}

#[test]
fn decodes_tuple_variant() {
    let reg = test_registry();
    let raw = one_value("{\"v\": {\"By\": [3, -4]}}");
    let mut diags: Vec<Diagnostic> = Vec::new();
    let inst = decode_value(&reg, "game::Shift", &raw, None, &mut diags).unwrap();
    match inst {
        Instance::EnumVal { variant, payload: Some(b) } => {
            assert_eq!(variant.as_str(), "By");
            match *b {
                Instance::ListVal { items } => {
                    assert_eq!(items.len(), 2);
                    assert!(matches!(
                        items[1],
                        Instance::IntVal { negative: true, magnitude: 4 }
                    ));
                },
                _ => panic!("expected positional payload"),
            }
        },
        _ => panic!("expected data variant"),
    }
}

#[test]
fn decodes_struct_variant() {
    let reg = test_registry();
    let raw = one_value("{\"v\": {\"Ramp\": {\"from\": 1, \"to\": 5}}}");
    let mut diags: Vec<Diagnostic> = Vec::new();
    let inst = decode_value(&reg, "game::Shift", &raw, None, &mut diags).unwrap();
    assert!(matches!(
        inst,
        Instance::EnumVal { ref variant, payload: Some(_) } if variant == "Ramp"
    ));
}

#[test]
fn decodes_list_array_map_and_tuple_struct() {
    let reg = test_registry();
    let mut diags: Vec<Diagnostic> = Vec::new();

    let tags = one_value("{\"v\": [\"a\", \"b\"]}");
    let inst = decode_value(&reg, "game::Tags", &tags, None, &mut diags).unwrap();
    assert!(matches!(inst, Instance::ListVal { ref items } if items.len() == 2));

    let grid = one_value("{\"v\": [1, 2, 3]}");
    assert!(decode_value(&reg, "game::Grid", &grid, None, &mut diags).is_ok());
    let short = one_value("{\"v\": [1, 2]}");
    assert!(matches!(
        decode_value(&reg, "game::Grid", &short, None, &mut diags),
        Err(DecodeError::WrongLength { .. })
    ));

    let scores = one_value("{\"v\": {\"alice\": 3, \"bob\": 5}}");
    let inst = decode_value(&reg, "game::Scores", &scores, None, &mut diags).unwrap();
    match inst {
        Instance::MapVal { pairs } => {
            assert_eq!(pairs.len(), 2);
            assert!(matches!(&pairs[0].0, Instance::TextVal { value } if value == "alice"));
            assert!(matches!(pairs[0].1, Instance::UIntVal { value: 3 }));
        },
        _ => panic!("expected map instance"),
    }

    let bp = one_value("{\"v\": [\"levels/one.glb\"]}");
    let inst = decode_value(&reg, "game::Blueprint", &bp, None, &mut diags).unwrap();
    assert!(matches!(inst, Instance::ListVal { ref items } if items.len() == 1));
    assert!(diags.is_empty());
}

#[test]
fn primitive_range_checks() {
    let reg = test_registry();
    let mut diags: Vec<Diagnostic> = Vec::new();
    let ok = one_value("{\"v\": 255}");
    assert!(matches!(
        decode_value(&reg, "u8", &ok, None, &mut diags),
        Ok(Instance::UIntVal { value: 255 })
    ));
    let over = one_value("{\"v\": 256}");
    assert!(matches!(
        decode_value(&reg, "u8", &over, None, &mut diags),
        Err(DecodeError::BadNumber { .. })
    ));
    let frac = one_value("{\"v\": 1.5}");
    assert!(matches!(
        decode_value(&reg, "u8", &frac, None, &mut diags),
        Err(DecodeError::BadNumber { .. })
    ));
    let float_ok = one_value("{\"v\": 9.81}");
    assert!(matches!(
        decode_value(&reg, "f32", &float_ok, None, &mut diags),
        Ok(Instance::FloatLex { ref lexeme }) if lexeme == "9.81"
    ));
    let b = one_value("{\"v\": true}");
    assert!(matches!(
        decode_value(&reg, "bool", &b, None, &mut diags),
        Ok(Instance::BoolVal { value: true })
    ));
    let wrong = one_value("{\"v\": 1}");
    assert!(matches!(
        decode_value(&reg, "bool", &wrong, None, &mut diags),
        Err(DecodeError::ShapeMismatch { .. })
    ));
}

#[test]
fn unknown_type_path_is_an_error() {
    let reg = test_registry();
    let raw = one_value("{\"v\": 1}");
    let mut diags: Vec<Diagnostic> = Vec::new();
    assert!(matches!(
        decode_value(&reg, "game::Missing", &raw, None, &mut diags),
        Err(DecodeError::UnknownType { ref path }) if path == "game::Missing"
    ));
}

#[test]
fn entity_reference_resolves_in_context() {
    let reg = test_registry();
    let ctx = ResolutionContext {
        instance_id: 7,
        names: vec![("Hinge".to_string(), 42u64)],
    };
    let raw = one_value("{\"v\": {\"name\": \"Hinge\"}}");
    let mut diags: Vec<Diagnostic> = Vec::new();
    let inst = decode_value(&reg, "bevy_ecs::entity::Entity", &raw, Some(&ctx), &mut diags)
        .unwrap();
    assert!(matches!(inst, Instance::NodeRef { id: 42 }));
    assert!(diags.is_empty());
}

#[test]
fn unresolved_entity_reference_is_placeholder_with_diagnostic() {
    let reg = test_registry();
    let raw = one_value("{\"v\": {\"name\": \"Ghost\"}}");
    let mut diags: Vec<Diagnostic> = Vec::new();
    let inst = decode_value(&reg, "bevy_ecs::entity::Entity", &raw, None, &mut diags).unwrap();
    assert!(matches!(inst, Instance::NodeRef { id } if id == PLACEHOLDER_NODE_ID));
    assert_eq!(diags.len(), 1);
    assert_eq!(diags[0].kind, DiagKind::UnresolvedEntityRef);
    assert_eq!(diags[0].subject.as_str(), "Ghost");
}

#[test]
fn entity_reference_without_name_is_placeholder() {
    let reg = test_registry();
    let raw = one_value("{\"v\": {}}");
    let mut diags: Vec<Diagnostic> = Vec::new();
    let inst = decode_value(&reg, "bevy_ecs::entity::Entity", &raw, None, &mut diags).unwrap();
    assert!(matches!(inst, Instance::NodeRef { id } if id == PLACEHOLDER_NODE_ID));
    assert_eq!(diags.len(), 1);
}

#[test]
fn sixty_four_bit_boundaries() {
    let reg = test_registry();
    let mut diags: Vec<Diagnostic> = Vec::new();
    let max = one_value("{\"v\": 18446744073709551615}");
    assert!(matches!(
        decode_value(&reg, "u64", &max, None, &mut diags),
        Ok(Instance::UIntVal { value: u64::MAX })
    ));
    let over = one_value("{\"v\": 18446744073709551616}");
    assert!(matches!(
        decode_value(&reg, "u64", &over, None, &mut diags),
        Err(DecodeError::BadNumber { .. })
    ));
    let imin = one_value("{\"v\": -2147483648}");
    assert!(matches!(
        decode_value(&reg, "i32", &imin, None, &mut diags),
        Ok(Instance::IntVal { negative: true, magnitude: 2147483648 })
    ));
    let iunder = one_value("{\"v\": -2147483649}");
    assert!(matches!(
        decode_value(&reg, "i32", &iunder, None, &mut diags),
        Err(DecodeError::BadNumber { .. })
    ));
}
