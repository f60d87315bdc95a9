use sparrow::diag::DiagKind;
use sparrow::hierarchy::SceneNode;
use sparrow::hierarchy::SceneTree;
use sparrow::resolver::ResolutionContext;
use sparrow::instance::Instance;
use sparrow::metadata::capitalized_display;
use sparrow::metadata::display_name;
use sparrow::metadata::is_ignored;
use sparrow::metadata::ronstring_to_reflect_component;
use sparrow::registry::TypeRegistry;
use sparrow::shape::FieldDef;
use sparrow::shape::Shape;
use sparrow::shape::TypeDescriptor;
use sparrow::text::capitalize_first_letter;

fn desc(path: &str, short: &str, shape: Shape) -> TypeDescriptor {
    TypeDescriptor {
        canonical_path: path.to_string(),
        short_name: short.to_string(),
        shape,
        is_component: true,
        is_resource: false,
    }
}

fn test_registry() -> TypeRegistry {
    let mut reg = TypeRegistry::new();
    reg.register(desc("u32", "u32", Shape::OpaqueShape { primitive: "u32".to_string() }))
        .unwrap();
    reg.register(
        desc(
            "alloc::string::String",
            "String",
            Shape::OpaqueShape { primitive: "alloc::string::String".to_string() },
        ),
    )
        .unwrap();
    reg.register(
        desc(
            "game::Health",
            "Health",
            Shape::StructShape {
                fields: vec![FieldDef { name: "hp".to_string(), type_path: "u32".to_string() }],
            },
        ),
    )
        .unwrap();
    reg.register(
        desc(
            "game::Blueprint",
            "Blueprint",
            Shape::TupleStructShape { elems: vec!["alloc::string::String".to_string()] },
        ),
    )
        .unwrap();
    reg.register(desc("bevy_ecs::entity::Entity", "Entity", Shape::EntityRefShape)).unwrap();
    reg.register(
        desc(
            "game::Door",
            "Door",
            Shape::StructShape {
                fields: vec![
                    FieldDef {
                        name: "hinge".to_string(),
                        type_path: "bevy_ecs::entity::Entity".to_string(),
                    },
                ],
            },
        ),
    )
        .unwrap();
    reg
}

#[test]
fn one_component_per_entry_in_discovery_order() {
    let reg = test_registry();
    let ignore: Vec<String> = Vec::new();
    let blob = "{\"component: health\": {\"hp\": 10}, \
                \"bevy_components\": {\"game::Blueprint\": [\"lvl.glb\"]}, \
                \"component: blueprint\": [\"hall.glb\"]}";
    let (comps, diags) = ronstring_to_reflect_component(blob, &reg, Some("Door"), &ignore, None);
    assert!(diags.is_empty());
    assert_eq!(comps.len(), 3);
    // primary channel first, in textual order; the reserved channel follows
    assert_eq!(comps[0].1.canonical_path.as_str(), "game::Health");
    assert_eq!(comps[1].1.canonical_path.as_str(), "game::Blueprint");
    assert!(matches!(&comps[1].0, Instance::ListVal { items }
        if matches!(&items[0], Instance::TextVal { value } if value == "hall.glb")));
    assert_eq!(comps[2].1.canonical_path.as_str(), "game::Blueprint");
    assert!(matches!(&comps[2].0, Instance::ListVal { items }
        if matches!(&items[0], Instance::TextVal { value } if value == "lvl.glb")));
}

#[test]
fn unknown_name_outside_ignore_list_warns_once() {
    let reg = test_registry();
    let ignore: Vec<String> = Vec::new();
    let (comps, diags) =
        ronstring_to_reflect_component("{\"component: rigidbody\": 1}", &reg, None, &ignore, None);
    assert!(comps.is_empty());
    assert_eq!(diags.len(), 1);
    assert_eq!(diags[0].kind, DiagKind::UnknownShortName);
    assert_eq!(diags[0].subject.as_str(), "Rigidbody");
}

#[test]
fn unknown_name_in_ignore_list_is_silent() {
    let reg = test_registry();
    let ignore = vec!["Rigid".to_string()];
    let (comps, diags) =
        ronstring_to_reflect_component("{\"component: rigidbody\": 1}", &reg, None, &ignore, None);
    assert!(comps.is_empty());
    assert!(diags.is_empty());
}

#[test]
fn malformed_blob_yields_one_diagnostic_and_no_components() {
    let reg = test_registry();
    let ignore: Vec<String> = Vec::new();
    let (comps, diags) =
        ronstring_to_reflect_component("{\"component: health\": {", &reg, Some("Door"), &ignore,
            None);
    assert!(comps.is_empty());
    assert_eq!(diags.len(), 1);
    assert_eq!(diags[0].kind, DiagKind::MalformedBlob);
    assert_eq!(diags[0].node.as_deref(), Some("Door"));
}

#[test]
fn decode_failure_skips_the_entry_and_warns() {
    let reg = test_registry();
    let ignore: Vec<String> = Vec::new();
    let blob = "{\"component: health\": {\"hp\": \"lots\"}, \"component: blueprint\": [\"x.glb\"]}";
    let (comps, diags) = ronstring_to_reflect_component(blob, &reg, None, &ignore, None);
    assert_eq!(comps.len(), 1);
    assert_eq!(comps[0].1.canonical_path.as_str(), "game::Blueprint");
    assert_eq!(diags.len(), 1);
    assert_eq!(diags[0].kind, DiagKind::DecodeFailed);
    assert_eq!(diags[0].subject.as_str(), "Health");
}

#[test]
fn unknown_canonical_path_in_reserved_channel_warns() {
    let reg = test_registry();
    let ignore: Vec<String> = Vec::new();
    let blob = "{\"bevy_components\": {\"other::Thing\": 1}}";
    let (comps, diags) = ronstring_to_reflect_component(blob, &reg, None, &ignore, None);
    assert!(comps.is_empty());
    assert_eq!(diags.len(), 1);
    assert_eq!(diags[0].kind, DiagKind::UnknownTypePath);
    assert_eq!(diags[0].subject.as_str(), "other::Thing");
}

#[test]
fn malformed_reserved_channel_warns() {
    let reg = test_registry();
    let ignore: Vec<String> = Vec::new();
    let blob = "{\"bevy_components\": 3}";
    let (comps, diags) = ronstring_to_reflect_component(blob, &reg, None, &ignore, None);
    assert!(comps.is_empty());
    assert_eq!(diags.len(), 1);
    assert_eq!(diags[0].kind, DiagKind::MalformedNested);
}

#[test]
fn duplicate_entries_across_channels_both_attach() {
    let reg = test_registry();
    let ignore: Vec<String> = Vec::new();
    let blob = "{\"component: health\": {\"hp\": 1}, \
                \"bevy_components\": {\"game::Health\": {\"hp\": 2}}}";
    let (comps, diags) = ronstring_to_reflect_component(blob, &reg, None, &ignore, None);
    assert!(diags.is_empty());
    assert_eq!(comps.len(), 2);
    assert_eq!(comps[0].1.canonical_path.as_str(), "game::Health");
    assert_eq!(comps[1].1.canonical_path.as_str(), "game::Health");
}

#[test]
fn display_name_strips_marker_and_trims() {
    assert_eq!(display_name("component: health").as_str(), "health");
    assert_eq!(display_name("  plain  ").as_str(), "plain");
    assert_eq!(display_name("component:  spaced ").as_str(), "spaced");
}

#[test]
fn capitalized_display_uppercases_first_letter() {
    assert_eq!(capitalized_display("component: health").as_str(), "Health");
    assert_eq!(capitalized_display("Already").as_str(), "Already");
    assert_eq!(capitalized_display("").as_str(), "");
}

#[test]
fn capitalize_first_letter_basics() {
    assert_eq!(capitalize_first_letter("health").as_str(), "Health");
    assert_eq!(capitalize_first_letter("Health").as_str(), "Health");
    assert_eq!(capitalize_first_letter("7zip").as_str(), "7zip");
    assert_eq!(capitalize_first_letter("a").as_str(), "A");
}

#[test]
fn ignore_list_matches_by_substring() {
    let ignore = vec!["Meta".to_string(), "Probe".to_string()];
    assert!(is_ignored("ComponentsMeta", &ignore));
    assert!(is_ignored("ProbeSettings", &ignore));
    assert!(!is_ignored("Health", &ignore));
    let empty: Vec<String> = Vec::new();
    assert!(!is_ignored("Anything", &empty));
}

#[test]
fn entity_reference_resolves_through_the_pipeline() {
    let reg = test_registry();
    let ignore: Vec<String> = Vec::new();
    // one instantiation rooted at node 1 (instance 9), with a hinge at node 4
    let mut tree = SceneTree::new();
    tree.add_node(SceneNode {
        id: 1,
        parent: None,
        name: "Root".to_string(),
        has_metadata: false,
        instance: Some(9),
    })
        .unwrap();
    tree.add_node(SceneNode {
        id: 4,
        parent: Some(1),
        name: "Hinge".to_string(),
        has_metadata: true,
        instance: None,
    })
        .unwrap();
    let ctx = ResolutionContext { instance_id: 9, names: tree.build_name_table(9) };
    let blob = "{\"component: door\": {\"hinge\": {\"name\": \"Hinge\"}}}";
    let (comps, diags) =
        ronstring_to_reflect_component(blob, &reg, Some("Door"), &ignore, Some(&ctx));
    assert!(diags.is_empty());
    assert_eq!(comps.len(), 1);
    assert_eq!(comps[0].1.canonical_path.as_str(), "game::Door");
    match &comps[0].0 {
        Instance::StructVal { fields } => {
            assert_eq!(fields[0].0.as_str(), "hinge");
            assert!(matches!(fields[0].1, Instance::NodeRef { id: 4 }));
        },
        _ => panic!("expected struct instance"),
    }
}
