use sparrow::registry::TypeRegistry;
use sparrow::shape::Shape;
use sparrow::shape::TypeDescriptor;

fn opaque(path: &str, short: &str, prim: &str) -> TypeDescriptor {
    TypeDescriptor {
        canonical_path: path.to_string(),
        short_name: short.to_string(),
        shape: Shape::OpaqueShape { primitive: prim.to_string() },
        is_component: false,
        is_resource: false,
    }
}

#[test]
fn register_and_lookup_by_path() {
    let mut reg = TypeRegistry::new();
    reg.register(opaque("u32", "u32", "u32")).unwrap();
    reg.register(opaque("game::Speed", "Speed", "f32")).unwrap();
    let d = reg.lookup_by_path("game::Speed").expect("registered");
    assert_eq!(d.short_name.as_str(), "Speed");
    assert!(reg.lookup_by_path("game::Missing").is_none());
    assert_eq!(reg.len(), 2);
}

#[test]
fn duplicate_path_is_refused() {
    let mut reg = TypeRegistry::new();
    reg.register(opaque("game::Speed", "Speed", "f32")).unwrap();
    assert!(reg.register(opaque("game::Speed", "Other", "f64")).is_err());
    assert_eq!(reg.len(), 1);
}

#[test]
fn short_name_first_match_wins() {
    let mut reg = TypeRegistry::new();
    reg.register(opaque("a::Speed", "Speed", "f32")).unwrap();
    reg.register(opaque("b::Speed", "Speed", "f64")).unwrap();
    let d = reg.lookup_by_short_name("Speed").expect("registered");
    assert_eq!(d.canonical_path.as_str(), "a::Speed");
    assert!(reg.lookup_by_short_name("Velocity").is_none());
}

#[test]
fn substitute_shadows_and_restores() {
    let mut reg = TypeRegistry::new();
    reg.register(opaque("game::Marker", "Marker", "u8")).unwrap();
    let stand_in = opaque("game::Marker", "Marker", "u64");
    let prev = reg.substitute("game::Marker", stand_in).expect("present");
    assert!(matches!(&prev.shape, Shape::OpaqueShape { primitive } if primitive == "u8"));
    let now = reg.lookup_by_path("game::Marker").unwrap();
    assert!(matches!(&now.shape, Shape::OpaqueShape { primitive } if primitive == "u64"));
    // restore exactly once
    let shadow = reg.substitute("game::Marker", prev).expect("present");
    assert!(matches!(&shadow.shape, Shape::OpaqueShape { primitive } if primitive == "u64"));
    let back = reg.lookup_by_path("game::Marker").unwrap();
    assert!(matches!(&back.shape, Shape::OpaqueShape { primitive } if primitive == "u8"));
}

#[test]
fn substitute_without_prior_entry_fails_fast() {
    let mut reg = TypeRegistry::new();
    reg.register(opaque("game::Marker", "Marker", "u8")).unwrap();
    let stand_in = opaque("game::Absent", "Absent", "u64");
    assert!(reg.substitute("game::Absent", stand_in).is_none());
    assert_eq!(reg.len(), 1);
    assert!(reg.lookup_by_path("game::Absent").is_none());
}
