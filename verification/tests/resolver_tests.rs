use sparrow::PLACEHOLDER_NODE_ID;
use sparrow::resolver::ContextSlot;
use sparrow::resolver::ResolutionContext;
use sparrow::resolver::resolve_name;

fn ctx_for(instance_id: u64, names: &[(&str, u64)]) -> ResolutionContext {
    ResolutionContext {
        instance_id,
        names: names.iter().map(|(n, id)| (n.to_string(), *id)).collect(),
    }
}

#[test]
fn resolution_is_instance_scoped() {
    // two instantiations of the same authored content, each with a "Hinge"
    let a = ctx_for(1, &[("Hinge", 101), ("Door", 102)]);
    let b = ctx_for(2, &[("Hinge", 201), ("Door", 202)]);
    let (na, oka) = resolve_name(Some(&a), "Hinge");
    assert!(oka);
    assert_eq!(na, 101);
    let (nb, okb) = resolve_name(Some(&b), "Hinge");
    assert!(okb);
    assert_eq!(nb, 201);
}

#[test]
fn resolution_is_idempotent() {
    let a = ctx_for(1, &[("Hinge", 101)]);
    let first = resolve_name(Some(&a), "Hinge");
    let second = resolve_name(Some(&a), "Hinge");
    assert_eq!(first, second);
}

#[test]
fn absent_name_resolves_to_placeholder() {
    let a = ctx_for(1, &[("Hinge", 101)]);
    let (n, ok) = resolve_name(Some(&a), "Latch");
    assert!(!ok);
    assert_eq!(n, PLACEHOLDER_NODE_ID);
}

#[test]
fn no_context_resolves_to_placeholder() {
    let (n, ok) = resolve_name(None, "Hinge");
    assert!(!ok);
    assert_eq!(n, PLACEHOLDER_NODE_ID);
}

#[test]
fn first_table_entry_wins() {
    let a = ctx_for(1, &[("Hinge", 101), ("Hinge", 999)]);
    let (n, ok) = resolve_name(Some(&a), "Hinge");
    assert!(ok);
    assert_eq!(n, 101);
}

#[test]
fn slot_install_is_single_owner() {
    let mut slot = ContextSlot::new();
    assert!(slot.installed().is_none());
    slot.install(ctx_for(1, &[("Hinge", 101)])).unwrap();
    assert!(slot.installed().is_some());
    // nested install is a programming error and fails fast
    assert!(slot.install(ctx_for(2, &[("Hinge", 201)])).is_err());
    let back = slot.teardown().expect("was installed");
    assert_eq!(back.instance_id, 1);
    assert!(slot.installed().is_none());
    assert!(slot.teardown().is_none());
    // after teardown a fresh install succeeds
    slot.install(ctx_for(2, &[("Hinge", 201)])).unwrap();
    assert_eq!(slot.installed().unwrap().instance_id, 2);
}
