use ndmig::registry::{build_registry, image_matches, ContainerDescriptor, Registry};
use ndmig::select::{parse_operation, resolve_selection, Operation};

fn descriptor(id: Option<&str>, names: &[&str], image: Option<&str>) -> ContainerDescriptor {
    ContainerDescriptor {
        id: id.map(|s| s.to_string()),
        names: names.iter().map(|s| s.to_string()).collect(),
        image: image.map(|s| s.to_string()),
    }
}

#[test]
fn signature_is_exact_image_equality() {
    assert!(image_matches(&Some("postgres".to_string())));
    assert!(!image_matches(&Some("postgres:15".to_string())));
    assert!(!image_matches(&Some("postgresql".to_string())));
    assert!(!image_matches(&None));
}

#[test]
fn registry_keeps_exactly_matching_database_containers() {
    let containers = vec![
        // image and suffix both match: included
        descriptor(Some("cid1"), &["/acme-postgres-db-1"], Some("postgres")),
        // matching image, wrong role suffix: excluded
        descriptor(Some("cid2"), &["/acme-bot-1"], Some("postgres")),
        // role suffix without the matching image: excluded
        descriptor(Some("cid3"), &["/beta-postgres-db-1"], Some("mysql")),
        // inspection failure (no image): excluded
        descriptor(Some("cid4"), &["/gamma-postgres-db-1"], None),
        // no identity: skipped silently
        descriptor(None, &["/delta-postgres-db-1"], Some("postgres")),
    ];
    let registry = build_registry(&containers);
    assert_eq!(registry.get("acme-postgres-db-1"), Some(&"cid1".to_string()));
    assert_eq!(registry.get("acme-bot-1"), None);
    assert_eq!(registry.get("beta-postgres-db-1"), None);
    assert_eq!(registry.get("gamma-postgres-db-1"), None);
    assert_eq!(registry.get("delta-postgres-db-1"), None);
    assert_eq!(registry.keys(), vec!["acme-postgres-db-1".to_string()]);
}

#[test]
fn registry_falls_back_to_identity_when_no_name_is_reported() {
    let containers = vec![descriptor(Some("raw-postgres-db-1"), &[], Some("postgres"))];
    let registry = build_registry(&containers);
    assert_eq!(
        registry.get("raw-postgres-db-1"),
        Some(&"raw-postgres-db-1".to_string())
    );
}

#[test]
fn registry_uses_first_reported_name_only() {
    let containers = vec![descriptor(
        Some("cid1"),
        &["/one-postgres-db-1", "/two-postgres-db-1"],
        Some("postgres"),
    )];
    let registry = build_registry(&containers);
    assert_eq!(registry.get("one-postgres-db-1"), Some(&"cid1".to_string()));
    assert_eq!(registry.get("two-postgres-db-1"), None);
}

#[test]
fn colliding_names_overwrite_last_seen_wins() {
    let containers = vec![
        descriptor(Some("cid1"), &["/acme-postgres-db-1"], Some("postgres")),
        descriptor(Some("cid2"), &["/acme-postgres-db-1"], Some("postgres")),
    ];
    let registry = build_registry(&containers);
    assert_eq!(registry.get("acme-postgres-db-1"), Some(&"cid2".to_string()));
}

#[test]
fn empty_listing_gives_empty_registry() {
    let registry = build_registry(&vec![]);
    assert!(registry.is_empty());
    assert_eq!(registry.keys(), Vec::<String>::new());
}

#[test]
fn insert_and_get_round_trip() {
    let mut registry = Registry::new();
    assert!(registry.is_empty());
    registry.insert("acme-postgres-db-1".to_string(), "cid123".to_string());
    assert!(!registry.is_empty());
    assert_eq!(registry.get("acme-postgres-db-1"), Some(&"cid123".to_string()));
    assert_eq!(registry.get("other"), None);
}

#[test]
fn operation_menu_accepts_exactly_the_two_choices() {
    assert_eq!(parse_operation("1"), Some(Operation::Export));
    assert_eq!(parse_operation("2"), Some(Operation::Import));
    assert_eq!(parse_operation(""), None);
    assert_eq!(parse_operation("3"), None);
    assert_eq!(parse_operation("12"), None);
    assert_eq!(parse_operation("export"), None);
}

#[test]
fn selection_resolves_only_registered_instances() {
    let mut registry = Registry::new();
    registry.insert("acme-postgres-db-1".to_string(), "cid123".to_string());
    let selected = resolve_selection(&registry, "acme");
    assert_eq!(
        selected,
        Some(("acme-postgres-db-1".to_string(), "cid123".to_string()))
    );
    assert_eq!(resolve_selection(&registry, "beta"), None);
    assert_eq!(resolve_selection(&registry, "acme-postgres-db-1"), None);
}

#[test]
fn selection_on_empty_registry_rejects_any_input() {
    let registry = Registry::new();
    assert_eq!(resolve_selection(&registry, "acme"), None);
    assert_eq!(resolve_selection(&registry, ""), None);
}
