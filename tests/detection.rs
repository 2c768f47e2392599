use watchdog::classify::{classify_assets, DetectedAssetKind};
use watchdog::model::{store_build_number, Asset, AssetType, Branch, Build, DetectionError};
use watchdog::plan::{canonicalize_roles, plan_build_on_branch, plan_detected_assets, Statement};
use watchdog::store::MemoryStore;

fn build(hash: &str, number: u64) -> Build {
    Build { hash: hash.to_string(), number }
}

fn css(name: &str) -> Asset {
    Asset { name: name.to_string(), typ: AssetType::Stylesheet }
}

fn js(name: &str) -> Asset {
    Asset { name: name.to_string(), typ: AssetType::Script }
}

fn roles(labels: &[&str]) -> Vec<String> {
    labels.iter().map(|s| s.to_string()).collect()
}

fn find_asset<'a>(store: &'a MemoryStore, name: &str) -> Vec<&'a watchdog::plan::AssetRow> {
    store.assets().iter().filter(|r| r.name == name).collect()
}

#[test]
fn branch_names_are_lower_case() {
    assert_eq!(Branch::Stable.name(), "stable");
    assert_eq!(Branch::Ptb.name(), "ptb");
    assert_eq!(Branch::Canary.name(), "canary");
    assert_eq!(Branch::Development.name(), "development");
}

#[test]
fn build_number_bounds() {
    assert_eq!(store_build_number(0), Ok(0));
    assert_eq!(store_build_number(2147483647), Ok(2147483647));
    assert_eq!(
        store_build_number(2147483648),
        Err(DetectionError::BuildNumberOutOfRange { number: 2147483648 })
    );
    assert_eq!(
        store_build_number(u64::MAX),
        Err(DetectionError::BuildNumberOutOfRange { number: u64::MAX })
    );
}

#[test]
fn build_recorded_twice_keeps_one_build_and_two_observations() {
    let mut store = MemoryStore::new();
    let b = build("abc123", 1000);
    assert_eq!(store.detected_build_change_on_branch(&b, Branch::Canary), Ok(()));
    assert_eq!(store.detected_build_change_on_branch(&b, Branch::Canary), Ok(()));
    assert_eq!(store.builds().len(), 1);
    assert_eq!(store.builds()[0].build_id, "abc123");
    assert_eq!(store.builds()[0].build_number, 1000);
    assert_eq!(store.observations().len(), 2);
    for row in store.observations() {
        assert_eq!(row.build_id, "abc123");
        assert_eq!(row.branch, Branch::Canary);
    }
    assert!(store.observations()[0].detected_at < store.observations()[1].detected_at);
}

#[test]
fn known_build_keeps_its_first_number() {
    let mut store = MemoryStore::new();
    assert_eq!(store.detected_build_change_on_branch(&build("h", 1), Branch::Stable), Ok(()));
    assert_eq!(store.detected_build_change_on_branch(&build("h", 2), Branch::Ptb), Ok(()));
    assert_eq!(store.builds().len(), 1);
    assert_eq!(store.builds()[0].build_number, 1);
    assert_eq!(store.observations().len(), 2);
}

#[test]
fn latest_observation_is_last_known_build() {
    let mut store = MemoryStore::new();
    assert_eq!(store.last_known_build_hash_on_branch(Branch::Stable), None);
    assert_eq!(store.detected_build_change_on_branch(&build("A", 1), Branch::Stable), Ok(()));
    assert_eq!(store.detected_build_change_on_branch(&build("X", 7), Branch::Canary), Ok(()));
    assert_eq!(store.detected_build_change_on_branch(&build("B", 2), Branch::Stable), Ok(()));
    assert_eq!(store.last_known_build_hash_on_branch(Branch::Stable), Some("B".to_string()));
    assert_eq!(store.last_known_build_hash_on_branch(Branch::Canary), Some("X".to_string()));
    assert_eq!(store.last_known_build_hash_on_branch(Branch::Ptb), None);
    assert_eq!(store.last_known_build_hash_on_branch(Branch::Development), None);
}

#[test]
fn going_back_to_an_earlier_build_counts_as_latest() {
    let mut store = MemoryStore::new();
    assert_eq!(store.detected_build_change_on_branch(&build("A", 1), Branch::Ptb), Ok(()));
    assert_eq!(store.detected_build_change_on_branch(&build("B", 2), Branch::Ptb), Ok(()));
    assert_eq!(store.detected_build_change_on_branch(&build("A", 1), Branch::Ptb), Ok(()));
    assert_eq!(store.last_known_build_hash_on_branch(Branch::Ptb), Some("A".to_string()));
}

#[test]
fn scripts_take_roles_by_position() {
    let mut store = MemoryStore::new();
    let b = build("h1", 5);
    let assets = vec![js("s0.js"), js("s1.js"), js("s2.js")];
    assert_eq!(store.detected_assets(&b, &assets, &roles(&["r0", "r1"])), Ok(()));
    assert_eq!(store.assets().len(), 2);
    let s0 = find_asset(&store, "s0.js");
    assert_eq!(s0.len(), 1);
    assert!(s0[0].surface);
    assert_eq!(s0[0].script_type, Some("r0".to_string()));
    assert_eq!(s0[0].build_id, "h1");
    let s1 = find_asset(&store, "s1.js");
    assert_eq!(s1.len(), 1);
    assert_eq!(s1[0].script_type, Some("r1".to_string()));
    assert!(find_asset(&store, "s2.js").is_empty());
}

#[test]
fn stylesheets_are_surface_without_role() {
    let mut store = MemoryStore::new();
    let b = build("h2", 5);
    let assets = vec![js("a.js"), css("one.css"), js("b.js"), css("two.css")];
    assert_eq!(store.detected_assets(&b, &assets, &roles(&["loader", "main"])), Ok(()));
    assert_eq!(store.assets().len(), 4);
    for name in ["one.css", "two.css"] {
        let rows = find_asset(&store, name);
        assert_eq!(rows.len(), 1);
        assert!(rows[0].surface);
        assert_eq!(rows[0].script_type, None);
    }
    assert_eq!(find_asset(&store, "a.js")[0].script_type, Some("loader".to_string()));
    assert_eq!(find_asset(&store, "b.js")[0].script_type, Some("main".to_string()));
}

#[test]
fn assets_recorded_twice_keep_first_classification() {
    let mut store = MemoryStore::new();
    let b = build("h3", 9);
    let assets = vec![css("x.css"), js("p.js"), js("q.js")];
    assert_eq!(store.detected_assets(&b, &assets, &roles(&["first", "second"])), Ok(()));
    assert_eq!(store.detected_assets(&b, &assets, &roles(&["other", "roles"])), Ok(()));
    assert_eq!(store.assets().len(), 3);
    assert_eq!(find_asset(&store, "p.js")[0].script_type, Some("first".to_string()));
    assert_eq!(find_asset(&store, "q.js")[0].script_type, Some("second".to_string()));
}

#[test]
fn assets_recorded_twice_with_same_roles_change_nothing() {
    let mut store = MemoryStore::new();
    let b = build("h4", 9);
    let assets = vec![css("x.css"), js("p.js"), js("q.js"), js("r.js")];
    let labels = roles(&["one", "two"]);
    assert_eq!(store.detected_assets(&b, &assets, &labels), Ok(()));
    let before: Vec<(String, Option<String>)> =
        store.assets().iter().map(|r| (r.name.clone(), r.script_type.clone())).collect();
    assert_eq!(store.detected_assets(&b, &assets, &labels), Ok(()));
    let after: Vec<(String, Option<String>)> =
        store.assets().iter().map(|r| (r.name.clone(), r.script_type.clone())).collect();
    assert_eq!(before, after);
    assert_eq!(after.len(), 3);
}

#[test]
fn failed_second_insert_records_no_asset() {
    let mut store = MemoryStore::new();
    let b = build("h5", 3);
    let assets = vec![css("a.css"), css("b.css")];
    let start = store.ticks();
    store.set_fail_at(Some(start + 1));
    assert_eq!(
        store.detected_assets(&b, &assets, &roles(&[])),
        Err(DetectionError::StoreFailure { statement: 1 })
    );
    assert!(store.assets().is_empty());
    store.set_fail_at(None);
    assert_eq!(store.detected_assets(&b, &assets, &roles(&[])), Ok(()));
    assert_eq!(store.assets().len(), 2);
}

#[test]
fn failed_observation_leaves_no_build() {
    let mut store = MemoryStore::new();
    store.set_fail_at(Some(1));
    assert_eq!(
        store.detected_build_change_on_branch(&build("h6", 4), Branch::Stable),
        Err(DetectionError::StoreFailure { statement: 1 })
    );
    assert!(store.builds().is_empty());
    assert!(store.observations().is_empty());
    assert_eq!(store.last_known_build_hash_on_branch(Branch::Stable), None);
}

#[test]
fn oversized_build_number_never_reaches_the_store() {
    let mut store = MemoryStore::new();
    let b = build("h7", 2147483648);
    assert_eq!(
        store.detected_build_change_on_branch(&b, Branch::Stable),
        Err(DetectionError::BuildNumberOutOfRange { number: 2147483648 })
    );
    assert_eq!(store.ticks(), 0);
    assert!(store.builds().is_empty());
    assert!(store.observations().is_empty());
    assert!(plan_build_on_branch(&b, Branch::Stable).is_err());
}

#[test]
fn largest_build_number_is_accepted() {
    let mut store = MemoryStore::new();
    let b = build("h8", 2147483647);
    assert_eq!(store.detected_build_change_on_branch(&b, Branch::Development), Ok(()));
    assert_eq!(store.builds()[0].build_number, i32::MAX);
    assert_eq!(store.ticks(), 2);
}

#[test]
fn role_labels_are_stored_lower_case() {
    assert_eq!(
        canonicalize_roles(&roles(&["ChunkLoader", "MAIN", "vendor"])),
        roles(&["chunkloader", "main", "vendor"])
    );
    let mut store = MemoryStore::new();
    let assets = vec![js("c.js")];
    assert_eq!(store.detected_assets(&build("h9", 1), &assets, &roles(&["ChunkLoader"])), Ok(()));
    assert_eq!(store.assets()[0].script_type, Some("chunkloader".to_string()));
}

#[test]
fn classification_orders_stylesheets_before_scripts() {
    let assets = vec![js("a.js"), css("s.css"), js("b.js")];
    let detected = classify_assets(&assets, &roles(&["r"]));
    assert_eq!(detected.len(), 2);
    assert_eq!(detected[0].name, "s.css");
    assert!(matches!(detected[0].kind, DetectedAssetKind::Surface));
    assert_eq!(detected[1].name, "a.js");
    assert!(matches!(&detected[1].kind, DetectedAssetKind::SurfaceScript(r) if r == "r"));
    assert!(detected[1].kind.is_surface());
    assert!(!DetectedAssetKind::Deep.is_surface());
    assert_eq!(DetectedAssetKind::Deep.script_type(), None);
    assert!(classify_assets(&vec![], &roles(&["r"])).is_empty());
    assert!(classify_assets(&vec![js("a.js")], &roles(&[])).is_empty());
}

#[test]
fn plans_list_the_writes() {
    let b = build("hp", 12);
    let plan = plan_build_on_branch(&b, Branch::Canary).unwrap();
    assert_eq!(plan.len(), 2);
    assert!(matches!(&plan[0], Statement::InsertBuild { build_id, build_number: 12 } if build_id == "hp"));
    assert!(matches!(&plan[1], Statement::InsertObservation { build_id, branch: Branch::Canary } if build_id == "hp"));
    let assets = vec![css("s.css"), js("a.js")];
    let plan = plan_detected_assets(&b, &assets, &roles(&["Main"]));
    assert_eq!(plan.len(), 2);
    match &plan[1] {
        Statement::InsertAsset(row) => {
            assert_eq!(row.build_id, "hp");
            assert_eq!(row.name, "a.js");
            assert!(row.surface);
            assert_eq!(row.script_type, Some("main".to_string()));
        }
        _ => panic!("expected an asset insert"),
    }
}
