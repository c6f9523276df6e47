use trackit::{
    parse_date_field, AssetData, EntityKind, IntegrityViolation, Inventory, InventoryError,
    LocationData, ProjectData, StorageFault, User,
};

fn loc(name: &str, parent: Option<&str>) -> LocationData {
    LocationData {
        name: name.to_string(),
        location_type: "area".to_string(),
        parent_id: parent.map(|p| p.to_string()),
    }
}

fn proj(name: &str, status: &str) -> ProjectData {
    ProjectData {
        name: name.to_string(),
        description: None,
        status: status.to_string(),
        start_date: None,
        end_date: None,
    }
}

fn asset(name: &str, location: &str, project: Option<&str>, user: Option<&str>) -> AssetData {
    AssetData {
        name: name.to_string(),
        barcode: format!("BC-{}", name),
        asset_type: "laptop".to_string(),
        status: "in_use".to_string(),
        location_id: location.to_string(),
        project_id: project.map(|p| p.to_string()),
        assigned_to_id: user.map(|u| u.to_string()),
    }
}

fn err<T>(e: InventoryError) -> Result<T, InventoryError> {
    Err(e)
}

#[test]
fn warehouse_scenario() {
    let mut inv = Inventory::new();
    let warehouse = inv.create_location(loc("Warehouse", None)).unwrap();
    assert_eq!(warehouse.parent_id, None);
    let shelf = inv.create_location(loc("Shelf A", Some(&warehouse.id))).unwrap();
    assert_eq!(shelf.parent_id.as_deref(), Some(warehouse.id.as_str()));
    assert_eq!(
        inv.delete_location(&warehouse.id).unwrap_err(),
        InventoryError::Integrity(IntegrityViolation::HasChildLocations)
    );
    let gone = inv.delete_location(&shelf.id).unwrap();
    assert_eq!(gone.id, shelf.id);
    let gone = inv.delete_location(&warehouse.id).unwrap();
    assert_eq!(gone.name, "Warehouse");
    assert!(inv.get_locations().is_empty());
}

#[test]
fn rollout_scenario() {
    let mut inv = Inventory::new();
    let site = inv.create_location(loc("Site", None)).unwrap();
    let rollout = inv.create_project(proj("Rollout", "active")).unwrap();
    assert_eq!(rollout.status, "active");
    let a = inv.create_asset(asset("ThinkPad", &site.id, Some(&rollout.id), None)).unwrap();
    assert_eq!(
        inv.delete_project(&rollout.id).unwrap_err(),
        InventoryError::Integrity(IntegrityViolation::HasAssignedAssets)
    );
    let changed = inv.assign_project(&a.id, None).unwrap();
    assert_eq!(changed.project_id, None);
    let gone = inv.delete_project(&rollout.id).unwrap();
    assert_eq!(gone.name, "Rollout");
    assert!(inv.get_projects().is_empty());
}

#[test]
fn location_with_child_is_kept() {
    let mut inv = Inventory::new();
    inv.insert_location("l".to_string(), 5, loc("L", None)).unwrap();
    inv.insert_location("c".to_string(), 6, loc("C", Some("l"))).unwrap();
    assert_eq!(
        inv.delete_location(&"l".to_string()),
        err(InventoryError::Integrity(IntegrityViolation::HasChildLocations))
    );
    assert_eq!(inv.get_locations().len(), 2);
    assert!(inv.get_location(&"l".to_string()).is_ok());
    assert!(inv.get_location(&"c".to_string()).is_ok());
}

#[test]
fn location_with_asset_is_kept() {
    let mut inv = Inventory::new();
    inv.insert_location("l".to_string(), 5, loc("L", None)).unwrap();
    inv.insert_asset("a".to_string(), asset("A", "l", None, None)).unwrap();
    assert_eq!(
        inv.delete_location(&"l".to_string()),
        err(InventoryError::Integrity(IntegrityViolation::ContainsAssets))
    );
    assert!(inv.get_location(&"l".to_string()).is_ok());
}

#[test]
fn children_are_checked_before_assets() {
    let mut inv = Inventory::new();
    inv.insert_location("l".to_string(), 5, loc("L", None)).unwrap();
    inv.insert_location("c".to_string(), 5, loc("C", Some("l"))).unwrap();
    inv.insert_asset("a".to_string(), asset("A", "l", None, None)).unwrap();
    assert_eq!(
        inv.can_delete_location(&"l".to_string()),
        Err(IntegrityViolation::HasChildLocations)
    );
    assert_eq!(
        inv.can_delete_location(&"c".to_string()),
        Ok(())
    );
}

#[test]
fn empty_location_is_deleted() {
    let mut inv = Inventory::new();
    let l = inv.insert_location("l".to_string(), 42, loc("L", None)).unwrap();
    assert_eq!(l.created_at, 42);
    assert_eq!(l.updated_at, 42);
    assert_eq!(l.order, 0);
    assert_eq!(inv.delete_location(&"l".to_string()).unwrap().id, "l");
    assert_eq!(
        inv.get_location(&"l".to_string()),
        err(InventoryError::NotFound(EntityKind::Location))
    );
    assert_eq!(
        inv.delete_location(&"l".to_string()),
        err(InventoryError::NotFound(EntityKind::Location))
    );
}

#[test]
fn project_with_asset_is_kept_until_reassigned() {
    let mut inv = Inventory::new();
    inv.insert_location("l".to_string(), 0, loc("L", None)).unwrap();
    inv.insert_project("p".to_string(), 0, proj("P", "active"), None, None).unwrap();
    inv.insert_project("q".to_string(), 0, proj("Q", "active"), None, None).unwrap();
    inv.insert_asset("a".to_string(), asset("A", "l", Some("p"), None)).unwrap();
    inv.insert_asset("b".to_string(), asset("B", "l", Some("p"), None)).unwrap();
    let blocked = err(InventoryError::Integrity(IntegrityViolation::HasAssignedAssets));
    assert_eq!(inv.delete_project(&"p".to_string()), blocked);
    inv.assign_project(&"a".to_string(), Some("q".to_string())).unwrap();
    assert_eq!(inv.delete_project(&"p".to_string()), blocked);
    inv.assign_project(&"b".to_string(), None).unwrap();
    assert_eq!(inv.delete_project(&"p".to_string()).unwrap().id, "p");
    assert_eq!(inv.delete_project(&"q".to_string()), blocked);
    assert_eq!(
        inv.delete_project(&"p".to_string()),
        err(InventoryError::NotFound(EntityKind::Project))
    );
}

#[test]
fn missing_parent_is_refused() {
    let mut inv = Inventory::new();
    assert_eq!(
        inv.create_location(loc("Orphan", Some("nowhere"))),
        err(InventoryError::Integrity(IntegrityViolation::ParentNotFound))
    );
    assert_eq!(
        inv.can_attach_parent(&"nowhere".to_string()),
        Err(IntegrityViolation::ParentNotFound)
    );
    assert!(inv.get_locations().is_empty());
    let root = inv.create_location(loc("Root", None)).unwrap();
    assert_eq!(inv.can_attach_parent(&root.id), Ok(()));
    let child = inv.create_location(loc("Child", Some(&root.id))).unwrap();
    assert_eq!(child.parent_id, Some(root.id.clone()));
    assert_eq!(child.name, "Child");
    assert_eq!(child.location_type, "area");
}

#[test]
fn created_asset_reads_back() {
    let mut inv = Inventory::new();
    inv.insert_location("l".to_string(), 0, loc("Lab", None)).unwrap();
    inv.insert_user(User { id: "u".to_string(), name: "Ada".to_string() }).unwrap();
    let a = inv.create_asset(asset("Scope", "l", None, Some("u"))).unwrap();
    let d = inv.get_asset(&a.id).unwrap();
    assert_eq!(d.asset, a);
    assert_eq!(d.location.id, "l");
    assert_eq!(d.location.name, "Lab");
    assert_eq!(d.assigned_to, Some(User { id: "u".to_string(), name: "Ada".to_string() }));
    let b = inv.create_asset(asset("Probe", "l", None, None)).unwrap();
    let d = inv.get_asset(&b.id).unwrap();
    assert_eq!(d.location.id, "l");
    assert_eq!(d.assigned_to, None);
}

#[test]
fn asset_listings() {
    let mut inv = Inventory::new();
    inv.insert_location("l".to_string(), 0, loc("Lab", None)).unwrap();
    inv.insert_asset("a".to_string(), asset("A", "l", None, None)).unwrap();
    inv.insert_asset("b".to_string(), asset("B", "l", None, None)).unwrap();
    let all = inv.get_assets();
    assert_eq!(all.len(), 2);
    assert_eq!(all[0].asset.id, "a");
    assert_eq!(all[1].asset.id, "b");
    assert_eq!(all[1].location.name, "Lab");
    let rows = inv.get_asset_summaries();
    assert_eq!(rows.len(), 2);
    assert_eq!(rows[0].barcode, "BC-A");
    assert_eq!(rows[1].type_, "laptop");
    assert_eq!(rows[1].status, "in_use");
}

#[test]
fn unknown_asset_is_not_found() {
    let mut inv = Inventory::new();
    assert_eq!(
        inv.get_asset(&"x".to_string()).unwrap_err(),
        InventoryError::NotFound(EntityKind::Asset)
    );
    assert_eq!(
        inv.assign_project(&"x".to_string(), None).unwrap_err(),
        InventoryError::NotFound(EntityKind::Asset)
    );
    inv.insert_location("l".to_string(), 0, loc("L", None)).unwrap();
    inv.insert_asset("a".to_string(), asset("A", "l", None, None)).unwrap();
    assert_eq!(
        inv.assign_project(&"a".to_string(), Some("nope".to_string())).unwrap_err(),
        InventoryError::NotFound(EntityKind::Project)
    );
}

#[test]
fn broken_references_are_refused() {
    let mut inv = Inventory::new();
    let missing = InventoryError::Storage(StorageFault::MissingReference);
    assert_eq!(inv.create_asset(asset("A", "l", None, None)).unwrap_err(), missing);
    inv.insert_location("l".to_string(), 0, loc("L", None)).unwrap();
    assert_eq!(inv.create_asset(asset("A", "l", Some("p"), None)).unwrap_err(), missing);
    assert_eq!(inv.create_asset(asset("A", "l", None, Some("u"))).unwrap_err(), missing);
    assert!(inv.get_assets().is_empty());
}

#[test]
fn duplicate_identifiers_are_refused() {
    let mut inv = Inventory::new();
    let dup = InventoryError::Storage(StorageFault::DuplicateId);
    inv.insert_location("l".to_string(), 0, loc("L", None)).unwrap();
    assert_eq!(inv.insert_location("l".to_string(), 0, loc("M", None)).unwrap_err(), dup);
    inv.insert_project("p".to_string(), 0, proj("P", "active"), None, None).unwrap();
    assert_eq!(
        inv.insert_project("p".to_string(), 0, proj("P", "active"), None, None).unwrap_err(),
        dup
    );
    inv.insert_asset("a".to_string(), asset("A", "l", None, None)).unwrap();
    assert_eq!(inv.insert_asset("a".to_string(), asset("B", "l", None, None)).unwrap_err(), dup);
    let u = User { id: "u".to_string(), name: "U".to_string() };
    inv.insert_user(u.clone()).unwrap();
    assert_eq!(inv.insert_user(u).unwrap_err(), dup);
}

#[test]
fn duplicate_names_are_allowed() {
    let mut inv = Inventory::new();
    let a = inv.create_location(loc("Same", None)).unwrap();
    let b = inv.create_location(loc("Same", None)).unwrap();
    assert_ne!(a.id, b.id);
    assert_eq!(a.id.len(), 36);
    assert_eq!(inv.get_locations().len(), 2);
}

#[test]
fn project_dates_are_parsed() {
    let mut inv = Inventory::new();
    let mut data = proj("Rollout", "active");
    data.description = Some("laptops".to_string());
    data.start_date = Some("2024-01-01T00:00:00Z".to_string());
    data.end_date = Some("2024-01-02T00:00:00+01:00".to_string());
    let p = inv.create_project(data).unwrap();
    assert_eq!(p.start_date, Some(1704067200));
    assert_eq!(p.end_date, Some(1704150000));
    assert_eq!(p.description.as_deref(), Some("laptops"));
    assert_eq!(p.order, 0);
}

#[test]
fn bad_project_date_is_refused() {
    let mut inv = Inventory::new();
    let mut data = proj("Rollout", "active");
    data.end_date = Some("next tuesday".to_string());
    assert_eq!(inv.create_project(data).unwrap_err(), InventoryError::InvalidDate);
    assert!(inv.get_projects().is_empty());
    assert_eq!(parse_date_field(&None), Ok(None));
    assert_eq!(
        parse_date_field(&Some("2024-13-01T00:00:00Z".to_string())),
        Err(InventoryError::InvalidDate)
    );
}

#[test]
fn error_messages() {
    assert_eq!(
        InventoryError::Integrity(IntegrityViolation::HasChildLocations).message(),
        "Cannot delete location with child locations"
    );
    assert_eq!(
        InventoryError::Integrity(IntegrityViolation::ContainsAssets).message(),
        "Cannot delete location that contains assets"
    );
    assert_eq!(
        InventoryError::Integrity(IntegrityViolation::HasAssignedAssets).message(),
        "Cannot delete project that has assigned assets"
    );
    assert_eq!(
        InventoryError::Integrity(IntegrityViolation::ParentNotFound).message(),
        "Parent location not found"
    );
    assert_eq!(InventoryError::NotFound(EntityKind::Asset).message(), "Asset not found");
    assert_eq!(InventoryError::NotFound(EntityKind::Location).message(), "Location not found");
    assert_eq!(InventoryError::InvalidDate.message(), "Invalid date");
}

#[test]
fn parents_stand_before_children() {
    let mut inv = Inventory::new();
    let root = inv.create_location(loc("Building", None)).unwrap();
    let floor = inv.create_location(loc("Floor 1", Some(&root.id))).unwrap();
    let room = inv.create_location(loc("Room 101", Some(&floor.id))).unwrap();
    let all = inv.get_locations();
    let ids: Vec<&str> = all.iter().map(|l| l.id.as_str()).collect();
    assert_eq!(ids, vec![root.id.as_str(), floor.id.as_str(), room.id.as_str()]);
    assert_eq!(
        inv.delete_location(&floor.id).unwrap_err(),
        InventoryError::Integrity(IntegrityViolation::HasChildLocations)
    );
    inv.delete_location(&room.id).unwrap();
    inv.delete_location(&floor.id).unwrap();
    let again = inv.create_location(loc("Floor 2", Some(&root.id))).unwrap();
    assert_eq!(inv.get_locations()[1].id, again.id);
}

#[test]
fn creation_is_stamped_with_the_clock() {
    let mut inv = Inventory::new();
    let l = inv.create_location(loc("Dock", None)).unwrap();
    assert_eq!(l.created_at, l.updated_at);
    assert!(l.created_at > 1_600_000_000);
    let p = inv.create_project(proj("Audit", "completed")).unwrap();
    assert_eq!(p.created_at, p.updated_at);
    assert!(p.created_at > 1_600_000_000);
    assert_eq!(p.start_date, None);
}
