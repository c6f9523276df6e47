use vstd::prelude::*;
use crate::model::{
    Asset, AssetData, AssetDetails, AssetOut, EntityKind, IntegrityViolation, InventoryError,
    Location, LocationData, Project, ProjectData, StorageFault, User,
};

use crate::stamps::parsed_instant;

verus! {

/// The abstract state of an inventory: its four tables, in insertion order.
pub struct InventoryView {
    pub locations: Seq<Location>,
    pub projects: Seq<Project>,
    pub assets: Seq<Asset>,
    pub users: Seq<User>,
}

pub open spec fn location_ids(s: Seq<Location>) -> Seq<Seq<char>> {
    s.map_values(|l: Location| l.id@)
}

pub open spec fn project_ids(s: Seq<Project>) -> Seq<Seq<char>> {
    s.map_values(|p: Project| p.id@)
}

pub open spec fn asset_ids(s: Seq<Asset>) -> Seq<Seq<char>> {
    s.map_values(|a: Asset| a.id@)
}

pub open spec fn user_ids(s: Seq<User>) -> Seq<Seq<char>> {
    s.map_values(|u: User| u.id@)
}

/// Whether an optional reference names the identifier `id`.
pub open spec fn refers_to(r: Option<String>, id: Seq<char>) -> bool {
    match r {
        Some(s) => s@ == id,
        None => false,
    }
}

/// The position of `id` in a list of identifiers, or -1 when it is absent.
pub open spec fn index_in(ids: Seq<Seq<char>>, id: Seq<char>) -> int {
    if ids.contains(id) {
        choose|i: int| 0 <= i < ids.len() && ids[i] == id
    } else {
        -1
    }
}

/// An optional reference that is either absent or names one of `ids`.
pub open spec fn resolves_or_none(r: Option<String>, ids: Seq<Seq<char>>) -> bool {
    match r {
        Some(s) => ids.contains(s@),
        None => true,
    }
}

/// The parent of the location at position `i`, if it has one, stands at an
/// earlier position. Positions strictly decrease along parent links, so
/// following them always ends at a root: no location is its own ancestor,
/// and the locations form a forest.
pub open spec fn parent_precedes(locs: Seq<Location>, i: int) -> bool {
    match locs[i].parent_id {
        Some(p) => exists|j: int| 0 <= j < i && (#[trigger] locs[j]).id@ == p@,
        None => true,
    }
}

/// The consistency of an inventory: identifiers are unique in each table and
/// every reference names an existing record; a parent location is older
/// than its children.
pub open spec fn well_formed(v: InventoryView) -> bool {
    &&& location_ids(v.locations).no_duplicates()
    &&& project_ids(v.projects).no_duplicates()
    &&& asset_ids(v.assets).no_duplicates()
    &&& user_ids(v.users).no_duplicates()
    &&& forall|i: int| 0 <= i < v.locations.len() ==> #[trigger] parent_precedes(v.locations, i)
    &&& forall|i: int| 0 <= i < v.assets.len() ==> asset_refs_resolve(v, #[trigger] v.assets[i])
}

pub open spec fn asset_refs_resolve(v: InventoryView, a: Asset) -> bool {
    &&& location_ids(v.locations).contains(a.location_id@)
    &&& resolves_or_none(a.project_id, project_ids(v.projects))
    &&& resolves_or_none(a.assigned_to_id, user_ids(v.users))
}

/// Some location has `id` as its parent.
pub open spec fn has_child_location(v: InventoryView, id: Seq<char>) -> bool {
    exists|i: int| 0 <= i < v.locations.len() && refers_to(#[trigger] v.locations[i].parent_id, id)
}

/// Some asset is placed in the location `id`.
pub open spec fn holds_assets(v: InventoryView, id: Seq<char>) -> bool {
    exists|i: int| 0 <= i < v.assets.len() && (#[trigger] v.assets[i]).location_id@ == id
}

/// Some asset is assigned to the project `id`.
pub open spec fn has_assigned_assets(v: InventoryView, id: Seq<char>) -> bool {
    exists|i: int| 0 <= i < v.assets.len() && refers_to(#[trigger] v.assets[i].project_id, id)
}

/// The integrity decision on deleting the location `id`: children are
/// checked before contained assets.
pub open spec fn location_deletion_check(v: InventoryView, id: Seq<char>) -> Result<
    (),
    IntegrityViolation,
> {
    if has_child_location(v, id) {
        Err(IntegrityViolation::HasChildLocations)
    } else if holds_assets(v, id) {
        Err(IntegrityViolation::ContainsAssets)
    } else {
        Ok(())
    }
}

/// The integrity decision on deleting the project `id`.
pub open spec fn project_deletion_check(v: InventoryView, id: Seq<char>) -> Result<
    (),
    IntegrityViolation,
> {
    if has_assigned_assets(v, id) {
        Err(IntegrityViolation::HasAssignedAssets)
    } else {
        Ok(())
    }
}

/// The integrity decision on making `parent` the parent of a location.
pub open spec fn parent_check(v: InventoryView, parent: Seq<char>) -> Result<(), IntegrityViolation> {
    if location_ids(v.locations).contains(parent) {
        Ok(())
    } else {
        Err(IntegrityViolation::ParentNotFound)
    }
}

pub open spec fn with_locations(v: InventoryView, locations: Seq<Location>) -> InventoryView {
    InventoryView { locations, projects: v.projects, assets: v.assets, users: v.users }
}

pub open spec fn with_projects(v: InventoryView, projects: Seq<Project>) -> InventoryView {
    InventoryView { locations: v.locations, projects, assets: v.assets, users: v.users }
}

pub open spec fn with_assets(v: InventoryView, assets: Seq<Asset>) -> InventoryView {
    InventoryView { locations: v.locations, projects: v.projects, assets, users: v.users }
}

pub open spec fn with_users(v: InventoryView, users: Seq<User>) -> InventoryView {
    InventoryView { locations: v.locations, projects: v.projects, assets: v.assets, users }
}

/// The record that a location insert with identifier `id` at time `now` stores.
pub open spec fn new_location(id: String, now: i64, data: LocationData) -> Location {
    Location {
        id,
        name: data.name,
        location_type: data.location_type,
        parent_id: data.parent_id,
        created_at: now,
        updated_at: now,
        order: 0,
    }
}

/// Result and next state of inserting a location under a chosen identifier.
pub open spec fn insert_location_outcome(
    v: InventoryView,
    id: String,
    now: i64,
    data: LocationData,
) -> (Result<Location, InventoryError>, InventoryView) {
    if data.parent_id is Some && parent_check(v, data.parent_id->Some_0@) is Err {
        (Err(InventoryError::Integrity(IntegrityViolation::ParentNotFound)), v)
    } else if location_ids(v.locations).contains(id@) {
        (Err(InventoryError::Storage(StorageFault::DuplicateId)), v)
    } else {
        let l = new_location(id, now, data);
        (Ok(l), with_locations(v, v.locations.push(l)))
    }
}

/// Result and next state of deleting the location `id`.
pub open spec fn delete_location_outcome(v: InventoryView, id: Seq<char>) -> (
    Result<Location, InventoryError>,
    InventoryView,
) {
    let i = index_in(location_ids(v.locations), id);
    if i < 0 {
        (Err(InventoryError::NotFound(EntityKind::Location)), v)
    } else if location_deletion_check(v, id) is Err {
        (Err(InventoryError::Integrity(location_deletion_check(v, id)->Err_0)), v)
    } else {
        (Ok(v.locations[i]), with_locations(v, v.locations.remove(i)))
    }
}

/// Result of looking up the location `id`.
pub open spec fn location_lookup(v: InventoryView, id: Seq<char>) -> Result<Location, InventoryError> {
    let i = index_in(location_ids(v.locations), id);
    if i < 0 {
        Err(InventoryError::NotFound(EntityKind::Location))
    } else {
        Ok(v.locations[i])
    }
}

/// The record that a project insert with identifier `id` at time `now` stores,
/// with its dates already parsed.
pub open spec fn new_project(
    id: String,
    now: i64,
    data: ProjectData,
    start_date: Option<i64>,
    end_date: Option<i64>,
) -> Project {
    Project {
        id,
        name: data.name,
        description: data.description,
        status: data.status,
        start_date,
        end_date,
        created_at: now,
        updated_at: now,
        order: 0,
    }
}

/// Result and next state of inserting a project under a chosen identifier.
pub open spec fn insert_project_outcome(
    v: InventoryView,
    id: String,
    now: i64,
    data: ProjectData,
    start_date: Option<i64>,
    end_date: Option<i64>,
) -> (Result<Project, InventoryError>, InventoryView) {
    if project_ids(v.projects).contains(id@) {
        (Err(InventoryError::Storage(StorageFault::DuplicateId)), v)
    } else {
        let p = new_project(id, now, data, start_date, end_date);
        (Ok(p), with_projects(v, v.projects.push(p)))
    }
}

/// Result and next state of deleting the project `id`.
pub open spec fn delete_project_outcome(v: InventoryView, id: Seq<char>) -> (
    Result<Project, InventoryError>,
    InventoryView,
) {
    let i = index_in(project_ids(v.projects), id);
    if i < 0 {
        (Err(InventoryError::NotFound(EntityKind::Project)), v)
    } else if project_deletion_check(v, id) is Err {
        (Err(InventoryError::Integrity(IntegrityViolation::HasAssignedAssets)), v)
    } else {
        (Ok(v.projects[i]), with_projects(v, v.projects.remove(i)))
    }
}

/// Result and next state of adding a user.
pub open spec fn insert_user_outcome(v: InventoryView, user: User) -> (
    Result<User, InventoryError>,
    InventoryView,
) {
    if user_ids(v.users).contains(user.id@) {
        (Err(InventoryError::Storage(StorageFault::DuplicateId)), v)
    } else {
        (Ok(user), with_users(v, v.users.push(user)))
    }
}

/// The record that an asset insert with identifier `id` stores.
pub open spec fn new_asset(id: String, data: AssetData) -> Asset {
    Asset {
        id,
        name: data.name,
        barcode: data.barcode,
        asset_type: data.asset_type,
        status: data.status,
        location_id: data.location_id,
        project_id: data.project_id,
        assigned_to_id: data.assigned_to_id,
    }
}

/// Result and next state of inserting an asset under a chosen identifier:
/// its location, and its project and assignee where given, must exist.
pub open spec fn insert_asset_outcome(v: InventoryView, id: String, data: AssetData) -> (
    Result<Asset, InventoryError>,
    InventoryView,
) {
    if !asset_refs_resolve(v, new_asset(id, data)) {
        (Err(InventoryError::Storage(StorageFault::MissingReference)), v)
    } else if asset_ids(v.assets).contains(id@) {
        (Err(InventoryError::Storage(StorageFault::DuplicateId)), v)
    } else {
        let a = new_asset(id, data);
        (Ok(a), with_assets(v, v.assets.push(a)))
    }
}

/// An asset with its project reference replaced.
pub open spec fn with_project(a: Asset, project_id: Option<String>) -> Asset {
    Asset {
        id: a.id,
        name: a.name,
        barcode: a.barcode,
        asset_type: a.asset_type,
        status: a.status,
        location_id: a.location_id,
        project_id,
        assigned_to_id: a.assigned_to_id,
    }
}

/// Result and next state of assigning the asset `id` to a project, or of
/// unassigning it with `None`.
pub open spec fn assign_project_outcome(
    v: InventoryView,
    id: Seq<char>,
    project_id: Option<String>,
) -> (Result<Asset, InventoryError>, InventoryView) {
    let i = index_in(asset_ids(v.assets), id);
    if i < 0 {
        (Err(InventoryError::NotFound(EntityKind::Asset)), v)
    } else if !resolves_or_none(project_id, project_ids(v.projects)) {
        (Err(InventoryError::NotFound(EntityKind::Project)), v)
    } else {
        let a = with_project(v.assets[i], project_id);
        (Ok(a), with_assets(v, v.assets.update(i, a)))
    }
}

/// An asset with its location and assignee looked up.
pub open spec fn details_of(v: InventoryView, a: Asset) -> AssetDetails {
    AssetDetails {
        asset: a,
        location: v.locations[index_in(location_ids(v.locations), a.location_id@)],
        assigned_to: match a.assigned_to_id {
            Some(u) => Some(v.users[index_in(user_ids(v.users), u@)]),
            None => None,
        },
    }
}

/// Result of looking up the asset `id` with its location and assignee.
pub open spec fn asset_lookup(v: InventoryView, id: Seq<char>) -> Result<
    AssetDetails,
    InventoryError,
> {
    let i = index_in(asset_ids(v.assets), id);
    if i < 0 {
        Err(InventoryError::NotFound(EntityKind::Asset))
    } else {
        Ok(details_of(v, v.assets[i]))
    }
}

/// Every asset with its location and assignee, in the order of insertion.
pub open spec fn asset_listing(v: InventoryView) -> Seq<AssetDetails> {
    v.assets.map_values(|a: Asset| details_of(v, a))
}

/// The listing row of an asset.
pub open spec fn summary_of(a: Asset) -> AssetOut {
    AssetOut { id: a.id, name: a.name, barcode: a.barcode, status: a.status, type_: a.asset_type }
}

/// The outcome of reading an optional date text: no text gives no date, a
/// text that does not parse gives `InvalidDate`.
pub open spec fn date_field_outcome(text: Option<String>) -> Result<Option<i64>, InventoryError> {
    match text {
        None => Ok(None),
        Some(t) => match parsed_instant(t@) {
            Some(x) => Ok(Some(x)),
            None => Err(InventoryError::InvalidDate),
        },
    }
}

// ---- lemmas on identifier lists ----

/// A parent that stands before its child is an existing location.
pub proof fn lemma_parent_exists(locs: Seq<Location>, i: int)
    requires
        0 <= i < locs.len(),
        parent_precedes(locs, i),
        locs[i].parent_id is Some,
    ensures
        location_ids(locs).contains(locs[i].parent_id->Some_0@),
{
    let p = locs[i].parent_id->Some_0;
    let j = choose|j: int| 0 <= j < i && (#[trigger] locs[j]).id@ == p@;
    assert(location_ids(locs)[j] == p@);
}

/// In a list without duplicates, the position of an element is where it stands.
pub proof fn lemma_index_in_unique(ids: Seq<Seq<char>>, i: int)
    requires
        ids.no_duplicates(),
        0 <= i < ids.len(),
    ensures
        index_in(ids, ids[i]) == i,
{
    assert(ids.contains(ids[i]));
}

pub proof fn lemma_index_in_found(ids: Seq<Seq<char>>, id: Seq<char>)
    requires
        ids.contains(id),
    ensures
        0 <= index_in(ids, id) < ids.len(),
        ids[index_in(ids, id)] == id,
{
}

/// Removing one entry keeps a list free of duplicates.
pub proof fn lemma_remove_no_duplicates(ids: Seq<Seq<char>>, i: int)
    requires
        ids.no_duplicates(),
        0 <= i < ids.len(),
    ensures
        ids.remove(i).no_duplicates(),
{
    let r = ids.remove(i);
    assert forall|a: int, b: int| 0 <= a < r.len() && 0 <= b < r.len() && a != b implies r[a]
        != r[b] by {
        let a0 = if a < i { a } else { a + 1 };
        let b0 = if b < i { b } else { b + 1 };
        assert(r[a] == ids[a0]);
        assert(r[b] == ids[b0]);
    }
}

/// Removing an entry other than `x` keeps `x` in the list.
pub proof fn lemma_remove_keeps(ids: Seq<Seq<char>>, i: int, x: Seq<char>)
    requires
        0 <= i < ids.len(),
        ids.contains(x),
        ids[i] != x,
    ensures
        ids.remove(i).contains(x),
{
    let k = choose|k: int| 0 <= k < ids.len() && ids[k] == x;
    if k < i {
        assert(ids.remove(i)[k] == x);
    } else {
        assert(ids.remove(i)[k - 1] == x);
    }
}

/// Appending an absent entry keeps a list free of duplicates.
pub proof fn lemma_push_no_duplicates(ids: Seq<Seq<char>>, x: Seq<char>)
    requires
        ids.no_duplicates(),
        !ids.contains(x),
    ensures
        ids.push(x).no_duplicates(),
{
    let r = ids.push(x);
    assert forall|a: int, b: int| 0 <= a < r.len() && 0 <= b < r.len() && a != b implies r[a]
        != r[b] by {
        if a < ids.len() && b < ids.len() {
            assert(r[a] == ids[a] && r[b] == ids[b]);
        } else if a < ids.len() {
            assert(r[a] == ids[a]);
        } else {
            assert(r[b] == ids[b]);
        }
    }
}

/// Appending keeps every entry.
pub proof fn lemma_push_keeps(ids: Seq<Seq<char>>, y: Seq<char>, x: Seq<char>)
    requires
        ids.contains(x),
    ensures
        ids.push(y).contains(x),
{
    let k = choose|k: int| 0 <= k < ids.len() && ids[k] == x;
    assert(ids.push(y)[k] == x);
}

} // verus!
