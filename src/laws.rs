//! Properties of the inventory operations that span several records or calls.
use vstd::prelude::*;
use crate::model::{AssetData, EntityKind, IntegrityViolation, InventoryError, LocationData};
use crate::rules::{
    asset_ids, asset_lookup, assign_project_outcome, delete_location_outcome,
    delete_project_outcome, has_assigned_assets, has_child_location, holds_assets, index_in,
    insert_asset_outcome, insert_location_outcome, lemma_index_in_found, lemma_index_in_unique,
    lemma_parent_exists, lemma_push_no_duplicates, location_ids, location_lookup, new_location,
    parent_precedes, project_ids, refers_to, user_ids, well_formed, InventoryView,
};

verus! {

/// Removing an entry of a list without duplicates removes every occurrence.
proof fn lemma_remove_drops(ids: Seq<Seq<char>>, i: int)
    requires
        ids.no_duplicates(),
        0 <= i < ids.len(),
    ensures
        !ids.remove(i).contains(ids[i]),
{
    let r = ids.remove(i);
    assert forall|k: int| 0 <= k < r.len() implies r[k] != ids[i] by {
        if k < i {
            assert(r[k] == ids[k]);
        } else {
            assert(r[k] == ids[k + 1]);
        }
    }
}

/// Deleting a location that another location has as its parent fails with
/// `HasChildLocations` and removes neither of them: the state is unchanged.
pub proof fn law_location_with_child_is_kept(v: InventoryView, id: Seq<char>, child: int)
    requires
        well_formed(v),
        0 <= child < v.locations.len(),
        refers_to(v.locations[child].parent_id, id),
    ensures
        delete_location_outcome(v, id) == (
            Err::<crate::model::Location, InventoryError>(
                InventoryError::Integrity(IntegrityViolation::HasChildLocations),
            ),
            v,
        ),
{
    assert(has_child_location(v, id));
    assert(parent_precedes(v.locations, child));
    lemma_parent_exists(v.locations, child);
    lemma_index_in_found(location_ids(v.locations), id);
}

/// Deleting a location in which an asset is placed, and which no location has
/// as parent, fails with `ContainsAssets` and leaves the state unchanged.
pub proof fn law_location_with_asset_is_kept(v: InventoryView, id: Seq<char>, asset: int)
    requires
        well_formed(v),
        0 <= asset < v.assets.len(),
        v.assets[asset].location_id@ == id,
        !has_child_location(v, id),
    ensures
        delete_location_outcome(v, id) == (
            Err::<crate::model::Location, InventoryError>(
                InventoryError::Integrity(IntegrityViolation::ContainsAssets),
            ),
            v,
        ),
{
    assert(holds_assets(v, id));
    assert(crate::rules::asset_refs_resolve(v, v.assets[asset]));
    lemma_index_in_found(location_ids(v.locations), id);
}

/// Deleting an existing location with no child locations and no assets
/// succeeds with its record, and a later lookup of it gives `NotFound`.
pub proof fn law_empty_location_is_deleted(v: InventoryView, id: Seq<char>)
    requires
        well_formed(v),
        location_ids(v.locations).contains(id),
        !has_child_location(v, id),
        !holds_assets(v, id),
    ensures
        delete_location_outcome(v, id).0 == Ok::<crate::model::Location, InventoryError>(
            v.locations[index_in(location_ids(v.locations), id)],
        ),
        delete_location_outcome(v, id).0->Ok_0.id@ == id,
        location_lookup(delete_location_outcome(v, id).1, id) == Err::<
            crate::model::Location,
            InventoryError,
        >(InventoryError::NotFound(EntityKind::Location)),
{
    let ids = location_ids(v.locations);
    let i = index_in(ids, id);
    lemma_index_in_found(ids, id);
    let next = delete_location_outcome(v, id).1;
    assert(location_ids(next.locations) =~= ids.remove(i));
    lemma_remove_drops(ids, i);
}

/// Deleting a project to which an asset is assigned fails with
/// `HasAssignedAssets` and leaves the state unchanged.
pub proof fn law_project_with_asset_is_kept(v: InventoryView, id: Seq<char>, asset: int)
    requires
        well_formed(v),
        0 <= asset < v.assets.len(),
        refers_to(v.assets[asset].project_id, id),
    ensures
        delete_project_outcome(v, id) == (
            Err::<crate::model::Project, InventoryError>(
                InventoryError::Integrity(IntegrityViolation::HasAssignedAssets),
            ),
            v,
        ),
{
    assert(has_assigned_assets(v, id));
    assert(crate::rules::asset_refs_resolve(v, v.assets[asset]));
    lemma_index_in_found(project_ids(v.projects), id);
}

/// Deleting an existing project to which no asset is assigned succeeds with
/// its record.
pub proof fn law_unassigned_project_is_deleted(v: InventoryView, id: Seq<char>)
    requires
        well_formed(v),
        project_ids(v.projects).contains(id),
        !has_assigned_assets(v, id),
    ensures
        delete_project_outcome(v, id).0 == Ok::<crate::model::Project, InventoryError>(
            v.projects[index_in(project_ids(v.projects), id)],
        ),
        delete_project_outcome(v, id).0->Ok_0.id@ == id,
{
    lemma_index_in_found(project_ids(v.projects), id);
}

/// When the asset `asset_id` is the only one assigned to the project `id`,
/// unassigning it succeeds and the project can then be deleted.
pub proof fn law_unassign_then_delete_project(
    v: InventoryView,
    id: Seq<char>,
    asset_id: Seq<char>,
)
    requires
        well_formed(v),
        project_ids(v.projects).contains(id),
        asset_ids(v.assets).contains(asset_id),
        forall|k: int|
            0 <= k < v.assets.len() && refers_to(#[trigger] v.assets[k].project_id, id)
                ==> v.assets[k].id@ == asset_id,
    ensures
        assign_project_outcome(v, asset_id, None).0 is Ok,
        delete_project_outcome(assign_project_outcome(v, asset_id, None).1, id).0 is Ok,
{
    let ids = asset_ids(v.assets);
    let i = index_in(ids, asset_id);
    lemma_index_in_found(ids, asset_id);
    let v1 = assign_project_outcome(v, asset_id, None).1;
    assert forall|k: int| 0 <= k < v1.assets.len() implies !refers_to(
        #[trigger] v1.assets[k].project_id,
        id,
    ) by {
        if k != i {
            assert(v1.assets[k] == v.assets[k]);
            if refers_to(v.assets[k].project_id, id) {
                assert(ids[k] == ids[i]);
            }
        }
    }
    assert(project_ids(v1.projects) == project_ids(v.projects));
    lemma_index_in_found(project_ids(v1.projects), id);
}

/// Creating a location whose given parent does not exist fails with
/// `ParentNotFound` and changes nothing; when the parent exists and the new
/// identifier is unused, the new location records that parent.
pub proof fn law_parent_must_exist(
    v: InventoryView,
    id: String,
    now: i64,
    data: LocationData,
    parent: String,
)
    requires
        well_formed(v),
        data.parent_id == Some(parent),
    ensures
        !location_ids(v.locations).contains(parent@) ==> insert_location_outcome(v, id, now, data)
            == (
            Err::<crate::model::Location, InventoryError>(
                InventoryError::Integrity(IntegrityViolation::ParentNotFound),
            ),
            v,
        ),
        location_ids(v.locations).contains(parent@) && !location_ids(v.locations).contains(id@)
            ==> insert_location_outcome(v, id, now, data).0 == Ok::<
            crate::model::Location,
            InventoryError,
        >(new_location(id, now, data)) && new_location(id, now, data).parent_id == Some(parent)
            && location_lookup(insert_location_outcome(v, id, now, data).1, id@) == Ok::<
            crate::model::Location,
            InventoryError,
        >(new_location(id, now, data)),
{
    if location_ids(v.locations).contains(parent@) && !location_ids(v.locations).contains(id@) {
        let ids = location_ids(v.locations);
        let next = insert_location_outcome(v, id, now, data).1;
        assert(location_ids(next.locations) =~= ids.push(id@));
        lemma_push_no_duplicates(ids, id@);
        lemma_index_in_unique(location_ids(next.locations), ids.len() as int);
    }
}

/// An asset that was created can be read back: its record, location and
/// assignee are those given at creation.
pub proof fn law_created_asset_reads_back(v: InventoryView, id: String, data: AssetData)
    requires
        well_formed(v),
        insert_asset_outcome(v, id, data).0 is Ok,
    ensures
        ({
            let next = insert_asset_outcome(v, id, data).1;
            let d = asset_lookup(next, id@);
            &&& d is Ok
            &&& d->Ok_0.asset == insert_asset_outcome(v, id, data).0->Ok_0
            &&& d->Ok_0.location.id@ == data.location_id@
            &&& match data.assigned_to_id {
                Some(u) => d->Ok_0.assigned_to is Some && d->Ok_0.assigned_to->Some_0.id@ == u@,
                None => d->Ok_0.assigned_to is None,
            }
        }),
{
    let ids = asset_ids(v.assets);
    let next = insert_asset_outcome(v, id, data).1;
    assert(asset_ids(next.assets) =~= ids.push(id@));
    lemma_push_no_duplicates(ids, id@);
    lemma_index_in_unique(asset_ids(next.assets), ids.len() as int);
    lemma_index_in_found(location_ids(next.locations), data.location_id@);
    match data.assigned_to_id {
        Some(u) => lemma_index_in_found(user_ids(next.users), u@),
        None => {},
    }
}

/// The locations form a forest: following a parent link always leads to an
/// existing location at an earlier position, so no chain of parent links
/// comes back to where it started.
pub proof fn law_parent_links_descend(v: InventoryView, i: int)
    requires
        well_formed(v),
        0 <= i < v.locations.len(),
        v.locations[i].parent_id is Some,
    ensures
        0 <= index_in(location_ids(v.locations), v.locations[i].parent_id->Some_0@) < i,
{
    let p = v.locations[i].parent_id->Some_0;
    assert(parent_precedes(v.locations, i));
    let j = choose|j: int| 0 <= j < i && (#[trigger] v.locations[j]).id@ == p@;
    assert(location_ids(v.locations)[j] == p@);
    lemma_index_in_unique(location_ids(v.locations), j);
}

} // verus!
