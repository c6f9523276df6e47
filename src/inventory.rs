use vstd::prelude::*;
use crate::model::{
    Asset, AssetData, AssetDetails, AssetOut, EntityKind, IntegrityViolation, InventoryError,
    Location, LocationData, Project, ProjectData, StorageFault, User,
};
use crate::rules::{
    asset_ids, asset_listing, asset_lookup, asset_refs_resolve, assign_project_outcome,
    date_field_outcome, delete_location_outcome, delete_project_outcome, details_of,
    has_child_location, holds_assets, insert_asset_outcome, insert_location_outcome,
    insert_project_outcome, insert_user_outcome, lemma_index_in_unique, lemma_push_keeps,
    lemma_push_no_duplicates, lemma_remove_keeps, lemma_remove_no_duplicates,
    location_deletion_check, location_ids, location_lookup, parent_check, parent_precedes,
    project_deletion_check, project_ids, refers_to, resolves_or_none, summary_of, user_ids,
    well_formed, InventoryView,
};
use crate::stamps::{fresh_id, now_seconds, parse_instant};

verus! {

/// The stored records of the inventory. Every mutation goes through the
/// integrity checks, so that the tables stay well formed.
pub struct Inventory {
    locations: Vec<Location>,
    projects: Vec<Project>,
    assets: Vec<Asset>,
    users: Vec<User>,
}

impl View for Inventory {
    type V = InventoryView;

    closed spec fn view(&self) -> InventoryView {
        InventoryView {
            locations: self.locations@,
            projects: self.projects@,
            assets: self.assets@,
            users: self.users@,
        }
    }
}

fn copy_opt_string(o: &Option<String>) -> (r: Option<String>)
    ensures
        r == *o,
{
    match o {
        Some(s) => Some(s.clone()),
        None => None,
    }
}

fn copy_location(l: &Location) -> (r: Location)
    ensures
        r == *l,
{
    Location {
        id: l.id.clone(),
        name: l.name.clone(),
        location_type: l.location_type.clone(),
        parent_id: copy_opt_string(&l.parent_id),
        created_at: l.created_at,
        updated_at: l.updated_at,
        order: l.order,
    }
}

fn copy_project(p: &Project) -> (r: Project)
    ensures
        r == *p,
{
    Project {
        id: p.id.clone(),
        name: p.name.clone(),
        description: copy_opt_string(&p.description),
        status: p.status.clone(),
        start_date: p.start_date,
        end_date: p.end_date,
        created_at: p.created_at,
        updated_at: p.updated_at,
        order: p.order,
    }
}

fn copy_asset(a: &Asset) -> (r: Asset)
    ensures
        r == *a,
{
    Asset {
        id: a.id.clone(),
        name: a.name.clone(),
        barcode: a.barcode.clone(),
        asset_type: a.asset_type.clone(),
        status: a.status.clone(),
        location_id: a.location_id.clone(),
        project_id: copy_opt_string(&a.project_id),
        assigned_to_id: copy_opt_string(&a.assigned_to_id),
    }
}

fn copy_user(u: &User) -> (r: User)
    ensures
        r == *u,
{
    User { id: u.id.clone(), name: u.name.clone() }
}

impl Inventory {
    pub open spec fn wf(&self) -> bool {
        well_formed(self@)
    }

    /// An inventory with no records.
    pub fn new() -> (r: Inventory)
        ensures
            r.wf(),
            r@.locations.len() == 0,
            r@.projects.len() == 0,
            r@.assets.len() == 0,
            r@.users.len() == 0,
    {
        Inventory { locations: Vec::new(), projects: Vec::new(), assets: Vec::new(), users: Vec::new() }
    }

    fn find_location(&self, id: &String) -> (r: Option<usize>)
        ensures
            match r {
                Some(i) => i < self@.locations.len() && location_ids(self@.locations)[i as int]
                    == id@,
                None => !location_ids(self@.locations).contains(id@),
            },
    {
        let mut i: usize = 0;
        while i < self.locations.len()
            invariant
                i <= self.locations.len(),
                forall|j: int| 0 <= j < i ==> self.locations@[j].id@ != id@,
            decreases self.locations.len() - i,
        {
            if self.locations[i].id == *id {
                return Some(i);
            }
            i = i + 1;
        }
        None
    }

    /// Whether any location has `id` as its parent.
    fn any_child_of(&self, id: &String) -> (r: bool)
        ensures
            r == has_child_location(self@, id@),
    {
        let mut i: usize = 0;
        while i < self.locations.len()
            invariant
                i <= self.locations.len(),
                forall|j: int| 0 <= j < i ==> !refers_to(#[trigger] self.locations@[j].parent_id, id@),
            decreases self.locations.len() - i,
        {
            match &self.locations[i].parent_id {
                Some(p) => {
                    if *p == *id {
                        return true;
                    }
                },
                None => {},
            }
            i = i + 1;
        }
        false
    }

    /// Whether any asset is placed in the location `id`.
    fn any_asset_in(&self, id: &String) -> (r: bool)
        ensures
            r == holds_assets(self@, id@),
    {
        let mut i: usize = 0;
        while i < self.assets.len()
            invariant
                i <= self.assets.len(),
                forall|j: int| 0 <= j < i ==> (#[trigger] self.assets@[j]).location_id@ != id@,
            decreases self.assets.len() - i,
        {
            if self.assets[i].location_id == *id {
                return true;
            }
            i = i + 1;
        }
        false
    }

    /// Decides whether the location `id` may be deleted: it fails with
    /// `HasChildLocations` when a location has it as parent, else with
    /// `ContainsAssets` when an asset is placed in it.
    pub fn can_delete_location(&self, id: &String) -> (r: Result<(), IntegrityViolation>)
        ensures
            r == location_deletion_check(self@, id@),
    {
        if self.any_child_of(id) {
            Err(IntegrityViolation::HasChildLocations)
        } else if self.any_asset_in(id) {
            Err(IntegrityViolation::ContainsAssets)
        } else {
            Ok(())
        }
    }

    /// Decides whether `parent_id` may become the parent of a location: it
    /// fails with `ParentNotFound` unless it names an existing location.
    pub fn can_attach_parent(&self, parent_id: &String) -> (r: Result<(), IntegrityViolation>)
        ensures
            r == parent_check(self@, parent_id@),
    {
        match self.find_location(parent_id) {
            Some(_) => Ok(()),
            None => Err(IntegrityViolation::ParentNotFound),
        }
    }

    /// The location `id`, or `NotFound`.
    pub fn get_location(&self, id: &String) -> (r: Result<Location, InventoryError>)
        requires
            self.wf(),
        ensures
            r == location_lookup(self@, id@),
    {
        match self.find_location(id) {
            Some(i) => {
                proof {
                    lemma_index_in_unique(location_ids(self@.locations), i as int);
                }
                Ok(copy_location(&self.locations[i]))
            },
            None => Err(InventoryError::NotFound(EntityKind::Location)),
        }
    }

    /// All locations, in the order they were created.
    pub fn get_locations(&self) -> (r: Vec<Location>)
        ensures
            r@ == self@.locations,
    {
        let mut r: Vec<Location> = Vec::new();
        let mut i: usize = 0;
        while i < self.locations.len()
            invariant
                i <= self.locations.len(),
                r@ == self.locations@.subrange(0, i as int),
            decreases self.locations.len() - i,
        {
            r.push(copy_location(&self.locations[i]));
            i = i + 1;
            assert(r@ =~= self.locations@.subrange(0, i as int));
        }
        assert(r@ =~= self.locations@);
        r
    }

    /// Inserts a location under the identifier `id`, created and updated at
    /// `now`. A given parent must name an existing location, and `id` must be
    /// unused.
    pub fn insert_location(&mut self, id: String, now: i64, data: LocationData) -> (r: Result<
        Location,
        InventoryError,
    >)
        requires
            old(self).wf(),
        ensures
            final(self).wf(),
            (r, final(self)@) == insert_location_outcome(old(self)@, id, now, data),
    {
        match &data.parent_id {
            Some(p) => {
                if self.can_attach_parent(p).is_err() {
                    return Err(InventoryError::Integrity(IntegrityViolation::ParentNotFound));
                }
            },
            None => {},
        }
        if self.find_location(&id).is_some() {
            return Err(InventoryError::Storage(StorageFault::DuplicateId));
        }
        let ghost v = self@;
        let l = Location {
            id,
            name: data.name,
            location_type: data.location_type,
            parent_id: data.parent_id,
            created_at: now,
            updated_at: now,
            order: 0,
        };
        let r = copy_location(&l);
        self.locations.push(l);
        proof {
            let ids = location_ids(v.locations);
            let nids = location_ids(self@.locations);
            assert(nids =~= ids.push(r.id@));
            lemma_push_no_duplicates(ids, r.id@);
            assert forall|i: int| 0 <= i < self@.locations.len() implies #[trigger] parent_precedes(
                self@.locations,
                i,
            ) by {
                if i < v.locations.len() {
                    assert(self@.locations[i] == v.locations[i]);
                    assert(parent_precedes(v.locations, i));
                    match v.locations[i].parent_id {
                        Some(p) => {
                            let j = choose|j: int| 0 <= j < i && (#[trigger] v.locations[j]).id@ == p@;
                            assert(self@.locations[j] == v.locations[j]);
                        },
                        None => {},
                    }
                } else {
                    match r.parent_id {
                        Some(p) => {
                            let j = choose|j: int| 0 <= j < ids.len() && ids[j] == p@;
                            assert(self@.locations[j] == v.locations[j]);
                        },
                        None => {},
                    }
                }
            }
            assert forall|i: int| 0 <= i < self@.assets.len() implies
                asset_refs_resolve(self@, #[trigger] self@.assets[i]) by {
                lemma_push_keeps(ids, r.id@, self@.assets[i].location_id@);
            }
        }
        Ok(r)
    }

    /// Deletes the location `id` and returns its record. It fails with
    /// `NotFound` when no location has that identifier, and with the
    /// integrity violation of `can_delete_location` otherwise.
    pub fn delete_location(&mut self, id: &String) -> (r: Result<Location, InventoryError>)
        requires
            old(self).wf(),
        ensures
            final(self).wf(),
            (r, final(self)@) == delete_location_outcome(old(self)@, id@),
    {
        let i = match self.find_location(id) {
            Some(i) => i,
            None => {
                return Err(InventoryError::NotFound(EntityKind::Location));
            },
        };
        proof {
            lemma_index_in_unique(location_ids(self@.locations), i as int);
        }
        match self.can_delete_location(id) {
            Err(e) => {
                return Err(InventoryError::Integrity(e));
            },
            Ok(()) => {},
        }
        let ghost v = self@;
        let l = self.locations.remove(i);
        proof {
            let ids = location_ids(v.locations);
            let nids = location_ids(self@.locations);
            assert(nids =~= ids.remove(i as int));
            lemma_remove_no_duplicates(ids, i as int);
            assert forall|k: int| 0 <= k < self@.locations.len() implies #[trigger] parent_precedes(
                self@.locations,
                k,
            ) by {
                let k0 = if k < i { k } else { k + 1 };
                assert(self@.locations[k] == v.locations[k0]);
                assert(parent_precedes(v.locations, k0));
                match v.locations[k0].parent_id {
                    Some(p) => {
                        assert(!refers_to(v.locations[k0].parent_id, id@));
                        let j = choose|j: int| 0 <= j < k0 && (#[trigger] v.locations[j]).id@ == p@;
                        assert(j != i);
                        let j1 = if j < i { j } else { j - 1 };
                        assert(self@.locations[j1] == v.locations[j]);
                    },
                    None => {},
                }
            }
            assert forall|k: int| 0 <= k < self@.assets.len() implies
                asset_refs_resolve(self@, #[trigger] self@.assets[k]) by {
                assert(self@.assets[k].location_id@ != id@);
                lemma_remove_keeps(ids, i as int, self@.assets[k].location_id@);
            }
        }
        Ok(l)
    }

    fn find_project(&self, id: &String) -> (r: Option<usize>)
        ensures
            match r {
                Some(i) => i < self@.projects.len() && project_ids(self@.projects)[i as int] == id@,
                None => !project_ids(self@.projects).contains(id@),
            },
    {
        let mut i: usize = 0;
        while i < self.projects.len()
            invariant
                i <= self.projects.len(),
                forall|j: int| 0 <= j < i ==> self.projects@[j].id@ != id@,
            decreases self.projects.len() - i,
        {
            if self.projects[i].id == *id {
                return Some(i);
            }
            i = i + 1;
        }
        None
    }

    fn find_asset(&self, id: &String) -> (r: Option<usize>)
        ensures
            match r {
                Some(i) => i < self@.assets.len() && asset_ids(self@.assets)[i as int] == id@,
                None => !asset_ids(self@.assets).contains(id@),
            },
    {
        let mut i: usize = 0;
        while i < self.assets.len()
            invariant
                i <= self.assets.len(),
                forall|j: int| 0 <= j < i ==> self.assets@[j].id@ != id@,
            decreases self.assets.len() - i,
        {
            if self.assets[i].id == *id {
                return Some(i);
            }
            i = i + 1;
        }
        None
    }

    fn find_user(&self, id: &String) -> (r: Option<usize>)
        ensures
            match r {
                Some(i) => i < self@.users.len() && user_ids(self@.users)[i as int] == id@,
                None => !user_ids(self@.users).contains(id@),
            },
    {
        let mut i: usize = 0;
        while i < self.users.len()
            invariant
                i <= self.users.len(),
                forall|j: int| 0 <= j < i ==> self.users@[j].id@ != id@,
            decreases self.users.len() - i,
        {
            if self.users[i].id == *id {
                return Some(i);
            }
            i = i + 1;
        }
        None
    }

    /// Decides whether the project `id` may be deleted: it fails with
    /// `HasAssignedAssets` when an asset is assigned to it.
    pub fn can_delete_project(&self, id: &String) -> (r: Result<(), IntegrityViolation>)
        ensures
            r == project_deletion_check(self@, id@),
    {
        let mut i: usize = 0;
        while i < self.assets.len()
            invariant
                i <= self.assets.len(),
                forall|j: int| 0 <= j < i ==> !refers_to(#[trigger] self.assets@[j].project_id, id@),
            decreases self.assets.len() - i,
        {
            match &self.assets[i].project_id {
                Some(p) => {
                    if *p == *id {
                        return Err(IntegrityViolation::HasAssignedAssets);
                    }
                },
                None => {},
            }
            i = i + 1;
        }
        Ok(())
    }

    /// All projects, in the order they were created.
    pub fn get_projects(&self) -> (r: Vec<Project>)
        ensures
            r@ == self@.projects,
    {
        let mut r: Vec<Project> = Vec::new();
        let mut i: usize = 0;
        while i < self.projects.len()
            invariant
                i <= self.projects.len(),
                r@ == self.projects@.subrange(0, i as int),
            decreases self.projects.len() - i,
        {
            r.push(copy_project(&self.projects[i]));
            i = i + 1;
            assert(r@ =~= self.projects@.subrange(0, i as int));
        }
        assert(r@ =~= self.projects@);
        r
    }

    /// Inserts a project under the identifier `id`, created and updated at
    /// `now`, with dates already parsed. `id` must be unused.
    pub fn insert_project(
        &mut self,
        id: String,
        now: i64,
        data: ProjectData,
        start_date: Option<i64>,
        end_date: Option<i64>,
    ) -> (r: Result<Project, InventoryError>)
        requires
            old(self).wf(),
        ensures
            final(self).wf(),
            (r, final(self)@) == insert_project_outcome(
                old(self)@,
                id,
                now,
                data,
                start_date,
                end_date,
            ),
    {
        if self.find_project(&id).is_some() {
            return Err(InventoryError::Storage(StorageFault::DuplicateId));
        }
        let ghost v = self@;
        let p = Project {
            id,
            name: data.name,
            description: data.description,
            status: data.status,
            start_date,
            end_date,
            created_at: now,
            updated_at: now,
            order: 0,
        };
        let r = copy_project(&p);
        self.projects.push(p);
        proof {
            let ids = project_ids(v.projects);
            assert(project_ids(self@.projects) =~= ids.push(r.id@));
            lemma_push_no_duplicates(ids, r.id@);
            assert(self@.locations == v.locations);
            assert forall|i: int| 0 <= i < self@.assets.len() implies
                asset_refs_resolve(self@, #[trigger] self@.assets[i]) by {
                assert(self@.assets[i] == v.assets[i]);
                assert(asset_refs_resolve(v, v.assets[i]));
                match self@.assets[i].project_id {
                    Some(q) => lemma_push_keeps(ids, r.id@, q@),
                    None => {},
                }
            }
        }
        Ok(r)
    }

    /// Deletes the project `id` and returns its record. It fails with
    /// `NotFound` when no project has that identifier, and with
    /// `HasAssignedAssets` while an asset is assigned to it.
    pub fn delete_project(&mut self, id: &String) -> (r: Result<Project, InventoryError>)
        requires
            old(self).wf(),
        ensures
            final(self).wf(),
            (r, final(self)@) == delete_project_outcome(old(self)@, id@),
    {
        let i = match self.find_project(id) {
            Some(i) => i,
            None => {
                return Err(InventoryError::NotFound(EntityKind::Project));
            },
        };
        proof {
            lemma_index_in_unique(project_ids(self@.projects), i as int);
        }
        if self.can_delete_project(id).is_err() {
            return Err(InventoryError::Integrity(IntegrityViolation::HasAssignedAssets));
        }
        let ghost v = self@;
        let p = self.projects.remove(i);
        proof {
            let ids = project_ids(v.projects);
            assert(project_ids(self@.projects) =~= ids.remove(i as int));
            lemma_remove_no_duplicates(ids, i as int);
            assert(self@.locations == v.locations);
            assert forall|k: int| 0 <= k < self@.assets.len() implies
                asset_refs_resolve(self@, #[trigger] self@.assets[k]) by {
                assert(self@.assets[k] == v.assets[k]);
                assert(asset_refs_resolve(v, v.assets[k]));
                match self@.assets[k].project_id {
                    Some(q) => {
                        assert(!refers_to(v.assets[k].project_id, id@));
                        lemma_remove_keeps(ids, i as int, q@);
                    },
                    None => {},
                }
            }
        }
        Ok(p)
    }

    /// Adds a user that assets can be assigned to. Its identifier must be unused.
    pub fn insert_user(&mut self, user: User) -> (r: Result<User, InventoryError>)
        requires
            old(self).wf(),
        ensures
            final(self).wf(),
            (r, final(self)@) == insert_user_outcome(old(self)@, user),
    {
        if self.find_user(&user.id).is_some() {
            return Err(InventoryError::Storage(StorageFault::DuplicateId));
        }
        let ghost v = self@;
        let r = copy_user(&user);
        self.users.push(user);
        proof {
            let ids = user_ids(v.users);
            assert(user_ids(self@.users) =~= ids.push(r.id@));
            lemma_push_no_duplicates(ids, r.id@);
            assert(self@.locations == v.locations);
            assert forall|i: int| 0 <= i < self@.assets.len() implies
                asset_refs_resolve(self@, #[trigger] self@.assets[i]) by {
                assert(self@.assets[i] == v.assets[i]);
                assert(asset_refs_resolve(v, v.assets[i]));
                match self@.assets[i].assigned_to_id {
                    Some(u) => lemma_push_keeps(ids, r.id@, u@),
                    None => {},
                }
            }
        }
        Ok(r)
    }

    /// Whether an optional project reference is absent or names a project.
    fn project_resolves(&self, project_id: &Option<String>) -> (r: bool)
        ensures
            r == resolves_or_none(*project_id, project_ids(self@.projects)),
    {
        match project_id {
            Some(p) => self.find_project(p).is_some(),
            None => true,
        }
    }

    /// Inserts an asset under the identifier `id`. Its location, and its
    /// project and assignee where given, must exist, and `id` must be unused.
    pub fn insert_asset(&mut self, id: String, data: AssetData) -> (r: Result<Asset, InventoryError>)
        requires
            old(self).wf(),
        ensures
            final(self).wf(),
            (r, final(self)@) == insert_asset_outcome(old(self)@, id, data),
    {
        let refs_ok = self.find_location(&data.location_id).is_some()
            && self.project_resolves(&data.project_id)
            && match &data.assigned_to_id {
            Some(u) => self.find_user(u).is_some(),
            None => true,
        };
        if !refs_ok {
            return Err(InventoryError::Storage(StorageFault::MissingReference));
        }
        if self.find_asset(&id).is_some() {
            return Err(InventoryError::Storage(StorageFault::DuplicateId));
        }
        let ghost v = self@;
        let a = Asset {
            id,
            name: data.name,
            barcode: data.barcode,
            asset_type: data.asset_type,
            status: data.status,
            location_id: data.location_id,
            project_id: data.project_id,
            assigned_to_id: data.assigned_to_id,
        };
        let r = copy_asset(&a);
        self.assets.push(a);
        proof {
            let ids = asset_ids(v.assets);
            assert(asset_ids(self@.assets) =~= ids.push(r.id@));
            lemma_push_no_duplicates(ids, r.id@);
            assert(self@.locations == v.locations);
            assert forall|i: int| 0 <= i < self@.assets.len() implies
                asset_refs_resolve(self@, #[trigger] self@.assets[i]) by {
                if i < v.assets.len() {
                    assert(self@.assets[i] == v.assets[i]);
                    assert(asset_refs_resolve(v, v.assets[i]));
                }
            }
        }
        Ok(r)
    }

    /// Assigns the asset `id` to the project `project_id`, or unassigns it
    /// with `None`, and returns the changed record. It fails with `NotFound`
    /// when the asset, or a given project, does not exist.
    pub fn assign_project(&mut self, id: &String, project_id: Option<String>) -> (r: Result<
        Asset,
        InventoryError,
    >)
        requires
            old(self).wf(),
        ensures
            final(self).wf(),
            (r, final(self)@) == assign_project_outcome(old(self)@, id@, project_id),
    {
        let i = match self.find_asset(id) {
            Some(i) => i,
            None => {
                return Err(InventoryError::NotFound(EntityKind::Asset));
            },
        };
        proof {
            lemma_index_in_unique(asset_ids(self@.assets), i as int);
        }
        if !self.project_resolves(&project_id) {
            return Err(InventoryError::NotFound(EntityKind::Project));
        }
        let ghost v = self@;
        let old_a = copy_asset(&self.assets[i]);
        let a = Asset {
            id: old_a.id,
            name: old_a.name,
            barcode: old_a.barcode,
            asset_type: old_a.asset_type,
            status: old_a.status,
            location_id: old_a.location_id,
            project_id,
            assigned_to_id: old_a.assigned_to_id,
        };
        let r = copy_asset(&a);
        self.assets.set(i, a);
        proof {
            assert(asset_ids(self@.assets) =~= asset_ids(v.assets));
            assert(self@.locations == v.locations);
            assert forall|k: int| 0 <= k < self@.assets.len() implies
                asset_refs_resolve(self@, #[trigger] self@.assets[k]) by {
                if k != i {
                    assert(self@.assets[k] == v.assets[k]);
                    assert(asset_refs_resolve(v, v.assets[k]));
                } else {
                    assert(asset_refs_resolve(v, v.assets[k]));
                }
            }
        }
        Ok(r)
    }

    /// The asset `i` of the table with its location and assignee resolved.
    fn details_at(&self, i: usize) -> (r: AssetDetails)
        requires
            self.wf(),
            i < self@.assets.len(),
        ensures
            r == details_of(self@, self@.assets[i as int]),
    {
        let a = &self.assets[i];
        assert(asset_refs_resolve(self@, self@.assets[i as int]));
        let li = self.find_location(&a.location_id).unwrap();
        proof {
            lemma_index_in_unique(location_ids(self@.locations), li as int);
        }
        let assigned_to = match &a.assigned_to_id {
            Some(u) => {
                let ui = self.find_user(u).unwrap();
                proof {
                    lemma_index_in_unique(user_ids(self@.users), ui as int);
                }
                Some(copy_user(&self.users[ui]))
            },
            None => None,
        };
        AssetDetails { asset: copy_asset(a), location: copy_location(&self.locations[li]), assigned_to }
    }

    /// The asset `id` with its location and assignee, or `NotFound`.
    pub fn get_asset(&self, id: &String) -> (r: Result<AssetDetails, InventoryError>)
        requires
            self.wf(),
        ensures
            r == asset_lookup(self@, id@),
    {
        match self.find_asset(id) {
            Some(i) => {
                proof {
                    lemma_index_in_unique(asset_ids(self@.assets), i as int);
                }
                Ok(self.details_at(i))
            },
            None => Err(InventoryError::NotFound(EntityKind::Asset)),
        }
    }

    /// Every asset with its location and assignee, in the order of insertion.
    pub fn get_assets(&self) -> (r: Vec<AssetDetails>)
        requires
            self.wf(),
        ensures
            r@ == asset_listing(self@),
    {
        let mut r: Vec<AssetDetails> = Vec::new();
        let mut i: usize = 0;
        while i < self.assets.len()
            invariant
                self.wf(),
                i <= self.assets.len(),
                r@ == asset_listing(self@).subrange(0, i as int),
            decreases self.assets.len() - i,
        {
            r.push(self.details_at(i));
            i = i + 1;
            assert(r@ =~= asset_listing(self@).subrange(0, i as int));
        }
        assert(r@ =~= asset_listing(self@));
        r
    }

    /// The listing row of every asset, in the order of insertion.
    pub fn get_asset_summaries(&self) -> (r: Vec<AssetOut>)
        ensures
            r@ == self@.assets.map_values(|a: Asset| summary_of(a)),
    {
        let mut r: Vec<AssetOut> = Vec::new();
        let mut i: usize = 0;
        while i < self.assets.len()
            invariant
                i <= self.assets.len(),
                r@ == self@.assets.map_values(|a: Asset| summary_of(a)).subrange(0, i as int),
            decreases self.assets.len() - i,
        {
            let a = &self.assets[i];
            r.push(
                AssetOut {
                    id: a.id.clone(),
                    name: a.name.clone(),
                    barcode: a.barcode.clone(),
                    status: a.status.clone(),
                    type_: a.asset_type.clone(),
                },
            );
            i = i + 1;
            assert(r@ =~= self@.assets.map_values(|a: Asset| summary_of(a)).subrange(0, i as int));
        }
        assert(r@ =~= self@.assets.map_values(|a: Asset| summary_of(a)));
        r
    }
}

/// Reads an optional date text: no text gives no date, a text that chrono
/// does not parse gives `InvalidDate`.
pub fn parse_date_field(text: &Option<String>) -> (r: Result<Option<i64>, InventoryError>)
    ensures
        r == date_field_outcome(*text),
{
    match text {
        None => Ok(None),
        Some(t) => match parse_instant(t.as_str()) {
            Some(x) => Ok(Some(x)),
            None => Err(InventoryError::InvalidDate),
        },
    }
}

impl Inventory {
    /// Creates a location under a fresh random identifier, stamped with the
    /// current time. A given parent must name an existing location, else it
    /// fails with `ParentNotFound`; otherwise the record is as `data` says.
    pub fn create_location(&mut self, data: LocationData) -> (r: Result<Location, InventoryError>)
        requires
            old(self).wf(),
        ensures
            final(self).wf(),
            data.parent_id is Some && !location_ids(old(self)@.locations).contains(
                data.parent_id->Some_0@,
            ) ==> r == Err::<Location, InventoryError>(
                InventoryError::Integrity(IntegrityViolation::ParentNotFound),
            ),
            exists|id: String, now: i64|
                (r, final(self)@) == #[trigger] insert_location_outcome(old(self)@, id, now, data),
    {
        let id = fresh_id();
        let now = now_seconds();
        let ghost gid = id;
        let r = self.insert_location(id, now, data);
        assert((r, self@) == insert_location_outcome(old(self)@, gid, now, data));
        r
    }

    /// Creates a project under a fresh random identifier, stamped with the
    /// current time. It fails with `InvalidDate` when a given start or end
    /// date does not parse; otherwise the record is as `data` says, with
    /// the dates parsed.
    pub fn create_project(&mut self, data: ProjectData) -> (r: Result<Project, InventoryError>)
        requires
            old(self).wf(),
        ensures
            final(self).wf(),
            date_field_outcome(data.start_date) is Err || date_field_outcome(data.end_date) is Err
                ==> r == Err::<Project, InventoryError>(InventoryError::InvalidDate) && final(self)@
                == old(self)@,
            date_field_outcome(data.start_date) is Ok && date_field_outcome(data.end_date) is Ok
                ==> exists|id: String, now: i64|
                (r, final(self)@) == #[trigger] insert_project_outcome(
                    old(self)@,
                    id,
                    now,
                    data,
                    date_field_outcome(data.start_date)->Ok_0,
                    date_field_outcome(data.end_date)->Ok_0,
                ),
    {
        let start_date = match parse_date_field(&data.start_date) {
            Ok(d) => d,
            Err(e) => {
                return Err(e);
            },
        };
        let end_date = match parse_date_field(&data.end_date) {
            Ok(d) => d,
            Err(e) => {
                return Err(e);
            },
        };
        let id = fresh_id();
        let now = now_seconds();
        let ghost gid = id;
        let ghost gdata = data;
        let r = self.insert_project(id, now, data, start_date, end_date);
        assert((r, self@) == insert_project_outcome(
            old(self)@,
            gid,
            now,
            gdata,
            start_date,
            end_date,
        ));
        r
    }

    /// Creates an asset under a fresh random identifier. Its location, and its
    /// project and assignee where given, must exist, else it fails with
    /// `MissingReference`; otherwise the record is as `data` says.
    pub fn create_asset(&mut self, data: AssetData) -> (r: Result<Asset, InventoryError>)
        requires
            old(self).wf(),
        ensures
            final(self).wf(),
            exists|id: String| (r, final(self)@) == #[trigger] insert_asset_outcome(old(self)@, id, data),
    {
        let id = fresh_id();
        let ghost gid = id;
        let r = self.insert_asset(id, data);
        assert((r, self@) == insert_asset_outcome(old(self)@, gid, data));
        r
    }
}

} // verus!
