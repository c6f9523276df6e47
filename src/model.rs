use vstd::prelude::*;

verus! {

/// A stored location: a node of the containment forest.
#[derive(Debug, Clone, PartialEq, Eq)]
pub struct Location {
    pub id: String,
    pub name: String,
    pub location_type: String,
    pub parent_id: Option<String>,
    pub created_at: i64,
    pub updated_at: i64,
    pub order: i32,
}

/// A stored project.
#[derive(Debug, Clone, PartialEq, Eq)]
pub struct Project {
    pub id: String,
    pub name: String,
    pub description: Option<String>,
    pub status: String,
    pub start_date: Option<i64>,
    pub end_date: Option<i64>,
    pub created_at: i64,
    pub updated_at: i64,
    pub order: i32,
}

/// A stored asset: placed in exactly one location, optionally assigned to a
/// project and to a user.
#[derive(Debug, Clone, PartialEq, Eq)]
pub struct Asset {
    pub id: String,
    pub name: String,
    pub barcode: String,
    pub asset_type: String,
    pub status: String,
    pub location_id: String,
    pub project_id: Option<String>,
    pub assigned_to_id: Option<String>,
}

/// A user that assets can be assigned to.
#[derive(Debug, Clone, PartialEq, Eq)]
pub struct User {
    pub id: String,
    pub name: String,
}

/// An asset with its location and assignee resolved.
#[derive(Debug, Clone, PartialEq, Eq)]
pub struct AssetDetails {
    pub asset: Asset,
    pub location: Location,
    pub assigned_to: Option<User>,
}

/// The short listing row of an asset.
#[derive(Debug, Clone, PartialEq, Eq)]
pub struct AssetOut {
    pub id: String,
    pub name: String,
    pub barcode: String,
    pub status: String,
    pub type_: String,
}

/// What a caller supplies to create a location.
#[derive(Debug, Clone, PartialEq, Eq)]
pub struct LocationData {
    pub name: String,
    pub location_type: String,
    pub parent_id: Option<String>,
}

/// What a caller supplies to create a project; dates are text to be parsed.
#[derive(Debug, Clone, PartialEq, Eq)]
pub struct ProjectData {
    pub name: String,
    pub description: Option<String>,
    pub status: String,
    pub start_date: Option<String>,
    pub end_date: Option<String>,
}

/// What a caller supplies to create an asset.
#[derive(Debug, Clone, PartialEq, Eq)]
pub struct AssetData {
    pub name: String,
    pub barcode: String,
    pub asset_type: String,
    pub status: String,
    pub location_id: String,
    pub project_id: Option<String>,
    pub assigned_to_id: Option<String>,
}

/// The kinds of stored entity, for reporting which one was not found.
#[derive(Debug, Clone, Copy, PartialEq, Eq, Structural)]
pub enum EntityKind {
    Location,
    Project,
    Asset,
}

/// A mutation refused because it would break a structural invariant.
#[derive(Debug, Clone, Copy, PartialEq, Eq, Structural)]
pub enum IntegrityViolation {
    HasChildLocations,
    ContainsAssets,
    HasAssignedAssets,
    ParentNotFound,
}

/// A failure of the storage layer itself.
#[derive(Debug, Clone, Copy, PartialEq, Eq, Structural)]
pub enum StorageFault {
    /// The identifier of a new record is already in use.
    DuplicateId,
    /// A reference of a new or changed record does not resolve.
    MissingReference,
}

/// Every way an operation of the inventory can fail.
#[derive(Debug, Clone, Copy, PartialEq, Eq, Structural)]
pub enum InventoryError {
    NotFound(EntityKind),
    Integrity(IntegrityViolation),
    InvalidDate,
    Storage(StorageFault),
}

pub open spec fn error_text(e: InventoryError) -> Seq<char> {
    match e {
        InventoryError::NotFound(EntityKind::Location) => "Location not found"@,
        InventoryError::NotFound(EntityKind::Project) => "Project not found"@,
        InventoryError::NotFound(EntityKind::Asset) => "Asset not found"@,
        InventoryError::Integrity(IntegrityViolation::HasChildLocations) =>
            "Cannot delete location with child locations"@,
        InventoryError::Integrity(IntegrityViolation::ContainsAssets) =>
            "Cannot delete location that contains assets"@,
        InventoryError::Integrity(IntegrityViolation::HasAssignedAssets) =>
            "Cannot delete project that has assigned assets"@,
        InventoryError::Integrity(IntegrityViolation::ParentNotFound) =>
            "Parent location not found"@,
        InventoryError::InvalidDate => "Invalid date"@,
        InventoryError::Storage(StorageFault::DuplicateId) => "Identifier already in use"@,
        InventoryError::Storage(StorageFault::MissingReference) =>
            "Referenced record does not exist"@,
    }
}

impl InventoryError {
    /// The caller-facing message of this error.
    pub fn message(&self) -> (r: String)
        ensures
            r@ == error_text(*self),
    {
        let s: &str = match self {
            InventoryError::NotFound(EntityKind::Location) => "Location not found",
            InventoryError::NotFound(EntityKind::Project) => "Project not found",
            InventoryError::NotFound(EntityKind::Asset) => "Asset not found",
            InventoryError::Integrity(IntegrityViolation::HasChildLocations) =>
                "Cannot delete location with child locations",
            InventoryError::Integrity(IntegrityViolation::ContainsAssets) =>
                "Cannot delete location that contains assets",
            InventoryError::Integrity(IntegrityViolation::HasAssignedAssets) =>
                "Cannot delete project that has assigned assets",
            InventoryError::Integrity(IntegrityViolation::ParentNotFound) =>
                "Parent location not found",
            InventoryError::InvalidDate => "Invalid date",
            InventoryError::Storage(StorageFault::DuplicateId) => "Identifier already in use",
            InventoryError::Storage(StorageFault::MissingReference) =>
                "Referenced record does not exist",
        };
        s.to_owned()
    }
}

} // verus!
