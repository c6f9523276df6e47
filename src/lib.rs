//! Inventory of assets, the locations that contain them and the projects
//! they are assigned to, with the integrity rules that keep the location
//! tree, asset placement and project assignment consistent.
pub mod model;
pub mod rules;
pub mod stamps;
pub mod inventory;
pub mod laws;

pub use inventory::{parse_date_field, Inventory};
pub use model::{
    Asset, AssetData, AssetDetails, AssetOut, EntityKind, IntegrityViolation, InventoryError,
    Location, LocationData, Project, ProjectData, StorageFault, User,
};
