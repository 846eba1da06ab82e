//! Data-access layer of an RFID badge access-control application: paging
//! arithmetic, a registry of named connection pools, parameterised listing
//! statements and the projection of rows into loosely typed records.

pub mod pagination;
pub mod error;
pub mod registry;
pub mod rows;
pub mod query;
pub mod model;
