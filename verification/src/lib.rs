//! A virtual-node workload provider: an in-process registry of workload
//! units that answers an orchestrator's lifecycle queries (create, update,
//! delete, get, list, status, capacity, node conditions).

pub mod clock;
pub mod errors;
pub mod text;
pub mod unit_provider;
pub mod units;
pub mod utils;
