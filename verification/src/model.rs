//! Local model execution: request/response contracts (`types`), the registry that maps
//! roles to models (`registry`), benchmark fingerprints (`benchmark`), observability
//! schema (`metrics`) and deterministic hardware-aware routing (`scheduler`).
pub mod types;
pub mod registry;
pub mod scheduler;
pub mod benchmark;
pub mod metrics;
