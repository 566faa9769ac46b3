//! Clean Architecture boundary rules: layer direction, external packages,
//! bounded contexts, core imports, public surfaces and context cycles.
pub mod glob;
pub mod classify;
pub mod layer;
pub mod context;
pub mod core_imports;
pub mod cycle;
