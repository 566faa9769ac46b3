//! Architecture rule checks for JavaScript and TypeScript projects.
pub mod text;
pub mod model;
pub mod catalog;
pub mod settings;
pub mod paths;
pub mod tsconfig;
pub mod config;
pub mod clean_architecture;
pub mod naming;
pub mod feature_system;
pub mod defaults;
pub mod order;
pub mod vertical_slice;
pub mod repo;
pub mod boundaries;
pub mod code_smells;
pub mod closest;
pub mod suppressions;
pub mod collectors;
