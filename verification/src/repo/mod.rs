//! Repository conventions: where tests live and how paths are named.
pub mod path_naming;
pub mod test_placement;
