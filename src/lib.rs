//! Command-line surface and store-location logic of a frecency-based
//! directory tracker.
pub mod guarantees;
pub mod number;
pub mod options;
pub mod store;
