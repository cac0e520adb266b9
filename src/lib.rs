//! A store of countdown records: a title and a target instant each, kept in
//! creation order, with a text form for instants, a record form for the data
//! file, and the steps that replace that file atomically.

pub mod timestamp;
pub mod record;
pub mod store;
pub mod assets;
pub mod wire;
pub mod persist;
