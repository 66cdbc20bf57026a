//! The storage and query core of a bitemporal entity-property graph: a
//! resolver from query paths to join plans and columns, a patch engine over
//! property trees, and the row model that records entity editions over time.

pub mod confidence;
pub mod deserializer;
pub mod entity;
pub mod laws;
pub mod patch;
pub mod path;
pub mod property;
pub mod query;
pub mod table;
pub mod temporal;
