//! The graph: its property maps, its records and edges, and the statements
//! that write them.
pub mod groups;
pub mod model;
pub mod neo4j;
pub mod plan;
pub mod props;
pub mod statement;
pub mod upsert;
