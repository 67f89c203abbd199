//! Ingestion: from what the EC2 API tells to the graph.
pub mod aws;
pub mod aws_client;
pub mod collect;
pub mod map;
pub mod pipeline;
pub mod settle;

use vstd::prelude::*;

verus! {

/// What an ingestion run is told.
#[derive(Debug, Clone, PartialEq, Eq)]
pub struct IngestConfig {
    /// The region to collect from, where it is not left to the environment.
    pub region: Option<String>,
    /// Where the graph database is, where it is not left to the caller.
    pub neo4j_uri: Option<String>,
}

impl Default for IngestConfig {
    fn default() -> (config: Self)
        ensures
            config.region is None,
            config.neo4j_uri is None,
    {
        IngestConfig { region: None, neo4j_uri: None }
    }
}

} // verus!
