//! Validation and assembly of a subgraph schema check against a schema
//! registry: command-line values are read into checked thresholds, a graph
//! reference and a schema source, and turned into exactly one remote check
//! operation of the requested mode, whose answer becomes the outcome.

pub mod check;
pub mod error;
pub mod graph_ref;
pub mod period;
pub mod schema;
pub mod text;
pub mod threshold;
