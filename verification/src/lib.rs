//! A small workflow engine: units of work chained into a directed graph
//! whose path is decided at run time by each unit's own outcome. A run
//! threads one mutable context through the units it visits,
//! derives a condition label from each visit's outcome, and resolves the
//! next unit by that label, falling back to the edge labelled `"default"`;
//! it stops at a unit with no resolving edge or at a name with no unit.
//! The collaborators a unit may call — completion models, embedding
//! generators, vector stores, web search — stay outside the engine.

use vstd::prelude::*;

pub mod context;
pub mod error;
pub mod flow;
pub mod node;
pub mod registry;
pub mod strutil;
pub mod utils;
pub mod value;

pub use context::Context;
pub use error::Error;
pub use flow::{BatchFlow, Flow};
pub use node::{BaseNode, BaseNodeTrait, BaseState, BatchNode, Node, ProcessResult, ProcessState};
pub use utils::{
    ChunkingOptions, ChunkingStrategy, ConsoleDebugVisualizer, DebugVisualizer, DistanceMetric,
    EmbeddingOptions, GraphDebugVisualizer, SearchOptions, SearchResult, TextChunker,
    VectorDBOptions, WebSearcher,
};
pub use value::Value;

verus! {

/// The shape of a pre-populated data mapping: keyed values, read in order.
pub type Params = Vec<(String, Value)>;

} // verus!
