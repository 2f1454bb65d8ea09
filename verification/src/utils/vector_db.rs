use vstd::prelude::*;

verus! {

/// How a vector store is set up: which collection is used, how wide its
/// vectors are, and how distance between vectors is measured.
#[derive(Debug, Clone)]
pub struct VectorDBOptions {
    pub collection_name: String,
    pub dimension: usize,
    pub distance_metric: DistanceMetric,
}

/// How distance between vectors is measured.
#[derive(Debug, Clone)]
pub enum DistanceMetric {
    Cosine,
    Euclidean,
    DotProduct,
}

} // verus!
