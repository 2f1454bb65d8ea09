pub mod embedding;
pub mod text_chunking;
pub mod vector_db;
pub mod viz_debug;
pub mod web_search;

pub use embedding::EmbeddingOptions;
pub use text_chunking::{ChunkingOptions, ChunkingStrategy, TextChunker};
pub use vector_db::{DistanceMetric, VectorDBOptions};
pub use viz_debug::{ConsoleDebugVisualizer, DebugVisualizer, GraphDebugVisualizer};
pub use web_search::{SearchOptions, SearchResult, WebSearcher};
