//! The configuration of the pipeline.

use vstd::prelude::*;
use crate::score::Score;

verus! {

/// The default size of a chunk, in words.
pub const CHUNK_SIZE: usize = 512;

/// The default number of words that neighbouring chunks share.
pub const CHUNK_OVERLAP: usize = 50;

/// The default relevance threshold, 0.70, in millionths.
pub const RELEVANCE_THRESHOLD: i64 = 700_000;

/// The default number of hits asked of a search.
pub const SEARCH_LIMIT: u64 = 5;

/// The default name of the embedding model.
pub open spec fn embeddings_model() -> Seq<char> {
    "nomic-embed-text:latest"@
}

/// The default name of the collection in the vector store.
pub open spec fn collection() -> Seq<char> {
    "docs"@
}

/// What the pipeline is configured with. Each component is handed these
/// values when it is made; none reads them from anywhere else.
#[derive(Debug)]
pub struct PipelineConfig {
    /// The model that embeds chunks and queries.
    pub embedding_model: String,
    /// The collection of the vector store that holds the chunks.
    pub collection: String,
    /// The size of a chunk, in words.
    pub chunk_size: usize,
    /// The number of words that neighbouring chunks share.
    pub chunk_overlap: usize,
    /// The score below which a search hit is dropped.
    pub relevance_threshold: Score,
    /// The number of hits asked of a search.
    pub search_limit: u64,
}

impl PipelineConfig {
    /// Whether this is the default configuration.
    pub open spec fn is_default(&self) -> bool {
        &&& self.embedding_model@ == embeddings_model()
        &&& self.collection@ == collection()
        &&& self.chunk_size == CHUNK_SIZE
        &&& self.chunk_overlap == CHUNK_OVERLAP
        &&& self.relevance_threshold.millionths == RELEVANCE_THRESHOLD
        &&& self.search_limit == SEARCH_LIMIT
    }

    /// A copy of this configuration.
    pub fn copy(&self) -> (c: PipelineConfig)
        ensures
            c.embedding_model@ == self.embedding_model@,
            c.collection@ == self.collection@,
            c.chunk_size == self.chunk_size,
            c.chunk_overlap == self.chunk_overlap,
            c.relevance_threshold == self.relevance_threshold,
            c.search_limit == self.search_limit,
    {
        PipelineConfig {
            embedding_model: self.embedding_model.clone(),
            collection: self.collection.clone(),
            chunk_size: self.chunk_size,
            chunk_overlap: self.chunk_overlap,
            relevance_threshold: self.relevance_threshold,
            search_limit: self.search_limit,
        }
    }
}

impl Default for PipelineConfig {
    /// The default configuration: the model `nomic-embed-text:latest`, the
    /// collection `docs`, chunks of 512 words that share 50, the threshold
    /// 0.70 and searches for 5 hits.
    fn default() -> (c: PipelineConfig)
        ensures
            c.is_default(),
    {
        PipelineConfig {
            embedding_model: String::from_str("nomic-embed-text:latest"),
            collection: String::from_str("docs"),
            chunk_size: CHUNK_SIZE,
            chunk_overlap: CHUNK_OVERLAP,
            relevance_threshold: Score::from_millionths(RELEVANCE_THRESHOLD),
            search_limit: SEARCH_LIMIT,
        }
    }
}

} // verus!
