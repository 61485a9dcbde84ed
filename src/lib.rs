//! Concurrent sources that many threads pull from, chunk pullers that reserve
//! contiguous ranges of them, and two combinators: an adapter that attaches
//! each item's position, and a zip of two sources.

pub mod chunk;
pub mod con_iter;
pub mod enumerate;
pub mod puller;
pub mod reserve;
mod sync;
pub mod vec_source;
pub mod zip;

pub use chunk::ExactChunk;
pub use con_iter::{ChunkPullerSource, ConcurrentIter};
pub use enumerate::{EnumeratedChunk, EnumeratedChunkPuller};
pub use puller::ChunkPuller;
pub use vec_source::{ConIterVec, VecChunk, VecChunkPuller};
pub use zip::{ConIterZip, ZippedChunk, ZippedChunkPuller};
