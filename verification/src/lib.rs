//! Core logic of an image-hosting inference worker.
//!
//! The worker consumes upload and search jobs from a message broker, runs
//! image and text embedding pipelines over a batching coordinator, and keeps
//! a combined lexical/vector search index.  Everything that decides or
//! computes lives here with a contract; the asynchronous plumbing around it
//! (broker I/O, model sessions, the filesystem) stays outside the library.

pub mod batching;
pub mod consumer;
pub mod errors;
pub mod geometry;
pub mod image_data;
pub mod index_setup;
pub mod messages;
pub mod numeric;
pub mod search;
pub mod storage;
pub mod text;
pub mod upload;

use vstd::prelude::*;

verus! {

/// Name of the search index holding one document per uploaded image.
pub const ELASTICSEARCH_INDEX: &'static str = "image_hosting";

/// Name of the durable queue the worker consumes from.
pub const RABBITMQ_QUEUE_NAME: &'static str = "image_hosting_queue";

/// Dimension of the joint embedding space shared by both models.
pub const EMBEDDING_DIM: usize = 512;

} // verus!
