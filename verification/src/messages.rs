//! The messages exchanged with the web application over the broker.
//!
//! The wire format is JSON; the library holds the bare types and the code
//! around it converts bytes to values at the edge.

use vstd::prelude::*;

verus! {

/// A job sent by the web application, tagged by its variant name on the wire.
#[derive(Debug, Clone, PartialEq)]
pub enum WorkerMessage {
    OnUpload(OnUploadMessage),
    Search(SearchMessage),
}

/// Notification that an image has been persisted on shared storage.
#[derive(Debug, Clone, PartialEq)]
pub struct OnUploadMessage {
    pub id: i64,
    pub format: String,
    pub title: String,
}

/// A text query at a given zero-based page offset.
#[derive(Debug, Clone, PartialEq)]
pub struct SearchMessage {
    pub query_text: String,
    pub page: i64,
}

/// Reply for a search: document ids in ranking order, and whether the
/// current page is the final non-empty page.
#[derive(Debug, Clone, PartialEq)]
pub struct SearchResponse {
    pub ids: Vec<i64>,
    pub last_page: bool,
}

} // verus!
