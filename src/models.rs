//! Records the library stores and hands out.
use vstd::prelude::*;

verus! {

/// The latest known identity of a subject: one row per subject key.
#[derive(Clone, Debug, PartialEq, Eq)]
pub struct User {
    pub steam_id: String,
    pub username: Option<String>,
    pub avatar_url: Option<String>,
    /// Milliseconds since the epoch of the profile fetch that wrote the row.
    pub last_updated: Option<u64>,
}

/// One upstream response, stored verbatim and never changed.
#[derive(Clone, Debug, PartialEq, Eq)]
pub struct SteamSnapshot {
    pub steam_id: String,
    /// The resource-type tag, see `ResourceKind::tag`.
    pub data_type: String,
    /// The payload, exactly as the provider sent it.
    pub json_data: String,
    /// Milliseconds since the epoch at which the row was written.
    pub created_at: u64,
}

/// A generated text kept for a subject.
#[derive(Clone, Debug, PartialEq, Eq)]
pub struct Insight {
    pub steam_id: String,
    pub content_type: String,
    pub markdown_content: String,
}

/// The provider's envelope: every answer sits under `response`.
#[derive(Clone, Debug, PartialEq, Eq)]
pub struct SteamResponse<T> {
    pub response: T,
}

} // verus!
