//! A persisted episode: one downloaded video's audio artifact plus its
//! metadata.  Instants are whole seconds since the Unix epoch.

use vstd::prelude::*;

verus! {

/// A stored episode row.
#[derive(Debug, Clone)]
pub struct Episode {
    pub id: i64,
    pub channel_id: i64,
    pub title: String,
    pub description: String,
    /// External video id; unique per channel, the dedup key.
    pub yt_id: String,
    pub webpage_url: String,
    pub published_at: i64,
    pub duration: String,
    pub image: String,
    pub listen: bool,
    pub created_at: i64,
    pub updated_at: i64,
}

/// An episode row the synchronization pass asks the store to insert.
/// The store assigns the id and the bookkeeping timestamps.
#[derive(Debug, Clone)]
pub struct NewEpisode {
    pub channel_id: i64,
    pub title: String,
    pub description: String,
    pub yt_id: String,
    pub webpage_url: String,
    pub published_at: i64,
    pub duration: String,
    pub image: String,
    pub listen: bool,
}

} // verus!
