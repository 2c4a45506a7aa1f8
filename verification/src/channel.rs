//! A tracked channel: a video source with a sync floor date and a
//! retention cap.  Instants are whole seconds since the Unix epoch.

use vstd::prelude::*;

verus! {

#[derive(Debug, Clone)]
pub struct Channel {
    pub id: i64,
    pub url: String,
    pub title: String,
    pub active: bool,
    pub description: String,
    pub image: String,
    /// Earliest cutoff: a sync pass never looks back before this instant.
    pub first: i64,
    /// Retention cap: how many episodes to keep for this channel.
    pub max: i64,
    pub created_at: i64,
    pub updated_at: i64,
}

} // verus!
