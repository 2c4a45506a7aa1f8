//! Core of a podcast worker that mirrors a set of video channels as audio
//! episodes: lookback-window computation, enumeration-output parsing, the
//! per-channel synchronization pass, and the retention/cleanup pass.

pub mod api;
pub mod channel;
pub mod cleanup;
pub mod config;
pub mod dates;
pub mod episode;
pub mod error;
pub mod role;
pub mod rss;
pub mod sync;
pub mod window;
pub mod youtube;
pub mod ytdlp;
pub mod ytinfo;
