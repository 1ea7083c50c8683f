//! Resolves an album or track page of a music storefront into a list of songs,
//! and plans how each song is fetched, stored and tagged.

pub mod download;
pub mod json;
pub mod listing;
pub mod locate;
pub mod page;
pub mod parse;
pub mod song;
pub mod tags;
pub mod text;

pub use crate::download::download_songs;
pub use crate::parse::{parse_album, parse_track};
pub use crate::song::Song;
