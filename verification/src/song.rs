//! The canonical record of one song.

use vstd::prelude::*;

verus! {

/// One song of a resolved page. It is built once by the resolver and only read
/// afterwards.
#[derive(Debug, Clone)]
pub struct Song {
    pub album: String,
    pub artist: String,
    /// The position that the document gives, not the place in the list.
    pub track_num: usize,
    pub name: String,
    /// Absent where the document advertises no audio stream for the track.
    pub audio_url: Option<String>,
    pub image_url: String,
    pub site_url: String,
    /// The date as the document has it, read only when tags are written.
    pub release_date: String,
    pub description: String,
}

/// A song as contracts see it: every text by its characters.
pub struct SongView {
    pub album: Seq<char>,
    pub artist: Seq<char>,
    pub track_num: usize,
    pub name: Seq<char>,
    pub audio_url: Option<Seq<char>>,
    pub image_url: Seq<char>,
    pub site_url: Seq<char>,
    pub release_date: Seq<char>,
    pub description: Seq<char>,
}

impl View for Song {
    type V = SongView;

    open spec fn view(&self) -> SongView {
        SongView {
            album: self.album@,
            artist: self.artist@,
            track_num: self.track_num,
            name: self.name@,
            audio_url: match self.audio_url {
                Some(url) => Some(url@),
                None => None,
            },
            image_url: self.image_url@,
            site_url: self.site_url@,
            release_date: self.release_date@,
            description: self.description@,
        }
    }
}

/// The views of a list of songs, in order.
pub open spec fn song_views(songs: Seq<Song>) -> Seq<SongView> {
    songs.map_values(|s: Song| s@)
}

} // verus!
