//! The tag of a stored song: its frames as plain values, and the release date
//! read from the song's date text.

use vstd::prelude::*;
use vstd::string::*;
use chrono::{Datelike, Timelike};
use crate::song::Song;

verus! {

/// `chrono::ParseError`: why chrono rejected a text. Nothing is read from it.
#[verifier::external_type_specification]
#[verifier::external_body]
pub struct ExParseError(chrono::ParseError);

/// A point in time as a tag holds it.
#[derive(Debug, Clone, Copy, PartialEq, Eq)]
pub struct Timestamp {
    pub year: i32,
    pub month: Option<u8>,
    pub day: Option<u8>,
    pub hour: Option<u8>,
    pub minute: Option<u8>,
    pub second: Option<u8>,
}

/// A free-text comment frame.
#[derive(Debug, Clone, PartialEq, Eq)]
pub struct Comment {
    pub lang: String,
    pub description: String,
    pub text: String,
}

/// The category of an embedded picture.
#[derive(Debug, Clone, Copy, PartialEq, Eq)]
pub enum PictureType {
    Other,
}

/// An embedded picture frame.
#[derive(Debug, Clone, PartialEq, Eq)]
pub struct Picture {
    pub mime_type: String,
    pub picture_type: PictureType,
    pub description: String,
    pub data: Vec<u8>,
}

/// All that is written into the tag of one song.
#[derive(Debug, Clone, PartialEq, Eq)]
pub struct MusicTags {
    pub album: String,
    pub artist: String,
    pub title: String,
    pub track: u32,
    pub date_released: Timestamp,
    pub date_recorded: Timestamp,
    pub year: i32,
    pub comments: Vec<Comment>,
    pub pictures: Vec<Picture>,
}

/// The release date of a song does not read as an RFC 2822 date-time.
#[derive(Debug, Clone, Copy, PartialEq, Eq)]
pub struct DateParseError;

/// The calendar fields of an RFC 2822 date-time text, as chrono reads them:
/// year, month, day, hour, minute and second, in the text's own offset.
/// `None` where chrono rejects the text.
pub uninterp spec fn rfc2822_fields(text: Seq<char>) -> Option<(i32, u32, u32, u32, u32, u32)>;

/// The ranges of the fields of a date-time.
pub open spec fn in_calendar(fields: (i32, u32, u32, u32, u32, u32)) -> bool {
    &&& 1 <= fields.1 <= 12
    &&& 1 <= fields.2 <= 31
    &&& fields.3 <= 23
    &&& fields.4 <= 59
    &&& fields.5 <= 59
}

/// `chrono::DateTime::parse_from_rfc2822`, then `year`, `month`, `day`, `hour`,
/// `minute` and `second` of the date-time it gives. The parse depends on the
/// text alone. chrono documents the month as 1 to 12, the day as 1 to 31, the
/// hour as 0 to 23, minute and second as 0 to 59.
#[verifier::external_body]
fn parse_rfc2822(text: &str) -> (r: Result<(i32, u32, u32, u32, u32, u32), chrono::ParseError>)
    ensures
        match r {
            Ok(fields) => rfc2822_fields(text@) == Some(fields) && in_calendar(fields),
            Err(_) => rfc2822_fields(text@) is None,
        },
{
    match chrono::DateTime::parse_from_rfc2822(text) {
        Ok(date) => Ok(
            (date.year(), date.month(), date.day(), date.hour(), date.minute(), date.second()),
        ),
        Err(e) => Err(e),
    }
}

/// The timestamp with the given fields, each but the year cut to eight bits.
pub open spec fn timestamp_of(fields: (i32, u32, u32, u32, u32, u32)) -> Timestamp {
    Timestamp {
        year: fields.0,
        month: Some(fields.1 as u8),
        day: Some(fields.2 as u8),
        hour: Some(fields.3 as u8),
        minute: Some(fields.4 as u8),
        second: Some(fields.5 as u8),
    }
}

/// Builds a timestamp from calendar fields.
pub fn timestamp_from(year: i32, month: u32, day: u32, hour: u32, minute: u32, second: u32) -> (r:
    Timestamp)
    ensures
        r == timestamp_of((year, month, day, hour, minute, second)),
{
    Timestamp {
        year,
        month: Some(#[verifier::truncate] (month as u8)),
        day: Some(#[verifier::truncate] (day as u8)),
        hour: Some(#[verifier::truncate] (hour as u8)),
        minute: Some(#[verifier::truncate] (minute as u8)),
        second: Some(#[verifier::truncate] (second as u8)),
    }
}

/// Reads a release date in RFC 2822 form. It fails exactly on the texts that
/// chrono rejects.
pub fn release_timestamp(release_date: &str) -> (r: Result<Timestamp, DateParseError>)
    ensures
        match rfc2822_fields(release_date@) {
            Some(fields) => r == Ok::<Timestamp, DateParseError>(timestamp_of(fields)),
            None => r is Err,
        },
        r is Ok ==> {
            let t = r->Ok_0;
            &&& 1 <= t.month->Some_0 <= 12
            &&& 1 <= t.day->Some_0 <= 31
            &&& t.hour->Some_0 <= 23
            &&& t.minute->Some_0 <= 59
            &&& t.second->Some_0 <= 59
        },
{
    match parse_rfc2822(release_date) {
        Ok(fields) => {
            assert(fields.1 as u8 == fields.1 && fields.2 as u8 == fields.2 && fields.3 as u8
                == fields.3 && fields.4 as u8 == fields.4 && fields.5 as u8 == fields.5);
            Ok(timestamp_from(fields.0, fields.1, fields.2, fields.3, fields.4, fields.5))
        },
        Err(_) => Err(DateParseError),
    }
}

/// The frames of the tag of `song`: its texts, its track number cut to 32
/// bits, `released` as both dates and its year alone, the site and the
/// description as two comments, and `picture_data` as the one picture.
pub open spec fn tags_of(tags: MusicTags, song: Song, released: Timestamp, picture_data: Seq<u8>) -> bool {
    &&& tags.album@ == song.album@
    &&& tags.artist@ == song.artist@
    &&& tags.title@ == song.name@
    &&& tags.track == song.track_num as u32
    &&& tags.date_released == released
    &&& tags.date_recorded == released
    &&& tags.year == released.year
    &&& tags.comments@.len() == 2
    &&& tags.comments@[0].lang@ == "US"@
    &&& tags.comments@[0].description@ == "Site"@
    &&& tags.comments@[0].text@ == song.site_url@
    &&& tags.comments@[1].lang@ == "US"@
    &&& tags.comments@[1].description@ == "Description"@
    &&& tags.comments@[1].text@ == song.description@
    &&& tags.pictures@.len() == 1
    &&& tags.pictures@[0].mime_type@ == "image/jpeg"@
    &&& tags.pictures@[0].picture_type == PictureType::Other
    &&& tags.pictures@[0].description@ == "album art"@
    &&& tags.pictures@[0].data@ == picture_data
}

/// Builds the tag of a song from its record, its release timestamp and the
/// bytes of its cover image.
pub fn music_tags(song: &Song, released: Timestamp, picture_data: Vec<u8>) -> (tags: MusicTags)
    ensures
        tags_of(tags, *song, released, picture_data@),
{
    let mut comments: Vec<Comment> = Vec::new();
    comments.push(
        Comment {
            lang: String::from_str("US"),
            description: String::from_str("Site"),
            text: song.site_url.clone(),
        },
    );
    comments.push(
        Comment {
            lang: String::from_str("US"),
            description: String::from_str("Description"),
            text: song.description.clone(),
        },
    );
    let mut pictures: Vec<Picture> = Vec::new();
    pictures.push(
        Picture {
            mime_type: String::from_str("image/jpeg"),
            picture_type: PictureType::Other,
            description: String::from_str("album art"),
            data: picture_data,
        },
    );
    MusicTags {
        album: song.album.clone(),
        artist: song.artist.clone(),
        title: song.name.clone(),
        track: #[verifier::truncate] (song.track_num as u32),
        date_released: released,
        date_recorded: released,
        year: released.year,
        comments,
        pictures,
    }
}

} // verus!
