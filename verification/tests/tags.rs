use bcdl::song::Song;
use bcdl::tags::{music_tags, release_timestamp, timestamp_from, DateParseError, PictureType, Timestamp};

fn song() -> Song {
    Song {
        album: "Title".to_string(),
        artist: "Band".to_string(),
        track_num: 7,
        name: "Song A".to_string(),
        audio_url: Some("http://x/a.mp3".to_string()),
        image_url: "http://x/i.jpg".to_string(),
        site_url: "http://x/t".to_string(),
        release_date: "Mon, 01 Jan 2024 00:00:00 +0000".to_string(),
        description: String::new(),
    }
}

#[test]
fn release_date_parses_to_its_fields() {
    let stamp = release_timestamp("Mon, 01 Jan 2024 00:00:00 +0000").unwrap();
    assert_eq!(stamp.year, 2024);
    assert_eq!(stamp.month, Some(1));
    assert_eq!(stamp.day, Some(1));
    assert_eq!(stamp.hour, Some(0));
    assert_eq!(stamp.minute, Some(0));
    assert_eq!(stamp.second, Some(0));
    let tags = music_tags(&song(), stamp, Vec::new());
    assert_eq!(tags.year, 2024);
}

#[test]
fn release_date_keeps_its_own_offset() {
    let stamp = release_timestamp("Wed, 18 Feb 2015 23:16:09 -0500").unwrap();
    assert_eq!(
        stamp,
        Timestamp {
            year: 2015,
            month: Some(2),
            day: Some(18),
            hour: Some(23),
            minute: Some(16),
            second: Some(9),
        }
    );
}

#[test]
fn release_date_must_be_rfc2822() {
    assert_eq!(release_timestamp("2024-01-01"), Err(DateParseError));
    assert_eq!(release_timestamp("ul"), Err(DateParseError));
    assert_eq!(release_timestamp(""), Err(DateParseError));
}

#[test]
fn timestamp_holds_the_given_fields() {
    let stamp = timestamp_from(1999, 12, 31, 23, 59, 58);
    assert_eq!(
        stamp,
        Timestamp {
            year: 1999,
            month: Some(12),
            day: Some(31),
            hour: Some(23),
            minute: Some(59),
            second: Some(58),
        }
    );
    assert_eq!(timestamp_from(-5, 300, 0, 0, 0, 0).month, Some(44));
}

#[test]
fn tags_hold_every_frame() {
    let stamp = timestamp_from(2024, 1, 1, 0, 0, 0);
    let tags = music_tags(&song(), stamp, vec![1, 2, 3]);
    assert_eq!(tags.album, "Title");
    assert_eq!(tags.artist, "Band");
    assert_eq!(tags.title, "Song A");
    assert_eq!(tags.track, 7);
    assert_eq!(tags.date_released, stamp);
    assert_eq!(tags.date_recorded, stamp);
    assert_eq!(tags.year, 2024);
    assert_eq!(tags.comments.len(), 2);
    assert_eq!(tags.comments[0].lang, "US");
    assert_eq!(tags.comments[0].description, "Site");
    assert_eq!(tags.comments[0].text, "http://x/t");
    assert_eq!(tags.comments[1].lang, "US");
    assert_eq!(tags.comments[1].description, "Description");
    assert_eq!(tags.comments[1].text, "");
    assert_eq!(tags.pictures.len(), 1);
    assert_eq!(tags.pictures[0].mime_type, "image/jpeg");
    assert_eq!(tags.pictures[0].picture_type, PictureType::Other);
    assert_eq!(tags.pictures[0].description, "album art");
    assert_eq!(tags.pictures[0].data, vec![1, 2, 3]);
}

#[test]
fn tags_are_the_same_when_built_twice() {
    let stamp = timestamp_from(2024, 1, 1, 0, 0, 0);
    assert_eq!(music_tags(&song(), stamp, vec![9]), music_tags(&song(), stamp, vec![9]));
}
