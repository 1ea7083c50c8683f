use bcdl::download::{download_songs, Disposition, LengthUnknown, Phase, Progress, Step};
use bytes::BytesMut;
use bcdl::json::Json;
use bcdl::parse::parse_album;
use bcdl::song::Song;

fn song(track_num: usize, name: &str, audio_url: Option<&str>) -> Song {
    Song {
        album: "Title".to_string(),
        artist: "Band".to_string(),
        track_num,
        name: name.to_string(),
        audio_url: audio_url.map(|u| u.to_string()),
        image_url: "http://x/i.jpg".to_string(),
        site_url: "http://x/t".to_string(),
        release_date: "Mon, 01 Jan 2024 00:00:00 +0000".to_string(),
        description: "desc".to_string(),
    }
}

#[test]
fn song_without_audio_counts_nothing() {
    let mut pipeline = download_songs(vec![song(1, "Song A", None)], false);
    assert_eq!(pipeline.next(), Step::Omit { name: "Song A".to_string() });
    assert_eq!(pipeline.total, 0);
    assert_eq!(pipeline.position, 1);
    assert_eq!(pipeline.phase, Phase::Idle);
    assert_eq!(pipeline.received(), 0);
    assert_eq!(pipeline.next(), Step::Finished { total: 0 });
}

#[test]
fn empty_list_is_finished_at_once() {
    let mut pipeline = download_songs(Vec::new(), false);
    assert_eq!(pipeline.next(), Step::Finished { total: 0 });
    assert_eq!(pipeline.next(), Step::Finished { total: 0 });
}

#[test]
fn chunks_are_stored_in_arrival_order() {
    let songs = vec![song(1, "Song A", Some("http://x/a.mp3")), song(2, "Song B", None)];
    let mut pipeline = download_songs(songs, false);
    assert_eq!(
        pipeline.next(),
        Step::Fetch { url: "http://x/a.mp3".to_string(), track_num: 1, name: "Song A".to_string() }
    );
    assert_eq!(pipeline.phase, Phase::Requested);
    assert_eq!(pipeline.begin(Some(5)), Ok(Progress { received: 0, expected: 5 }));
    assert_eq!(pipeline.phase, Phase::Receiving);
    assert_eq!(pipeline.receive(&[1, 2]), Progress { received: 2, expected: 5 });
    assert_eq!(pipeline.receive(&[]), Progress { received: 2, expected: 5 });
    assert_eq!(pipeline.receive(&[3, 4, 5]), Progress { received: 5, expected: 5 });
    assert_eq!(pipeline.total, 5);
    assert_eq!(pipeline.received(), 5);
    assert_eq!(
        pipeline.complete(),
        Disposition::Store {
            artist: "Band".to_string(),
            album: "Title".to_string(),
            file_name: "Song A.mp3".to_string(),
            contents: BytesMut::from(&[1u8, 2, 3, 4, 5][..]),
        }
    );
    assert_eq!(pipeline.next(), Step::Omit { name: "Song B".to_string() });
    assert_eq!(pipeline.next(), Step::Finished { total: 5 });
}

#[test]
fn totals_add_up_over_songs() {
    let songs = vec![song(1, "A", Some("http://x/a.mp3")), song(2, "B", Some("http://x/b.mp3"))];
    let mut pipeline = download_songs(songs, false);
    assert!(matches!(pipeline.next(), Step::Fetch { .. }));
    pipeline.begin(Some(3)).unwrap();
    pipeline.receive(&[1, 2, 3]);
    pipeline.complete();
    assert!(matches!(pipeline.next(), Step::Fetch { track_num: 2, .. }));
    pipeline.begin(Some(4)).unwrap();
    assert_eq!(pipeline.receive(&[4, 5, 6, 7]), Progress { received: 4, expected: 4 });
    match pipeline.complete() {
        Disposition::Store { file_name, contents, .. } => {
            assert_eq!(file_name, "B.mp3");
            assert_eq!(contents.to_vec(), vec![4, 5, 6, 7]);
        }
        Disposition::Discard => panic!("a real run stores the song"),
    }
    assert_eq!(pipeline.next(), Step::Finished { total: 7 });
}

#[test]
fn total_is_the_sum_over_the_run() {
    let songs = vec![
        song(1, "A", Some("http://x/a.mp3")),
        song(2, "B", None),
        song(3, "C", Some("http://x/c.mp3")),
        song(4, "D", None),
    ];
    let mut pipeline = download_songs(songs, false);
    assert!(matches!(pipeline.next(), Step::Fetch { track_num: 1, .. }));
    pipeline.begin(Some(3)).unwrap();
    pipeline.receive(&[1, 2, 3]);
    pipeline.complete();
    assert_eq!(pipeline.next(), Step::Omit { name: "B".to_string() });
    assert_eq!(pipeline.total, 3);
    assert!(matches!(pipeline.next(), Step::Fetch { track_num: 3, .. }));
    pipeline.begin(Some(4)).unwrap();
    pipeline.receive(&[4, 5]);
    pipeline.receive(&[6, 7]);
    pipeline.complete();
    assert_eq!(pipeline.next(), Step::Omit { name: "D".to_string() });
    assert_eq!(pipeline.next(), Step::Finished { total: 7 });
}

#[test]
fn dry_run_discards_the_bytes() {
    let mut pipeline = download_songs(vec![song(1, "A", Some("http://x/a.mp3"))], true);
    assert!(matches!(pipeline.next(), Step::Fetch { .. }));
    pipeline.begin(Some(2)).unwrap();
    pipeline.receive(&[1, 2]);
    assert_eq!(pipeline.complete(), Disposition::Discard);
    assert_eq!(pipeline.next(), Step::Finished { total: 2 });
}

#[test]
fn transfer_needs_a_declared_length() {
    let mut pipeline = download_songs(vec![song(1, "A", Some("http://x/a.mp3"))], false);
    assert!(matches!(pipeline.next(), Step::Fetch { .. }));
    assert_eq!(pipeline.begin(None), Err(LengthUnknown));
    assert_eq!(pipeline.phase, Phase::Requested);
}

fn member(name: &str, value: Json) -> (String, Json) {
    (name.to_string(), value)
}

fn words(value: &str) -> Json {
    Json::Text(value.to_string())
}

#[test]
fn resolved_placeholder_is_omitted_without_error() {
    let properties = Json::Array(vec![Json::Object(vec![
        member("name", words("duration")),
        member("value", words("3:00")),
    ])]);
    let entry = Json::Object(vec![
        member("position", Json::Integer(1)),
        member(
            "item",
            Json::Object(vec![member("name", words("Song A")), member("additionalProperty", properties)]),
        ),
    ]);
    let doc = Json::Object(vec![
        member("name", words("Title")),
        member("image", words("http://x/i.jpg")),
        member("@id", words("http://x/t")),
        member("byArtist", Json::Object(vec![member("name", words("Band"))])),
        member("track", Json::Object(vec![member("itemListElement", Json::Array(vec![entry]))])),
        member("datePublished", words("Mon, 01 Jan 2024 00:00:00 +0000")),
        member("description", words("desc")),
    ]);
    let songs = parse_album(doc).unwrap();
    assert_eq!(songs.len(), 1);
    assert_eq!(songs[0].audio_url, None);
    let mut pipeline = download_songs(songs, false);
    assert_eq!(pipeline.next(), Step::Omit { name: "Song A".to_string() });
    assert_eq!(pipeline.next(), Step::Finished { total: 0 });
}
