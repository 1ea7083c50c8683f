//! The metadata resolver: from a structured-data document to its songs.

use vstd::prelude::*;
use vstd::string::*;
use crate::json::{held, same_text, Json};
use crate::listing::{distinct_songs, lemma_album_tracks, listing, positions};
use crate::song::{song_views, Song, SongView};
use crate::text::{path_safe, replace_colons};

verus! {

/// Why a document could not be resolved.
#[derive(Debug, Clone, Copy, PartialEq, Eq, Structural)]
pub enum ResolveError {
    /// A field that the shape requires is absent.
    MissingField,
    /// A field is there, but not of the kind that the shape asks for.
    InvalidField,
}

/// The album-level fields, which every song of one document shares.
pub struct Header {
    pub album: Seq<char>,
    pub artist: Seq<char>,
    pub image_url: Seq<char>,
    pub site_url: Seq<char>,
    pub release_date: Seq<char>,
    pub description: Seq<char>,
}

/// What one item of a track listing says of its track.
pub struct Entry {
    pub name: Seq<char>,
    pub track_num: usize,
    pub audio_url: Option<Seq<char>>,
}

/// Whether a field is absent: not there at all, or `null`.
pub open spec fn is_absent(v: Option<Json>) -> bool {
    v matches None || v matches Some(Json::Null)
}

/// A text field that may be absent: the decoded string itself, and the
/// empty text for an absent field.
pub open spec fn optional_text(v: Option<Json>) -> Result<Seq<char>, ResolveError> {
    match v {
        None => Ok(Seq::empty()),
        Some(Json::Null) => Ok(Seq::empty()),
        Some(Json::Text(s)) => Ok(s@),
        _ => Err(ResolveError::InvalidField),
    }
}

/// A text field that must be there.
pub open spec fn required_text(v: Option<Json>) -> Result<Seq<char>, ResolveError> {
    if is_absent(v) {
        Err(ResolveError::MissingField)
    } else {
        optional_text(v)
    }
}

/// The elements of an array; `None` for anything else.
pub open spec fn array_items(v: Option<Json>) -> Option<Seq<Json>> {
    match v {
        Some(Json::Array(items)) => Some(items@),
        _ => None,
    }
}

/// The unsigned integer that a field holds; `None` for anything else.
pub open spec fn integer_value(v: Option<Json>) -> Option<u64> {
    match v {
        Some(Json::Integer(n)) => Some(n),
        _ => None,
    }
}

/// Whether the property `p` carries exactly the name `name`.
pub open spec fn is_named(p: Json, name: Seq<char>) -> bool {
    match p.member("name"@) {
        Some(Json::Text(s)) => s@ == name,
        _ => false,
    }
}

/// The first property of the list that is named `name`.
pub open spec fn first_named(props: Seq<Json>, name: Seq<char>) -> Option<Json>
    decreases props.len(),
{
    if props.len() == 0 {
        None
    } else if is_named(props[0], name) {
        Some(props[0])
    } else {
        first_named(props.subrange(1, props.len() as int), name)
    }
}

/// The album-level fields of a track-listing document, or the first failure in
/// reading order.
pub open spec fn album_header(doc: Json) -> Result<Header, ResolveError> {
    let album = required_text(doc.member("name"@));
    let image = required_text(doc.member("image"@));
    let site = required_text(doc.member("@id"@));
    let artist = required_text(doc.member2("byArtist"@, "name"@));
    let date = optional_text(doc.member("datePublished"@));
    let description = optional_text(doc.member("description"@));
    if album is Err {
        Err(album->Err_0)
    } else if image is Err {
        Err(image->Err_0)
    } else if site is Err {
        Err(site->Err_0)
    } else if artist is Err {
        Err(artist->Err_0)
    } else if track_items(doc) is None {
        Err(ResolveError::MissingField)
    } else if date is Err {
        Err(date->Err_0)
    } else if description is Err {
        Err(description->Err_0)
    } else {
        Ok(
            Header {
                album: album->Ok_0,
                artist: artist->Ok_0,
                image_url: image->Ok_0,
                site_url: site->Ok_0,
                release_date: date->Ok_0,
                description: description->Ok_0,
            },
        )
    }
}

/// The items of the track listing.
pub open spec fn track_items(doc: Json) -> Option<Seq<Json>> {
    array_items(doc.member2("track"@, "itemListElement"@))
}

/// What one list item says: its name made path-safe, its position, and the
/// address in its first audio property, if it has one.
pub open spec fn entry_of(item: Json) -> Result<Entry, ResolveError> {
    let name = required_text(item.member2("item"@, "name"@));
    let position = integer_value(item.member("position"@));
    let props = array_items(item.member2("item"@, "additionalProperty"@));
    if name is Err {
        Err(name->Err_0)
    } else if position is None {
        Err(ResolveError::InvalidField)
    } else if props is None {
        Err(ResolveError::MissingField)
    } else {
        match first_named(props->Some_0, "file_mp3-128"@) {
            None => Ok(
                Entry {
                    name: path_safe(name->Ok_0),
                    track_num: position->Some_0 as usize,
                    audio_url: None,
                },
            ),
            Some(p) => match optional_text(p.member("value"@)) {
                Err(e) => Err(e),
                Ok(url) => Ok(
                    Entry {
                        name: path_safe(name->Ok_0),
                        track_num: position->Some_0 as usize,
                        audio_url: Some(url),
                    },
                ),
            },
        }
    }
}

/// The entries of all items, in order, or the failure of the first item that
/// has one.
pub open spec fn entries_of(items: Seq<Json>) -> Result<Seq<Entry>, ResolveError>
    decreases items.len(),
{
    if items.len() == 0 {
        Ok(Seq::empty())
    } else {
        match entries_of(items.drop_last()) {
            Err(e) => Err(e),
            Ok(before) => match entry_of(items.last()) {
                Err(e) => Err(e),
                Ok(entry) => Ok(before.push(entry)),
            },
        }
    }
}

/// Whether some entry of the list stands at position `n`.
pub open spec fn has_track(list: Seq<Entry>, n: usize) -> bool {
    exists|i: int| 0 <= i < list.len() && (#[trigger] list[i]).track_num == n
}

/// The entries that become songs: an entry is dropped where the result
/// already holds its position, so the first entry of each position stays.
pub open spec fn resolved(entries: Seq<Entry>) -> Seq<Entry>
    decreases entries.len(),
{
    if entries.len() == 0 {
        Seq::empty()
    } else {
        let kept = resolved(entries.drop_last());
        let last = entries.last();
        if has_track(kept, last.track_num) {
            kept
        } else {
            kept.push(last)
        }
    }
}

/// The song that an entry gives under the album-level fields.
pub open spec fn song_of(header: Header, entry: Entry) -> SongView {
    SongView {
        album: header.album,
        artist: header.artist,
        track_num: entry.track_num,
        name: entry.name,
        audio_url: entry.audio_url,
        image_url: header.image_url,
        site_url: header.site_url,
        release_date: header.release_date,
        description: header.description,
    }
}

/// The songs of a list of entries under one header.
pub open spec fn songs_of(header: Header, entries: Seq<Entry>) -> Seq<SongView> {
    entries.map_values(|e: Entry| song_of(header, e))
}

/// What resolving a track-listing document gives.
pub open spec fn album_songs(doc: Json) -> Result<Seq<SongView>, ResolveError> {
    match album_header(doc) {
        Err(e) => Err(e),
        Ok(header) => match entries_of(track_items(doc)->Some_0) {
            Err(e) => Err(e),
            Ok(entries) => Ok(songs_of(header, resolved(entries))),
        },
    }
}

/// What the property list of a single-track document says: the track number
/// and the audio address. Of several properties of one name the last counts;
/// with no `tracknum` the number is 0.
pub open spec fn scan_properties(props: Seq<Json>) -> Result<(usize, Option<Seq<char>>), ResolveError>
    decreases props.len(),
{
    if props.len() == 0 {
        Ok((0usize, None))
    } else {
        let p = props.last();
        let number = integer_value(p.member("value"@));
        let address = optional_text(p.member("value"@));
        match scan_properties(props.drop_last()) {
            Err(e) => Err(e),
            Ok(found) => if is_named(p, "tracknum"@) {
                if number is None {
                    Err(ResolveError::InvalidField)
                } else {
                    Ok((number->Some_0 as usize, found.1))
                }
            } else if is_named(p, "file_mp3-128"@) {
                match address {
                    Err(e) => Err(e),
                    Ok(url) => Ok((found.0, Some(url))),
                }
            } else {
                Ok(found)
            },
        }
    }
}

/// The properties of a single-track document.
pub open spec fn track_properties(doc: Json) -> Option<Seq<Json>> {
    array_items(doc.member("additionalProperty"@))
}

/// What resolving a single-track document gives: one song, with an empty
/// description.
pub open spec fn track_songs(doc: Json) -> Result<Seq<SongView>, ResolveError> {
    let album = required_text(doc.member2("inAlbum"@, "name"@));
    let image = required_text(doc.member("image"@));
    let site = required_text(doc.member("@id"@));
    let artist = required_text(doc.member2("byArtist"@, "name"@));
    let date = optional_text(doc.member("datePublished"@));
    let name = required_text(doc.member("name"@));
    let props = track_properties(doc);
    if album is Err {
        Err(album->Err_0)
    } else if image is Err {
        Err(image->Err_0)
    } else if site is Err {
        Err(site->Err_0)
    } else if artist is Err {
        Err(artist->Err_0)
    } else if date is Err {
        Err(date->Err_0)
    } else if name is Err {
        Err(name->Err_0)
    } else if props is None {
        Err(ResolveError::MissingField)
    } else {
        match scan_properties(props->Some_0) {
            Err(e) => Err(e),
            Ok(found) => Ok(
                seq![
                    SongView {
                        album: album->Ok_0,
                        artist: artist->Ok_0,
                        track_num: found.0,
                        name: path_safe(name->Ok_0),
                        audio_url: found.1,
                        image_url: image->Ok_0,
                        site_url: site->Ok_0,
                        release_date: date->Ok_0,
                        description: Seq::empty(),
                    },
                ],
            ),
        }
    }
}

/// Reads a text field that may be absent.
fn read_optional(v: Option<&Json>) -> (r: Result<String, ResolveError>)
    ensures
        match r {
            Ok(t) => optional_text(held(v)) == Ok::<Seq<char>, ResolveError>(t@),
            Err(e) => optional_text(held(v)) == Err::<Seq<char>, ResolveError>(e),
        },
{
    match v {
        None => Ok(String::new()),
        Some(Json::Null) => Ok(String::new()),
        Some(Json::Text(s)) => Ok(s.clone()),
        _ => Err(ResolveError::InvalidField),
    }
}

/// Reads a text field that must be there.
fn read_required(v: Option<&Json>) -> (r: Result<String, ResolveError>)
    ensures
        match r {
            Ok(t) => required_text(held(v)) == Ok::<Seq<char>, ResolveError>(t@),
            Err(e) => required_text(held(v)) == Err::<Seq<char>, ResolveError>(e),
        },
{
    match v {
        None => Err(ResolveError::MissingField),
        Some(Json::Null) => Err(ResolveError::MissingField),
        _ => read_optional(v),
    }
}

/// Tells whether a property carries the given name.
fn has_name(p: &Json, name: &str) -> (r: bool)
    ensures
        r == is_named(*p, name@),
{
    match p.get("name") {
        Some(Json::Text(s)) => same_text(s, name),
        _ => false,
    }
}

/// Finds the first property of a given name.
fn find_named<'a>(props: &'a Vec<Json>, name: &str) -> (r: Option<&'a Json>)
    ensures
        held(r) == first_named(props@, name@),
{
    let n: usize = props.len();
    let mut i: usize = 0;
    assert(props@.subrange(0, n as int) =~= props@);
    while i < n
        invariant
            n == props@.len(),
            i <= n,
            first_named(props@, name@) == first_named(props@.subrange(i as int, n as int), name@),
        decreases n - i,
    {
        let ghost rest = props@.subrange(i as int, n as int);
        assert(rest[0] == props@[i as int]);
        if has_name(&props[i], name) {
            return Some(&props[i]);
        }
        assert(rest.subrange(1, rest.len() as int) =~= props@.subrange(i + 1, n as int));
        i += 1;
    }
    None
}

/// What the resolver reads from one list item.
struct ItemFields {
    name: String,
    track_num: usize,
    audio_url: Option<String>,
}

impl ItemFields {
    spec fn entry(self) -> Entry {
        Entry {
            name: self.name@,
            track_num: self.track_num,
            audio_url: match self.audio_url {
                Some(url) => Some(url@),
                None => None,
            },
        }
    }
}

/// Reads one item of a track listing.
fn read_entry(item: &Json) -> (r: Result<ItemFields, ResolveError>)
    ensures
        match r {
            Ok(fields) => entry_of(*item) == Ok::<Entry, ResolveError>(fields.entry()),
            Err(e) => entry_of(*item) == Err::<Entry, ResolveError>(e),
        },
{
    let name = match read_required(item.get2("item", "name")) {
        Ok(t) => replace_colons(t.as_str()),
        Err(e) => return Err(e),
    };
    let track_num: usize = match item.get("position") {
        Some(Json::Integer(n)) => #[verifier::truncate] (*n as usize),
        _ => return Err(ResolveError::InvalidField),
    };
    let props = match item.get2("item", "additionalProperty") {
        Some(Json::Array(props)) => props,
        _ => return Err(ResolveError::MissingField),
    };
    match find_named(props, "file_mp3-128") {
        None => Ok(ItemFields { name, track_num, audio_url: None }),
        Some(p) => match read_optional(p.get("value")) {
            Err(e) => Err(e),
            Ok(url) => Ok(ItemFields { name, track_num, audio_url: Some(url) }),
        },
    }
}

/// Tells whether a song of the list stands at position `n`.
fn holds_track(songs: &Vec<Song>, n: usize) -> (r: bool)
    ensures
        r == exists|i: int| 0 <= i < songs@.len() && (#[trigger] songs@[i]).track_num == n,
{
    let mut i: usize = 0;
    while i < songs.len()
        invariant
            i <= songs@.len(),
            forall|j: int| 0 <= j < i ==> (#[trigger] songs@[j]).track_num != n,
        decreases songs@.len() - i,
    {
        if songs[i].track_num == n {
            return true;
        }
        i += 1;
    }
    false
}

/// Resolves a track-listing document into its songs, in listing order.
///
/// Each item gives a song, but one whose position a song of the list already
/// has: that item is skipped, so no two songs share a track number.
pub fn parse_album(json: Json) -> (r: Result<Vec<Song>, ResolveError>)
    ensures
        match album_songs(json) {
            Ok(songs) => r is Ok && song_views(r->Ok_0@) == songs,
            Err(e) => r is Err && r->Err_0 == e,
        },
        r is Ok ==> distinct_songs(song_views(r->Ok_0@)),
        r is Ok ==> r->Ok_0@.len() == positions(listing(json)).to_set().len(),
{
    let album = match read_required(json.get("name")) {
        Ok(t) => t,
        Err(e) => return Err(e),
    };
    let image_url = match read_required(json.get("image")) {
        Ok(t) => t,
        Err(e) => return Err(e),
    };
    let site_url = match read_required(json.get("@id")) {
        Ok(t) => t,
        Err(e) => return Err(e),
    };
    let artist = match read_required(json.get2("byArtist", "name")) {
        Ok(t) => t,
        Err(e) => return Err(e),
    };
    let tracks = match json.get2("track", "itemListElement") {
        Some(Json::Array(items)) => items,
        _ => return Err(ResolveError::MissingField),
    };
    let release_date = match read_optional(json.get("datePublished")) {
        Ok(t) => t,
        Err(e) => return Err(e),
    };
    let description = match read_optional(json.get("description")) {
        Ok(t) => t,
        Err(e) => return Err(e),
    };
    let ghost header = album_header(json)->Ok_0;
    let mut song_list: Vec<Song> = Vec::new();
    let ghost mut entries: Seq<Entry> = Seq::empty();
    let n: usize = tracks.len();
    let mut i: usize = 0;
    assert(tracks@.take(0) =~= Seq::<Json>::empty());
    assert(song_views(song_list@) =~= songs_of(header, resolved(entries)));
    while i < n
        invariant
            n == tracks@.len(),
            i <= n,
            album_header(json) == Ok::<Header, ResolveError>(header),
            track_items(json) == Some(tracks@),
            album@ == header.album,
            artist@ == header.artist,
            image_url@ == header.image_url,
            site_url@ == header.site_url,
            release_date@ == header.release_date,
            description@ == header.description,
            entries_of(tracks@.take(i as int)) == Ok::<Seq<Entry>, ResolveError>(entries),
            song_views(song_list@) == songs_of(header, resolved(entries)),
        decreases n - i,
    {
        let ghost upto = tracks@.take(i + 1);
        assert(upto.drop_last() =~= tracks@.take(i as int));
        assert(upto.last() == tracks@[i as int]);
        let fields = match read_entry(&tracks[i]) {
            Ok(fields) => fields,
            Err(e) => {
                proof {
                    lemma_failure_stays(tracks@, i + 1);
                    assert(tracks@.take(n as int) =~= tracks@);
                }
                return Err(e);
            },
        };
        let ghost entry = fields.entry();
        let ghost kept = resolved(entries);
        proof {
            assert(entries.push(entry).drop_last() =~= entries);
            assert(song_views(song_list@).len() == song_list@.len());
            assert(songs_of(header, kept).len() == kept.len());
            assert forall|k: int| 0 <= k < kept.len() implies (#[trigger] song_list@[k]).track_num
                == kept[k].track_num by {
                assert(song_views(song_list@)[k] == songs_of(header, kept)[k]);
            }
            if has_track(kept, entry.track_num) {
                let k = choose|k: int| 0 <= k < kept.len() && (#[trigger] kept[k]).track_num == entry.track_num;
                assert(song_list@[k].track_num == entry.track_num);
            }
        }
        let skip = holds_track(&song_list, fields.track_num);
        if !skip {
            let song = Song {
                album: album.clone(),
                artist: artist.clone(),
                track_num: fields.track_num,
                name: fields.name,
                audio_url: fields.audio_url,
                image_url: image_url.clone(),
                site_url: site_url.clone(),
                release_date: release_date.clone(),
                description: description.clone(),
            };
            assert(song@ == song_of(header, entry));
            let ghost before = song_list@;
            song_list.push(song);
            assert forall|k: int| 0 <= k < song_list@.len() implies song_views(song_list@)[k]
                == songs_of(header, kept.push(entry))[k] by {
                if k < before.len() {
                    assert(song_views(before)[k] == songs_of(header, kept)[k]);
                }
            }
            assert(song_views(song_list@) =~= songs_of(header, kept.push(entry)));
        }
        proof {
            entries = entries.push(entry);
        }
        i += 1;
    }
    assert(tracks@.take(n as int) =~= tracks@);
    proof {
        lemma_album_tracks(json);
    }
    Ok(song_list)
}

/// Resolves a single-track document into a list of its one song.
pub fn parse_track(json: Json) -> (r: Result<Vec<Song>, ResolveError>)
    ensures
        match track_songs(json) {
            Ok(songs) => r is Ok && song_views(r->Ok_0@) == songs,
            Err(e) => r is Err && r->Err_0 == e,
        },
{
    let album = match read_required(json.get2("inAlbum", "name")) {
        Ok(t) => t,
        Err(e) => return Err(e),
    };
    let image_url = match read_required(json.get("image")) {
        Ok(t) => t,
        Err(e) => return Err(e),
    };
    let site_url = match read_required(json.get("@id")) {
        Ok(t) => t,
        Err(e) => return Err(e),
    };
    let artist = match read_required(json.get2("byArtist", "name")) {
        Ok(t) => t,
        Err(e) => return Err(e),
    };
    let release_date = match read_optional(json.get("datePublished")) {
        Ok(t) => t,
        Err(e) => return Err(e),
    };
    let name = match read_required(json.get("name")) {
        Ok(t) => replace_colons(t.as_str()),
        Err(e) => return Err(e),
    };
    let props = match json.get("additionalProperty") {
        Some(Json::Array(props)) => props,
        _ => return Err(ResolveError::MissingField),
    };
    let mut audio_url: Option<String> = None;
    let mut track_num: usize = 0;
    let n: usize = props.len();
    let mut i: usize = 0;
    assert(props@.take(0) =~= Seq::<Json>::empty());
    while i < n
        invariant
            n == props@.len(),
            i <= n,
            required_text(json.member2("inAlbum"@, "name"@)) is Ok,
            required_text(json.member("image"@)) is Ok,
            required_text(json.member("@id"@)) is Ok,
            required_text(json.member2("byArtist"@, "name"@)) is Ok,
            optional_text(json.member("datePublished"@)) is Ok,
            required_text(json.member("name"@)) is Ok,
            track_properties(json) == Some(props@),
            scan_properties(props@.take(i as int)) == Ok::<(usize, Option<Seq<char>>), ResolveError>(
                (track_num, address_view(audio_url)),
            ),
        decreases n - i,
    {
        let ghost upto = props@.take(i + 1);
        assert(upto.drop_last() =~= props@.take(i as int));
        assert(upto.last() == props@[i as int]);
        let property = &props[i];
        if has_name(property, "tracknum") {
            match property.get("value") {
                Some(Json::Integer(k)) => {
                    track_num = #[verifier::truncate] (*k as usize);
                },
                _ => {
                    proof {
                        lemma_scan_failure_stays(props@, i + 1);
                    }
                    return Err(ResolveError::InvalidField);
                },
            }
        } else if has_name(property, "file_mp3-128") {
            match read_optional(property.get("value")) {
                Ok(url) => {
                    audio_url = Some(url);
                },
                Err(e) => {
                    proof {
                        lemma_scan_failure_stays(props@, i + 1);
                    }
                    return Err(e);
                },
            }
        }
        i += 1;
    }
    assert(props@.take(n as int) =~= props@);
    let mut song_list: Vec<Song> = Vec::new();
    let song = Song {
        album,
        artist,
        track_num,
        name,
        audio_url,
        image_url,
        site_url,
        release_date,
        description: String::new(),
    };
    song_list.push(song);
    assert(song_views(song_list@) =~= track_songs(json)->Ok_0);
    Ok(song_list)
}

/// The characters of an optional address.
pub open spec fn address_view(address: Option<String>) -> Option<Seq<char>> {
    match address {
        Some(url) => Some(url@),
        None => None,
    }
}

/// Once a prefix of the properties fails, every longer prefix fails the same
/// way.
proof fn lemma_scan_failure_stays(props: Seq<Json>, upto: int)
    requires
        0 <= upto <= props.len(),
        scan_properties(props.take(upto)) is Err,
    ensures
        scan_properties(props) == scan_properties(props.take(upto)),
    decreases props.len() - upto,
{
    if upto == props.len() {
        assert(props.take(upto) =~= props);
    } else {
        assert(props.take(upto + 1).drop_last() =~= props.take(upto));
        lemma_scan_failure_stays(props, upto + 1);
    }
}

/// Once a prefix of the items fails, every longer prefix fails the same way.
proof fn lemma_failure_stays(items: Seq<Json>, upto: int)
    requires
        0 <= upto <= items.len(),
        entries_of(items.take(upto)) is Err,
    ensures
        entries_of(items) == entries_of(items.take(upto)),
    decreases items.len() - upto,
{
    if upto == items.len() {
        assert(items.take(upto) =~= items);
    } else {
        assert(items.take(upto + 1).drop_last() =~= items.take(upto));
        lemma_failure_stays(items, upto + 1);
    }
}

} // verus!
