//! The kind of a page, read from its address, and the resolver that goes
//! with it.

use vstd::prelude::*;
use vstd::string::*;
use crate::json::Json;
use crate::parse::{album_songs, parse_album, parse_track, track_songs, ResolveError};
use crate::song::{song_views, Song, SongView};

verus! {

/// The two document shapes that can be resolved.
#[derive(Debug, Clone, Copy, PartialEq, Eq, Structural)]
pub enum PageKind {
    Album,
    Track,
}

/// The place of the first slash of `s`, or its length where it has none.
pub open spec fn first_slash(s: Seq<char>) -> int
    decreases s.len(),
{
    if s.len() == 0 || s[0] == '/' {
        0
    } else {
        1 + first_slash(s.subrange(1, s.len() as int))
    }
}

/// The piece of `s` at `index`, counted from 0, where slashes part the
/// pieces; `None` where `s` has fewer pieces.
pub open spec fn segment(s: Seq<char>, index: nat) -> Option<Seq<char>>
    decreases index,
{
    let cut = first_slash(s);
    if index == 0 {
        Some(s.subrange(0, cut))
    } else if cut >= s.len() {
        None
    } else {
        segment(s.subrange(cut + 1, s.len() as int), (index - 1) as nat)
    }
}

/// The kind that a path segment names.
pub open spec fn kind_of(name: Seq<char>) -> Option<PageKind> {
    if name == "album"@ {
        Some(PageKind::Album)
    } else if name == "track"@ {
        Some(PageKind::Track)
    } else {
        None
    }
}

/// What resolving a document of the given kind gives.
pub open spec fn page_songs(kind: PageKind, doc: Json) -> Result<Seq<SongView>, ResolveError> {
    match kind {
        PageKind::Album => album_songs(doc),
        PageKind::Track => track_songs(doc),
    }
}

/// A text without a slash before `k`, and with one at `k` or ending there,
/// has its first slash at `k`.
proof fn lemma_first_slash(s: Seq<char>, k: int)
    requires
        0 <= k <= s.len(),
        forall|i: int| 0 <= i < k ==> s[i] != '/',
        k == s.len() || s[k] == '/',
    ensures
        first_slash(s) == k,
    decreases k,
{
    if k > 0 {
        lemma_first_slash(s.subrange(1, s.len() as int), k - 1);
    }
}

/// The segment of an address that names the kind of its page: the fourth
/// piece, which follows the scheme, the empty piece and the host.
pub fn download_type(url: &str) -> (r: Option<String>)
    ensures
        match segment(url@, 3) {
            Some(piece) => r is Some && r->Some_0@ == piece,
            None => r is None,
        },
{
    let n: usize = url.unicode_len();
    let mut start: usize = 0;
    let mut remaining: usize = 3;
    let mut i: usize = 0;
    assert(url@.subrange(0, n as int) =~= url@);
    while i < n
        invariant
            n == url@.len(),
            start <= i <= n,
            remaining <= 3,
            segment(url@, 3) == segment(url@.subrange(start as int, n as int), remaining as nat),
            forall|j: int| start <= j < i ==> url@[j] != '/',
        decreases n - i,
    {
        let ghost rest = url@.subrange(start as int, n as int);
        if url.get_char(i) == '/' {
            proof {
                lemma_first_slash(rest, i - start);
            }
            if remaining == 0 {
                assert(rest.subrange(0, i - start) =~= url@.subrange(start as int, i as int));
                return Some(String::from_str(url.substring_char(start, i)));
            }
            assert(rest.subrange(i - start + 1, rest.len() as int) =~= url@.subrange(i + 1, n as int));
            remaining = remaining - 1;
            start = i + 1;
        }
        i += 1;
    }
    let ghost rest = url@.subrange(start as int, n as int);
    proof {
        lemma_first_slash(rest, n - start);
    }
    if remaining == 0 {
        assert(rest.subrange(0, n - start) =~= url@.subrange(start as int, n as int));
        Some(String::from_str(url.substring_char(start, n)))
    } else {
        None
    }
}

/// Reads the kind of page that a path segment names: `album` or `track`.
pub fn page_kind(name: &str) -> (r: Option<PageKind>)
    ensures
        r == kind_of(name@),
{
    let given = String::from_str(name);
    if given == String::from_str("album") {
        Some(PageKind::Album)
    } else if given == String::from_str("track") {
        Some(PageKind::Track)
    } else {
        None
    }
}

/// Resolves a document with the resolver of its kind.
pub fn resolve(kind: PageKind, doc: Json) -> (r: Result<Vec<Song>, ResolveError>)
    ensures
        match page_songs(kind, doc) {
            Ok(songs) => r is Ok && song_views(r->Ok_0@) == songs,
            Err(e) => r is Err && r->Err_0 == e,
        },
{
    match kind {
        PageKind::Album => parse_album(doc),
        PageKind::Track => parse_track(doc),
    }
}

} // verus!
