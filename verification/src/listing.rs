//! What holds of the entries that a track listing resolves to.

use vstd::prelude::*;
use crate::json::Json;
use crate::parse::{album_songs, entries_of, has_track, resolved, track_items, Entry};
use crate::song::SongView;

verus! {

/// The positions of the entries, in order.
pub open spec fn positions(entries: Seq<Entry>) -> Seq<usize> {
    entries.map_values(|e: Entry| e.track_num)
}

/// No two entries of the list stand at one position.
pub open spec fn distinct_tracks(list: Seq<Entry>) -> bool {
    forall|a: int, b: int|
        0 <= a < b < list.len() ==> (#[trigger] list[a]).track_num != (#[trigger] list[b]).track_num
}

/// Resolving neither adds a position nor loses one: the result holds a song
/// at `n` exactly where the listing has an item at `n`.
pub proof fn lemma_positions_kept(entries: Seq<Entry>, n: usize)
    ensures
        has_track(resolved(entries), n) <==> has_track(entries, n),
    decreases entries.len(),
{
    if entries.len() > 0 {
        let before = entries.drop_last();
        let last = entries.last();
        let kept = resolved(before);
        let all = resolved(entries);
        lemma_positions_kept(before, n);
        if has_track(all, n) {
            let k = choose|k: int| 0 <= k < all.len() && (#[trigger] all[k]).track_num == n;
            if k < kept.len() {
                assert(kept[k].track_num == n);
                let i = choose|i: int| 0 <= i < before.len() && (#[trigger] before[i]).track_num == n;
                assert(entries[i].track_num == n);
            } else {
                assert(entries[entries.len() - 1].track_num == n);
            }
        }
        if has_track(entries, n) {
            let i = choose|i: int| 0 <= i < entries.len() && (#[trigger] entries[i]).track_num == n;
            if i < before.len() {
                assert(before[i].track_num == n);
                let k = choose|k: int| 0 <= k < kept.len() && (#[trigger] kept[k]).track_num == n;
                assert(all[k].track_num == n);
            } else if has_track(kept, last.track_num) {
                let k = choose|k: int| 0 <= k < kept.len() && (#[trigger] kept[k]).track_num == n;
                assert(all[k].track_num == n);
            } else {
                assert(all[kept.len() as int].track_num == n);
            }
        }
    }
}

/// In a resolved list no two songs share a track number.
pub proof fn lemma_resolved_distinct(entries: Seq<Entry>)
    ensures
        distinct_tracks(resolved(entries)),
    decreases entries.len(),
{
    if entries.len() > 0 {
        lemma_resolved_distinct(entries.drop_last());
    }
}

/// A resolved list has as many songs as the listing has distinct positions.
pub proof fn lemma_resolved_count(entries: Seq<Entry>)
    ensures
        resolved(entries).len() == positions(entries).to_set().len(),
{
    let all = resolved(entries);
    lemma_resolved_distinct(entries);
    assert(positions(all).no_duplicates()) by {
        assert forall|a: int, b: int|
            0 <= a < positions(all).len() && 0 <= b < positions(all).len() && a != b implies positions(
            all,
        )[a] != positions(all)[b] by {
            if a < b {
                assert(all[a].track_num != all[b].track_num);
            } else {
                assert(all[b].track_num != all[a].track_num);
            }
        }
    }
    positions(all).unique_seq_to_set();
    assert(positions(all).to_set() =~= positions(entries).to_set()) by {
        assert forall|n: usize| positions(all).to_set().contains(n) <==> positions(
            entries,
        ).to_set().contains(n) by {
            lemma_positions_kept(entries, n);
            if positions(all).contains(n) {
                let k = choose|k: int| 0 <= k < positions(all).len() && positions(all)[k] == n;
                assert(all[k].track_num == n);
            }
            if positions(entries).contains(n) {
                let i = choose|i: int| 0 <= i < positions(entries).len() && positions(entries)[i] == n;
                assert(entries[i].track_num == n);
            }
            if has_track(all, n) {
                let k = choose|k: int| 0 <= k < all.len() && (#[trigger] all[k]).track_num == n;
                assert(positions(all)[k] == n);
            }
            if has_track(entries, n) {
                let i = choose|i: int| 0 <= i < entries.len() && (#[trigger] entries[i]).track_num == n;
                assert(positions(entries)[i] == n);
            }
        }
    }
}

/// An item that repeats the position of an earlier item adds nothing: the
/// result is the same with it as without it.
pub proof fn lemma_repeated_skipped(entries: Seq<Entry>, i: int, j: int)
    requires
        0 <= i < j < entries.len(),
        entries[i].track_num == entries[j].track_num,
    ensures
        resolved(entries.take(j + 1)) == resolved(entries.take(j)),
{
    let upto = entries.take(j + 1);
    assert(upto.drop_last() =~= entries.take(j));
    assert(upto.last() == entries[j]);
    lemma_positions_kept(entries.take(j), entries[j].track_num);
    assert(entries.take(j)[i].track_num == entries[j].track_num);
}

/// The first item of a position gives the one song of that position.
pub proof fn lemma_first_wins(entries: Seq<Entry>, first: int, n: usize)
    requires
        0 <= first < entries.len(),
        entries[first].track_num == n,
        forall|i: int| 0 <= i < first ==> (#[trigger] entries[i]).track_num != n,
    ensures
        exists|k: int|
            0 <= k < resolved(entries).len() && #[trigger] resolved(entries)[k] == entries[first]
                && forall|m: int|
                0 <= m < resolved(entries).len() && (#[trigger] resolved(entries)[m]).track_num == n
                    ==> m == k,
    decreases entries.len(),
{
    let before = entries.drop_last();
    let last = entries.last();
    let kept = resolved(before);
    let all = resolved(entries);
    lemma_positions_kept(before, n);
    if first < before.len() {
        assert(before[first] == entries[first]);
        assert forall|i: int| 0 <= i < first implies (#[trigger] before[i]).track_num != n by {
            assert(entries[i].track_num != n);
        }
        lemma_first_wins(before, first, n);
        let k = choose|k: int|
            0 <= k < kept.len() && #[trigger] kept[k] == before[first] && forall|m: int|
                0 <= m < kept.len() && (#[trigger] kept[m]).track_num == n ==> m == k;
        assert(kept[k].track_num == n);
        if last.track_num == n {
            assert(all == kept);
        }
        assert(all[k] == entries[first]);
        assert forall|m: int| 0 <= m < all.len() && (#[trigger] all[m]).track_num == n implies m == k by {
            if m < kept.len() {
                assert(kept[m].track_num == n);
            }
        }
    } else {
        assert(!has_track(before, n)) by {
            if has_track(before, n) {
                let i = choose|i: int| 0 <= i < before.len() && (#[trigger] before[i]).track_num == n;
                assert(entries[i].track_num == n);
            }
        }
        let k = kept.len() as int;
        assert(all == kept.push(last));
        assert(all[k] == entries[first]);
        assert forall|m: int| 0 <= m < all.len() && (#[trigger] all[m]).track_num == n implies m == k by {
            if m < kept.len() {
                assert(kept[m].track_num == n);
            }
        }
    }
}

/// The entries of the track listing of a document that resolves.
pub open spec fn listing(doc: Json) -> Seq<Entry>
    recommends
        album_songs(doc) is Ok,
{
    entries_of(track_items(doc)->Some_0)->Ok_0
}

/// No two songs of the list carry one track number.
pub open spec fn distinct_songs(songs: Seq<SongView>) -> bool {
    forall|a: int, b: int|
        0 <= a < b < songs.len() ==> (#[trigger] songs[a]).track_num != (#[trigger] songs[b]).track_num
}

/// The songs of a resolved album carry pairwise distinct track numbers, and
/// there are as many songs as the listing has distinct positions.
pub proof fn lemma_album_tracks(doc: Json)
    requires
        album_songs(doc) is Ok,
    ensures
        distinct_songs(album_songs(doc)->Ok_0),
        album_songs(doc)->Ok_0.len() == positions(listing(doc)).to_set().len(),
{
    let entries = listing(doc);
    let songs = album_songs(doc)->Ok_0;
    lemma_resolved_distinct(entries);
    lemma_resolved_count(entries);
    assert(songs.len() == resolved(entries).len());
    assert forall|a: int, b: int| 0 <= a < b < songs.len() implies (#[trigger] songs[a]).track_num != (
    #[trigger] songs[b]).track_num by {
        assert(songs[a].track_num == resolved(entries)[a].track_num);
        assert(songs[b].track_num == resolved(entries)[b].track_num);
    }
}

} // verus!
