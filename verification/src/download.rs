//! The acquisition pipeline as a state machine: it decides, song by song,
//! what is fetched, what is counted and what is stored. The caller does the
//! transfers and the writing.

use vstd::prelude::*;
use vstd::string::*;
use bytes::BufMut;
use bytes::BytesMut;
use crate::song::Song;

verus! {

/// `bytes::BytesMut`: a growable buffer of bytes. What it holds is `buffered`.
#[verifier::external_type_specification]
#[verifier::external_body]
pub struct ExBytesMut(BytesMut);

/// The bytes that a buffer holds, in order.
pub uninterp spec fn buffered(buffer: BytesMut) -> Seq<u8>;

/// `BytesMut::with_capacity`: an empty buffer with room for `capacity`
/// bytes. The allocation behind it takes at most `isize::MAX` bytes.
#[verifier::external_body]
fn new_buffer(capacity: usize) -> (r: BytesMut)
    requires
        capacity <= isize::MAX,
    ensures
        buffered(r) == Seq::<u8>::empty(),
{
    BytesMut::with_capacity(capacity)
}

/// `BufMut::put` on a `BytesMut`, with a slice: the bytes of the slice are
/// added at the end, and the buffer grows as needed, as long as its length
/// stays within `isize::MAX`, the most that an allocation takes.
#[verifier::external_body]
fn append_chunk(buffer: &mut BytesMut, chunk: &[u8])
    requires
        buffered(*old(buffer)).len() + chunk@.len() <= isize::MAX,
    ensures
        buffered(*final(buffer)) == buffered(*old(buffer)) + chunk@,
{
    buffer.put(chunk)
}

/// `BytesMut::len`: the number of bytes in the buffer.
#[verifier::external_body]
fn buffer_len(buffer: &BytesMut) -> (r: usize)
    ensures
        r == buffered(*buffer).len(),
{
    buffer.len()
}

/// The bytes of a whole run: for each song what was streamed for it, and
/// nothing for a song without an audio address.
pub open spec fn run_total(songs: Seq<Song>, streamed: Seq<nat>) -> nat
    decreases songs.len(),
{
    if songs.len() == 0 || streamed.len() != songs.len() {
        0
    } else {
        run_total(songs.drop_last(), streamed.drop_last()) + if songs.last().audio_url is None {
            0
        } else {
            streamed.last()
        }
    }
}

/// Counts that are 0 for each song without an address, and what was
/// streamed for each other song, add up to the bytes of the run.
proof fn lemma_counts_add_up(songs: Seq<Song>, counts: Seq<nat>, streamed: Seq<nat>)
    requires
        counts.len() == songs.len(),
        streamed.len() == songs.len(),
        forall|i: int| 0 <= i < songs.len() && (#[trigger] songs[i]).audio_url is None ==> counts[i] == 0,
        forall|i: int|
            0 <= i < songs.len() && (#[trigger] songs[i]).audio_url is Some ==> counts[i] == streamed[i],
    ensures
        sum_of(counts) == run_total(songs, streamed),
    decreases songs.len(),
{
    if songs.len() > 0 {
        let last = songs.len() - 1;
        assert(songs[last] == songs.last());
        assert forall|i: int| 0 <= i < last && (#[trigger] songs.drop_last()[i]).audio_url is None implies counts.drop_last()[i]
            == 0 by {
            assert(songs[i].audio_url is None);
        }
        assert forall|i: int| 0 <= i < last && (#[trigger] songs.drop_last()[i]).audio_url is Some implies counts.drop_last()[i]
            == streamed.drop_last()[i] by {
            assert(songs[i].audio_url is Some);
        }
        lemma_counts_add_up(songs.drop_last(), counts.drop_last(), streamed.drop_last());
    }
}

/// Over a whole run: once every song is done, the total is the sum, over the
/// songs, of the bytes streamed for each. A song without an audio address
/// adds nothing, whatever `streamed` holds at its place, and the songs after
/// it are counted like the others.
pub proof fn lemma_finished_total(pipeline: Pipeline, streamed: Seq<nat>)
    requires
        pipeline.wf(),
        pipeline.is_finished(),
        streamed.len() == pipeline.songs@.len(),
        forall|i: int|
            0 <= i < pipeline.songs@.len() && (#[trigger] pipeline.songs@[i]).audio_url is Some
                ==> pipeline.counts@[i] == streamed[i],
    ensures
        pipeline.total == run_total(pipeline.songs@, streamed),
{
    lemma_counts_add_up(pipeline.songs@, pipeline.counts@, streamed);
}

/// What the pipeline waits for.
#[derive(Debug, Clone, Copy, PartialEq, Eq, Structural)]
pub enum Phase {
    /// Between two songs.
    Idle,
    /// A fetch was asked for; the declared length is not known yet.
    Requested,
    /// The chunks of the current song are coming in.
    Receiving,
}

/// Where the pipeline stands: the songs before `position` are done.
pub struct Pipeline {
    pub songs: Vec<Song>,
    pub is_debug: bool,
    pub position: usize,
    /// The bytes received so far, over all songs.
    pub total: u64,
    pub phase: Phase,
    /// The length that the server declared for the current transfer.
    pub expected: usize,
    /// The bytes of the current transfer, in arrival order.
    pub buffer: BytesMut,
    /// The bytes received for each song that is done, in list order.
    pub counts: Ghost<Seq<nat>>,
}

/// The sum of the counts.
pub open spec fn sum_of(counts: Seq<nat>) -> nat
    decreases counts.len(),
{
    if counts.len() == 0 {
        0
    } else {
        sum_of(counts.drop_last()) + counts.last()
    }
}

/// One more count adds itself to the sum.
proof fn lemma_sum_push(counts: Seq<nat>, n: nat)
    ensures
        sum_of(counts.push(n)) == sum_of(counts) + n,
{
    assert(counts.push(n).drop_last() =~= counts);
}

/// What the caller is to do next.
#[derive(Debug, Clone, PartialEq, Eq)]
pub enum Step {
    /// Every song is done; `total` bytes were received.
    Finished { total: u64 },
    /// The song has no audio address: report its name and go on.
    Omit { name: String },
    /// Fetch the audio of the song from `url`.
    Fetch { url: String, track_num: usize, name: String },
}

/// A progress update: the bytes of the current song so far, and the declared
/// length.
#[derive(Debug, Clone, Copy, PartialEq, Eq)]
pub struct Progress {
    pub received: usize,
    pub expected: usize,
}

/// What becomes of a completed transfer.
#[derive(Debug, PartialEq, Eq)]
pub enum Disposition {
    /// A dry run: nothing is written.
    Discard,
    /// Write `contents` as the whole of the file `file_name` in the
    /// directory `artist`/`album` below the destination root, then tag it.
    Store { artist: String, album: String, file_name: String, contents: BytesMut },
}

/// The server declared no length for a transfer.
#[derive(Debug, Clone, Copy, PartialEq, Eq)]
pub struct LengthUnknown;

impl Pipeline {
    /// The invariant of the pipeline.
    pub open spec fn wf(self) -> bool {
        &&& self.position <= self.songs@.len()
        &&& self.phase != Phase::Idle ==> self.position < self.songs@.len()
            && self.songs@[self.position as int].audio_url is Some
        &&& self.phase != Phase::Receiving ==> buffered(self.buffer).len() == 0
        &&& self.counts@.len() == self.position
        &&& self.total == sum_of(self.counts@) + buffered(self.buffer).len()
        &&& forall|i: int|
            0 <= i < self.position && (#[trigger] self.songs@[i]).audio_url is None
                ==> self.counts@[i] == 0
    }

    /// Whether every song is done.
    pub open spec fn is_finished(self) -> bool {
        self.phase == Phase::Idle && self.position == self.songs@.len()
    }

    /// The song that is next or in transfer.
    pub open spec fn current(self) -> Song
        recommends
            self.position < self.songs@.len(),
    {
        self.songs@[self.position as int]
    }

    /// Whether `other` is a state of the same run: over the same songs, in
    /// the same mode.
    pub open spec fn same_run(self, other: Pipeline) -> bool {
        self.songs == other.songs && self.is_debug == other.is_debug
    }

    /// Says what to do next. A song without an audio address is passed over
    /// here: it adds nothing to the total and no transfer is begun for it.
    /// When every song is done, the total is the sum of what was received
    /// for each song, which is nothing for each song without an address.
    pub fn next(&mut self) -> (step: Step)
        requires
            old(self).wf(),
            old(self).phase == Phase::Idle,
        ensures
            final(self).wf(),
            final(self).same_run(*old(self)),
            final(self).total == old(self).total,
            final(self).buffer == old(self).buffer,
            final(self).expected == old(self).expected,
            old(self).is_finished() ==> {
                &&& step == (Step::Finished { total: old(self).total })
                &&& *final(self) == *old(self)
                &&& old(self).total == sum_of(old(self).counts@)
                &&& old(self).counts@.len() == old(self).songs@.len()
            },
            !old(self).is_finished() && old(self).current().audio_url is None ==> {
                &&& step is Omit
                &&& step->Omit_name@ == old(self).current().name@
                &&& final(self).position == old(self).position + 1
                &&& final(self).phase == Phase::Idle
                &&& final(self).counts@ == old(self).counts@.push(0)
            },
            !old(self).is_finished() && old(self).current().audio_url is Some ==> {
                &&& step is Fetch
                &&& step->url@ == old(self).current().audio_url->Some_0@
                &&& step->track_num == old(self).current().track_num
                &&& step->Fetch_name@ == old(self).current().name@
                &&& final(self).position == old(self).position
                &&& final(self).phase == Phase::Requested
                &&& final(self).counts == old(self).counts
            },
    {
        if self.position >= self.songs.len() {
            return Step::Finished { total: self.total };
        }
        let song = &self.songs[self.position];
        match &song.audio_url {
            None => {
                let name = song.name.clone();
                proof {
                    lemma_sum_push(self.counts@, 0);
                }
                self.counts = Ghost(self.counts@.push(0));
                self.position = self.position + 1;
                Step::Omit { name }
            },
            Some(url) => {
                let step = Step::Fetch {
                    url: url.clone(),
                    track_num: song.track_num,
                    name: song.name.clone(),
                };
                self.phase = Phase::Requested;
                step
            },
        }
    }

    /// Takes the length that the server declared for the transfer that was
    /// asked for, and makes room for as many bytes. Without a declared length
    /// the transfer cannot go on.
    pub fn begin(&mut self, declared: Option<u64>) -> (r: Result<Progress, LengthUnknown>)
        requires
            old(self).wf(),
            old(self).phase == Phase::Requested,
            declared is Some ==> declared->Some_0 <= isize::MAX,
        ensures
            final(self).wf(),
            final(self).same_run(*old(self)),
            final(self).position == old(self).position,
            final(self).total == old(self).total,
            final(self).counts == old(self).counts,
            buffered(final(self).buffer).len() == 0,
            match declared {
                Some(length) => {
                    &&& r is Ok
                    &&& r->Ok_0.received == 0
                    &&& r->Ok_0.expected == length
                    &&& final(self).expected == length
                    &&& final(self).phase == Phase::Receiving
                },
                None => r is Err && *final(self) == *old(self),
            },
    {
        match declared {
            Some(length) => {
                self.expected = length as usize;
                self.buffer = new_buffer(self.expected);
                self.phase = Phase::Receiving;
                Ok(Progress { received: 0, expected: self.expected })
            },
            None => Err(LengthUnknown),
        }
    }

    /// Adds a chunk to the current transfer and to the total, and gives the
    /// progress update that follows it. The bytes received never go down.
    pub fn receive(&mut self, chunk: &[u8]) -> (progress: Progress)
        requires
            old(self).wf(),
            old(self).phase == Phase::Receiving,
            buffered(old(self).buffer).len() + chunk@.len() <= isize::MAX,
            old(self).total + chunk@.len() <= u64::MAX,
        ensures
            final(self).wf(),
            final(self).same_run(*old(self)),
            final(self).position == old(self).position,
            final(self).phase == Phase::Receiving,
            final(self).expected == old(self).expected,
            final(self).counts == old(self).counts,
            buffered(final(self).buffer) == buffered(old(self).buffer) + chunk@,
            final(self).total == old(self).total + chunk@.len(),
            progress.received == buffered(old(self).buffer).len() + chunk@.len(),
            progress.expected == old(self).expected,
    {
        append_chunk(&mut self.buffer, chunk);
        self.total = self.total + chunk.len() as u64;
        Progress { received: buffer_len(&self.buffer), expected: self.expected }
    }

    /// The bytes of the current transfer so far.
    pub fn received(&self) -> (r: usize)
        ensures
            r == buffered(self.buffer).len(),
    {
        buffer_len(&self.buffer)
    }

    /// Closes the current transfer and says what becomes of its bytes: in a
    /// dry run nothing, else the file of the song.
    pub fn complete(&mut self) -> (r: Disposition)
        requires
            old(self).wf(),
            old(self).phase == Phase::Receiving,
        ensures
            final(self).wf(),
            final(self).same_run(*old(self)),
            final(self).position == old(self).position + 1,
            final(self).total == old(self).total,
            final(self).expected == old(self).expected,
            final(self).phase == Phase::Idle,
            final(self).counts@ == old(self).counts@.push(buffered(old(self).buffer).len()),
            old(self).current().audio_url is Some,
            old(self).is_debug ==> r is Discard,
            !old(self).is_debug ==> {
                &&& r is Store
                &&& r->artist@ == old(self).current().artist@
                &&& r->album@ == old(self).current().album@
                &&& r->file_name@ == old(self).current().name@ + ".mp3"@
                &&& buffered(r->contents) == buffered(old(self).buffer)
            },
    {
        proof {
            lemma_sum_push(self.counts@, buffered(self.buffer).len());
        }
        self.counts = Ghost(self.counts@.push(buffered(self.buffer).len()));
        let mut contents = new_buffer(0);
        std::mem::swap(&mut self.buffer, &mut contents);
        assert(self.position < self.songs.len());
        let song = &self.songs[self.position];
        let r = if self.is_debug {
            Disposition::Discard
        } else {
            Disposition::Store {
                artist: song.artist.clone(),
                album: song.album.clone(),
                file_name: song.name.clone().concat(".mp3"),
                contents,
            }
        };
        self.phase = Phase::Idle;
        self.position = self.position + 1;
        r
    }
}

/// Starts the pipeline over a list of songs: nothing received, the first
/// song next.
pub fn download_songs(song_list: Vec<Song>, is_debug: bool) -> (pipeline: Pipeline)
    ensures
        pipeline.wf(),
        pipeline.songs == song_list,
        pipeline.is_debug == is_debug,
        pipeline.position == 0,
        pipeline.total == 0,
        pipeline.phase == Phase::Idle,
        pipeline.expected == 0,
        pipeline.counts@ == Seq::<nat>::empty(),
{
    Pipeline {
        songs: song_list,
        is_debug,
        position: 0,
        total: 0,
        phase: Phase::Idle,
        expected: 0,
        buffer: new_buffer(0),
        counts: Ghost(Seq::empty()),
    }
}

} // verus!
