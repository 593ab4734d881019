//! What the daemon decides when a client asks: each request is checked
//! against the library and then applied to the play queue.

use vstd::prelude::*;

use crate::ids::{hyphenated, id_text};
use crate::library::{index_wf, lookup, no_song_message, SongIndex};
use crate::protocol::{entry_of, ErrorReply, Song, SongEntry, SongMeta};
use crate::queue::{opt_view, placed, rotate_left, shuffle_step, start_count, PlayQueue};

verus! {

/// Plays a song from the library: it is appended to the queue. Returns
/// whether playback is to start (the queue was empty), or the unknown-song
/// error with the queue untouched.
pub fn play(q: &mut PlayQueue, index: &SongIndex, song_id: u128) -> (res: Result<bool, ErrorReply>)
    ensures
        index@.contains_key(song_id) ==> {
            &&& res matches Ok(start)
            &&& start == (old(q).queue@.len() == 0)
            &&& final(q).queue@.len() == old(q).queue@.len() + 1
            &&& final(q).queue@.take(old(q).queue@.len() as int) == old(q).queue@
            &&& final(q).queue@.last()@ == index@[song_id]@
            &&& final(q).current_song == old(q).current_song
        },
        !index@.contains_key(song_id) ==> {
            &&& res matches Err(e)
            &&& e.err_id == 1
            &&& e.err_msg@ == no_song_message(song_id)
            &&& final(q).queue@ == old(q).queue@
            &&& final(q).current_song == old(q).current_song
        },
        final(q).shuffle == old(q).shuffle,
        final(q).repeat == old(q).repeat,
{
    match lookup(index, song_id) {
        Ok(song) => {
            let ghost s = q.queue@;
            let start = q.enqueue(song);
            assert(q.queue@.take(s.len() as int) =~= s);
            Ok(start)
        },
        Err(e) => Err(e),
    }
}

/// Puts a song from the library into the queue at `position`, as
/// [`PlayQueue::enqueue_at`] does. Returns how many times playback is to be
/// (re)started, or the unknown-song error with the queue untouched.
pub fn enqueue_at(q: &mut PlayQueue, index: &SongIndex, song_id: u128, position: Option<usize>) -> (res: Result<u8, ErrorReply>)
    ensures
        index@.contains_key(song_id) ==> {
            &&& res matches Ok(starts)
            &&& starts == start_count(old(q).queue@.len(), position)
            &&& exists|song: SongMeta| song@ == index@[song_id]@ && final(q).queue@ == placed(old(q).queue@, song, position)
            &&& starts > 0 ==> opt_view(final(q).current_song) == Some(index@[song_id]@)
            &&& starts == 0 ==> final(q).current_song == old(q).current_song
        },
        !index@.contains_key(song_id) ==> {
            &&& res matches Err(e)
            &&& e.err_id == 1
            &&& e.err_msg@ == no_song_message(song_id)
            &&& final(q).queue@ == old(q).queue@
            &&& final(q).current_song == old(q).current_song
        },
        final(q).shuffle == old(q).shuffle,
        final(q).repeat == old(q).repeat,
{
    match lookup(index, song_id) {
        Ok(song) => {
            let ghost g = song;
            let starts = q.enqueue_at(song, position);
            assert(g@ == index@[song_id]@);
            Ok(starts)
        },
        Err(e) => Err(e),
    }
}

/// Replaces the queue with the library songs `ids` and makes the first the
/// current song; playback is then to start. If some identifier is unknown,
/// the error names the first such one and the queue stays as it was.
pub fn replace_queue(q: &mut PlayQueue, index: &SongIndex, ids: &Vec<u128>) -> (res: Result<(), ErrorReply>)
    requires
        ids@.len() > 0,
    ensures
        (forall|i: int| 0 <= i < ids@.len() ==> index@.contains_key(#[trigger] ids@[i])) ==> {
            &&& res is Ok
            &&& final(q).queue@.len() == ids@.len()
            &&& forall|i: int| 0 <= i < ids@.len() ==> #[trigger] final(q).queue@[i]@ == index@[ids@[i]]@
            &&& opt_view(final(q).current_song) == Some(index@[ids@[0]]@)
        },
        !(forall|i: int| 0 <= i < ids@.len() ==> index@.contains_key(#[trigger] ids@[i])) ==> {
            &&& res matches Err(e)
            &&& exists|i: int| 0 <= i < ids@.len() && !index@.contains_key(ids@[i]) && (forall|j: int| 0 <= j < i ==> index@.contains_key(#[trigger] ids@[j])) && e.err_id == 1 && e.err_msg@ == no_song_message(#[trigger] ids@[i])
            &&& final(q).queue@ == old(q).queue@
            &&& final(q).current_song == old(q).current_song
        },
        final(q).shuffle == old(q).shuffle,
        final(q).repeat == old(q).repeat,
{
    let mut songs: Vec<SongMeta> = Vec::new();
    for i in 0..ids.len()
        invariant
            songs@.len() == i,
            forall|j: int| 0 <= j < i ==> index@.contains_key(#[trigger] ids@[j]),
            forall|j: int| 0 <= j < i ==> #[trigger] songs@[j]@ == index@[ids@[j]]@,
            q == old(q),
    {
        match lookup(index, ids[i]) {
            Ok(song) => songs.push(song),
            Err(e) => {
                assert(!index@.contains_key(ids@[i as int]));
                return Err(e);
            },
        }
    }
    let ghost v = songs@;
    q.replace(songs);
    Ok(())
}

/// The watcher's step: when the sink has run dry and songs are queued, the
/// queue moves on by one (as `next(1)` does) and playback is to start again.
pub fn auto_advance(q: &mut PlayQueue, sink_empty: bool) -> (advanced: bool)
    ensures
        advanced == (sink_empty && old(q).queue@.len() > 0),
        !advanced ==> final(q).queue@ == old(q).queue@ && final(q).current_song == old(q).current_song,
        advanced ==> opt_view(final(q).current_song) == Some(final(q).queue@[0]@),
        advanced && old(q).repeat == 1 ==> final(q).queue@ == old(q).queue@,
        advanced && old(q).repeat != 1 && old(q).shuffle && old(q).queue@.len() > 1
            ==> exists|pick: int|
            0 <= pick < old(q).queue@.len() - 1
                && final(q).queue@ == #[trigger] shuffle_step(old(q).queue@, pick),
        advanced && old(q).repeat != 1 && !(old(q).shuffle && old(q).queue@.len() > 1)
            ==> final(q).queue@ == rotate_left(old(q).queue@, 1),
        final(q).queue@.to_multiset() == old(q).queue@.to_multiset(),
        final(q).shuffle == old(q).shuffle,
        final(q).repeat == old(q).repeat,
{
    if sink_empty && q.queue.len() > 0 {
        let ghost s = q.queue@;
        q.next(1);
        proof {
            if s.len() > 1 {
                vstd::arithmetic::div_mod::lemma_small_mod(1, s.len());
            } else {
                assert(1int % 1int == 0);
                assert(rotate_left(s, 1) =~= rotate_left(s, 0));
            }
        }
        true
    } else {
        false
    }
}

/// The song whose album art the status answer still lacks: the current song,
/// when it has no art yet.
pub fn status_art_request(current: &Option<SongMeta>) -> (res: Option<u128>)
    ensures
        res == match *current {
            Some(m) => if m.art_path is None { Some(m.id) } else { None },
            None => None,
        },
{
    match current {
        Some(m) => if m.art_path.is_none() { Some(m.id) } else { None },
        None => None,
    }
}

/// The client's view of the current song.
pub fn status_song(current: &Option<SongMeta>) -> (res: Option<Song>)
    ensures
        match *current {
            Some(m) => res matches Some(s) && s@ == entry_of(m@),
            None => res is None,
        },
{
    match current {
        Some(m) => Some(Song::from_meta(m)),
        None => None,
    }
}

} // verus!
