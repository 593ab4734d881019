//! The media-player (MPRIS) side of the daemon: what a desktop command does
//! to playback, and what the periodic sync tells the desktop.

use vstd::prelude::*;

use crate::ids::{id_simple_text, simple_text};
use crate::protocol::{copy_strings, texts, SongMeta};
use crate::queue::PlayQueue;

verus! {

/// A command from the desktop's media controls (volume aside).
#[derive(Clone, Copy, Debug, PartialEq, Eq, Structural)]
pub enum MprisCommand {
    PlayPause,
    Play,
    Pause,
    Stop,
    Next,
    Prev,
    /// Move by this many microseconds.
    SeekOffset(i64),
    /// Go to this position, in microseconds.
    SeekAbsolute(i64),
}

/// What the daemon is to do to its audio after a command.
#[derive(Clone, Copy, Debug, PartialEq, Eq, Structural)]
pub enum MprisEffect {
    /// Nothing to do.
    Nothing,
    /// Pause if playing, play if paused.
    TogglePause,
    /// The queue was cleared: stop the sink and drop the audio.
    Cleared,
    /// The queue moved: load and play the current song, and tell the
    /// clients the new queue.
    Restart,
    /// Seek the loaded audio to this many microseconds.
    SeekTo(u64),
}

/// The effect of a command on the audio, given whether playback is paused
/// and where the loaded audio is (`None` when nothing is loaded).
pub open spec fn command_effect(cmd: MprisCommand, is_paused: bool, position_us: Option<i64>) -> MprisEffect {
    match cmd {
        MprisCommand::PlayPause => MprisEffect::TogglePause,
        MprisCommand::Play => if is_paused { MprisEffect::TogglePause } else { MprisEffect::Nothing },
        MprisCommand::Pause => if !is_paused { MprisEffect::TogglePause } else { MprisEffect::Nothing },
        MprisCommand::Stop => MprisEffect::Cleared,
        MprisCommand::Next => MprisEffect::Restart,
        MprisCommand::Prev => MprisEffect::Restart,
        MprisCommand::SeekOffset(off) => match position_us {
            Some(p) => if p + off < 0 { MprisEffect::SeekTo(0) } else { MprisEffect::SeekTo((p + off) as u64) },
            None => MprisEffect::Nothing,
        },
        MprisCommand::SeekAbsolute(pos) => match position_us {
            Some(_) => if pos >= 0 { MprisEffect::SeekTo(pos as u64) } else { MprisEffect::Nothing },
            None => MprisEffect::Nothing,
        },
    }
}

/// Whether playback is paused after the daemon carried out an effect,
/// given whether it was before: a toggle flips it, a cleared queue and a
/// restarted song play, the rest leave it.
pub open spec fn paused_after(effect: MprisEffect, was_paused: bool) -> bool {
    match effect {
        MprisEffect::TogglePause => !was_paused,
        MprisEffect::Cleared => false,
        MprisEffect::Restart => false,
        _ => was_paused,
    }
}

/// Carries out a desktop command on the queue and says what to do to the
/// audio: `Stop` clears the queue, `Next` and `Prev` move it by one (as
/// `next(1)` and `prev(1, ..)` do).
pub fn apply_command(q: &mut PlayQueue, cmd: MprisCommand, is_paused: bool, position_us: Option<i64>, position_ms: Option<u64>) -> (res: MprisEffect)
    requires
        cmd matches MprisCommand::SeekOffset(off) ==> (position_us matches Some(p) ==> i64::MIN <= p + off <= i64::MAX),
    ensures
        res == command_effect(cmd, is_paused, position_us),
        cmd == MprisCommand::Stop ==> final(q).queue@.len() == 0 && final(q).current_song is None,
        cmd == MprisCommand::Next ==> final(q).queue@.to_multiset() == old(q).queue@.to_multiset(),
        cmd == MprisCommand::Next && old(q).queue@.len() > 0 ==> crate::queue::opt_view(final(q).current_song) == Some(final(q).queue@[0]@),
        cmd == MprisCommand::Next && old(q).queue@.len() == 0 ==> final(q).queue@ == old(q).queue@ && final(q).current_song == old(q).current_song,
        cmd == MprisCommand::Next && old(q).repeat == 1 ==> final(q).queue@ == old(q).queue@,
        cmd == MprisCommand::Next && old(q).repeat != 1 && old(q).shuffle && old(q).queue@.len() > 1
            ==> exists|pick: int|
            0 <= pick < old(q).queue@.len() - 1
                && final(q).queue@ == #[trigger] crate::queue::shuffle_step(old(q).queue@, pick),
        cmd == MprisCommand::Next && old(q).repeat != 1 && !(old(q).shuffle && old(q).queue@.len() > 1)
            ==> final(q).queue@ == crate::queue::rotate_left(old(q).queue@, if old(q).queue@.len() > 1 { 1 } else { 0 }),
        cmd == MprisCommand::Prev && old(q).queue@.len() > 0 ==> crate::queue::opt_view(final(q).current_song) == Some(final(q).queue@[0]@),
        cmd == MprisCommand::Prev ==> final(q).queue@ == crate::queue::rotate_right(
            old(q).queue@,
            if old(q).queue@.len() > 0 { crate::queue::prev_steps(1, position_ms) % (old(q).queue@.len() as int) } else { 0 },
        ),
        !(cmd == MprisCommand::Stop || cmd == MprisCommand::Next || cmd == MprisCommand::Prev) ==> final(q).queue@ == old(q).queue@ && final(q).current_song == old(q).current_song,
        final(q).shuffle == old(q).shuffle,
        final(q).repeat == old(q).repeat,
{
    match cmd {
        MprisCommand::PlayPause => MprisEffect::TogglePause,
        MprisCommand::Play => if is_paused { MprisEffect::TogglePause } else { MprisEffect::Nothing },
        MprisCommand::Pause => if !is_paused { MprisEffect::TogglePause } else { MprisEffect::Nothing },
        MprisCommand::Stop => {
            q.clear();
            MprisEffect::Cleared
        },
        MprisCommand::Next => {
            let ghost s = q.queue@;
            q.next(1);
            proof {
                if s.len() > 1 {
                    vstd::arithmetic::div_mod::lemma_small_mod(1, s.len());
                } else if s.len() == 1 {
                    assert(1int % 1int == 0);
                } else {
                    assert(crate::queue::rotate_left(s, 0) =~= s);
                }
            }
            MprisEffect::Restart
        },
        MprisCommand::Prev => {
            let ghost s = q.queue@;
            q.prev(1, position_ms);
            proof {
                if s.len() == 0 {
                    assert(crate::queue::rotate_right(s, 0) =~= s);
                }
            }
            MprisEffect::Restart
        },
        MprisCommand::SeekOffset(off) => match position_us {
            Some(p) => {
                let new_us = p + off;
                if new_us < 0 { MprisEffect::SeekTo(0) } else { MprisEffect::SeekTo(new_us as u64) }
            },
            None => MprisEffect::Nothing,
        },
        MprisCommand::SeekAbsolute(pos) => match position_us {
            Some(_) => if pos >= 0 { MprisEffect::SeekTo(pos as u64) } else { MprisEffect::Nothing },
            None => MprisEffect::Nothing,
        },
    }
}

/// The object path that names a song to the desktop.
pub open spec fn track_path_text(id: u128) -> Seq<char> {
    "/me/mavenried/Aurora/track/"@ + simple_text(id)
}

/// The object path that names a song to the desktop:
/// `/me/mavenried/Aurora/track/` and the song's 32 hexadecimal digits.
pub fn track_path(id: u128) -> (res: String)
    ensures
        res@ == track_path_text(id),
{
    let mut path = String::from_str("/me/mavenried/Aurora/track/");
    let digits = id_simple_text(id);
    path.append(digits.as_str());
    path
}

/// What the desktop is told of a song.
pub struct TrackMeta {
    /// The object path that names the song.
    pub track_id: String,
    pub title: String,
    pub artists: Vec<String>,
    /// The length in microseconds.
    pub length_us: i64,
    /// The thumbnail as a `file://` URL, when there is one.
    pub art_url: Option<String>,
}

/// The `file://` URL of a thumbnail.
pub open spec fn art_url_text(o: Option<String>) -> Option<Seq<char>> {
    match o {
        Some(p) => Some("file://"@ + p@),
        None => None,
    }
}

/// What the desktop is told of a song: its object path, title, artists,
/// length in microseconds (the `i64` cast of milliseconds times 1000, as
/// the media-control time takes it) and thumbnail URL.
pub fn track_metadata(song: &SongMeta) -> (res: TrackMeta)
    ensures
        res.track_id@ == track_path_text(song.id),
        res.title@ == song.title@,
        texts(res.artists@) == texts(song.artists@),
        res.length_us == ((song.duration_ms as int) * 1000) as i64,
        crate::protocol::opt_text(res.art_url) == art_url_text(song.art_path),
{
    let art_url = match &song.art_path {
        Some(p) => {
            let mut url = String::from_str("file://");
            url.append(p.as_str());
            Some(url)
        },
        None => None,
    };
    let micros: u128 = (song.duration_ms as u128) * 1000;
    TrackMeta {
        track_id: track_path(song.id),
        title: song.title.clone(),
        artists: copy_strings(&song.artists),
        length_us: micros as i64,
        art_url,
    }
}

/// What the sync remembers of what it last told the desktop.
#[derive(Clone, Copy, Debug)]
pub struct SyncState {
    pub last_song_id: Option<u128>,
    pub last_paused: Option<bool>,
    /// The position last reported, in microseconds.
    pub last_position_us: i64,
}

/// What the sync sees of the daemon on one tick.
#[derive(Clone, Copy, Debug)]
pub struct SyncSnapshot {
    pub current_id: Option<u128>,
    pub is_paused: bool,
    /// The position of the loaded audio (zero when none), in microseconds.
    pub position_us: i64,
    /// Microseconds since the previous tick.
    pub elapsed_us: i64,
}

/// The playback status the desktop is told.
#[derive(Clone, Copy, Debug, PartialEq, Eq, Structural)]
pub enum PlaybackState {
    Stopped,
    Paused,
    Playing,
}

/// What one tick of the sync tells the desktop.
#[derive(Clone, Copy, Debug)]
pub struct SyncActions {
    /// The song changed: `Some(Some(id))` describes the song `id`,
    /// `Some(None)` clears the description.
    pub metadata: Option<Option<u128>>,
    pub status: Option<PlaybackState>,
    /// The position to cache, in microseconds.
    pub position: Option<i64>,
    /// Emit a jump to this position.
    pub seeked: Option<i64>,
    /// Update the volume (the tick went all the way through).
    pub sync_volume: bool,
}

/// Whether the position jumped: it differs by more than 1.5 s from where
/// the last position would have moved to (it stands still when paused).
pub open spec fn jumped(last_position_us: i64, snap: SyncSnapshot) -> bool {
    let expected = last_position_us + if snap.is_paused { 0 } else { snap.elapsed_us as int };
    let diff = snap.position_us - expected;
    diff > 1_500_000 || diff < -1_500_000
}

/// One tick of the sync. When the song changed, the desktop gets the new
/// description (or, with no song, a cleared one and the stopped status, and
/// the tick ends there). When a song plays and its paused state differs from
/// what was last told, the status follows. Then the position is cached, a
/// jump of more than 1.5 s is announced, and the volume is synced.
pub fn sync_step(state: &mut SyncState, snap: SyncSnapshot) -> (res: SyncActions)
    requires
        snap.elapsed_us >= 0,
        i64::MIN <= old(state).last_position_us + snap.elapsed_us <= i64::MAX,
        i64::MIN <= snap.position_us - (old(state).last_position_us + if snap.is_paused { 0 } else { snap.elapsed_us as int }) <= i64::MAX,
    ensures
        final(state).last_song_id == snap.current_id,
        snap.current_id != old(state).last_song_id ==> res.metadata == Some(snap.current_id),
        snap.current_id == old(state).last_song_id ==> res.metadata is None,
        snap.current_id is None && old(state).last_song_id is Some ==> {
            &&& res.status == Some(PlaybackState::Stopped)
            &&& final(state).last_paused == Some(false)
            &&& final(state).last_position_us == 0
            &&& res.position is None && res.seeked is None && !res.sync_volume
        },
        !(snap.current_id is None && old(state).last_song_id is Some) ==> {
            let told = if snap.current_id != old(state).last_song_id { None } else { old(state).last_paused };
            &&& (snap.current_id is Some && told != Some(snap.is_paused)) ==> (res.status == Some(if snap.is_paused { PlaybackState::Paused } else { PlaybackState::Playing }) && final(state).last_paused == Some(snap.is_paused))
            &&& !(snap.current_id is Some && told != Some(snap.is_paused)) ==> (res.status is None && final(state).last_paused == told)
            &&& res.position == Some(snap.position_us)
            &&& res.seeked == if jumped(old(state).last_position_us, snap) { Some(snap.position_us) } else { None }
            &&& final(state).last_position_us == snap.position_us
            &&& res.sync_volume
        },
{
    let mut res = SyncActions { metadata: None, status: None, position: None, seeked: None, sync_volume: false };
    if snap.current_id != state.last_song_id {
        state.last_song_id = snap.current_id;
        state.last_paused = None;
        match snap.current_id {
            Some(id) => {
                res.metadata = Some(Some(id));
            },
            None => {
                res.metadata = Some(None);
                res.status = Some(PlaybackState::Stopped);
                state.last_paused = Some(false);
                state.last_position_us = 0;
                return res;
            },
        }
    }
    let has_song = snap.current_id.is_some();
    let told_same = match state.last_paused {
        Some(p) => p == snap.is_paused,
        None => false,
    };
    if has_song && !told_same {
        state.last_paused = Some(snap.is_paused);
        res.status = Some(if snap.is_paused { PlaybackState::Paused } else { PlaybackState::Playing });
    }
    res.position = Some(snap.position_us);
    let expected = state.last_position_us + if snap.is_paused { 0 } else { snap.elapsed_us };
    let diff = snap.position_us - expected;
    if diff > 1_500_000 || diff < -1_500_000 {
        res.seeked = Some(snap.position_us);
    }
    state.last_position_us = snap.position_us;
    res.sync_volume = true;
    res
}

} // verus!
