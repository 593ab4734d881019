use aurora::mpris::{apply_command, sync_step, track_path, MprisCommand, MprisEffect, PlaybackState, SyncSnapshot, SyncState};
use aurora::protocol::SongMeta;
use aurora::queue::PlayQueue;
use aurora::watch::{get_config, theme_for_event, watch_step, Debounce, WatchAction, WatchEvent, DEBOUNCE_MS};

fn queue_of(ids: &[u128]) -> PlayQueue {
    let mut q = PlayQueue::new();
    for &id in ids {
        q.queue.push_back(SongMeta {
            id,
            title: format!("t{}", id),
            artists: vec![],
            duration_ms: 1000,
            path: format!("/m/{}", id),
            art_path: None,
        });
    }
    q
}

fn ids(q: &PlayQueue) -> Vec<u128> {
    q.queue.iter().map(|m| m.id).collect()
}

#[test]
fn play_pause_commands_follow_the_paused_state() {
    let mut q = queue_of(&[1]);
    assert_eq!(apply_command(&mut q, MprisCommand::PlayPause, false, None, None), MprisEffect::TogglePause);
    assert_eq!(apply_command(&mut q, MprisCommand::Play, true, None, None), MprisEffect::TogglePause);
    assert_eq!(apply_command(&mut q, MprisCommand::Play, false, None, None), MprisEffect::Nothing);
    assert_eq!(apply_command(&mut q, MprisCommand::Pause, false, None, None), MprisEffect::TogglePause);
    assert_eq!(apply_command(&mut q, MprisCommand::Pause, true, None, None), MprisEffect::Nothing);
    assert_eq!(ids(&q), vec![1]);
}

#[test]
fn stop_clears_and_next_prev_move() {
    let mut q = queue_of(&[1, 2, 3]);
    assert_eq!(apply_command(&mut q, MprisCommand::Next, false, None, None), MprisEffect::Restart);
    assert_eq!(ids(&q), vec![2, 3, 1]);
    assert_eq!(apply_command(&mut q, MprisCommand::Prev, false, None, Some(200)), MprisEffect::Restart);
    assert_eq!(ids(&q), vec![1, 2, 3]);
    assert_eq!(apply_command(&mut q, MprisCommand::Prev, false, None, Some(5000)), MprisEffect::Restart);
    assert_eq!(ids(&q), vec![1, 2, 3]);
    assert_eq!(apply_command(&mut q, MprisCommand::Stop, false, None, None), MprisEffect::Cleared);
    assert!(q.queue.is_empty());
    assert!(q.current_song.is_none());
}

#[test]
fn seeking_clamps_at_zero_and_needs_audio() {
    let mut q = queue_of(&[1]);
    assert_eq!(apply_command(&mut q, MprisCommand::SeekOffset(5_000_000), false, Some(1_000_000), None), MprisEffect::SeekTo(6_000_000));
    assert_eq!(apply_command(&mut q, MprisCommand::SeekOffset(-5_000_000), false, Some(1_000_000), None), MprisEffect::SeekTo(0));
    assert_eq!(apply_command(&mut q, MprisCommand::SeekOffset(10), false, None, None), MprisEffect::Nothing);
    assert_eq!(apply_command(&mut q, MprisCommand::SeekAbsolute(42), false, Some(0), None), MprisEffect::SeekTo(42));
    assert_eq!(apply_command(&mut q, MprisCommand::SeekAbsolute(-1), false, Some(0), None), MprisEffect::Nothing);
    assert_eq!(apply_command(&mut q, MprisCommand::SeekAbsolute(42), false, None, None), MprisEffect::Nothing);
}

#[test]
fn track_path_uses_the_simple_form() {
    let id = 0x0123_4567_89ab_cdef_0123_4567_89ab_cdefu128;
    assert_eq!(track_path(id), "/me/mavenried/Aurora/track/0123456789abcdef0123456789abcdef");
}

fn snap(current_id: Option<u128>, is_paused: bool, position_us: i64, elapsed_us: i64) -> SyncSnapshot {
    SyncSnapshot { current_id, is_paused, position_us, elapsed_us }
}

#[test]
fn sync_announces_a_new_song_and_its_status() {
    let mut st = SyncState { last_song_id: None, last_paused: None, last_position_us: 0 };
    let a = sync_step(&mut st, snap(Some(5), false, 0, 500_000));
    assert_eq!(a.metadata, Some(Some(5)));
    assert_eq!(a.status, Some(PlaybackState::Playing));
    assert_eq!(a.position, Some(0));
    assert_eq!(a.seeked, None);
    assert!(a.sync_volume);
    let a = sync_step(&mut st, snap(Some(5), false, 500_000, 500_000));
    assert_eq!(a.metadata, None);
    assert_eq!(a.status, None);
    assert_eq!(a.seeked, None);
    let a = sync_step(&mut st, snap(Some(5), true, 500_000, 500_000));
    assert_eq!(a.status, Some(PlaybackState::Paused));
}

#[test]
fn sync_reports_jumps_and_stops() {
    let mut st = SyncState { last_song_id: Some(5), last_paused: Some(false), last_position_us: 1_000_000 };
    let a = sync_step(&mut st, snap(Some(5), false, 10_000_000, 500_000));
    assert_eq!(a.seeked, Some(10_000_000));
    assert_eq!(st.last_position_us, 10_000_000);
    let a = sync_step(&mut st, snap(None, false, 0, 500_000));
    assert_eq!(a.metadata, Some(None));
    assert_eq!(a.status, Some(PlaybackState::Stopped));
    assert_eq!(a.position, None);
    assert!(!a.sync_volume);
    assert_eq!(st.last_paused, Some(false));
    assert_eq!(st.last_position_us, 0);
}

#[test]
fn watcher_waits_for_quiet_before_rescanning() {
    let mut d = Debounce { pending: false, last_event_ms: 0 };
    assert_eq!(watch_step(&mut d, WatchEvent::Quiet, 10_000), WatchAction::Wait);
    assert_eq!(watch_step(&mut d, WatchEvent::Changed, 10_000), WatchAction::Wait);
    assert!(d.pending);
    assert_eq!(watch_step(&mut d, WatchEvent::Other, 11_000), WatchAction::Wait);
    assert_eq!(watch_step(&mut d, WatchEvent::Changed, 11_500), WatchAction::Wait);
    assert_eq!(watch_step(&mut d, WatchEvent::Quiet, 11_500 + DEBOUNCE_MS - 1), WatchAction::Wait);
    assert_eq!(watch_step(&mut d, WatchEvent::Quiet, 11_500 + DEBOUNCE_MS), WatchAction::Rescan);
    assert!(!d.pending);
    assert_eq!(watch_step(&mut d, WatchEvent::Failed, 20_000), WatchAction::Wait);
    assert_eq!(watch_step(&mut d, WatchEvent::Closed, 20_000), WatchAction::Stop);
}

#[test]
fn default_theme_is_grey() {
    let t = get_config();
    for c in [&t.bgd0, &t.bgd1, &t.bgd2, &t.bgd3, &t.bgd4, &t.txt1, &t.txt2, &t.acct, &t.srch, &t.btns] {
        assert_eq!(c, "#333333");
    }
    assert!(theme_for_event(false).is_none());
    assert_eq!(theme_for_event(true).unwrap().acct, "#333333");
}
