//! Watching the music directory and the theme file.

use vstd::prelude::*;

use crate::protocol::Theme;

verus! {

/// How long the music directory must stay quiet before a rescan, in
/// milliseconds.
pub const DEBOUNCE_MS: u64 = 2000;

/// What the directory watcher hears on one wait.
#[derive(Clone, Copy, Debug, PartialEq, Eq, Structural)]
pub enum WatchEvent {
    /// A file was created, modified or removed.
    Changed,
    /// Some other kind of file event.
    Other,
    /// The watcher reported an error.
    Failed,
    /// The event channel closed.
    Closed,
    /// Nothing arrived within the wait.
    Quiet,
}

/// What the directory watcher does after a wait.
#[derive(Clone, Copy, Debug, PartialEq, Eq, Structural)]
pub enum WatchAction {
    Wait,
    Rescan,
    Stop,
}

/// The directory watcher's memory: whether changes await a rescan, and when
/// the last one came (milliseconds on a monotonic clock).
#[derive(Clone, Copy, Debug)]
pub struct Debounce {
    pub pending: bool,
    pub last_event_ms: u64,
}

/// One wait of the directory watcher at time `now_ms`: a change is noted;
/// a closed channel stops the watcher; a rescan is due once changes have
/// been pending for at least `DEBOUNCE_MS` since the last one.
pub fn watch_step(state: &mut Debounce, event: WatchEvent, now_ms: u64) -> (res: WatchAction)
    requires
        now_ms >= old(state).last_event_ms,
    ensures
        event == WatchEvent::Closed ==> res == WatchAction::Stop && *final(state) == *old(state),
        event == WatchEvent::Changed ==> res == WatchAction::Wait && final(state).pending && final(state).last_event_ms == now_ms,
        event != WatchEvent::Closed && event != WatchEvent::Changed ==> {
            let due = old(state).pending && now_ms - old(state).last_event_ms >= DEBOUNCE_MS;
            &&& res == if due { WatchAction::Rescan } else { WatchAction::Wait }
            &&& final(state).pending == (old(state).pending && !due)
            &&& final(state).last_event_ms == old(state).last_event_ms
        },
        final(state).last_event_ms <= now_ms,
{
    match event {
        WatchEvent::Changed => {
            state.last_event_ms = now_ms;
            state.pending = true;
        },
        WatchEvent::Closed => {
            return WatchAction::Stop;
        },
        _ => {},
    }
    if state.pending && now_ms - state.last_event_ms >= DEBOUNCE_MS {
        state.pending = false;
        WatchAction::Rescan
    } else {
        WatchAction::Wait
    }
}

/// The colour of every part of the default theme.
pub open spec fn default_colour() -> Seq<char> {
    "#333333"@
}

/// Whether every colour of a theme is the default one.
pub open spec fn is_default_theme(t: Theme) -> bool {
    &&& t.bgd0@ == default_colour() && t.bgd1@ == default_colour() && t.bgd2@ == default_colour()
    &&& t.bgd3@ == default_colour() && t.bgd4@ == default_colour()
    &&& t.txt1@ == default_colour() && t.txt2@ == default_colour()
    &&& t.acct@ == default_colour() && t.srch@ == default_colour() && t.btns@ == default_colour()
}

/// The theme the daemon sends: every colour is `#333333`.
pub fn get_config() -> (res: Theme)
    ensures
        is_default_theme(res),
{
    Theme {
        bgd0: String::from_str("#333333"),
        bgd1: String::from_str("#333333"),
        bgd2: String::from_str("#333333"),
        bgd3: String::from_str("#333333"),
        bgd4: String::from_str("#333333"),
        txt1: String::from_str("#333333"),
        txt2: String::from_str("#333333"),
        acct: String::from_str("#333333"),
        srch: String::from_str("#333333"),
        btns: String::from_str("#333333"),
    }
}

/// The theme to send after a change of the theme file: the theme, when the
/// file was modified.
pub fn theme_for_event(modified: bool) -> (res: Option<Theme>)
    ensures
        res is Some == modified,
        res matches Some(t) ==> is_default_theme(t),
{
    if modified {
        Some(get_config())
    } else {
        None
    }
}

} // verus!
