//! The player window's side of the protocol: which requests its events
//! send, which songs are selected for bulk operations, and where the
//! daemon's answers go.

use vstd::prelude::*;

use crate::history::{ids_from_texts, parsed_ids};
use crate::ids::{parse_id, parsed_id};
use crate::library::ids_of;
use crate::protocol::{texts, Playlist, PlaylistMinimal, SearchType, Song};
use crate::ui::{playlist_title, search_request, trimmed};

verus! {

/// A request that the window sends to the daemon.
pub enum ClientRequest {
    Play(u128),
    Enqueue(u128),
    PlayNext(u128),
    PlaylistList,
    PlaylistGet(u128),
    Search(SearchType),
    Clear,
    PlaylistCreate(String),
    Next(usize),
    Prev(usize),
    Pause,
    /// Seek to this many milliseconds.
    Seek(u64),
    ReplaceQueue(Vec<u128>),
    RemoveSongAt(usize),
    MoveQueue { from: usize, to: usize },
    PlaylistDelete(u128),
    PlaylistAddSongs { playlist_id: u128, song_ids: Vec<u128> },
    PlaylistRemoveSong { playlist_id: u128, song_id: u128 },
    PlaylistRename { playlist_id: u128, new_title: String },
    SetShuffle(bool),
    SetRepeat(u8),
    GetArtistList,
}

/// An event of the player window, with the values the window hands over
/// (identifiers as the texts it shows).
pub enum UiEvent {
    QueueClick(i32),
    Next,
    Prev,
    Pause,
    QueueClear,
    QueueRemove(i32),
    QueueMove(i32, i32),
    Search { query: String, mode: String, forced: bool },
    RefreshPlaylists,
    SelectPlaylist(String),
    Add(String),
    Enqueue(String),
    PlayNext(String),
    /// The slider's position in milliseconds.
    Seek(i32),
    ReplaceQueue(Vec<String>),
    ToggleSelection(String),
    CreatePlaylist(String),
    RenamePlaylist(String, String),
    DeletePlaylist(String),
    RemoveSongFromPlaylist(String, String),
    /// The playlist, and the song whose menu was used.
    AddSongsToPlaylist(String, String),
    SetShuffle(bool),
    SetRepeat(i32),
    GetArtistList,
    GetSongsByArtist(String),
}

/// An answer of the daemon, as far as the window's lists go.
pub enum ClientResponse {
    /// A status, with the song that plays.
    Status(Option<Song>),
    Queue(Vec<Song>),
    SearchResults(Vec<Song>),
    PlaylistResults(Playlist),
    PlaylistList(Vec<PlaylistMinimal>),
    ArtistList(Vec<String>),
    /// An answer that no list of the window shows.
    Other,
}

/// What the window redraws after an answer.
#[derive(Clone, Copy, Debug, PartialEq, Eq, Structural)]
pub enum Redraw {
    NowPlaying,
    Queue,
    SearchResults,
    ArtistSongs,
    PlaylistResults,
    Playlists,
    ArtistList,
}

/// What the window holds: the selected songs, whether an artist's songs
/// were asked for, and the lists the daemon sent.
pub struct ClientState {
    /// The identifier texts of the selected songs.
    pub selected: Vec<String>,
    pub pending_artist_search: bool,
    pub current_song_id: Option<u128>,
    pub queue: Vec<Song>,
    pub search_results: Vec<Song>,
    pub artist_songs: Vec<Song>,
    pub playlist_result: Option<Playlist>,
    pub playlist_list: Vec<PlaylistMinimal>,
    pub artist_list: Vec<String>,
}

/// The texts of the selection other than `id`.
pub open spec fn other_texts(id: Seq<char>) -> spec_fn(Seq<char>) -> bool {
    |t: Seq<char>| t != id
}

/// The selection after toggling `id`: without it if it was selected, with
/// it added otherwise.
pub open spec fn toggled(sel: Seq<Seq<char>>, id: Seq<char>) -> Seq<Seq<char>> {
    if sel.contains(id) {
        sel.filter(other_texts(id))
    } else {
        sel.push(id)
    }
}

/// Selects a song (by the identifier text the window shows) that is not
/// selected, and unselects one that is. A selection that names each text
/// once still does.
pub fn toggle_selection(selected: &mut Vec<String>, id: String)
    ensures
        texts(final(selected)@) == toggled(texts(old(selected)@), id@),
        texts(old(selected)@).no_duplicates() ==> texts(final(selected)@).no_duplicates(),
{
    let ghost s = texts(selected@);
    let mut kept: Vec<String> = Vec::new();
    let mut found = false;
    assert(s.take(0).filter(other_texts(id@)) =~= Seq::<Seq<char>>::empty());
    for i in 0..selected.len()
        invariant
            s == texts(selected@),
            texts(kept@) == s.take(i as int).filter(other_texts(id@)),
            found == s.take(i as int).contains(id@),
    {
        proof {
            assert(s.take(i + 1) =~= s.take(i as int).push(s[i as int]));
            s.take(i as int).lemma_filter_push(s[i as int], other_texts(id@));
        }
        let ghost before = kept@;
        if selected[i] == id {
            found = true;
        } else {
            kept.push(selected[i].clone());
            assert(texts(kept@) =~= texts(before).push(s[i as int]));
        }
        proof {
            let t = s.take(i as int);
            assert(s.take(i + 1) =~= t.push(s[i as int]));
            assert(s[i as int] == selected@[i as int]@);
            if s[i as int] == id@ {
                assert(t.push(s[i as int])[t.len() as int] == id@);
            }
            if t.contains(id@) {
                let j = choose|j: int| #![trigger t[j]] 0 <= j < t.len() && t[j] == id@;
                assert(t.push(s[i as int])[j] == id@);
            }
            if t.push(s[i as int]).contains(id@) && !t.contains(id@) {
                let j = choose|j: int| #![trigger t.push(s[i as int])[j]] 0 <= j < t.len() + 1 && t.push(s[i as int])[j] == id@;
                if j < t.len() {
                    assert(t[j] == id@);
                }
            }
        }
    }
    assert(s.take(s.len() as int) =~= s);
    if found {
        *selected = kept;
        proof {
            if s.no_duplicates() {
                crate::laws::lemma_filter_no_duplicates(s, other_texts(id@));
            }
        }
    } else {
        let ghost before = selected@;
        selected.push(id);
        assert(texts(selected@) =~= texts(before).push(id@));
    }
}

/// The songs an add-to-playlist request carries: one identifier for each
/// selected text that parses, when anything is selected; else the song
/// whose menu was used, if its text parses.
pub open spec fn songs_to_add(selected: Seq<Seq<char>>, primary: Seq<char>) -> Seq<u128> {
    if selected.len() > 0 {
        parsed_ids(selected)
    } else {
        match parsed_id(primary) {
            Some(x) => seq![x],
            None => Seq::empty(),
        }
    }
}

/// The add-to-playlist request for a playlist named by its text: none when
/// that does not parse.
pub fn add_songs_request(playlist: &str, selected: &Vec<String>, primary: &str) -> (res: Option<(u128, Vec<u128>)>)
    ensures
        parsed_id(playlist@) is None ==> res is None,
        parsed_id(playlist@) matches Some(p) ==> (res matches Some((q, ids)) && q == p && ids@ == songs_to_add(texts(selected@), primary@)),
{
    let ids = if selected.len() > 0 {
        let d = ids_from_texts(selected);
        ids_of(&d)
    } else {
        match parse_id(primary) {
            Some(x) => {
                let v = vec![x];
                assert(v@ =~= seq![x]);
                v
            },
            None => {
                let v: Vec<u128> = Vec::new();
                assert(v@ =~= Seq::<u128>::empty());
                v
            },
        }
    };
    match parse_id(playlist) {
        Some(p) => Some((p, ids)),
        None => None,
    }
}

/// Exactly the one request `r` is sent.
pub open spec fn event_sends_one(res: Option<Vec<ClientRequest>>, r: ClientRequest) -> bool {
    res matches Some(v) && v@ =~= seq![r]
}

/// Nothing is sent.
pub open spec fn sends_nothing(res: Option<Vec<ClientRequest>>) -> bool {
    res matches Some(v) && v@.len() == 0
}

impl ClientState {
    /// A window with nothing selected and no lists yet.
    pub fn new() -> (res: ClientState)
        ensures
            res.selected@.len() == 0,
            !res.pending_artist_search,
            res.current_song_id is None,
            res.queue@.len() == 0 && res.search_results@.len() == 0 && res.artist_songs@.len() == 0,
            res.playlist_result is None,
            res.playlist_list@.len() == 0 && res.artist_list@.len() == 0,
    {
        ClientState {
            selected: Vec::new(),
            pending_artist_search: false,
            current_song_id: None,
            queue: Vec::new(),
            search_results: Vec::new(),
            artist_songs: Vec::new(),
            playlist_result: None,
            playlist_list: Vec::new(),
            artist_list: Vec::new(),
        }
    }

    /// The requests a window sends once at start-up: the playlist list.
    pub fn startup_requests() -> (res: Vec<ClientRequest>)
        ensures
            res@ =~= seq![ClientRequest::PlaylistList],
    {
        vec![ClientRequest::PlaylistList]
    }

    /// The requests that a window event sends. A click on the queue's `n`-th
    /// entry moves on `n + 1` songs; adding, enqueueing or playing next a
    /// song whose identifier does not parse stops the window (`None`); other
    /// events with an identifier that does not parse, or with a blank
    /// playlist title, send nothing. Picking an artist marks the search as an
    /// artist search; toggling a song changes the selection.
    pub fn on_event(&mut self, event: UiEvent) -> (res: Option<Vec<ClientRequest>>)
        requires
            event matches UiEvent::QueueClick(n) ==> n < i32::MAX,
        ensures
            !(event is ToggleSelection) ==> final(self).selected@ == old(self).selected@,
            texts(old(self).selected@).no_duplicates() ==> texts(final(self).selected@).no_duplicates(),
            !(event is GetSongsByArtist) ==> final(self).pending_artist_search == old(self).pending_artist_search,
            final(self).current_song_id == old(self).current_song_id,
            final(self).queue@ == old(self).queue@,
            final(self).search_results@ == old(self).search_results@,
            final(self).artist_songs@ == old(self).artist_songs@,
            final(self).playlist_list@ == old(self).playlist_list@,
            final(self).artist_list@ == old(self).artist_list@,
            final(self).playlist_result == old(self).playlist_result,
            match event {
                UiEvent::QueueClick(n) => event_sends_one(res, ClientRequest::Next(((n + 1) as i32) as usize)),
                UiEvent::Next => event_sends_one(res, ClientRequest::Next(1)),
                UiEvent::Prev => event_sends_one(res, ClientRequest::Prev(1)),
                UiEvent::Pause => event_sends_one(res, ClientRequest::Pause),
                UiEvent::QueueClear => event_sends_one(res, ClientRequest::Clear),
                UiEvent::QueueRemove(n) => event_sends_one(res, ClientRequest::RemoveSongAt(n as usize)),
                UiEvent::QueueMove(a, b) => event_sends_one(res, ClientRequest::MoveQueue { from: a as usize, to: b as usize }),
                UiEvent::Search { query, mode, forced } => {
                    let t = trimmed(query@);
                    if crate::ui::byte_count(t) > 2 || (t.len() > 0 && forced) {
                        res matches Some(v) && v@.len() == 1 && (if mode@ == "By Artist"@ {
                            v@[0] matches ClientRequest::Search(SearchType::ByArtist(q)) && q@ == t
                        } else {
                            v@[0] matches ClientRequest::Search(SearchType::ByTitle(q)) && q@ == t
                        })
                    } else {
                        sends_nothing(res)
                    }
                },
                UiEvent::RefreshPlaylists => event_sends_one(res, ClientRequest::PlaylistList),
                UiEvent::SelectPlaylist(t) => match parsed_id(t@) {
                    Some(id) => event_sends_one(res, ClientRequest::PlaylistGet(id)),
                    None => sends_nothing(res),
                },
                UiEvent::Add(t) => match parsed_id(t@) {
                    Some(id) => event_sends_one(res, ClientRequest::Play(id)),
                    None => res is None,
                },
                UiEvent::Enqueue(t) => match parsed_id(t@) {
                    Some(id) => event_sends_one(res, ClientRequest::Enqueue(id)),
                    None => res is None,
                },
                UiEvent::PlayNext(t) => match parsed_id(t@) {
                    Some(id) => event_sends_one(res, ClientRequest::PlayNext(id)),
                    None => res is None,
                },
                UiEvent::Seek(ms) => event_sends_one(res, ClientRequest::Seek(ms as u64)),
                UiEvent::ReplaceQueue(ts) => res matches Some(v) && v@.len() == 2 && v@[0] is Clear
                    && (v@[1] matches ClientRequest::ReplaceQueue(ids) && ids@ == crate::history::parsed_ids(crate::protocol::texts(ts@))),
                UiEvent::ToggleSelection(t) => sends_nothing(res) && texts(final(self).selected@) == toggled(texts(old(self).selected@), t@),
                UiEvent::CreatePlaylist(name) => if trimmed(name@).len() > 0 {
                    res matches Some(v) && v@.len() == 1 && (v@[0] matches ClientRequest::PlaylistCreate(title) && title@ == trimmed(name@))
                } else {
                    sends_nothing(res)
                },
                UiEvent::RenamePlaylist(id, name) => if trimmed(name@).len() > 0 && parsed_id(id@) is Some {
                    res matches Some(v) && v@.len() == 1 && (v@[0] matches ClientRequest::PlaylistRename { playlist_id, new_title }
                        && Some(playlist_id) == parsed_id(id@) && new_title@ == trimmed(name@))
                } else {
                    sends_nothing(res)
                },
                UiEvent::DeletePlaylist(t) => match parsed_id(t@) {
                    Some(id) => event_sends_one(res, ClientRequest::PlaylistDelete(id)),
                    None => sends_nothing(res),
                },
                UiEvent::RemoveSongFromPlaylist(p, s) => match (parsed_id(p@), parsed_id(s@)) {
                    (Some(playlist_id), Some(song_id)) => event_sends_one(res, ClientRequest::PlaylistRemoveSong { playlist_id, song_id }),
                    _ => sends_nothing(res),
                },
                UiEvent::AddSongsToPlaylist(p, primary) => match parsed_id(p@) {
                    Some(playlist_id) => res matches Some(v) && v@.len() == 1 && (v@[0] matches ClientRequest::PlaylistAddSongs { playlist_id: q, song_ids }
                        && q == playlist_id && song_ids@ == songs_to_add(texts(old(self).selected@), primary@)),
                    None => sends_nothing(res),
                },
                UiEvent::SetShuffle(b) => event_sends_one(res, ClientRequest::SetShuffle(b)),
                UiEvent::SetRepeat(r) => event_sends_one(res, ClientRequest::SetRepeat(r as u8)),
                UiEvent::GetArtistList => event_sends_one(res, ClientRequest::GetArtistList),
                UiEvent::GetSongsByArtist(a) => final(self).pending_artist_search && (res matches Some(v) && v@.len() == 1
                    && (v@[0] matches ClientRequest::Search(SearchType::ByArtist(q)) && q@ == a@)),
            },
    {
        match event {
            UiEvent::QueueClick(n) => {
                let next: i32 = n + 1;
                Some(vec![ClientRequest::Next(next as usize)])
            },
            UiEvent::Next => Some(vec![ClientRequest::Next(1)]),
            UiEvent::Prev => Some(vec![ClientRequest::Prev(1)]),
            UiEvent::Pause => Some(vec![ClientRequest::Pause]),
            UiEvent::QueueClear => Some(vec![ClientRequest::Clear]),
            UiEvent::QueueRemove(n) => Some(vec![ClientRequest::RemoveSongAt(n as usize)]),
            UiEvent::QueueMove(a, b) => Some(vec![ClientRequest::MoveQueue { from: a as usize, to: b as usize }]),
            UiEvent::Search { query, mode, forced } => match search_request(query.as_str(), mode.as_str(), forced) {
                Some(st) => Some(vec![ClientRequest::Search(st)]),
                None => Some(Vec::new()),
            },
            UiEvent::RefreshPlaylists => Some(vec![ClientRequest::PlaylistList]),
            UiEvent::SelectPlaylist(t) => match parse_id(t.as_str()) {
                Some(id) => Some(vec![ClientRequest::PlaylistGet(id)]),
                None => Some(Vec::new()),
            },
            UiEvent::Add(t) => match parse_id(t.as_str()) {
                Some(id) => Some(vec![ClientRequest::Play(id)]),
                None => None,
            },
            UiEvent::Enqueue(t) => match parse_id(t.as_str()) {
                Some(id) => Some(vec![ClientRequest::Enqueue(id)]),
                None => None,
            },
            UiEvent::PlayNext(t) => match parse_id(t.as_str()) {
                Some(id) => Some(vec![ClientRequest::PlayNext(id)]),
                None => None,
            },
            UiEvent::Seek(ms) => Some(vec![ClientRequest::Seek(ms as u64)]),
            UiEvent::ReplaceQueue(ts) => {
                let ids = crate::history::ids_from_texts(&ts);
                let mut v: Vec<u128> = Vec::new();
                for i in 0..ids.len()
                    invariant
                        v@ == ids@.take(i as int),
                {
                    assert(ids@.take(i + 1) =~= ids@.take(i as int).push(ids@[i as int]));
                    v.push(ids[i]);
                }
                assert(ids@.take(ids@.len() as int) =~= ids@);
                Some(vec![ClientRequest::Clear, ClientRequest::ReplaceQueue(v)])
            },
            UiEvent::ToggleSelection(t) => {
                toggle_selection(&mut self.selected, t);
                Some(Vec::new())
            },
            UiEvent::CreatePlaylist(name) => match playlist_title(name.as_str()) {
                Some(title) => Some(vec![ClientRequest::PlaylistCreate(title)]),
                None => Some(Vec::new()),
            },
            UiEvent::RenamePlaylist(id, name) => match (playlist_title(name.as_str()), parse_id(id.as_str())) {
                (Some(new_title), Some(playlist_id)) => Some(vec![ClientRequest::PlaylistRename { playlist_id, new_title }]),
                _ => Some(Vec::new()),
            },
            UiEvent::DeletePlaylist(t) => match parse_id(t.as_str()) {
                Some(id) => Some(vec![ClientRequest::PlaylistDelete(id)]),
                None => Some(Vec::new()),
            },
            UiEvent::RemoveSongFromPlaylist(p, s) => match (parse_id(p.as_str()), parse_id(s.as_str())) {
                (Some(playlist_id), Some(song_id)) => Some(vec![ClientRequest::PlaylistRemoveSong { playlist_id, song_id }]),
                _ => Some(Vec::new()),
            },
            UiEvent::AddSongsToPlaylist(p, primary) => match add_songs_request(p.as_str(), &self.selected, primary.as_str()) {
                Some((playlist_id, song_ids)) => Some(vec![ClientRequest::PlaylistAddSongs { playlist_id, song_ids }]),
                None => Some(Vec::new()),
            },
            UiEvent::SetShuffle(b) => Some(vec![ClientRequest::SetShuffle(b)]),
            UiEvent::SetRepeat(r) => Some(vec![ClientRequest::SetRepeat(r as u8)]),
            UiEvent::GetArtistList => Some(vec![ClientRequest::GetArtistList]),
            UiEvent::GetSongsByArtist(a) => {
                self.pending_artist_search = true;
                Some(vec![ClientRequest::Search(SearchType::ByArtist(a))])
            },
        }
    }

    /// Files an answer of the daemon and says what to redraw. Search results
    /// go to the artist's songs when an artist search was asked for (and the
    /// flag is cleared), else to the search results; a playlist list
    /// redraws the search results and the playlists.
    pub fn receive(&mut self, resp: ClientResponse) -> (res: Vec<Redraw>)
        ensures
            final(self).selected@ == old(self).selected@,
            match resp {
                ClientResponse::Status(song) => {
                    &&& final(self).current_song_id == match song { Some(s) => Some(s.id), None => None }
                    &&& res@ == seq![Redraw::NowPlaying]
                },
                ClientResponse::Queue(q) => final(self).queue@ == q@ && res@ == seq![Redraw::Queue],
                ClientResponse::SearchResults(r) => if old(self).pending_artist_search {
                    &&& final(self).artist_songs@ == r@
                    &&& !final(self).pending_artist_search
                    &&& final(self).search_results@ == old(self).search_results@
                    &&& res@ == seq![Redraw::ArtistSongs]
                } else {
                    &&& final(self).search_results@ == r@
                    &&& !final(self).pending_artist_search
                    &&& final(self).artist_songs@ == old(self).artist_songs@
                    &&& res@ == seq![Redraw::SearchResults]
                },
                ClientResponse::PlaylistResults(p) => final(self).playlist_result == Some(p) && res@ == seq![Redraw::PlaylistResults],
                ClientResponse::PlaylistList(l) => final(self).playlist_list@ == l@ && res@ == seq![Redraw::SearchResults, Redraw::Playlists],
                ClientResponse::ArtistList(a) => final(self).artist_list@ == a@ && res@ == seq![Redraw::ArtistList],
                ClientResponse::Other => res@.len() == 0,
            },
            !(resp is Status) ==> final(self).current_song_id == old(self).current_song_id,
            !(resp is Queue) ==> final(self).queue@ == old(self).queue@,
            !(resp is SearchResults) ==> final(self).search_results@ == old(self).search_results@
                && final(self).artist_songs@ == old(self).artist_songs@
                && final(self).pending_artist_search == old(self).pending_artist_search,
            !(resp is PlaylistResults) ==> final(self).playlist_result == old(self).playlist_result,
            !(resp is PlaylistList) ==> final(self).playlist_list@ == old(self).playlist_list@,
            !(resp is ArtistList) ==> final(self).artist_list@ == old(self).artist_list@,
    {
        match resp {
            ClientResponse::Status(song) => {
                self.current_song_id = match &song {
                    Some(s) => Some(s.id),
                    None => None,
                };
                vec![Redraw::NowPlaying]
            },
            ClientResponse::Queue(q) => {
                self.queue = q;
                vec![Redraw::Queue]
            },
            ClientResponse::SearchResults(r) => {
                if self.pending_artist_search {
                    self.pending_artist_search = false;
                    self.artist_songs = r;
                    vec![Redraw::ArtistSongs]
                } else {
                    self.search_results = r;
                    vec![Redraw::SearchResults]
                }
            },
            ClientResponse::PlaylistResults(p) => {
                self.playlist_result = Some(p);
                vec![Redraw::PlaylistResults]
            },
            ClientResponse::PlaylistList(l) => {
                self.playlist_list = l;
                vec![Redraw::SearchResults, Redraw::Playlists]
            },
            ClientResponse::ArtistList(a) => {
                self.artist_list = a;
                vec![Redraw::ArtistList]
            },
            ClientResponse::Other => Vec::new(),
        }
    }
}

} // verus!
