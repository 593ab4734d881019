use aurora::client::{add_songs_request, toggle_selection, ClientRequest, ClientResponse, ClientState, Redraw, UiEvent};
use aurora::mpris::track_metadata;
use aurora::protocol::{SearchType, Song, SongMeta};
use aurora::ui::{search_request, status_texts, ArtCache};
use base64::Engine;

fn t(id: u128) -> String {
    uuid::Uuid::from_u128(id).to_string()
}

fn song(id: u128, title: &str) -> Song {
    Song { id, title: title.to_string(), artists: vec!["A".to_string(), "B".to_string()], duration_ms: 1, art_path: None, liked: false }
}

fn one(res: Option<Vec<ClientRequest>>) -> ClientRequest {
    let mut v = res.expect("the window goes on");
    assert_eq!(v.len(), 1);
    v.pop().unwrap()
}

#[test]
fn window_events_send_their_requests() {
    let mut c = ClientState::new();
    assert!(matches!(one(c.on_event(UiEvent::QueueClick(2))), ClientRequest::Next(3)));
    assert!(matches!(one(c.on_event(UiEvent::Next)), ClientRequest::Next(1)));
    assert!(matches!(one(c.on_event(UiEvent::Prev)), ClientRequest::Prev(1)));
    assert!(matches!(one(c.on_event(UiEvent::QueueRemove(4))), ClientRequest::RemoveSongAt(4)));
    assert!(matches!(one(c.on_event(UiEvent::QueueMove(1, 3))), ClientRequest::MoveQueue { from: 1, to: 3 }));
    assert!(matches!(one(c.on_event(UiEvent::Seek(1500))), ClientRequest::Seek(1500)));
    assert!(matches!(one(c.on_event(UiEvent::SetRepeat(2))), ClientRequest::SetRepeat(2)));
    assert!(matches!(one(c.on_event(UiEvent::SetShuffle(true))), ClientRequest::SetShuffle(true)));
    assert!(matches!(one(c.on_event(UiEvent::Add(t(7)))), ClientRequest::Play(7)));
    assert!(matches!(one(c.on_event(UiEvent::Enqueue(t(7)))), ClientRequest::Enqueue(7)));
    assert!(matches!(one(c.on_event(UiEvent::PlayNext(t(7)))), ClientRequest::PlayNext(7)));
    assert!(matches!(one(c.on_event(UiEvent::SelectPlaylist(t(9)))), ClientRequest::PlaylistGet(9)));
    assert!(c.on_event(UiEvent::SelectPlaylist("junk".to_string())).unwrap().is_empty());
    assert!(matches!(one(c.on_event(UiEvent::DeletePlaylist(t(9)))), ClientRequest::PlaylistDelete(9)));
    assert!(matches!(
        one(c.on_event(UiEvent::RemoveSongFromPlaylist(t(9), t(7)))),
        ClientRequest::PlaylistRemoveSong { playlist_id: 9, song_id: 7 }
    ));
    assert!(c.on_event(UiEvent::RemoveSongFromPlaylist(t(9), "x".to_string())).unwrap().is_empty());
}

#[test]
fn a_song_id_that_does_not_parse_stops_the_window() {
    let mut c = ClientState::new();
    assert!(c.on_event(UiEvent::Add("not-an-id".to_string())).is_none());
    assert!(c.on_event(UiEvent::Enqueue(String::new())).is_none());
}

#[test]
fn search_and_playlist_title_events() {
    let mut c = ClientState::new();
    assert!(c.on_event(UiEvent::Search { query: " hi ".to_string(), mode: "By Title".to_string(), forced: false }).unwrap().is_empty());
    match one(c.on_event(UiEvent::Search { query: " hi ".to_string(), mode: "By Artist".to_string(), forced: true })) {
        ClientRequest::Search(SearchType::ByArtist(q)) => assert_eq!(q, "hi"),
        _ => panic!("expected an artist search"),
    }
    match one(c.on_event(UiEvent::CreatePlaylist("  Mix ".to_string()))) {
        ClientRequest::PlaylistCreate(title) => assert_eq!(title, "Mix"),
        _ => panic!("expected a create"),
    }
    assert!(c.on_event(UiEvent::CreatePlaylist(" \t ".to_string())).unwrap().is_empty());
    match one(c.on_event(UiEvent::RenamePlaylist(t(3), " New ".to_string()))) {
        ClientRequest::PlaylistRename { playlist_id, new_title } => {
            assert_eq!(playlist_id, 3);
            assert_eq!(new_title, "New");
        }
        _ => panic!("expected a rename"),
    }
    assert!(c.on_event(UiEvent::RenamePlaylist(t(3), "  ".to_string())).unwrap().is_empty());
}

#[test]
fn replacing_the_queue_clears_first_and_skips_bad_ids() {
    let mut c = ClientState::new();
    let v = c.on_event(UiEvent::ReplaceQueue(vec![t(1), "bad".to_string(), t(2)])).unwrap();
    assert_eq!(v.len(), 2);
    assert!(matches!(v[0], ClientRequest::Clear));
    match &v[1] {
        ClientRequest::ReplaceQueue(ids) => assert_eq!(ids, &vec![1, 2]),
        _ => panic!("expected a replace"),
    }
}

#[test]
fn selection_toggles_and_feeds_add_to_playlist() {
    let mut sel: Vec<String> = Vec::new();
    toggle_selection(&mut sel, t(5));
    toggle_selection(&mut sel, t(6));
    toggle_selection(&mut sel, t(5));
    assert_eq!(sel, vec![t(6)]);
    toggle_selection(&mut sel, "junk".to_string());
    assert_eq!(sel, vec![t(6), "junk".to_string()]);

    let (p, ids) = add_songs_request(&t(1), &sel, &t(9)).unwrap();
    assert_eq!(p, 1);
    assert_eq!(ids, vec![6]);
    let empty: Vec<String> = Vec::new();
    assert_eq!(add_songs_request(&t(1), &empty, &t(9)).unwrap().1, vec![9]);
    assert!(add_songs_request(&t(1), &empty, "bad").unwrap().1.is_empty());
    assert!(add_songs_request("bad", &sel, &t(9)).is_none());
    let only_junk = vec!["junk".to_string()];
    assert!(add_songs_request(&t(1), &only_junk, &t(9)).unwrap().1.is_empty());

    let mut c = ClientState::new();
    assert!(c.on_event(UiEvent::ToggleSelection(t(4))).unwrap().is_empty());
    assert!(c.on_event(UiEvent::ToggleSelection(t(8))).unwrap().is_empty());
    assert!(c.on_event(UiEvent::ToggleSelection("bad".to_string())).unwrap().is_empty());
    assert_eq!(c.selected.len(), 3);
    match one(c.on_event(UiEvent::AddSongsToPlaylist(t(2), t(9)))) {
        ClientRequest::PlaylistAddSongs { playlist_id, song_ids } => {
            assert_eq!(playlist_id, 2);
            assert_eq!(song_ids, vec![4, 8]);
        }
        _ => panic!("expected an add"),
    }
    c.on_event(UiEvent::ToggleSelection(t(4)));
    assert_eq!(c.selected.len(), 2);
}

#[test]
fn search_results_go_where_they_were_asked_for() {
    let mut c = ClientState::new();
    let r = c.receive(ClientResponse::SearchResults(vec![song(1, "x")]));
    assert_eq!(r, vec![Redraw::SearchResults]);
    assert_eq!(c.search_results.len(), 1);
    match one(c.on_event(UiEvent::GetSongsByArtist("Band".to_string()))) {
        ClientRequest::Search(SearchType::ByArtist(a)) => assert_eq!(a, "Band"),
        _ => panic!("expected an artist search"),
    }
    assert!(c.pending_artist_search);
    let r = c.receive(ClientResponse::SearchResults(vec![song(2, "y"), song(3, "z")]));
    assert_eq!(r, vec![Redraw::ArtistSongs]);
    assert_eq!(c.artist_songs.len(), 2);
    assert_eq!(c.search_results.len(), 1);
    assert!(!c.pending_artist_search);
}

#[test]
fn other_answers_are_filed() {
    let mut c = ClientState::new();
    assert_eq!(c.receive(ClientResponse::Status(Some(song(4, "t")))), vec![Redraw::NowPlaying]);
    assert_eq!(c.current_song_id, Some(4));
    assert_eq!(c.receive(ClientResponse::Status(None)), vec![Redraw::NowPlaying]);
    assert_eq!(c.current_song_id, None);
    assert_eq!(c.receive(ClientResponse::Queue(vec![song(1, "a")])), vec![Redraw::Queue]);
    assert_eq!(c.queue.len(), 1);
    assert_eq!(c.receive(ClientResponse::PlaylistList(vec![])), vec![Redraw::SearchResults, Redraw::Playlists]);
    assert_eq!(c.receive(ClientResponse::ArtistList(vec!["A".to_string()])), vec![Redraw::ArtistList]);
    assert_eq!(c.artist_list, vec!["A".to_string()]);
    assert!(c.receive(ClientResponse::Other).is_empty());
}

#[test]
fn status_texts_of_the_player_bar() {
    assert_eq!(status_texts(&Some(song(1, "Song"))), ("Song".to_string(), "A, B".to_string()));
    assert_eq!(status_texts(&None), ("Nothing Playing".to_string(), "No Artist".to_string()));
}

#[test]
fn desktop_metadata_of_a_song() {
    let m = SongMeta {
        id: 1,
        title: "T".to_string(),
        artists: vec!["X".to_string()],
        duration_ms: 2500,
        path: "/m/t.mp3".to_string(),
        art_path: Some("/tmp/aurora-player/a.jpg".to_string()),
    };
    let t = track_metadata(&m);
    assert_eq!(t.track_id, "/me/mavenried/Aurora/track/00000000000000000000000000000001");
    assert_eq!(t.title, "T");
    assert_eq!(t.artists, vec!["X".to_string()]);
    assert_eq!(t.length_us, 2_500_000);
    assert_eq!(t.art_url.as_deref(), Some("file:///tmp/aurora-player/a.jpg"));
    let none = SongMeta { art_path: None, ..m };
    assert!(track_metadata(&none).art_url.is_none());
}

#[test]
fn receiving_art_keeps_the_other_pictures() {
    let mut cache = ArtCache::new();
    cache.pictures.insert(1, vec![1, 2, 3]);
    let text = base64::prelude::BASE64_URL_SAFE.encode([9u8, 9]);
    cache.receive(2, &text);
    assert_eq!(cache.pictures.get(&1), Some(&vec![1, 2, 3]));
    assert_eq!(cache.pictures.get(&2), Some(&vec![9, 9]));
}

#[test]
fn trimming_removes_unicode_white_space() {
    match search_request("\u{3000}\u{2028}abc\u{a0}\t", "By Title", false) {
        Some(SearchType::ByTitle(q)) => assert_eq!(q, "abc"),
        _ => panic!("expected a title search"),
    }
}

#[test]
fn a_window_asks_for_the_playlists_at_start_up() {
    let v = ClientState::startup_requests();
    assert_eq!(v.len(), 1);
    assert!(matches!(v[0], ClientRequest::PlaylistList));
}

#[test]
fn main_view_texts_of_the_player() {
    assert_eq!(aurora::ui::main_view_texts(&Some(song(1, "Song"))), ("Song".to_string(), "A ,B".to_string()));
    assert_eq!(aurora::ui::main_view_texts(&None), ("Nothing Playing".to_string(), String::new()));
}
