use aurora::protocol::{SearchType, Song};
use aurora::ui::{display_order, format_duration, hex_to_rgb, join, now_playing_lines, search_request, truncate, ArtCache};
use base64::Engine;
use aurora::ui::playlist_title;

#[test]
fn truncate_marks_the_cut() {
    assert_eq!(truncate("Hello World", 5), "Hell…");
    assert_eq!(truncate("abc", 3), "abc");
    assert_eq!(truncate("abcd", 1), "…");
    assert_eq!(truncate("abcd", 0), "");
    assert_eq!(truncate("ñandú y más", 4), "ñan…");
}

#[test]
fn join_puts_the_separator_between() {
    let v = vec!["a".to_string(), "b".to_string(), "c".to_string()];
    assert_eq!(join(&v, ", "), "a, b, c");
    assert_eq!(join(&vec!["only".to_string()], ", "), "only");
    assert_eq!(join(&vec![], ", "), "");
}

#[test]
fn now_playing_shows_title_and_artists() {
    let song = Song {
        id: 1,
        title: "A very long title that will not fit in the box".to_string(),
        artists: vec!["One".to_string(), "Two".to_string()],
        duration_ms: 1000,
        art_path: None,
        liked: false,
    };
    let (t, a) = now_playing_lines(&Some(song));
    assert_eq!(t, "A very long title that w…");
    assert_eq!(t.chars().count(), 25);
    assert_eq!(a, "One ,Two");
    let (t, a) = now_playing_lines(&None);
    assert_eq!(t, "Nothing Playing");
    assert_eq!(a, "No Artists");
}

#[test]
fn queue_list_order() {
    assert_eq!(display_order(5, 2), vec![1, 0, 4, 3]);
    assert_eq!(display_order(3, 0), vec![2, 1]);
    assert_eq!(display_order(0, 0), Vec::<usize>::new());
    assert_eq!(display_order(2, 7), vec![1, 0]);
}

#[test]
fn durations_as_minutes_and_seconds() {
    assert_eq!(format_duration(187_000), "3:07");
    assert_eq!(format_duration(0), "0:00");
    assert_eq!(format_duration(59_999), "0:59");
    assert_eq!(format_duration(3_600_000), "60:00");
    assert_eq!(format_duration(754_321), "12:34");
}

#[test]
fn theme_colours_to_rgb() {
    assert_eq!(hex_to_rgb("#1e1e2e"), (0x1e, 0x1e, 0x2e));
    assert_eq!(hex_to_rgb("FFa0B1"), (255, 0xa0, 0xb1));
    assert_eq!(hex_to_rgb("##000000extra"), (0, 0, 0));
}

#[test]
fn search_requests_need_three_bytes_unless_forced() {
    assert!(search_request("  hi ", "By Title", false).is_none());
    match search_request("  hi ", "By Artist", true) {
        Some(SearchType::ByArtist(q)) => assert_eq!(q, "hi"),
        _ => panic!("expected an artist search"),
    }
    match search_request("love", "By Title", false) {
        Some(SearchType::ByTitle(q)) => assert_eq!(q, "love"),
        _ => panic!("expected a title search"),
    }
    match search_request(" é ", "anything", false) {
        None => {}
        _ => panic!("two bytes are too short"),
    }
    assert!(search_request("   ", "By Title", true).is_none());
    match search_request("日本", "By Title", false) {
        Some(SearchType::ByTitle(q)) => assert_eq!(q, "日本"),
        _ => panic!("six bytes are long enough"),
    }
}

#[test]
fn art_cache_files_decoded_pictures() {
    let mut cache = ArtCache::new();
    assert!(cache.wants(1));
    cache.pending.push(1);
    assert!(!cache.wants(1));
    let bytes = vec![0xfbu8, 0xff, 0x00, 0x10];
    let text = base64::prelude::BASE64_URL_SAFE.encode(&bytes);
    cache.receive(1, &text);
    assert_eq!(cache.pictures.get(&1), Some(&bytes));
    assert!(!cache.wants(1));
    cache.receive(2, "not base64 !!");
    assert!(cache.pictures.get(&2).is_none());
    assert!(cache.wants(2));
}

#[test]
fn playlist_titles_are_trimmed_and_non_empty() {
    assert_eq!(playlist_title("  Road Trip \n"), Some("Road Trip".to_string()));
    assert_eq!(playlist_title("   "), None);
    assert_eq!(playlist_title(""), None);
}
