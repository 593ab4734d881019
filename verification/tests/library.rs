use aurora::library::{artist_list, ids_of, liked_songs, lookup, no_such_song, prune_history, search, songs_in_index, SongIndex};
use aurora::protocol::{SearchType, SongMeta};
use aurora::sort::sort_by_title;
use aurora::text::{str_le, text_contains};
use std::collections::{HashSet, VecDeque};
use aurora::library::set_liked;

fn song(id: u128, title: &str, artists: &[&str]) -> SongMeta {
    SongMeta {
        id,
        title: title.to_string(),
        artists: artists.iter().map(|a| a.to_string()).collect(),
        duration_ms: 200_000,
        path: format!("/music/{}.flac", id),
        art_path: None,
    }
}

fn index() -> SongIndex {
    let mut index = SongIndex::new();
    for m in [
        song(1, "Lovely Day", &["Bill Withers"]),
        song(2, "All You Need Is Love", &["The Beatles"]),
        song(3, "Yesterday", &["The Beatles"]),
        song(4, "Glove Box", &["Someone Else", "Bill Withers"]),
    ] {
        index.insert(m.id, m);
    }
    index
}

fn uuid_text(id: u128) -> String {
    uuid::Uuid::from_u128(id).to_string()
}

#[test]
fn search_by_title_ignores_case_and_sorts_by_title() {
    let res = search(&index(), &SearchType::ByTitle("LOVE".to_string()));
    let titles: Vec<&str> = res.iter().map(|m| m.title.as_str()).collect();
    assert_eq!(titles, vec!["All You Need Is Love", "Glove Box", "Lovely Day"]);
}

#[test]
fn search_by_artist_matches_any_artist() {
    let res = search(&index(), &SearchType::ByArtist("withers".to_string()));
    let ids: Vec<u128> = res.iter().map(|m| m.id).collect();
    assert_eq!(ids, vec![4, 1]);
    let res = search(&index(), &SearchType::ByArtist("beatles".to_string()));
    let ids: Vec<u128> = res.iter().map(|m| m.id).collect();
    assert_eq!(ids, vec![2, 3]);
}

#[test]
fn search_without_match_is_empty() {
    assert!(search(&index(), &SearchType::ByTitle("zzz".to_string())).is_empty());
    assert_eq!(search(&index(), &SearchType::ByTitle(String::new())).len(), 4);
}

#[test]
fn lookup_finds_or_reports() {
    let idx = index();
    assert_eq!(lookup(&idx, 3).unwrap().title, "Yesterday");
    let err = lookup(&idx, 99).err().unwrap();
    assert_eq!(err.err_id, 1);
    assert_eq!(err.err_msg, format!("No such song with id {}", uuid_text(99)));
    assert_eq!(no_such_song(5).err_msg, format!("No such song with id {}", uuid_text(5)));
}

#[test]
fn liked_songs_are_marked_and_sorted() {
    let liked: HashSet<u128> = [3u128, 1, 77].into_iter().collect();
    let res = liked_songs(&index(), &liked);
    let titles: Vec<&str> = res.iter().map(|s| s.title.as_str()).collect();
    assert_eq!(titles, vec!["Lovely Day", "Yesterday"]);
    assert!(res.iter().all(|s| s.liked));
}

#[test]
fn songs_in_index_skips_unknown_songs() {
    let res = songs_in_index(&index(), &vec![3, 50, 1]);
    let ids: Vec<u128> = res.iter().map(|s| s.id).collect();
    assert_eq!(ids, vec![3, 1]);
    assert!(res.iter().all(|s| !s.liked));
}

#[test]
fn prune_history_drops_unknown_songs() {
    let mut h: VecDeque<u128> = [1u128, 9, 2, 8].into_iter().collect();
    assert!(prune_history(&mut h, &index()));
    assert_eq!(h, VecDeque::from(vec![1, 2]));
    assert!(!prune_history(&mut h, &index()));
    assert_eq!(ids_of(&h), vec![1, 2]);
}

#[test]
fn artist_list_is_sorted_and_distinct() {
    let res = artist_list(&index());
    assert_eq!(res, vec!["Bill Withers".to_string(), "Someone Else".to_string(), "The Beatles".to_string()]);
}

#[test]
fn sort_by_title_orders_strings() {
    let v = vec!["b".to_string(), "a".to_string(), "B".to_string(), "ab".to_string()];
    assert_eq!(sort_by_title(v), vec!["B".to_string(), "a".to_string(), "ab".to_string(), "b".to_string()]);
}

#[test]
fn text_helpers() {
    assert!(text_contains("hello world", "o w"));
    assert!(text_contains("abc", ""));
    assert!(!text_contains("abc", "abcd"));
    assert!(str_le("abc", "abd"));
    assert!(str_le("ab", "abc"));
    assert!(!str_le("b", "a"));
    assert!(str_le("same", "same"));
}

#[test]
fn liking_and_unliking() {
    let mut liked: HashSet<u128> = HashSet::new();
    set_liked(&mut liked, 3, true);
    set_liked(&mut liked, 3, true);
    set_liked(&mut liked, 4, true);
    assert_eq!(liked.len(), 2);
    set_liked(&mut liked, 3, false);
    set_liked(&mut liked, 99, false);
    assert_eq!(liked.into_iter().collect::<Vec<_>>(), vec![4]);
}

#[test]
fn queries_equal_up_to_case_get_the_same_answers() {
    let a: Vec<u128> = search(&index(), &SearchType::ByTitle("LoVe".to_string())).iter().map(|m| m.id).collect();
    let b: Vec<u128> = search(&index(), &SearchType::ByTitle("love".to_string())).iter().map(|m| m.id).collect();
    assert_eq!(a, b);
    let all: HashSet<u128> = search(&index(), &SearchType::ByTitle(String::new())).iter().map(|m| m.id).collect();
    assert_eq!(all, [1u128, 2, 3, 4].into_iter().collect());
}
