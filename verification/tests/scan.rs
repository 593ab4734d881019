use aurora::ids::song_id_for_path;
use aurora::library::SongIndex;
use aurora::scan::{apply_scan, classify_file, is_audio_extension, song_tags, split_text, stale_paths, CacheRow, FileScan, SongTags, TagField, UpsertRow};

fn row(path: &str, id: u128, mtime: i64, artists_json: &str) -> CacheRow {
    CacheRow {
        id: uuid::Uuid::from_u128(id).to_string(),
        path: path.to_string(),
        title: "Cached Title".to_string(),
        artists_json: artists_json.to_string(),
        dur_ms: 123_000,
        mtime,
        art_path: Some("/tmp/aurora-player/x.jpg".to_string()),
    }
}

#[test]
fn audio_extensions_ignore_case() {
    for e in ["mp3", "FLAC", "Wav", "ogg", "m4a"] {
        assert!(is_audio_extension(e), "{}", e);
    }
    for e in ["txt", "mp4", "", "jpeg"] {
        assert!(!is_audio_extension(e), "{}", e);
    }
}

#[test]
fn an_unchanged_file_comes_from_the_cache() {
    let cache = vec![row("/m/a.mp3", 77, 1000, "[\"A\",\"B\"]")];
    match classify_file(&"/m/a.mp3".to_string(), 1000, &cache) {
        FileScan::Cached(m) => {
            assert_eq!(m.id, 77);
            assert_eq!(m.title, "Cached Title");
            assert_eq!(m.artists, vec!["A".to_string(), "B".to_string()]);
            assert_eq!(m.duration_ms, 123_000);
            assert_eq!(m.path, "/m/a.mp3");
            assert_eq!(m.art_path.as_deref(), Some("/tmp/aurora-player/x.jpg"));
        }
        _ => panic!("expected a cached song"),
    }
}

#[test]
fn broken_artist_json_gives_no_artists() {
    let cache = vec![row("/m/a.mp3", 77, 1000, "not json")];
    match classify_file(&"/m/a.mp3".to_string(), 1000, &cache) {
        FileScan::Cached(m) => assert!(m.artists.is_empty()),
        _ => panic!("expected a cached song"),
    }
}

#[test]
fn a_changed_or_new_file_is_read_again() {
    let cache = vec![row("/m/a.mp3", 77, 1000, "[]")];
    match classify_file(&"/m/a.mp3".to_string(), 2000, &cache) {
        FileScan::Rescan { id, art_path } => {
            assert_eq!(id, song_id_for_path("/m/a.mp3"));
            assert_eq!(art_path.as_deref(), Some("/tmp/aurora-player/x.jpg"));
        }
        _ => panic!("expected a rescan"),
    }
    match classify_file(&"/m/new.mp3".to_string(), 5, &cache) {
        FileScan::Rescan { id, art_path } => {
            let expected = uuid::Uuid::new_v5(&uuid::Uuid::NAMESPACE_URL, b"/m/new.mp3").as_u128();
            assert_eq!(id, expected);
            assert!(art_path.is_none());
        }
        _ => panic!("expected a rescan"),
    }
}

#[test]
fn a_bad_cached_id_leaves_the_file_out() {
    let mut bad = row("/m/a.mp3", 1, 1000, "[]");
    bad.id = "garbage".to_string();
    match classify_file(&"/m/a.mp3".to_string(), 1000, &vec![bad]) {
        FileScan::BadCachedId => {}
        _ => panic!("expected a bad id"),
    }
}

#[test]
fn the_last_row_for_a_path_wins() {
    let cache = vec![row("/m/a.mp3", 1, 1000, "[]"), row("/m/a.mp3", 2, 1000, "[]")];
    match classify_file(&"/m/a.mp3".to_string(), 1000, &cache) {
        FileScan::Cached(m) => assert_eq!(m.id, 2),
        _ => panic!("expected a cached song"),
    }
}

#[test]
fn split_like_str_split() {
    assert_eq!(split_text("a/b//c", '/'), vec!["a", "b", "", "c"]);
    assert_eq!(split_text("", '/'), vec![""]);
    assert_eq!(split_text("solo", '/'), vec!["solo"]);
    assert_eq!(split_text("x/", '/'), vec!["x", ""]);
}

fn field(k: &str, v: &str) -> TagField {
    TagField { key: k.to_string(), value: v.to_string() }
}

#[test]
fn tags_give_title_and_artists() {
    let t = song_tags(Some("track01".to_string()), &vec![field("TITLE", "Song"), field("artist", "A/B")], 4000);
    assert_eq!(t.title, "Song");
    assert_eq!(t.artists, vec!["A".to_string(), "B".to_string()]);
    assert_eq!(t.duration_ms, 4000);

    let t = song_tags(Some("track01".to_string()), &vec![field("TIT2", ""), field("comment", "x")], 0);
    assert_eq!(t.title, "track01");
    assert_eq!(t.artists, vec!["Unknown".to_string()]);

    let t = song_tags(None, &vec![field("Title", "First"), field("title", "Second"), field("TPE1", "Solo")], 1);
    assert_eq!(t.title, "Second");
    assert_eq!(t.artists, vec!["Solo".to_string()]);

    let t = song_tags(None, &vec![], 1);
    assert_eq!(t.title, "Unknown");
}

#[test]
fn applying_a_rescan_files_the_song_and_its_row() {
    let mut index = SongIndex::new();
    let mut upserts: Vec<UpsertRow> = Vec::new();
    let path = "/m/b.mp3".to_string();
    let id = song_id_for_path(&path);
    let tags = SongTags { title: "B".to_string(), artists: vec!["X".to_string(), "Y".to_string()], duration_ms: 9000 };
    apply_scan(&mut index, &mut upserts, &path, 77, FileScan::Rescan { id, art_path: None }, Some(tags));
    let m = index.get(&id).unwrap();
    assert_eq!(m.title, "B");
    assert_eq!(m.path, "/m/b.mp3");
    assert_eq!(upserts.len(), 1);
    assert_eq!(upserts[0].id, uuid::Uuid::from_u128(id).to_string());
    assert_eq!(upserts[0].artists_json, "[\"X\",\"Y\"]");
    assert_eq!(upserts[0].dur_ms, 9000);
    assert_eq!(upserts[0].mtime, 77);

    let cache = vec![CacheRow {
        id: upserts[0].id.clone(),
        path: upserts[0].path.clone(),
        title: upserts[0].title.clone(),
        artists_json: upserts[0].artists_json.clone(),
        dur_ms: upserts[0].dur_ms,
        mtime: upserts[0].mtime,
        art_path: None,
    }];
    match classify_file(&path, 77, &cache) {
        FileScan::Cached(m) => {
            assert_eq!(m.id, id);
            assert_eq!(m.artists, vec!["X".to_string(), "Y".to_string()]);
        }
        _ => panic!("a written row reads back as cached"),
    }

    apply_scan(&mut index, &mut upserts, &"/m/c.mp3".to_string(), 1, FileScan::Rescan { id: 5, art_path: None }, None);
    assert_eq!(index.len(), 1);
    assert_eq!(upserts.len(), 1);
    apply_scan(&mut index, &mut upserts, &"/m/c.mp3".to_string(), 1, FileScan::BadCachedId, None);
    assert_eq!(index.len(), 1);
}

#[test]
fn stale_paths_are_those_not_found() {
    let cache = vec![row("/m/a", 1, 0, "[]"), row("/m/b", 2, 0, "[]"), row("/m/a", 3, 0, "[]"), row("/m/c", 4, 0, "[]")];
    let found = vec!["/m/b".to_string()];
    assert_eq!(stale_paths(&cache, &found), vec!["/m/a".to_string(), "/m/c".to_string()]);
    assert!(stale_paths(&cache, &vec!["/m/a".to_string(), "/m/b".to_string(), "/m/c".to_string()]).is_empty());
}
