use aurora::art::{album_art_from_data, album_art_reply, album_art_source, art_file, art_source, art_thumbnail, picture_bytes, record_art, TagPictures};
use aurora::daemon::{auto_advance, enqueue_at, play, replace_queue, status_art_request, status_song};
use aurora::library::SongIndex;
use aurora::playlist::{playlist, playlist_minimal, playlists_from_rows, PlaylistRow};
use aurora::protocol::SongMeta;
use aurora::queue::PlayQueue;
use base64::Engine;
use aurora::errors::to_io;
use aurora::playlist::{playlist_error, PlaylistOp};

fn song(id: u128, title: &str) -> SongMeta {
    SongMeta {
        id,
        title: title.to_string(),
        artists: vec!["Band".to_string()],
        duration_ms: 60_000,
        path: format!("/music/{}.ogg", title),
        art_path: None,
    }
}

fn index() -> SongIndex {
    let mut index = SongIndex::new();
    for m in [song(1, "one"), song(2, "two"), song(3, "three")] {
        index.insert(m.id, m);
    }
    index
}

fn ids(q: &PlayQueue) -> Vec<u128> {
    q.queue.iter().map(|m| m.id).collect()
}

fn uuid_text(id: u128) -> String {
    uuid::Uuid::from_u128(id).to_string()
}

#[test]
fn play_appends_known_songs() {
    let idx = index();
    let mut q = PlayQueue::new();
    assert_eq!(play(&mut q, &idx, 2).ok(), Some(true));
    assert_eq!(play(&mut q, &idx, 1).ok(), Some(false));
    assert_eq!(ids(&q), vec![2, 1]);
    let err = play(&mut q, &idx, 9).err().unwrap();
    assert_eq!(err.err_id, 1);
    assert_eq!(err.err_msg, format!("No such song with id {}", uuid_text(9)));
    assert_eq!(ids(&q), vec![2, 1]);
}

#[test]
fn enqueue_at_checks_the_library() {
    let idx = index();
    let mut q = PlayQueue::new();
    assert_eq!(enqueue_at(&mut q, &idx, 3, Some(1)).ok(), Some(2));
    assert_eq!(q.current_song.as_ref().map(|m| m.id), Some(3));
    assert_eq!(enqueue_at(&mut q, &idx, 1, None).ok(), Some(0));
    assert_eq!(ids(&q), vec![3, 1]);
    assert!(enqueue_at(&mut q, &idx, 42, Some(0)).is_err());
    assert_eq!(ids(&q), vec![3, 1]);
}

#[test]
fn replace_queue_all_or_nothing() {
    let idx = index();
    let mut q = PlayQueue::new();
    assert!(replace_queue(&mut q, &idx, &vec![3, 1, 2]).is_ok());
    assert_eq!(ids(&q), vec![3, 1, 2]);
    assert_eq!(q.current_song.as_ref().map(|m| m.id), Some(3));
    let err = replace_queue(&mut q, &idx, &vec![1, 8, 9]).err().unwrap();
    assert_eq!(err.err_msg, format!("No such song with id {}", uuid_text(8)));
    assert_eq!(ids(&q), vec![3, 1, 2]);
}

#[test]
fn auto_advance_moves_on_when_the_sink_is_dry() {
    let mut q = PlayQueue::new();
    assert!(!auto_advance(&mut q, true));
    q.queue.push_back(song(1, "one"));
    q.queue.push_back(song(2, "two"));
    assert!(!auto_advance(&mut q, false));
    assert_eq!(ids(&q), vec![1, 2]);
    assert!(auto_advance(&mut q, true));
    assert_eq!(ids(&q), vec![2, 1]);
    assert_eq!(q.current_song.as_ref().map(|m| m.id), Some(2));
}

#[test]
fn status_helpers() {
    let mut m = song(5, "five");
    assert_eq!(status_art_request(&Some(m.clone())), Some(5));
    assert_eq!(status_song(&Some(m.clone())).map(|s| (s.id, s.liked)), Some((5, false)));
    m.art_path = Some("/tmp/aurora-player/5.jpg".to_string());
    assert_eq!(status_art_request(&Some(m)), None);
    assert_eq!(status_art_request(&None), None);
    assert!(status_song(&None).is_none());
}

#[test]
fn art_paths_and_sources() {
    assert_eq!(art_file(1), format!("/tmp/aurora-player/{}.jpg", uuid_text(1)));
    let mut idx = index();
    assert_eq!(art_source(&idx, 2).as_deref(), Some("/music/two.ogg"));
    assert_eq!(art_source(&idx, 7), None);
    record_art(&mut idx, 2, "/tmp/aurora-player/2.jpg".to_string());
    assert_eq!(idx.get(&2).unwrap().art_path.as_deref(), Some("/tmp/aurora-player/2.jpg"));
    assert_eq!(art_source(&idx, 2), None);
    record_art(&mut idx, 99, "/x".to_string());
    assert_eq!(idx.len(), 3);
    assert_eq!(album_art_source(&idx, 1).ok().as_deref(), Some("/music/one.ogg"));
    let err = album_art_source(&idx, 4).err().unwrap();
    assert_eq!(err.err_id, 1);
    assert_eq!(err.err_msg, format!("There this no song with the id `{}`", uuid_text(4)));
}

#[test]
fn thumbnails_need_a_decodable_picture() {
    assert!(art_thumbnail(1, &vec![1, 2, 3, 4]).is_none());
    let mut png = Vec::new();
    let img = image::RgbImage::from_pixel(4, 4, image::Rgb([200, 10, 10]));
    img.write_to(&mut std::io::Cursor::new(&mut png), image::ImageFormat::Png).unwrap();
    let (path, jpeg) = art_thumbnail(1, &png).unwrap();
    assert_eq!(path, format!("/tmp/aurora-player/{}.jpg", uuid_text(1)));
    assert_eq!(&jpeg[..2], &[0xff, 0xd8]);
    let back = image::load_from_memory(&jpeg).unwrap();
    assert_eq!((back.width(), back.height()), (100, 100));
}

#[test]
fn album_art_replies() {
    assert_eq!(album_art_reply(&TagPictures::Unreadable).err().map(|e| (e.err_id, e.err_msg)), Some((2, "Could not open file metadata.".to_string())));
    assert_eq!(album_art_reply(&TagPictures::NoTag).ok(), Some(None));
    let reply = album_art_reply(&TagPictures::Pictures(vec![vec![0xfb, 0xff], vec![1]])).ok().unwrap().unwrap();
    assert_eq!(reply, "-_8=");
    assert_eq!(picture_bytes(&reply), Some(vec![0xfb, 0xff]));
    assert_eq!(picture_bytes("%%%"), None);
    let data: Vec<u8> = (0..=255u8).collect();
    let text = base64::prelude::BASE64_URL_SAFE.encode(&data);
    assert_eq!(picture_bytes(&text), Some(data));
}

#[test]
fn playlists_keep_known_songs_in_order() {
    let idx = index();
    let p = playlist(&idx, 10, "Mix".to_string(), &vec![3, 99, 1]);
    assert_eq!(p.id, 10);
    assert_eq!(p.title, "Mix");
    let got: Vec<u128> = p.songs.iter().map(|s| s.id).collect();
    assert_eq!(got, vec![3, 1]);
}

#[test]
fn playlist_rows_become_list_entries() {
    let mut idx = index();
    idx.get_mut(&1).unwrap().art_path = Some("/tmp/aurora-player/1.jpg".to_string());
    let row = PlaylistRow {
        id: uuid_text(10),
        title: "Mix".to_string(),
        count: 5,
        art_ids: vec![uuid_text(1), "junk".to_string(), uuid_text(2), uuid_text(77)],
    };
    let p = playlist_minimal(&idx, &row).unwrap();
    assert_eq!(p.id, 10);
    assert_eq!(p.name, "Mix");
    assert_eq!(p.len, 5);
    assert_eq!(p.art_paths, vec![Some("/tmp/aurora-player/1.jpg".to_string()), None, None]);

    let bad = PlaylistRow { id: "nope".to_string(), title: "Bad".to_string(), count: 0, art_ids: vec![] };
    assert!(playlist_minimal(&idx, &bad).is_none());
    let other = PlaylistRow { id: uuid_text(11), title: "Calm".to_string(), count: 0, art_ids: vec![] };
    let all = playlists_from_rows(&idx, &vec![bad, row, other]);
    assert_eq!(all.len(), 2);
    assert_eq!((all[0].id, all[0].name.as_str(), all[0].len), (10, "Mix", 5));
    assert_eq!(all[0].art_paths, vec![Some("/tmp/aurora-player/1.jpg".to_string()), None, None]);
    assert_eq!((all[1].id, all[1].name.as_str(), all[1].len), (11, "Calm", 0));
    assert!(all[1].art_paths.is_empty());
}

#[test]
fn refused_playlist_requests_get_their_codes() {
    let e = to_io("no such table: playlists".to_string());
    let cases = [
        (PlaylistOp::Create, 2),
        (PlaylistOp::List, 2),
        (PlaylistOp::Get, 4),
        (PlaylistOp::AddSongs, 5),
        (PlaylistOp::RemoveSong, 6),
        (PlaylistOp::Delete, 7),
        (PlaylistOp::Rename, 8),
    ];
    for (op, code) in cases {
        let r = playlist_error(op, e.payload.clone());
        assert_eq!(r.err_id, code);
        assert_eq!(r.err_msg, "no such table: playlists");
    }
}

#[test]
fn album_art_decodes_to_rgba_pixels() {
    let mut png = Vec::new();
    let img = image::RgbImage::from_pixel(3, 2, image::Rgb([10, 20, 30]));
    img.write_to(&mut std::io::Cursor::new(&mut png), image::ImageFormat::Png).unwrap();
    let (w, h, px) = album_art_from_data(&png).unwrap();
    assert_eq!((w, h), (3, 2));
    assert_eq!(px.len(), 3 * 2 * 4);
    assert_eq!(&px[..4], &[10, 20, 30, 255]);
    assert!(album_art_from_data(&[0, 1, 2, 3]).is_none());
}
