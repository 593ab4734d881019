use aurora::errors::{to_io, IoErrorKind};
use aurora::framing::{frame, frame_len};
use aurora::ids::{playlist_id_for_title, song_id_for_path};

#[test]
fn frame_prefixes_the_big_endian_length() {
    assert_eq!(frame(b"hi"), vec![0, 0, 0, 2, b'h', b'i']);
    assert_eq!(frame(b""), vec![0, 0, 0, 0]);
    let long = vec![7u8; 300];
    let f = frame(&long);
    assert_eq!(&f[..4], &[0, 0, 1, 44]);
    assert_eq!(&f[4..], &long[..]);
}

#[test]
fn frame_len_reads_the_header_back() {
    assert_eq!(frame_len([0, 0, 1, 2]), 258);
    assert_eq!(frame_len([1, 0, 0, 0]), 16_777_216);
    assert_eq!(frame_len([255, 255, 255, 255]), u32::MAX);
    let f = frame(&vec![1u8; 70_000]);
    assert_eq!(frame_len([f[0], f[1], f[2], f[3]]), 70_000);
}

#[test]
fn song_ids_are_v5_uuids_of_the_path() {
    let expected = uuid::Uuid::new_v5(&uuid::Uuid::NAMESPACE_URL, b"/music/a.mp3").as_u128();
    assert_eq!(song_id_for_path("/music/a.mp3"), expected);
    assert_eq!(song_id_for_path("/music/a.mp3"), song_id_for_path("/music/a.mp3"));
    assert_ne!(song_id_for_path("/music/a.mp3"), song_id_for_path("/music/b.mp3"));
    let expected = uuid::Uuid::new_v5(&uuid::Uuid::NAMESPACE_URL, "Röck".as_bytes()).as_u128();
    assert_eq!(playlist_id_for_title("Röck"), expected);
}

#[test]
fn to_io_keeps_the_message() {
    let e = to_io("database is locked".to_string());
    assert_eq!(e.kind, IoErrorKind::Other);
    assert_eq!(e.payload, "database is locked");
    let inner = std::fmt::Error;
    let e = to_io(inner);
    assert_eq!(e.kind, IoErrorKind::Other);
    assert_eq!(e.payload, std::fmt::Error);
}
