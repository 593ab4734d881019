use aurora::history::{history_rows, id_set_from_texts, ids_from_texts, push_history, MAX_HISTORY};
use std::collections::VecDeque;

#[test]
fn push_puts_the_song_in_front_once() {
    let mut h: VecDeque<u128> = VecDeque::from(vec![1, 2, 3]);
    push_history(&mut h, 3);
    assert_eq!(h, VecDeque::from(vec![3, 1, 2]));
    push_history(&mut h, 3);
    assert_eq!(h, VecDeque::from(vec![3, 1, 2]));
    push_history(&mut h, 4);
    assert_eq!(h, VecDeque::from(vec![4, 3, 1, 2]));
}

#[test]
fn push_keeps_at_most_thirty() {
    let mut h: VecDeque<u128> = (0..30u128).collect();
    push_history(&mut h, 100);
    assert_eq!(h.len(), MAX_HISTORY);
    assert_eq!(h[0], 100);
    assert_eq!(h[29], 28);
    assert!(!h.contains(&29));
}

#[test]
fn rows_rank_newest_first() {
    let h: VecDeque<u128> = VecDeque::from(vec![7, 8]);
    let rows = history_rows(&h);
    assert_eq!(rows.len(), 2);
    assert_eq!(rows[0].song_id, uuid::Uuid::from_u128(7).to_string());
    assert_eq!(rows[0].played_at, i64::MAX);
    assert_eq!(rows[1].song_id, uuid::Uuid::from_u128(8).to_string());
    assert_eq!(rows[1].played_at, i64::MAX - 1);
}

#[test]
fn saved_history_loads_back() {
    let h: VecDeque<u128> = VecDeque::from(vec![0xdead_beef, 42, u128::MAX]);
    let texts: Vec<String> = history_rows(&h).into_iter().map(|r| r.song_id).collect();
    assert_eq!(ids_from_texts(&texts), h);
}

#[test]
fn unreadable_ids_are_skipped() {
    let texts = vec![
        "not-a-uuid".to_string(),
        uuid::Uuid::from_u128(5).to_string(),
        String::new(),
        uuid::Uuid::from_u128(6).to_string(),
    ];
    assert_eq!(ids_from_texts(&texts), VecDeque::from(vec![5, 6]));
    let set = id_set_from_texts(&texts);
    assert_eq!(set.len(), 2);
    assert!(set.contains(&5) && set.contains(&6));
}
