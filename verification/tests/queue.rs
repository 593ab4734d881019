use aurora::protocol::{GetReturn, SongMeta};
use aurora::queue::PlayQueue;
use std::collections::VecDeque;

fn song(id: u128, title: &str) -> SongMeta {
    SongMeta {
        id,
        title: title.to_string(),
        artists: vec!["Artist".to_string()],
        duration_ms: 180_000,
        path: format!("/music/{}.mp3", title),
        art_path: None,
    }
}

fn queue_of(ids: &[u128]) -> PlayQueue {
    let mut q = PlayQueue::new();
    for &id in ids {
        q.queue.push_back(song(id, &format!("song{}", id)));
    }
    q
}

fn ids(q: &PlayQueue) -> Vec<u128> {
    q.queue.iter().map(|m| m.id).collect()
}

fn current(q: &PlayQueue) -> Option<u128> {
    q.current_song.as_ref().map(|m| m.id)
}

#[test]
fn new_queue_is_empty() {
    let q = PlayQueue::new();
    assert!(q.queue.is_empty());
    assert!(q.current_song.is_none());
    assert!(!q.shuffle);
    assert_eq!(q.repeat, 0);
}

#[test]
fn next_on_empty_queue_reports_empty() {
    let mut q = PlayQueue::new();
    assert_eq!(q.next(1), GetReturn::QueueEmpty);
    assert!(q.current_song.is_none());
    assert_eq!(q.prev(1, Some(0)), GetReturn::QueueEmpty);
}

#[test]
fn next_turns_the_queue_left() {
    let mut q = queue_of(&[1, 2, 3]);
    assert_eq!(q.next(1), GetReturn::Done);
    assert_eq!(ids(&q), vec![2, 3, 1]);
    assert_eq!(current(&q), Some(2));
}

#[test]
fn next_wraps_around_the_ring() {
    let mut q = queue_of(&[1, 2, 3]);
    q.next(4);
    assert_eq!(ids(&q), vec![2, 3, 1]);
    assert_eq!(current(&q), Some(2));
    q.next(0);
    assert_eq!(ids(&q), vec![2, 3, 1]);
}

#[test]
fn prev_undoes_next() {
    let mut q = queue_of(&[1, 2, 3, 4, 5]);
    q.next(3);
    assert_eq!(ids(&q), vec![4, 5, 1, 2, 3]);
    q.prev(3, None);
    assert_eq!(ids(&q), vec![1, 2, 3, 4, 5]);
    assert_eq!(current(&q), Some(1));
}

#[test]
fn next_undoes_prev() {
    let mut q = queue_of(&[1, 2, 3, 4]);
    q.prev(2, Some(90_000));
    assert_eq!(ids(&q), vec![3, 4, 1, 2]);
    q.next(2);
    assert_eq!(ids(&q), vec![1, 2, 3, 4]);
}

#[test]
fn prev_by_one_goes_back_only_near_the_start_of_a_song() {
    let mut q = queue_of(&[1, 2, 3]);
    q.prev(1, Some(500));
    assert_eq!(ids(&q), vec![3, 1, 2]);
    assert_eq!(current(&q), Some(3));

    let mut q = queue_of(&[1, 2, 3]);
    q.prev(1, Some(1000));
    assert_eq!(ids(&q), vec![1, 2, 3]);
    assert_eq!(current(&q), Some(1));

    let mut q = queue_of(&[1, 2, 3]);
    q.prev(0, None);
    assert_eq!(ids(&q), vec![1, 2, 3]);
}

#[test]
fn repeat_one_keeps_the_queue() {
    let mut q = queue_of(&[1, 2, 3]);
    q.repeat = 1;
    assert_eq!(q.next(2), GetReturn::Done);
    assert_eq!(ids(&q), vec![1, 2, 3]);
    assert_eq!(current(&q), Some(1));
}

#[test]
fn repeat_all_plays_on() {
    let mut q = queue_of(&[1, 2, 3]);
    q.repeat = 2;
    q.next(1);
    assert_eq!(ids(&q), vec![2, 3, 1]);
}

#[test]
fn shuffle_step_with_a_given_pick() {
    let mut q = queue_of(&[1, 2, 3, 4]);
    q.shuffle = true;
    assert_eq!(q.next_with_pick(1, 2), GetReturn::Done);
    assert_eq!(ids(&q), vec![4, 3, 2, 1]);
    assert_eq!(current(&q), Some(4));
}

#[test]
fn shuffle_sends_the_current_song_to_the_back() {
    for _ in 0..20 {
        let mut q = queue_of(&[1, 2, 3, 4, 5]);
        q.shuffle = true;
        q.next(1);
        let now = ids(&q);
        assert_eq!(now.len(), 5);
        assert_eq!(now[4], 1);
        assert_ne!(now[0], 1);
        let mut sorted = now.clone();
        sorted.sort();
        assert_eq!(sorted, vec![1, 2, 3, 4, 5]);
        assert_eq!(current(&q), Some(now[0]));
    }
}

#[test]
fn shuffle_with_one_song_plays_it_again() {
    let mut q = queue_of(&[7]);
    q.shuffle = true;
    q.next(1);
    assert_eq!(ids(&q), vec![7]);
    assert_eq!(current(&q), Some(7));
}

#[test]
fn clear_empties_everything() {
    let mut q = queue_of(&[1, 2]);
    q.next(1);
    q.shuffle = true;
    q.clear();
    assert!(q.queue.is_empty());
    assert!(q.current_song.is_none());
    assert!(q.shuffle);
}

#[test]
fn enqueue_starts_only_an_empty_queue() {
    let mut q = PlayQueue::new();
    assert!(q.enqueue(song(1, "a")));
    assert!(!q.enqueue(song(2, "b")));
    assert_eq!(ids(&q), vec![1, 2]);
}

#[test]
fn enqueue_at_front_plays_now() {
    let mut q = queue_of(&[1, 2, 3]);
    assert_eq!(q.enqueue_at(song(9, "nine"), Some(0)), 1);
    assert_eq!(ids(&q), vec![9]);
    assert_eq!(current(&q), Some(9));
}

#[test]
fn enqueue_at_one_plays_next() {
    let mut q = queue_of(&[1, 2, 3]);
    assert_eq!(q.enqueue_at(song(9, "nine"), Some(1)), 0);
    assert_eq!(ids(&q), vec![1, 9, 2, 3]);
    assert_eq!(current(&q), None);

    let mut q = PlayQueue::new();
    assert_eq!(q.enqueue_at(song(9, "nine"), Some(1)), 2);
    assert_eq!(ids(&q), vec![9]);
    assert_eq!(current(&q), Some(9));
}

#[test]
fn enqueue_at_other_positions() {
    let mut q = queue_of(&[1, 2, 3]);
    assert_eq!(q.enqueue_at(song(9, "nine"), Some(2)), 0);
    assert_eq!(ids(&q), vec![1, 2, 9, 3]);
    assert_eq!(q.enqueue_at(song(8, "eight"), Some(40)), 0);
    assert_eq!(ids(&q), vec![1, 2, 9, 3, 8]);
    assert_eq!(q.enqueue_at(song(7, "seven"), None), 0);
    assert_eq!(ids(&q), vec![1, 2, 9, 3, 8, 7]);

    let mut q = PlayQueue::new();
    assert_eq!(q.enqueue_at(song(5, "five"), Some(3)), 1);
    assert_eq!(ids(&q), vec![5]);
    assert_eq!(current(&q), Some(5));
    let mut q = PlayQueue::new();
    assert_eq!(q.enqueue_at(song(5, "five"), None), 1);
    assert_eq!(current(&q), Some(5));
}

#[test]
fn move_song_reorders() {
    let mut q = queue_of(&[1, 2, 3, 4]);
    assert!(q.move_song(0, 2));
    assert_eq!(ids(&q), vec![2, 3, 1, 4]);
    assert!(q.move_song(3, 0));
    assert_eq!(ids(&q), vec![4, 2, 3, 1]);
    assert!(!q.move_song(1, 1));
    assert!(!q.move_song(4, 0));
    assert!(!q.move_song(0, 4));
    assert_eq!(ids(&q), vec![4, 2, 3, 1]);
}

#[test]
fn remove_at_and_remove_song() {
    let mut q = queue_of(&[1, 2, 3, 2]);
    assert!(q.remove_at(0));
    assert_eq!(ids(&q), vec![2, 3, 2]);
    assert!(!q.remove_at(3));
    q.remove_song(2);
    assert_eq!(ids(&q), vec![3]);
    q.remove_song(42);
    assert_eq!(ids(&q), vec![3]);
}

#[test]
fn replace_sets_queue_and_current() {
    let mut q = queue_of(&[1, 2]);
    q.replace(vec![song(5, "five"), song(6, "six")]);
    assert_eq!(ids(&q), vec![5, 6]);
    assert_eq!(current(&q), Some(5));
}

#[test]
fn queue_field_is_a_deque() {
    let q = queue_of(&[1]);
    let d: &VecDeque<SongMeta> = &q.queue;
    assert_eq!(d.len(), 1);
}
