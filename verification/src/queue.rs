//! The play queue: its front is the song that plays, and `next` and `prev`
//! turn it like a ring.

use rand::Rng;
use std::collections::VecDeque;
use vstd::prelude::*;

use crate::protocol::{GetReturn, SongMeta, SongView};

verus! {

/// `s` turned left by `k` places: the first `k` items move to the back.
pub open spec fn rotate_left<A>(s: Seq<A>, k: int) -> Seq<A> {
    s.skip(k) + s.take(k)
}

/// `s` turned right by `k` places: the last `k` items move to the front.
pub open spec fn rotate_right<A>(s: Seq<A>, k: int) -> Seq<A> {
    s.skip(s.len() - k) + s.take(s.len() - k)
}

/// `s` with the items at `i` and `j` exchanged.
pub open spec fn swapped<A>(s: Seq<A>, i: int, j: int) -> Seq<A> {
    s.update(i, s[j]).update(j, s[i])
}

/// The queue after a shuffled advance that picked `pick`: the front song goes
/// to the back, then the song at `pick` comes to the front.
pub open spec fn shuffle_step<A>(s: Seq<A>, pick: int) -> Seq<A> {
    swapped(rotate_left(s, 1), 0, pick)
}

/// The queue after moving the item at `from` to position `to`.
pub open spec fn moved<A>(s: Seq<A>, from: int, to: int) -> Seq<A> {
    s.remove(from).insert(to, s[from])
}

/// The queue without the songs whose identifier is `id`.
pub open spec fn without_id(s: Seq<SongMeta>, id: u128) -> Seq<SongMeta> {
    s.filter(|m: SongMeta| m.id != id)
}

/// The view of an optional song.
pub open spec fn opt_view(o: Option<SongMeta>) -> Option<SongView> {
    match o {
        Some(m) => Some(m@),
        None => None,
    }
}

/// One more step taken modulo `m`.
pub proof fn lemma_mod_succ(x: int, m: int)
    requires
        x >= 0,
        m > 0,
    ensures
        (x % m + 1) % m == (x + 1) % m,
        0 <= x % m < m,
{
    vstd::arithmetic::div_mod::lemma_add_mod_noop(x, 1, m);
    vstd::arithmetic::div_mod::lemma_add_mod_noop(x % m, 1, m);
    vstd::arithmetic::div_mod::lemma_mod_twice(x, m);
    vstd::arithmetic::div_mod::lemma_mod_pos_bound(x, m);
}

/// Turning left by one more place.
pub proof fn lemma_rotate_left_step<A>(s: Seq<A>, a: int)
    requires
        0 <= a < s.len(),
    ensures
        rotate_left(s, a).drop_first().push(rotate_left(s, a)[0]) == rotate_left(
            s,
            (a + 1) % (s.len() as int),
        ),
{
    let r = rotate_left(s, a);
    if a + 1 < s.len() {
        vstd::arithmetic::div_mod::lemma_small_mod((a + 1) as nat, s.len());
        assert(r.drop_first().push(r[0]) =~= rotate_left(s, a + 1));
    } else {
        vstd::arithmetic::div_mod::lemma_mod_self_0(s.len() as int);
        assert(r.drop_first().push(r[0]) =~= rotate_left(s, 0));
    }
}

/// Turning right by one more place.
pub proof fn lemma_rotate_right_step<A>(s: Seq<A>, a: int)
    requires
        0 <= a < s.len(),
    ensures
        seq![rotate_right(s, a).last()] + rotate_right(s, a).drop_last() == rotate_right(
            s,
            (a + 1) % (s.len() as int),
        ),
{
    let r = rotate_right(s, a);
    if a + 1 < s.len() {
        vstd::arithmetic::div_mod::lemma_small_mod((a + 1) as nat, s.len());
        assert(seq![r.last()] + r.drop_last() =~= rotate_right(s, a + 1));
    } else {
        vstd::arithmetic::div_mod::lemma_mod_self_0(s.len() as int);
        assert(seq![r.last()] + r.drop_last() =~= rotate_right(s, 0));
    }
}

/// Turning keeps the items.
pub proof fn lemma_rotate_left_multiset<A>(s: Seq<A>, k: int)
    requires
        0 <= k <= s.len(),
    ensures
        rotate_left(s, k).to_multiset() == s.to_multiset(),
        rotate_left(s, k).len() == s.len(),
{
    vstd::seq_lib::lemma_multiset_commutative(s.skip(k), s.take(k));
    vstd::seq_lib::lemma_multiset_commutative(s.take(k), s.skip(k));
    assert(s.take(k) + s.skip(k) =~= s);
}

/// Turning right keeps the items.
pub proof fn lemma_rotate_right_multiset<A>(s: Seq<A>, k: int)
    requires
        0 <= k <= s.len(),
    ensures
        rotate_right(s, k).to_multiset() == s.to_multiset(),
        rotate_right(s, k).len() == s.len(),
{
    lemma_rotate_left_multiset(s, s.len() - k);
}

/// Exchanging two items keeps the items.
pub proof fn lemma_swapped_multiset<A>(s: Seq<A>, i: int, j: int)
    requires
        0 <= i < s.len(),
        0 <= j < s.len(),
    ensures
        swapped(s, i, j).to_multiset() == s.to_multiset(),
        swapped(s, i, j).len() == s.len(),
{
    broadcast use vstd::seq_lib::group_to_multiset_ensures;

    let t = s.update(i, s[j]);
    assert(t.to_multiset() == s.to_multiset().remove(s[i]).insert(s[j]));
    assert(t.update(j, s[i]).to_multiset() == t.to_multiset().remove(t[j]).insert(s[i]));
    if i == j {
        assert(swapped(s, i, j) =~= s);
    } else {
        assert(t[j] == s[j]);
        assert(s.to_multiset().remove(s[i]).insert(s[j]).remove(s[j]).insert(s[i])
            =~= s.to_multiset());
    }
}

/// Moving an item keeps the items.
pub proof fn lemma_moved_multiset<A>(s: Seq<A>, from: int, to: int)
    requires
        0 <= from < s.len(),
        0 <= to < s.len(),
    ensures
        moved(s, from, to).to_multiset() == s.to_multiset(),
        moved(s, from, to).len() == s.len(),
{
    broadcast use vstd::seq_lib::group_to_multiset_ensures;

    assert(s.remove(from).to_multiset() == s.to_multiset().remove(s[from]));
    assert(s.remove(from).insert(to, s[from]).to_multiset() == s.remove(from).to_multiset().insert(
        s[from],
    ));
    assert(s.to_multiset().remove(s[from]).insert(s[from]) =~= s.to_multiset());
}

/// Picks a place below `bound` at random with `rand::thread_rng().gen_range`.
/// Trusted: the result lies in `0..bound` (`gen_range` panics on an empty
/// range, which `requires` rules out). Which place comes out is chance.
#[verifier::external_body]
fn random_below(bound: usize) -> (res: usize)
    requires
        bound > 0,
    ensures
        res < bound,
{
    rand::thread_rng().gen_range(0..bound)
}

/// The play state of the daemon: the queue, the song that plays, and the
/// shuffle and repeat modes.
pub struct PlayQueue {
    pub current_song: Option<SongMeta>,
    pub queue: VecDeque<SongMeta>,
    pub shuffle: bool,
    /// `1` repeats the current song; other values play on.
    pub repeat: u8,
}

impl PlayQueue {
    /// An empty queue with nothing playing, shuffle off and repeat off.
    pub fn new() -> (res: PlayQueue)
        ensures
            res.current_song is None,
            res.queue@ == Seq::<SongMeta>::empty(),
            !res.shuffle,
            res.repeat == 0,
    {
        PlayQueue { current_song: None, queue: VecDeque::new(), shuffle: false, repeat: 0 }
    }

    /// Makes the front of the queue the current song.
    fn choose_front(&mut self)
        requires
            old(self).queue@.len() > 0,
        ensures
            final(self).queue@ == old(self).queue@,
            opt_view(final(self).current_song) == Some(old(self).queue@[0]@),
            final(self).shuffle == old(self).shuffle,
            final(self).repeat == old(self).repeat,
    {
        let front = self.queue[0].duplicate();
        self.current_song = Some(front);
    }

    /// Turns the queue right `n` times.
    fn turn_right(&mut self, n: usize)
        requires
            old(self).queue@.len() > 0,
        ensures
            final(self).queue@ == rotate_right(
                old(self).queue@,
                (n as int) % (old(self).queue@.len() as int),
            ),
            final(self).current_song == old(self).current_song,
            final(self).shuffle == old(self).shuffle,
            final(self).repeat == old(self).repeat,
    {
        let ghost s = self.queue@;
        let ghost len = s.len() as int;
        assert(rotate_right(s, 0) =~= s);
        let mut i: usize = 0;
        while i < n
            invariant
                i <= n,
                len == s.len(),
                len > 0,
                self.queue@ == rotate_right(s, (i as int) % len),
                self.current_song == old(self).current_song,
                self.shuffle == old(self).shuffle,
                self.repeat == old(self).repeat,
            decreases n - i,
        {
            proof {
                lemma_mod_succ(i as int, len);
                lemma_rotate_right_step(s, (i as int) % len);
            }
            let song = self.queue.pop_back().unwrap();
            self.queue.push_front(song);
            i = i + 1;
        }
    }

    /// Exchanges the front song with the song at `j`.
    fn swap_front(&mut self, j: usize)
        requires
            j < old(self).queue@.len(),
        ensures
            final(self).queue@ == swapped(old(self).queue@, 0, j as int),
            final(self).current_song == old(self).current_song,
            final(self).shuffle == old(self).shuffle,
            final(self).repeat == old(self).repeat,
    {
        let ghost s = self.queue@;
        if j == 0 {
            assert(swapped(s, 0, 0) =~= s);
        } else {
            let x = self.queue.remove(j).unwrap();
            let y = self.queue.remove(0).unwrap();
            self.queue.insert(0, x);
            self.queue.insert(j, y);
            assert(self.queue@ =~= swapped(s, 0, j as int));
        }
    }

    /// Turns the queue left `n` times.
    fn turn_left(&mut self, n: usize)
        requires
            old(self).queue@.len() > 0,
        ensures
            final(self).queue@ == rotate_left(
                old(self).queue@,
                (n as int) % (old(self).queue@.len() as int),
            ),
            final(self).current_song == old(self).current_song,
            final(self).shuffle == old(self).shuffle,
            final(self).repeat == old(self).repeat,
    {
        let ghost s = self.queue@;
        let ghost len = s.len() as int;
        assert(rotate_left(s, 0) =~= s);
        let mut i: usize = 0;
        while i < n
            invariant
                i <= n,
                len == s.len(),
                len > 0,
                self.queue@ == rotate_left(s, (i as int) % len),
                self.current_song == old(self).current_song,
                self.shuffle == old(self).shuffle,
                self.repeat == old(self).repeat,
            decreases n - i,
        {
            proof {
                lemma_mod_succ(i as int, len);
                lemma_rotate_left_step(s, (i as int) % len);
            }
            let song = self.queue.pop_front().unwrap();
            self.queue.push_back(song);
            i = i + 1;
        }
    }

    /// Moves on by `n` songs, or by a shuffled pick, and makes the new front
    /// the current song. With repeat-one the queue stays as it is. With
    /// shuffle on and more than one song, the front song goes to the back and
    /// the song at `pick` comes to the front. Otherwise the queue turns left
    /// `n` times.
    pub fn next_with_pick(&mut self, n: usize, pick: usize) -> (res: GetReturn)
        requires
            old(self).queue@.len() > 1 && old(self).repeat != 1 && old(self).shuffle ==> pick
                < old(self).queue@.len() - 1,
        ensures
            final(self).shuffle == old(self).shuffle,
            final(self).repeat == old(self).repeat,
            final(self).queue@.to_multiset() == old(self).queue@.to_multiset(),
            old(self).queue@.len() == 0 ==> {
                &&& res == GetReturn::QueueEmpty
                &&& final(self).queue@ == old(self).queue@
                &&& final(self).current_song == old(self).current_song
            },
            old(self).queue@.len() > 0 ==> {
                &&& res == GetReturn::Done
                &&& opt_view(final(self).current_song) == Some(final(self).queue@[0]@)
            },
            old(self).queue@.len() > 0 && old(self).repeat == 1 ==> final(self).queue@ == old(self).queue@,
            old(self).queue@.len() > 1 && old(self).repeat != 1 && old(self).shuffle ==> final(self).queue@ == shuffle_step(old(self).queue@, pick as int),
            old(self).queue@.len() > 0 && old(self).repeat != 1 && !(old(self).shuffle && old(self).queue@.len() > 1) ==> final(self).queue@ == rotate_left(
                old(self).queue@,
                (n as int) % (old(self).queue@.len() as int),
            ),
    {
        let ghost s = self.queue@;
        if self.queue.len() == 0 {
            return GetReturn::QueueEmpty;
        }
        if self.repeat == 1 {
            self.choose_front();
            return GetReturn::Done;
        }
        if self.shuffle && self.queue.len() > 1 {
            self.turn_left(1);
            proof {
                vstd::arithmetic::div_mod::lemma_small_mod(1, s.len());
                lemma_rotate_left_multiset(s, 1);
                lemma_swapped_multiset(rotate_left(s, 1), 0, pick as int);
            }
            self.swap_front(pick);
            self.choose_front();
            return GetReturn::Done;
        }
        self.turn_left(n);
        proof {
            vstd::arithmetic::div_mod::lemma_mod_pos_bound(n as int, s.len() as int);
            lemma_rotate_left_multiset(s, (n as int) % (s.len() as int));
        }
        self.choose_front();
        GetReturn::Done
    }

    /// Moves on as `next_with_pick` does, with the shuffled pick drawn at
    /// random among all songs but the one just sent to the back.
    pub fn next(&mut self, n: usize) -> (res: GetReturn)
        ensures
            final(self).shuffle == old(self).shuffle,
            final(self).repeat == old(self).repeat,
            final(self).queue@.to_multiset() == old(self).queue@.to_multiset(),
            old(self).queue@.len() == 0 ==> {
                &&& res == GetReturn::QueueEmpty
                &&& final(self).queue@ == old(self).queue@
                &&& final(self).current_song == old(self).current_song
            },
            old(self).queue@.len() > 0 ==> {
                &&& res == GetReturn::Done
                &&& opt_view(final(self).current_song) == Some(final(self).queue@[0]@)
            },
            old(self).queue@.len() > 0 && old(self).repeat == 1 ==> final(self).queue@ == old(self).queue@,
            old(self).queue@.len() > 1 && old(self).repeat != 1 && old(self).shuffle
                ==> exists|pick: int|
                0 <= pick < old(self).queue@.len() - 1
                    && final(self).queue@ == #[trigger] shuffle_step(old(self).queue@, pick),
            old(self).queue@.len() > 0 && old(self).repeat != 1 && !(old(self).shuffle && old(self).queue@.len() > 1) ==> final(self).queue@ == rotate_left(
                old(self).queue@,
                (n as int) % (old(self).queue@.len() as int),
            ),
    {
        let pick = if self.repeat != 1 && self.shuffle && self.queue.len() > 1 {
            random_below(self.queue.len() - 1)
        } else {
            0
        };
        self.next_with_pick(n, pick)
    }

    /// Goes back: with `n` above one the queue turns right `n` times; with `n`
    /// at most one it turns right once if the current song has played less
    /// than a second (`position_ms`, when audio is loaded). Then the front
    /// becomes the current song.
    pub fn prev(&mut self, n: usize, position_ms: Option<u64>) -> (res: GetReturn)
        ensures
            final(self).shuffle == old(self).shuffle,
            final(self).repeat == old(self).repeat,
            final(self).queue@.to_multiset() == old(self).queue@.to_multiset(),
            old(self).queue@.len() == 0 ==> {
                &&& res == GetReturn::QueueEmpty
                &&& final(self).queue@ == old(self).queue@
                &&& final(self).current_song == old(self).current_song
            },
            old(self).queue@.len() > 0 ==> {
                &&& res == GetReturn::Done
                &&& final(self).queue@ == rotate_right(
                    old(self).queue@,
                    prev_steps(n, position_ms) % (old(self).queue@.len() as int),
                )
                &&& opt_view(final(self).current_song) == Some(final(self).queue@[0]@)
            },
    {
        let ghost s = self.queue@;
        if self.queue.len() == 0 {
            return GetReturn::QueueEmpty;
        }
        let steps: usize = if n <= 1 {
            match position_ms {
                Some(p) => if p < 1000 { 1 } else { 0 },
                None => 0,
            }
        } else {
            n
        };
        self.turn_right(steps);
        proof {
            vstd::arithmetic::div_mod::lemma_mod_pos_bound(steps as int, s.len() as int);
            lemma_rotate_right_multiset(s, (steps as int) % (s.len() as int));
        }
        self.choose_front();
        GetReturn::Done
    }

    /// Empties the queue and stops naming a current song.
    pub fn clear(&mut self)
        ensures
            final(self).queue@ == Seq::<SongMeta>::empty(),
            final(self).current_song is None,
            final(self).shuffle == old(self).shuffle,
            final(self).repeat == old(self).repeat,
    {
        self.queue.clear();
        self.current_song = None;
    }

    /// Appends a song. Returns whether the queue was empty before, in which
    /// case playback is to start.
    pub fn enqueue(&mut self, song: SongMeta) -> (should_start: bool)
        ensures
            final(self).queue@ == old(self).queue@.push(song),
            should_start == (old(self).queue@.len() == 0),
            final(self).current_song == old(self).current_song,
            final(self).shuffle == old(self).shuffle,
            final(self).repeat == old(self).repeat,
    {
        let should_start = self.queue.len() == 0;
        self.queue.push_back(song);
        should_start
    }

    /// Puts a song into the queue. `None` appends it. `Some(0)` plays it now:
    /// the queue becomes that song alone. `Some(1)` plays it next: it goes
    /// right after the front song (or alone into an empty queue). A larger
    /// position inserts it there, or at the end if the queue is shorter.
    /// When the song lands in an empty queue, or on `Some(0)`, it becomes the
    /// current song. Returns how many times playback is to be (re)started.
    pub fn enqueue_at(&mut self, song: SongMeta, position: Option<usize>) -> (starts: u8)
        ensures
            final(self).queue@ == placed(old(self).queue@, song, position),
            starts == start_count(old(self).queue@.len(), position),
            starts > 0 ==> opt_view(final(self).current_song) == Some(song@),
            starts == 0 ==> final(self).current_song == old(self).current_song,
            final(self).shuffle == old(self).shuffle,
            final(self).repeat == old(self).repeat,
    {
        let ghost s = self.queue@;
        let was_empty = self.queue.len() == 0;
        let copy = song.duplicate();
        let mut starts: u8 = 0;
        let is_front = match position {
            Some(p) => p == 0,
            None => false,
        };
        match position {
            Some(pos) => {
                if pos == 0 {
                    self.queue.clear();
                    self.queue.push_back(song);
                    self.current_song = Some(copy.duplicate());
                    starts = 1;
                } else if pos == 1 {
                    if self.queue.len() > 0 {
                        let current = self.queue.pop_front().unwrap();
                        self.queue.push_front(song);
                        self.queue.push_front(current);
                        assert(self.queue@ =~= s.insert(1, song));
                    } else {
                        self.queue.push_back(song);
                        self.current_song = Some(copy.duplicate());
                        starts = 1;
                    }
                } else {
                    let insert_pos = if pos < self.queue.len() {
                        pos
                    } else {
                        self.queue.len()
                    };
                    self.queue.insert(insert_pos, song);
                    assert(self.queue@ =~= placed(s, song, position));
                }
            },
            None => {
                self.queue.push_back(song);
            },
        }
        if was_empty && !is_front {
            self.current_song = Some(copy.duplicate());
            starts = starts + 1;
        }
        starts
    }

    /// Moves the song at `from` to position `to`. Nothing changes when either
    /// lies outside the queue or they are equal. Returns whether it moved.
    pub fn move_song(&mut self, from: usize, to: usize) -> (changed: bool)
        ensures
            changed == (from < old(self).queue@.len() && to < old(self).queue@.len() && from
                != to),
            changed ==> final(self).queue@ == moved(old(self).queue@, from as int, to as int),
            !changed ==> final(self).queue@ == old(self).queue@,
            final(self).queue@.to_multiset() == old(self).queue@.to_multiset(),
            final(self).current_song == old(self).current_song,
            final(self).shuffle == old(self).shuffle,
            final(self).repeat == old(self).repeat,
    {
        let len = self.queue.len();
        if from >= len || to >= len || from == to {
            return false;
        }
        proof {
            lemma_moved_multiset(self.queue@, from as int, to as int);
        }
        let item = self.queue.remove(from).unwrap();
        self.queue.insert(to, item);
        true
    }

    /// Removes the song at `index`, if there is one. Returns whether it did.
    pub fn remove_at(&mut self, index: usize) -> (removed: bool)
        ensures
            removed == (index < old(self).queue@.len()),
            removed ==> final(self).queue@ == old(self).queue@.remove(index as int),
            !removed ==> final(self).queue@ == old(self).queue@,
            final(self).current_song == old(self).current_song,
            final(self).shuffle == old(self).shuffle,
            final(self).repeat == old(self).repeat,
    {
        if index < self.queue.len() {
            self.queue.remove(index);
            true
        } else {
            false
        }
    }

    /// Removes every song with identifier `id`, keeping the order of the
    /// others.
    pub fn remove_song(&mut self, id: u128)
        ensures
            final(self).queue@ == without_id(old(self).queue@, id),
            final(self).current_song == old(self).current_song,
            final(self).shuffle == old(self).shuffle,
            final(self).repeat == old(self).repeat,
    {
        let ghost s = self.queue@;
        let len = self.queue.len();
        let mut i: usize = 0;
        assert(s.skip(0) =~= s);
        assert(s.take(0).filter(|m: SongMeta| m.id != id) =~= Seq::<SongMeta>::empty());
        while i < len
            invariant
                i <= len,
                len == s.len(),
                self.queue@ == s.skip(i as int) + s.take(i as int).filter(
                    |m: SongMeta| m.id != id,
                ),
                self.current_song == old(self).current_song,
                self.shuffle == old(self).shuffle,
                self.repeat == old(self).repeat,
            decreases len - i,
        {
            let ghost before = self.queue@;
            let song = self.queue.pop_front().unwrap();
            proof {
                assert(song == s[i as int]);
                assert(s.take(i as int + 1) =~= s.take(i as int).push(s[i as int]));
                assert(s.skip(i as int).drop_first() =~= s.skip(i as int + 1));
                s.take(i as int).lemma_filter_push(s[i as int], |m: SongMeta| m.id != id);
            }
            if song.id != id {
                self.queue.push_back(song);
            }
            i = i + 1;
            assert(self.queue@ =~= s.skip(i as int) + s.take(i as int).filter(
                |m: SongMeta| m.id != id,
            ));
        }
        assert(s.take(len as int) =~= s);
    }

    /// Replaces the queue with `songs` and makes the first of them the
    /// current song.
    pub fn replace(&mut self, songs: Vec<SongMeta>)
        requires
            songs@.len() > 0,
        ensures
            final(self).queue@ == songs@,
            opt_view(final(self).current_song) == Some(songs@[0]@),
            final(self).shuffle == old(self).shuffle,
            final(self).repeat == old(self).repeat,
    {
        let ghost v = songs@;
        let mut q: VecDeque<SongMeta> = VecDeque::new();
        let mut rest = songs;
        while rest.len() > 0
            invariant
                rest@ + q@ == v,
            decreases rest.len(),
        {
            let ghost before = rest@;
            let song = rest.pop().unwrap();
            q.push_front(song);
            assert(rest@ + q@ =~= v) by {
                assert(before =~= before.drop_last().push(before.last()));
            }
        }
        assert(q@ =~= v);
        self.queue = q;
        self.choose_front();
    }
}

/// Where a song lands: see [`PlayQueue::enqueue_at`].
pub open spec fn placed(s: Seq<SongMeta>, song: SongMeta, position: Option<usize>) -> Seq<SongMeta> {
    match position {
        None => s.push(song),
        Some(p) => if p == 0 {
            seq![song]
        } else if p == 1 {
            if s.len() > 0 {
                s.insert(1, song)
            } else {
                seq![song]
            }
        } else if p < s.len() {
            s.insert(p as int, song)
        } else {
            s.push(song)
        },
    }
}

/// How many times `enqueue_at` (re)starts playback.
pub open spec fn start_count(len: nat, position: Option<usize>) -> u8 {
    match position {
        Some(p) => if p == 0 {
            1
        } else if p == 1 && len == 0 {
            2
        } else if len == 0 {
            1
        } else {
            0
        },
        None => if len == 0 {
            1
        } else {
            0
        },
    }
}

/// How many places `prev` turns the queue right.
pub open spec fn prev_steps(n: usize, position_ms: Option<u64>) -> int {
    if n <= 1 {
        match position_ms {
            Some(p) => if p < 1000 { 1 } else { 0 },
            None => 0,
        }
    } else {
        n as int
    }
}

} // verus!
