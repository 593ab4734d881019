//! What holds across the operations of the library: going back undoes going
//! on, and the play history stays a short list of distinct songs, newest
//! first.

use vstd::prelude::*;

use crate::history::{other_than, pushed_history, spells_ids, HistoryRow, MAX_HISTORY};
use crate::mpris::{command_effect, paused_after, MprisCommand, MprisEffect};
use crate::ids::hyphenated;
use crate::library::{index_wf, search_matches, search_result};
use crate::text::{lemma_text_le_antisymmetric, lemma_text_le_reflexive, lemma_text_le_total, lemma_text_le_transitive, text_le};
use crate::protocol::{opt_text, SongView};
use crate::sort::Titled;
use crate::scan::{json_text, last_row_for, row_song, written_for, CacheRow, UpsertRow};
use crate::protocol::{SearchType, SongMeta};
use crate::text::lowercase;
use crate::queue::{placed, prev_steps, rotate_left, rotate_right, without_id};

verus! {

/// Turning a sequence left by `k` places and then right by `k` places gives
/// it back.
pub proof fn lemma_rotate_right_left<A>(s: Seq<A>, k: int)
    requires
        0 <= k <= s.len(),
    ensures
        rotate_right(rotate_left(s, k), k) == s,
{
    let t = rotate_left(s, k);
    assert(t.skip(t.len() - k) =~= s.take(k));
    assert(t.take(t.len() - k) =~= s.skip(k));
    assert(s.take(k) + s.skip(k) =~= s);
}

/// Turning a sequence right by `k` places and then left by `k` places gives
/// it back.
pub proof fn lemma_rotate_left_right<A>(s: Seq<A>, k: int)
    requires
        0 <= k <= s.len(),
    ensures
        rotate_left(rotate_right(s, k), k) == s,
{
    let t = rotate_right(s, k);
    let m = s.len() - k;
    assert(t.skip(k) =~= s.take(m));
    assert(t.take(k) =~= s.skip(m));
    assert(s.take(m) + s.skip(m) =~= s);
}

/// Going back `n` songs undoes going on `n` songs: when `next(n)` turned the
/// queue (no shuffle, no repeat-one) and `prev` then goes back as many
/// places, the queue is as it was.
pub proof fn law_prev_undoes_next(s: Seq<SongMeta>, n: usize, position_ms: Option<u64>)
    requires
        s.len() > 0,
        prev_steps(n, position_ms) == n as int,
    ensures
        rotate_right(
            rotate_left(s, (n as int) % (s.len() as int)),
            prev_steps(n, position_ms) % (s.len() as int),
        ) == s,
{
    let k = (n as int) % (s.len() as int);
    vstd::arithmetic::div_mod::lemma_mod_pos_bound(n as int, s.len() as int);
    lemma_rotate_right_left(s, k);
}

/// Going on `n` songs undoes going back `n` songs: after `prev` turned the
/// queue right by `n` places, `next(n)` (no shuffle, no repeat-one) turns it
/// back.
pub proof fn law_next_undoes_prev(s: Seq<SongMeta>, n: usize, position_ms: Option<u64>)
    requires
        s.len() > 0,
        prev_steps(n, position_ms) == n as int,
    ensures
        rotate_left(
            rotate_right(s, prev_steps(n, position_ms) % (s.len() as int)),
            (n as int) % (s.len() as int),
        ) == s,
{
    let k = (n as int) % (s.len() as int);
    vstd::arithmetic::div_mod::lemma_mod_pos_bound(n as int, s.len() as int);
    lemma_rotate_left_right(s, k);
}

/// Filtering a sequence without repeats leaves one without repeats.
pub proof fn lemma_filter_no_duplicates<A>(s: Seq<A>, p: spec_fn(A) -> bool)
    requires
        s.no_duplicates(),
    ensures
        s.filter(p).no_duplicates(),
    decreases s.len(),
{
    if s.len() > 0 {
        let t = s.drop_last();
        let x = s.last();
        assert(t.push(x) =~= s);
        assert(t.no_duplicates());
        lemma_filter_no_duplicates(t, p);
        t.lemma_filter_push(x, p);
        if p(x) {
            if t.filter(p).contains(x) {
                t.lemma_filter_contains_rev(p, x);
                let j = choose|j: int| 0 <= j < t.len() && t[j] == x;
                assert(s[j] == s[s.len() - 1]);
            }
            let f = t.filter(p);
            assert forall|i: int, j: int|
                0 <= i < f.push(x).len() && 0 <= j < f.push(x).len() && i != j
                    implies f.push(x)[i] != f.push(x)[j] by {
                if i == f.len() {
                    assert(f.contains(f[j]));
                } else if j == f.len() {
                    assert(f.contains(f[i]));
                }
            }
        }
    }
}

/// The song just played is the newest in the history.
pub proof fn law_history_newest_first(h: Seq<u128>, id: u128)
    ensures
        pushed_history(h, id).len() > 0,
        pushed_history(h, id)[0] == id,
{
}

/// Playing the same song twice in a row records it once.
pub proof fn law_history_push_idempotent(h: Seq<u128>, id: u128)
    ensures
        pushed_history(pushed_history(h, id), id) == pushed_history(h, id),
{
}

/// A history of at most `MAX_HISTORY` songs stays that short.
pub proof fn law_history_bounded(h: Seq<u128>, id: u128)
    requires
        h.len() <= MAX_HISTORY,
    ensures
        pushed_history(h, id).len() <= MAX_HISTORY,
{
}

/// A history that names each song once still does after a song is played.
pub proof fn law_history_no_repeats(h: Seq<u128>, id: u128)
    requires
        h.no_duplicates(),
    ensures
        pushed_history(h, id).no_duplicates(),
{
    if !(h.len() > 0 && h[0] == id) {
        let f = h.filter(other_than(id));
        lemma_filter_no_duplicates(h, other_than(id));
        h.filter_lemma(other_than(id));
        let n = seq![id] + f;
        assert forall|i: int, j: int| 0 <= i < n.len() && 0 <= j < n.len() && i != j implies n[i] != n[j] by {
            if i == 0 {
                assert(other_than(id)(f[j - 1]));
            } else if j == 0 {
                assert(other_than(id)(f[i - 1]));
            } else {
                assert(n[i] == f[i - 1] && n[j] == f[j - 1]);
            }
        }
        if n.len() > MAX_HISTORY {
            let m = n.take(MAX_HISTORY as int);
            assert forall|i: int, j: int| 0 <= i < m.len() && 0 <= j < m.len() && i != j implies m[i] != m[j] by {
                assert(m[i] == n[i] && m[j] == n[j]);
            }
        }
    }
}

/// Every song that was in the history and is not the one just played stays
/// in it, in the same order, unless the history was full: the played song
/// then pushes out the oldest.
pub proof fn law_history_keeps_order(h: Seq<u128>, id: u128)
    requires
        !(h.len() > 0 && h[0] == id),
    ensures
        pushed_history(h, id).drop_first() == h.filter(other_than(id)).take(
            pushed_history(h, id).len() - 1,
        ),
{
    let f = h.filter(other_than(id));
    let n = seq![id] + f;
    if n.len() <= MAX_HISTORY {
        assert(n.drop_first() =~= f);
        assert(f.take(f.len() as int) =~= f);
    } else {
        assert(n.take(MAX_HISTORY as int).drop_first() =~= f.take(MAX_HISTORY - 1));
    }
}

/// Enqueueing a song anywhere but at the front keeps every song of the
/// queue and adds the new one: the queue's songs are those before and the
/// new song.
pub proof fn law_enqueue_keeps_songs(s: Seq<SongMeta>, song: SongMeta, position: Option<usize>)
    requires
        position != Some(0usize),
    ensures
        placed(s, song, position).to_multiset() == s.to_multiset().insert(song),
{
    broadcast use vstd::seq_lib::group_to_multiset_ensures;

    match position {
        None => {},
        Some(p) => {
            if p == 1 && s.len() == 0 {
                assert(seq![song] =~= s.push(song));
            } else if p == 1 || p < s.len() {
                let k: int = if p == 1 { 1 } else { p as int };
                assert(s.insert(k, song) =~= s.take(k).push(song) + s.skip(k));
                assert(s =~= s.take(k) + s.skip(k));
                vstd::seq_lib::lemma_multiset_commutative(s.take(k).push(song), s.skip(k));
                vstd::seq_lib::lemma_multiset_commutative(s.take(k), s.skip(k));
            }
        },
    }
}

/// Removing a song from the queue removes every copy of it.
pub proof fn law_remove_song_removes_all(s: Seq<SongMeta>, id: u128)
    ensures
        forall|i: int| 0 <= i < without_id(s, id).len() ==> (#[trigger] without_id(s, id)[i]).id != id,
{
    s.filter_lemma(|m: SongMeta| m.id != id);
}

/// Liking a song that was not liked and then unliking it leaves the liked
/// songs as they were.
pub proof fn law_like_then_unlike(liked: Set<u128>, id: u128)
    requires
        !liked.contains(id),
    ensures
        liked.insert(id).remove(id) == liked,
{
    assert(liked.insert(id).remove(id) =~= liked);
}

/// `Play` leaves playback playing and `Pause` leaves it paused, whatever it
/// was; each toggles only when needed, so repeating one changes nothing.
pub proof fn law_play_pause_settle(was_paused: bool, position_us: Option<i64>)
    ensures
        !paused_after(command_effect(MprisCommand::Play, was_paused, position_us), was_paused),
        paused_after(command_effect(MprisCommand::Pause, was_paused, position_us), was_paused),
        command_effect(MprisCommand::Play, false, position_us) == MprisEffect::Nothing,
        command_effect(MprisCommand::Pause, true, position_us) == MprisEffect::Nothing,
{
}

/// Seeking by an offset goes to the loaded audio's position plus the
/// offset, but never before the start; nothing happens without audio.
pub proof fn law_seek_offset_clamps(offset: i64, position_us: Option<i64>, was_paused: bool)
    ensures
        position_us matches Some(p) ==> command_effect(MprisCommand::SeekOffset(offset), was_paused, position_us)
            == MprisEffect::SeekTo(if p + offset < 0 { 0 } else { (p + offset) as u64 }),
        position_us is None ==> command_effect(MprisCommand::SeekOffset(offset), was_paused, position_us) == MprisEffect::Nothing,
{
}

/// A search depends on its query only through the query's lower-cased
/// form: two queries that lower-case alike have the same answers.
pub proof fn law_search_ignores_case(index: Map<u128, SongMeta>, q1: String, q2: String, res: Seq<SongMeta>)
    requires
        lowercase(q1@) == lowercase(q2@),
    ensures
        search_result(index, SearchType::ByTitle(q1), res) == search_result(index, SearchType::ByTitle(q2), res),
        search_result(index, SearchType::ByArtist(q1), res) == search_result(index, SearchType::ByArtist(q2), res),
{
}

/// A cache row holds what an upsert row wrote.
pub open spec fn stored_as(c: CacheRow, u: UpsertRow) -> bool {
    &&& c.id@ == u.id@
    &&& c.path@ == u.path@
    &&& c.title@ == u.title@
    &&& c.artists_json@ == u.artists_json@
    &&& c.dur_ms == u.dur_ms
    &&& c.mtime == u.mtime
    &&& opt_text(c.art_path) == opt_text(u.art_path)
}

/// A rescan of an unchanged file gives back the song that the previous scan
/// filed: when the row that the scan wrote for a song (as `apply_scan`
/// states it) is the last cache row of the song's path and the file keeps
/// its time, the cache describes the file as written for the song's
/// identifier and artists, and the song that `classify_file` then gives is
/// the song that was filed.
pub proof fn law_rescan_reads_back(cache: Seq<CacheRow>, row: UpsertRow, song: SongView, mtime: u64)
    requires
        last_row_for(cache, song.path) matches Some(r) && stored_as(cache[r], row),
        row.id@ == hyphenated(song.id),
        row.path@ == song.path,
        row.title@ == song.title,
        json_text(song.artists) == Some(row.artists_json@),
        row.dur_ms == song.duration_ms as i64,
        row.mtime == mtime as i64,
        opt_text(row.art_path) == song.art_path,
    ensures
        written_for(cache, song.path, mtime, song.id, song.artists),
        row_song(cache[last_row_for(cache, song.path).unwrap()], song.id, song.artists, song.path) == song,
{
    let d = song.duration_ms;
    assert(((d as i64) as u64) == d) by (bit_vector);
}

/// Saved history reads back unchanged: the rows that `history_rows` makes
/// for a history rank its songs strictly newest first, so reading them by
/// rank, highest first, lists their identifier texts in the history's
/// order, and those texts spell the history (so `ids_from_texts` gives it
/// back).
pub proof fn law_history_reads_back(h: Seq<u128>, rows: Seq<HistoryRow>)
    requires
        rows.len() == h.len(),
        forall|i: int| 0 <= i < rows.len() ==> (#[trigger] rows[i]).song_id@ == hyphenated(h[i]) && rows[i].played_at == i64::MAX - i,
    ensures
        forall|i: int, j: int| 0 <= i < j < rows.len() ==> (#[trigger] rows[i]).played_at > (#[trigger] rows[j]).played_at,
        spells_ids(rows.map_values(|r: HistoryRow| r.song_id@), h),
{
    assert forall|i: int| 0 <= i < h.len() implies rows.map_values(|r: HistoryRow| r.song_id@)[i] == hyphenated(#[trigger] h[i]) by {
        assert(rows[i].song_id@ == hyphenated(h[i]));
    }
}

/// Sequences with the same items keep the same items through a map.
pub proof fn lemma_same_items_map<A, B>(a: Seq<A>, b: Seq<A>, f: spec_fn(A) -> B)
    requires
        a.to_multiset() == b.to_multiset(),
    ensures
        a.map_values(f).to_multiset() == b.map_values(f).to_multiset(),
    decreases a.len(),
{
    broadcast use vstd::seq_lib::group_to_multiset_ensures;

    if a.len() == 0 {
        assert(a.to_multiset().len() == a.len());
        assert(b.to_multiset().len() == b.len());
        assert(b.len() == 0);
        assert(a.map_values(f) =~= Seq::<B>::empty());
        assert(b.map_values(f) =~= Seq::<B>::empty());
    } else {
        let x = a.last();
        let a1 = a.drop_last();
        assert(a =~= a1.push(x));
        assert(a.to_multiset() =~= a1.to_multiset().insert(x));
        assert(a.contains(x)) by {
            assert(a[a.len() - 1] == x);
        }
        assert(b.to_multiset().count(x) > 0);
        assert(b.contains(x));
        let j = choose|j: int| 0 <= j < b.len() && b[j] == x;
        let b1 = b.remove(j);
        assert(b1.to_multiset() =~= b.to_multiset().remove(x));
        assert(a1.to_multiset() =~= a.to_multiset().remove(x));
        lemma_same_items_map(a1, b1, f);
        assert(a.map_values(f) =~= a1.map_values(f).push(f(x)));
        assert(b1.map_values(f) =~= b.map_values(f).remove(j));
        assert(b.map_values(f)[j] == f(x));
        assert(b.map_values(f).remove(j).to_multiset() =~= b.map_values(f).to_multiset().remove(f(x)));
        assert(b.map_values(f).to_multiset().count(f(x)) > 0) by {
            assert(b.map_values(f).contains(f(x)));
        }
        assert(b.map_values(f).to_multiset() =~= b1.map_values(f).to_multiset().insert(f(x)));
    }
}

/// The order of texts as a relation.
pub open spec fn text_order() -> spec_fn(Seq<char>, Seq<char>) -> bool {
    |a: Seq<char>, b: Seq<char>| text_le(a, b)
}

/// Queries that lower-case alike get the same answers: the same songs, each
/// once, and the same sequence of titles (songs that share a title may come
/// in either order).
pub proof fn law_search_answers_agree(index: Map<u128, SongMeta>, q1: SearchType, q2: SearchType, r1: Seq<SongMeta>, r2: Seq<SongMeta>)
    requires
        index_wf(index),
        (q1 is ByTitle) == (q2 is ByTitle),
        lowercase(match q1 { SearchType::ByTitle(x) => x@, SearchType::ByArtist(x) => x@ })
            == lowercase(match q2 { SearchType::ByTitle(x) => x@, SearchType::ByArtist(x) => x@ }),
        search_result(index, q1, r1),
        search_result(index, q2, r2),
    ensures
        r1.map_values(|m: SongMeta| m.id).to_set() == r2.map_values(|m: SongMeta| m.id).to_set(),
        r1.len() == r2.len(),
        r1.map_values(|m: SongMeta| m.title@) == r2.map_values(|m: SongMeta| m.title@),
{
    broadcast use vstd::seq_lib::group_to_multiset_ensures;

    let id_of = |m: SongMeta| m.id;
    let ids1 = r1.map_values(id_of);
    let ids2 = r2.map_values(id_of);
    assert forall|v: SongView| #[trigger] search_matches(v, q1) == search_matches(v, q2) by {}
    assert forall|k: u128| ids1.contains(k) <==> ids2.contains(k) by {
        if ids1.contains(k) {
            let i = choose|i: int| 0 <= i < ids1.len() && ids1[i] == k;
            assert(r1[i].id == k);
            assert(index.contains_key(r1[i].id) && search_matches(r1[i]@, q1));
            assert(r1[i]@ == index[k]@);
            assert(search_matches(index[k]@, q2));
            let j = choose|j: int| 0 <= j < r2.len() && #[trigger] r2[j].id == k;
            assert(ids2[j] == k);
        }
        if ids2.contains(k) {
            let i = choose|i: int| 0 <= i < ids2.len() && ids2[i] == k;
            assert(r2[i].id == k);
            assert(index.contains_key(r2[i].id) && search_matches(r2[i]@, q2));
            assert(r2[i]@ == index[k]@);
            assert(search_matches(index[k]@, q1));
            let j = choose|j: int| 0 <= j < r1.len() && #[trigger] r1[j].id == k;
            assert(ids1[j] == k);
        }
    }
    assert(ids1.to_set() =~= ids2.to_set());
    assert(ids1.no_duplicates()) by {
        assert forall|i: int, j: int| 0 <= i < ids1.len() && 0 <= j < ids1.len() && i != j implies ids1[i] != ids1[j] by {
            if i < j {
                assert((|m: SongMeta| m.id)(r1[i]) != (|m: SongMeta| m.id)(r1[j]));
            } else {
                assert((|m: SongMeta| m.id)(r1[j]) != (|m: SongMeta| m.id)(r1[i]));
            }
        }
    }
    assert(ids2.no_duplicates()) by {
        assert forall|i: int, j: int| 0 <= i < ids2.len() && 0 <= j < ids2.len() && i != j implies ids2[i] != ids2[j] by {
            if i < j {
                assert((|m: SongMeta| m.id)(r2[i]) != (|m: SongMeta| m.id)(r2[j]));
            } else {
                assert((|m: SongMeta| m.id)(r2[j]) != (|m: SongMeta| m.id)(r2[i]));
            }
        }
    }
    ids1.lemma_multiset_has_no_duplicates();
    ids2.lemma_multiset_has_no_duplicates();
    assert forall|k: u128| ids1.to_multiset().count(k) == ids2.to_multiset().count(k) by {
        if ids1.contains(k) {
            assert(ids1.to_multiset().contains(k));
            assert(ids2.to_multiset().contains(k));
        }
    }
    assert(ids1.to_multiset() =~= ids2.to_multiset());
    assert(ids1.to_multiset().len() == ids1.len());
    assert(ids2.to_multiset().len() == ids2.len());
    assert(ids1.len() == ids2.len());

    let title_of = |k: u128| index[k]@.title;
    let t1 = r1.map_values(|m: SongMeta| m.title@);
    let t2 = r2.map_values(|m: SongMeta| m.title@);
    assert(t1 =~= ids1.map_values(title_of)) by {
        assert forall|i: int| 0 <= i < r1.len() implies t1[i] == ids1.map_values(title_of)[i] by {
            assert(r1[i]@ == index[r1[i].id]@);
        }
    }
    assert(t2 =~= ids2.map_values(title_of)) by {
        assert forall|i: int| 0 <= i < r2.len() implies t2[i] == ids2.map_values(title_of)[i] by {
            assert(r2[i]@ == index[r2[i].id]@);
        }
    }
    lemma_same_items_map(ids1, ids2, title_of);

    let leq = text_order();
    assert(vstd::relations::total_ordering(leq)) by {
        assert forall|x: Seq<char>| #[trigger] leq(x, x) by {
            lemma_text_le_reflexive(x);
        }
        assert forall|x: Seq<char>, y: Seq<char>| #[trigger] leq(x, y) && #[trigger] leq(y, x) implies x == y by {
            lemma_text_le_antisymmetric(x, y);
        }
        assert forall|x: Seq<char>, y: Seq<char>, z: Seq<char>| #[trigger] leq(x, y) && #[trigger] leq(y, z) implies leq(x, z) by {
            lemma_text_le_transitive(x, y, z);
        }
        assert forall|x: Seq<char>, y: Seq<char>| #[trigger] leq(x, y) || #[trigger] leq(y, x) by {
            lemma_text_le_total(x, y);
        }
    }
    assert(vstd::relations::sorted_by(t1, leq)) by {
        assert forall|i: int, j: int| 0 <= i < j < t1.len() implies #[trigger] leq(t1[i], t1[j]) by {
            assert(text_le(r1[i].title_text(), r1[j].title_text()));
        }
    }
    assert(vstd::relations::sorted_by(t2, leq)) by {
        assert forall|i: int, j: int| 0 <= i < j < t2.len() implies #[trigger] leq(t2[i], t2[j]) by {
            assert(text_le(r2[i].title_text(), r2[j].title_text()));
        }
    }
    vstd::seq_lib::lemma_sorted_unique(t1, t2, leq);
}

} // verus!
