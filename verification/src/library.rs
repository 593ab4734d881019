//! The song library: an index from identifiers to songs, and what the daemon
//! reads out of it.

use std::collections::{HashMap, HashSet, VecDeque};
use vstd::prelude::*;

use crate::ids::{hyphenated, id_text};
use crate::protocol::{entry_of, songs_view, texts, ErrorReply, SearchType, Song, SongEntry, SongMeta, SongView};
use crate::sort::{sort_by_title, sorted_by_title};
use crate::text::{contains_text, lowercase, text_contains, to_lowercase};

verus! {

/// The library, keyed by song identifier.
pub type SongIndex = HashMap<u128, SongMeta>;

/// The index is well formed: every song is filed under its own identifier.
pub open spec fn index_wf(m: Map<u128, SongMeta>) -> bool {
    forall|k: u128| #[trigger] m.contains_key(k) ==> m[k].id == k
}

/// The message of the error answered for an unknown song.
pub open spec fn no_song_message(id: u128) -> Seq<char> {
    "No such song with id "@ + hyphenated(id)
}

/// The error answered for an unknown song.
pub fn no_such_song(id: u128) -> (res: ErrorReply)
    ensures
        res.err_id == 1,
        res.err_msg@ == no_song_message(id),
{
    let mut msg = String::from_str("No such song with id ");
    let text = id_text(id);
    msg.append(text.as_str());
    ErrorReply { err_id: 1, err_msg: msg }
}

/// A copy of the song filed under `id`, or the unknown-song error.
pub fn lookup(index: &SongIndex, id: u128) -> (res: Result<SongMeta, ErrorReply>)
    ensures
        index@.contains_key(id) ==> (res matches Ok(m) && m@ == index@[id]@),
        !index@.contains_key(id) ==> (res matches Err(e) && e.err_id == 1 && e.err_msg@
            == no_song_message(id)),
{
    match index.get(&id) {
        Some(m) => Ok(m.duplicate()),
        None => Err(no_such_song(id)),
    }
}

/// Whether a song's title contains the query, both lower-cased.
pub open spec fn title_matches(m: SongView, query: Seq<char>) -> bool {
    contains_text(lowercase(m.title), lowercase(query))
}

/// Whether one of a song's artists contains the query, both lower-cased.
pub open spec fn artist_matches(m: SongView, query: Seq<char>) -> bool {
    exists|i: int| 0 <= i < m.artists.len() && contains_text(#[trigger] lowercase(m.artists[i]), lowercase(query))
}

/// Whether any of `artists` contains `q` once lower-cased.
fn any_artist_contains(artists: &Vec<String>, q: &String) -> (res: bool)
    ensures
        res == exists|i: int| 0 <= i < artists@.len() && contains_text(#[trigger] lowercase(artists@[i]@), q@),
{
    let mut i: usize = 0;
    while i < artists.len()
        invariant
            i <= artists@.len(),
            forall|j: int| 0 <= j < i ==> !contains_text(#[trigger] lowercase(artists@[j]@), q@),
        decreases artists@.len() - i,
    {
        let a = to_lowercase(artists[i].as_str());
        if text_contains(a.as_str(), q.as_str()) {
            return true;
        }
        i = i + 1;
    }
    false
}

/// Whether a song matches a search.
pub open spec fn search_matches(m: SongView, search: SearchType) -> bool {
    match search {
        SearchType::ByTitle(q) => title_matches(m, q@),
        SearchType::ByArtist(q) => artist_matches(m, q@),
    }
}

/// The keys of the items of `s` are pairwise distinct.
pub open spec fn distinct_by<T, K>(s: Seq<T>, key: spec_fn(T) -> K) -> bool {
    forall|i: int, j: int| 0 <= i < j < s.len() ==> key(#[trigger] s[i]) != key(#[trigger] s[j])
}

/// The identifiers of a sequence of songs are pairwise distinct.
pub open spec fn distinct_ids(s: Seq<SongMeta>) -> bool {
    distinct_by(s, |m: SongMeta| m.id)
}

/// What a search answers: each song of the index that matches, once, in the
/// order of titles.
pub open spec fn search_result(index: Map<u128, SongMeta>, search: SearchType, res: Seq<SongMeta>) -> bool {
    &&& sorted_by_title(res)
    &&& distinct_ids(res)
    &&& forall|i: int| 0 <= i < res.len() ==> {
        &&& index.contains_key(#[trigger] res[i].id)
        &&& res[i]@ == index[res[i].id]@
        &&& search_matches(res[i]@, search)
    }
    &&& forall|k: u128| #[trigger] index.contains_key(k) && search_matches(index[k]@, search) ==> exists|i: int| 0 <= i < res.len() && #[trigger] res[i].id == k
}

/// An item of one sequence is an item of any sequence with the same items.
proof fn lemma_in_other<A>(a: Seq<A>, b: Seq<A>, x: A)
    requires
        a.to_multiset() == b.to_multiset(),
        b.contains(x),
    ensures
        a.contains(x),
{
    broadcast use vstd::seq_lib::group_to_multiset_ensures;

    assert(b.to_multiset().count(x) > 0);
    assert(a.to_multiset().count(x) > 0);
}

/// A sequence with the same items keeps the properties of its items.
proof fn lemma_same_items<T, K>(a: Seq<T>, b: Seq<T>, key: spec_fn(T) -> K)
    requires
        a.to_multiset() == b.to_multiset(),
        distinct_by(a, key),
    ensures
        distinct_by(b, key),
        forall|i: int| #![trigger b[i]] 0 <= i < b.len() ==> a.contains(b[i]),
        forall|j: int| #![trigger a[j]] 0 <= j < a.len() ==> b.contains(a[j]),
{
    assert forall|i: int| #![trigger b[i]] 0 <= i < b.len() implies a.contains(b[i]) by {
        assert(b.contains(b[i]));
        lemma_in_other(a, b, b[i]);
    }
    assert forall|j: int| #![trigger a[j]] 0 <= j < a.len() implies b.contains(a[j]) by {
        assert(a.contains(a[j]));
        lemma_in_other(b, a, a[j]);
    }
    assert(a.no_duplicates()) by {
        assert forall|i: int, j: int| 0 <= i < a.len() && 0 <= j < a.len() && i != j implies a[i] != a[j] by {
            if i < j {
                assert(key(a[i]) != key(a[j]));
            } else {
                assert(key(a[j]) != key(a[i]));
            }
        }
    }
    a.lemma_multiset_has_no_duplicates();
    assert forall|i: int, j: int| 0 <= i < j < b.len() implies key(#[trigger] b[i]) != key(#[trigger] b[j]) by {
        assert(a.contains(b[i]));
        assert(a.contains(b[j]));
        let ji = choose|x: int| 0 <= x < a.len() && a[x] == b[i];
        let jj = choose|x: int| 0 <= x < a.len() && a[x] == b[j];
        if key(b[i]) == key(b[j]) {
            if ji == jj {
                lemma_count_two(b, i, j);
                assert(a.to_multiset().contains(b[i]));
            } else if ji < jj {
                assert(key(a[ji]) != key(a[jj]));
            } else {
                assert(key(a[jj]) != key(a[ji]));
            }
        }
    }
}

/// An item at two places is counted at least twice.
proof fn lemma_count_two<A>(s: Seq<A>, i: int, j: int)
    requires
        0 <= i < j < s.len(),
        s[i] == s[j],
    ensures
        s.to_multiset().count(s[i]) >= 2,
    decreases s.len(),
{
    broadcast use vstd::seq_lib::group_to_multiset_ensures;

    let x = s[i];
    let t = s.drop_last();
    assert(s =~= t.push(s.last()));
    if j == s.len() - 1 {
        assert(t.contains(x));
        assert(t.to_multiset().count(x) >= 1);
        assert(t.push(s.last()).to_multiset() =~= t.to_multiset().insert(s.last()));
    } else {
        lemma_count_two(t, i, j);
        assert(t.push(s.last()).to_multiset() =~= t.to_multiset().insert(s.last()));
    }
}

/// The songs of the index that match a search, in the order of titles.
pub fn search(index: &SongIndex, query: &SearchType) -> (res: Vec<SongMeta>)
    requires
        index_wf(index@),
    ensures
        search_result(index@, *query, res@),
        (*query matches SearchType::ByTitle(x) && x@.len() == 0) ==> forall|k: u128| #[trigger] index@.contains_key(k)
            ==> exists|i: int| 0 <= i < res@.len() && res@[i].id == k,
{
    let q = match query {
        SearchType::ByTitle(query) => to_lowercase(query.as_str()),
        SearchType::ByArtist(query) => to_lowercase(query.as_str()),
    };
    let by_title = match query {
        SearchType::ByTitle(_) => true,
        SearchType::ByArtist(_) => false,
    };
    let ghost m = index@;
    let ghost mut seen: Seq<u128> = Seq::empty();
    let mut results: Vec<SongMeta> = Vec::new();
    for pair in it: index.iter()
        invariant
            m == index@,
            index_wf(m),
            q@ == lowercase(match *query { SearchType::ByTitle(x) => x@, SearchType::ByArtist(x) => x@ }),
            by_title == (*query is ByTitle),
            it.seq().len() == m.dom().len(),
            it.seq().no_duplicates(),
            forall|i: int| #![trigger it.seq()[i]] 0 <= i < it.seq().len() ==> m.contains_key(*it.seq()[i].0) && m[*it.seq()[i].0] == *it.seq()[i].1,
            forall|k: u128| #[trigger] m.contains_key(k) ==> it.seq().contains((&k, &m[k])),
            seen.len() == it.index(),
            forall|j: int| 0 <= j < it.index() ==> #[trigger] seen[j] == *it.seq()[j].0,
            distinct_ids(results@),
            forall|i: int| 0 <= i < results@.len() ==> {
                &&& m.contains_key(#[trigger] results@[i].id)
                &&& results@[i]@ == m[results@[i].id]@
                &&& search_matches(results@[i]@, *query)
                &&& seen.contains(results@[i].id)
            },
            forall|k: u128| #[trigger] seen.contains(k) && search_matches(m[k]@, *query) ==> exists|i: int| 0 <= i < results@.len() && #[trigger] results@[i].id == k,
            forall|k: u128| #[trigger] m.contains_key(k) ==> seen.contains(k) || exists|j: int| it.index() <= j < it.seq().len() && *it.seq()[j].0 == k,
    {
        let (k, meta) = pair;
        let hit = if by_title {
            let t = to_lowercase(meta.title.as_str());
            text_contains(t.as_str(), q.as_str())
        } else {
            any_artist_contains(&meta.artists, &q)
        };
        proof {
            assert(hit == search_matches(meta@, *query)) by {
                if !by_title {
                    let arts = meta.artists@;
                    assert forall|i: int| 0 <= i < arts.len() implies #[trigger] meta@.artists[i] == arts[i]@ by {}
                    if hit {
                        let i = choose|i: int| 0 <= i < arts.len() && contains_text(#[trigger] lowercase(arts[i]@), q@);
                        assert(meta@.artists[i] == arts[i]@);
                    }
                    if search_matches(meta@, *query) {
                        let i = choose|i: int| 0 <= i < meta@.artists.len() && contains_text(#[trigger] lowercase(meta@.artists[i]), lowercase(match *query { SearchType::ByTitle(x) => x@, SearchType::ByArtist(x) => x@ }));
                        assert(meta@.artists[i] == arts[i]@);
                        assert(contains_text(lowercase(arts[i]@), q@));
                    }
                }
            }
            assert(it.seq()[it.index()] == (k, meta));
            // the walk meets each key once
            assert(!seen.contains(*k)) by {
                if seen.contains(*k) {
                    let j = choose|j: int| 0 <= j < seen.len() && seen[j] == *k;
                    assert(*it.seq()[j].0 == *k);
                    assert(it.seq()[j] == it.seq()[it.index()]);
                }
            }
        }
        let ghost old_results = results@;
        if hit {
            results.push(meta.duplicate());
        }
        proof {
            let old_seen = seen;
            seen = seen.push(*k);
            assert forall|x: u128| old_seen.contains(x) implies #[trigger] seen.contains(x) by {
                let j = choose|j: int| 0 <= j < old_seen.len() && old_seen[j] == x;
                assert(seen[j] == x);
            }
            assert(seen[seen.len() - 1] == *k);
            assert(m[*k] == *meta);
            assert forall|i: int| 0 <= i < results@.len() implies {
                &&& m.contains_key(#[trigger] results@[i].id)
                &&& results@[i]@ == m[results@[i].id]@
                &&& search_matches(results@[i]@, *query)
                &&& seen.contains(results@[i].id)
            } by {
                if hit && i == results@.len() - 1 {
                    assert(results@[i]@ == meta@);
                    assert(results@[i].id == *k);
                } else {
                    assert(old_seen.contains(results@[i].id));
                }
            }
            assert forall|kk: u128| #[trigger] seen.contains(kk) && search_matches(m[kk]@, *query) implies exists|i: int| 0 <= i < results@.len() && #[trigger] results@[i].id == kk by {
                if kk == *k {
                    assert(m[kk] == *meta);
                    assert(hit);
                    assert(results@[results@.len() - 1]@ == meta@);
                    assert(results@[results@.len() - 1].id == kk);
                } else {
                    let j = choose|j: int| 0 <= j < seen.len() && seen[j] == kk;
                    assert(old_seen[j] == kk);
                    assert(old_seen.contains(kk));
                    let i = choose|i: int| 0 <= i < old_results.len() && #[trigger] old_results[i].id == kk;
                    assert(results@[i].id == kk);
                }
            }
            assert forall|kk: u128| #[trigger] m.contains_key(kk) implies seen.contains(kk) || exists|j: int| it.index() + 1 <= j < it.seq().len() && *it.seq()[j].0 == kk by {
                if !old_seen.contains(kk) {
                    let j = choose|j: int| it.index() <= j < it.seq().len() && *it.seq()[j].0 == kk;
                    if j == it.index() {
                        assert(seen[seen.len() - 1] == kk);
                    } else {
                        assert(it.index() + 1 <= j);
                    }
                }
            }
        }
    }
    let sorted = sort_by_title(results);
    proof {
        lemma_same_items(results@, sorted@, |m: SongMeta| m.id);
        if by_title && q@.len() == 0 {
            assert forall|k: u128| #[trigger] m.contains_key(k) implies search_matches(m[k]@, *query) by {
                match *query {
                    SearchType::ByTitle(x) => {
                        let needle = lowercase(x@);
                        let hay = lowercase(m[k]@.title);
                        assert(needle == q@);
                        assert(hay.subrange(0, 0 + needle.len() as int) =~= needle);
                        assert(contains_text(hay, needle));
                    },
                    SearchType::ByArtist(_) => {},
                }
            }
        }
    }
    sorted
}

/// The client songs of those of `ids` that the index holds, in the order of
/// `ids`.
pub open spec fn present_entries(m: Map<u128, SongMeta>, ids: Seq<u128>) -> Seq<SongEntry>
    decreases ids.len(),
{
    if ids.len() == 0 {
        Seq::empty()
    } else {
        let rest = present_entries(m, ids.drop_last());
        if m.contains_key(ids.last()) {
            rest.push(entry_of(m[ids.last()]@))
        } else {
            rest
        }
    }
}

/// The client songs of those of `ids` that the index holds, in the order of
/// `ids`; unknown identifiers are skipped.
pub fn songs_in_index(index: &SongIndex, ids: &Vec<u128>) -> (res: Vec<Song>)
    ensures
        songs_view(res@) == present_entries(index@, ids@),
{
    let mut res: Vec<Song> = Vec::new();
    assert(ids@.take(0) =~= Seq::<u128>::empty());
    for i in 0..ids.len()
        invariant
            songs_view(res@) == present_entries(index@, ids@.take(i as int)),
    {
        assert(ids@.take(i + 1).drop_last() =~= ids@.take(i as int));
        let ghost before = res@;
        match index.get(&ids[i]) {
            Some(meta) => {
                res.push(Song::from_meta(meta));
                assert(songs_view(res@) =~= songs_view(before).push(entry_of(meta@)));
            },
            None => {},
        }
    }
    assert(ids@.take(ids@.len() as int) =~= ids@);
    res
}

/// The identifiers of a queue of identifiers, in order.
pub fn ids_of(q: &VecDeque<u128>) -> (res: Vec<u128>)
    ensures
        res@ == q@,
{
    let mut res: Vec<u128> = Vec::new();
    for i in 0..q.len()
        invariant
            res@ == q@.take(i as int),
    {
        assert(q@.take(i + 1) =~= q@.take(i as int).push(q@[i as int]));
        res.push(q[i]);
    }
    assert(q@.take(q@.len() as int) =~= q@);
    res
}

/// The client view of a liked library song.
pub open spec fn liked_entry(m: SongView) -> SongEntry {
    SongEntry { liked: true, ..entry_of(m) }
}

/// The identifiers of a sequence of client songs are pairwise distinct.
pub open spec fn distinct_song_ids(s: Seq<Song>) -> bool {
    distinct_by(s, |x: Song| x.id)
}

/// The liked songs that the index holds, marked as liked, in the order of
/// titles.
pub fn liked_songs(index: &SongIndex, liked: &HashSet<u128>) -> (res: Vec<Song>)
    requires
        index_wf(index@),
    ensures
        sorted_by_title(res@),
        distinct_song_ids(res@),
        forall|i: int| 0 <= i < res@.len() ==> {
            &&& liked@.contains(#[trigger] res@[i].id)
            &&& index@.contains_key(res@[i].id)
            &&& res@[i]@ == liked_entry(index@[res@[i].id]@)
        },
        forall|k: u128| #[trigger] liked@.contains(k) && index@.contains_key(k) ==> exists|i: int| 0 <= i < res@.len() && #[trigger] res@[i].id == k,
{
    let ghost m = index@;
    let ghost mut seen: Seq<u128> = Seq::empty();
    let mut songs: Vec<Song> = Vec::new();
    for id in it: liked.iter()
        invariant
            m == index@,
            index_wf(m),
            it.seq().unref().to_set() == liked@,
            it.seq().no_duplicates(),
            seen.len() == it.index(),
            forall|j: int| 0 <= j < it.index() ==> #[trigger] seen[j] == *it.seq()[j],
            distinct_song_ids(songs@),
            forall|i: int| 0 <= i < songs@.len() ==> {
                &&& liked@.contains(#[trigger] songs@[i].id)
                &&& m.contains_key(songs@[i].id)
                &&& songs@[i]@ == liked_entry(m[songs@[i].id]@)
                &&& seen.contains(songs@[i].id)
            },
            forall|k: u128| #[trigger] seen.contains(k) && m.contains_key(k) ==> exists|i: int| 0 <= i < songs@.len() && #[trigger] songs@[i].id == k,
            forall|k: u128| #[trigger] liked@.contains(k) ==> seen.contains(k) || exists|j: int| it.index() <= j < it.seq().len() && *it.seq()[j] == k,
    {
        let ghost old_songs = songs@;
        let ghost old_seen = seen;
        proof {
            assert(it.seq()[it.index()] == id);
            assert(it.seq().unref()[it.index()] == *id);
            assert(it.seq().unref().to_set().contains(*id));
            assert(!seen.contains(*id)) by {
                if seen.contains(*id) {
                    let j = choose|j: int| 0 <= j < seen.len() && seen[j] == *id;
                    assert(it.seq()[j] == it.seq()[it.index()]);
                }
            }
        }
        match index.get(id) {
            Some(meta) => {
                let mut song = Song::from_meta(meta);
                song.liked = true;
                songs.push(song);
                assert(m.contains_key(*id) && m[*id] == *meta);
                assert(songs@[songs@.len() - 1]@ == liked_entry(m[*id]@));
                assert(songs@[songs@.len() - 1].id == *id);
            },
            None => {
                assert(!m.contains_key(*id));
            },
        }
        proof {
            assert(songs@.len() > old_songs.len() ==> songs@.len() == old_songs.len() + 1 && m.contains_key(*id) && songs@[songs@.len() - 1]@ == liked_entry(m[*id]@) && songs@[songs@.len() - 1].id == *id);
            assert(songs@.len() == old_songs.len() ==> !m.contains_key(*id) && songs@ == old_songs);
            seen = seen.push(*id);
            assert forall|x: u128| old_seen.contains(x) implies #[trigger] seen.contains(x) by {
                let j = choose|j: int| 0 <= j < old_seen.len() && old_seen[j] == x;
                assert(seen[j] == x);
            }
            assert(seen[seen.len() - 1] == *id);
            assert forall|i: int| 0 <= i < songs@.len() implies {
                &&& liked@.contains(#[trigger] songs@[i].id)
                &&& m.contains_key(songs@[i].id)
                &&& songs@[i]@ == liked_entry(m[songs@[i].id]@)
                &&& seen.contains(songs@[i].id)
            } by {
                if i < old_songs.len() {
                    assert(songs@[i] == old_songs[i]);
                    assert(old_seen.contains(songs@[i].id));
                } else {
                    assert(songs@[i]@ == liked_entry(m[*id]@));
                }
            }
            assert forall|i: int, j: int| 0 <= i < j < songs@.len() implies (|x: Song| x.id)(#[trigger] songs@[i]) != (|x: Song| x.id)(#[trigger] songs@[j]) by {
                if j >= old_songs.len() {
                    assert(songs@[i] == old_songs[i]);
                    assert(old_seen.contains(songs@[i].id));
                } else {
                    assert(songs@[i] == old_songs[i] && songs@[j] == old_songs[j]);
                }
            }
            assert forall|k: u128| #[trigger] seen.contains(k) && m.contains_key(k) implies exists|i: int| 0 <= i < songs@.len() && #[trigger] songs@[i].id == k by {
                if k == *id {
                    assert(songs@[songs@.len() - 1].id == k);
                } else {
                    let j = choose|j: int| 0 <= j < seen.len() && seen[j] == k;
                    assert(old_seen[j] == k);
                    assert(old_seen.contains(k));
                    let i = choose|i: int| 0 <= i < old_songs.len() && #[trigger] old_songs[i].id == k;
                    assert(songs@[i].id == k);
                }
            }
            assert forall|k: u128| #[trigger] liked@.contains(k) implies seen.contains(k) || exists|j: int| it.index() + 1 <= j < it.seq().len() && *it.seq()[j] == k by {
                if !old_seen.contains(k) {
                    let j = choose|j: int| it.index() <= j < it.seq().len() && *it.seq()[j] == k;
                    if j == it.index() {
                        assert(seen[seen.len() - 1] == k);
                    } else {
                        assert(it.index() + 1 <= j);
                    }
                }
            }
        }
    }
    let sorted = sort_by_title(songs);
    proof {
        lemma_same_items(songs@, sorted@, |x: Song| x.id);
    }
    sorted
}

/// Removes from the play history every song that the index no longer holds.
/// Returns whether any was removed.
pub fn prune_history(history: &mut VecDeque<u128>, index: &SongIndex) -> (removed: bool)
    ensures
        final(history)@ == old(history)@.filter(|id: u128| index@.contains_key(id)),
        removed == exists|i: int| 0 <= i < old(history)@.len() && !index@.contains_key(#[trigger] old(history)@[i]),
{
    let ghost s = history@;
    let len = history.len();
    let mut removed = false;
    let mut i: usize = 0;
    assert(s.skip(0) =~= s);
    assert(s.take(0).filter(|id: u128| index@.contains_key(id)) =~= Seq::<u128>::empty());
    while i < len
        invariant
            i <= len,
            len == s.len(),
            history@ == s.skip(i as int) + s.take(i as int).filter(|id: u128| index@.contains_key(id)),
            removed == exists|j: int| 0 <= j < i && !index@.contains_key(#[trigger] s[j]),
        decreases len - i,
    {
        let id = history.pop_front().unwrap();
        proof {
            assert(id == s[i as int]);
            assert(s.take(i as int + 1) =~= s.take(i as int).push(s[i as int]));
            assert(s.skip(i as int).drop_first() =~= s.skip(i as int + 1));
            s.take(i as int).lemma_filter_push(s[i as int], |id: u128| index@.contains_key(id));
        }
        if index.contains_key(&id) {
            history.push_back(id);
        } else {
            removed = true;
        }
        i = i + 1;
        assert(history@ =~= s.skip(i as int) + s.take(i as int).filter(|id: u128| index@.contains_key(id)));
    }
    assert(s.take(len as int) =~= s);
    removed
}

/// Whether some string of `list` has the text of `a`.
fn has_text(list: &Vec<String>, a: &String) -> (res: bool)
    ensures
        res == exists|i: int| 0 <= i < list@.len() && #[trigger] list@[i]@ == a@,
{
    let mut i: usize = 0;
    while i < list.len()
        invariant
            i <= list@.len(),
            forall|j: int| 0 <= j < i ==> #[trigger] list@[j]@ != a@,
        decreases list@.len() - i,
    {
        if list[i] == *a {
            return true;
        }
        i = i + 1;
    }
    false
}

/// Adds to `list` each artist of `artists` that it does not hold yet.
fn add_artists(list: &mut Vec<String>, artists: &Vec<String>)
    requires
        distinct_by(old(list)@, |s: String| s@),
    ensures
        distinct_by(final(list)@, |s: String| s@),
        forall|i: int| 0 <= i < final(list)@.len() ==> old(list)@.contains(#[trigger] final(list)@[i]) || texts(artists@).contains(final(list)@[i]@),
        final(list)@.len() >= old(list)@.len(),
        forall|i: int| 0 <= i < old(list)@.len() ==> #[trigger] final(list)@[i] == old(list)@[i],
        forall|x: Seq<char>| #[trigger] texts(artists@).contains(x) ==> exists|j: int| 0 <= j < final(list)@.len() && #[trigger] final(list)@[j]@ == x,
{
    let ghost start = list@;
    let mut a: usize = 0;
    while a < artists.len()
        invariant
            a <= artists@.len(),
            start == old(list)@,
            list@.len() >= start.len(),
            forall|i: int| 0 <= i < start.len() ==> list@[i] == start[i],
            distinct_by(list@, |s: String| s@),
            forall|i: int| 0 <= i < list@.len() ==> start.contains(#[trigger] list@[i]) || texts(artists@).contains(list@[i]@),
            forall|b: int| #![trigger artists@[b]] 0 <= b < a ==> exists|j: int| #![trigger list@[j]] 0 <= j < list@.len() && list@[j]@ == artists@[b]@,
        decreases artists@.len() - a,
    {
        let ghost before = list@;
        if !has_text(list, &artists[a]) {
            list.push(artists[a].clone());
            proof {
                assert(list@[list@.len() - 1] == artists@[a as int]);
                assert(texts(artists@)[a as int] == artists@[a as int]@);
                assert forall|i: int| 0 <= i < list@.len() implies start.contains(#[trigger] list@[i]) || texts(artists@).contains(list@[i]@) by {
                    if i < before.len() {
                        assert(list@[i] == before[i]);
                    }
                }
                assert forall|i: int, j: int| 0 <= i < j < list@.len() implies (|s: String| s@)(#[trigger] list@[i]) != (|s: String| s@)(#[trigger] list@[j]) by {
                    if j == list@.len() - 1 {
                        assert(list@[i] == before[i]);
                    } else {
                        assert(list@[i] == before[i] && list@[j] == before[j]);
                    }
                }
                assert forall|b: int| #![trigger artists@[b]] 0 <= b < a + 1 implies exists|j: int| #![trigger list@[j]] 0 <= j < list@.len() && list@[j]@ == artists@[b]@ by {
                    if b < a {
                        let j = choose|j: int| #![trigger before[j]] 0 <= j < before.len() && before[j]@ == artists@[b]@;
                        assert(list@[j] == before[j]);
                    } else {
                        assert(list@[list@.len() - 1]@ == artists@[b]@);
                    }
                }
            }
        } else {
            proof {
                assert forall|b: int| #![trigger artists@[b]] 0 <= b < a + 1 implies exists|j: int| #![trigger list@[j]] 0 <= j < list@.len() && list@[j]@ == artists@[b]@ by {
                    if b == a {
                        let j = choose|j: int| 0 <= j < list@.len() && #[trigger] list@[j]@ == artists@[a as int]@;
                        assert(list@[j]@ == artists@[b]@);
                    }
                }
            }
        }
        a = a + 1;
    }
    proof {
        assert forall|x: Seq<char>| #[trigger] texts(artists@).contains(x) implies exists|j: int| 0 <= j < list@.len() && #[trigger] list@[j]@ == x by {
            let b = choose|b: int| 0 <= b < texts(artists@).len() && texts(artists@)[b] == x;
            assert(texts(artists@)[b] == artists@[b]@);
        }
    }
}

/// Whether some song of the index has the artist `x`.
pub open spec fn has_artist(m: Map<u128, SongMeta>, x: Seq<char>) -> bool {
    exists|k: u128| #[trigger] m.contains_key(k) && m[k]@.artists.contains(x)
}

/// Every artist of the library once, in text order.
pub fn artist_list(index: &SongIndex) -> (res: Vec<String>)
    ensures
        sorted_by_title(res@),
        distinct_by(res@, |s: String| s@),
        forall|i: int| 0 <= i < res@.len() ==> has_artist(index@, #[trigger] res@[i]@),
        forall|k: u128, x: Seq<char>| #[trigger] index@.contains_key(k) && #[trigger] index@[k]@.artists.contains(x) ==> exists|i: int| 0 <= i < res@.len() && #[trigger] res@[i]@ == x,
{
    let ghost m = index@;
    let ghost mut seen: Seq<u128> = Seq::empty();
    let mut list: Vec<String> = Vec::new();
    for pair in it: index.iter()
        invariant
            m == index@,
            it.seq().len() == m.dom().len(),
            forall|i: int| #![trigger it.seq()[i]] 0 <= i < it.seq().len() ==> m.contains_key(*it.seq()[i].0) && m[*it.seq()[i].0] == *it.seq()[i].1,
            forall|k: u128| #[trigger] m.contains_key(k) ==> it.seq().contains((&k, &m[k])),
            seen.len() == it.index(),
            forall|j: int| 0 <= j < it.index() ==> #[trigger] seen[j] == *it.seq()[j].0,
            forall|j: int| 0 <= j < seen.len() ==> m.contains_key(#[trigger] seen[j]),
            distinct_by(list@, |s: String| s@),
            forall|i: int| 0 <= i < list@.len() ==> has_artist(m, #[trigger] list@[i]@),
            forall|k: u128, x: Seq<char>| #[trigger] seen.contains(k) && #[trigger] m[k]@.artists.contains(x) ==> exists|i: int| 0 <= i < list@.len() && #[trigger] list@[i]@ == x,
            forall|k: u128| #[trigger] m.contains_key(k) ==> seen.contains(k) || exists|j: int| it.index() <= j < it.seq().len() && *it.seq()[j].0 == k,
    {
        let (k, meta) = pair;
        let ghost before = list@;
        proof {
            assert(it.seq()[it.index()] == (k, meta));
            assert(m.contains_key(*k) && m[*k] == *meta);
        }
        add_artists(&mut list, &meta.artists);
        proof {
            let old_seen = seen;
            seen = seen.push(*k);
            assert forall|x: u128| old_seen.contains(x) implies #[trigger] seen.contains(x) by {
                let j = choose|j: int| 0 <= j < old_seen.len() && old_seen[j] == x;
                assert(seen[j] == x);
            }
            assert(seen[seen.len() - 1] == *k);
            assert forall|i: int| 0 <= i < list@.len() implies has_artist(m, #[trigger] list@[i]@) by {
                if before.contains(list@[i]) {
                    let j = choose|j: int| 0 <= j < before.len() && before[j] == list@[i];
                    assert(before[j]@ == list@[i]@);
                    assert(has_artist(m, before[j]@));
                } else {
                    assert(m[*k]@.artists == texts(meta.artists@));
                    assert(m.contains_key(*k) && m[*k]@.artists.contains(list@[i]@));
                }
            }
            assert forall|kk: u128, x: Seq<char>| #[trigger] seen.contains(kk) && #[trigger] m[kk]@.artists.contains(x) implies exists|i: int| 0 <= i < list@.len() && #[trigger] list@[i]@ == x by {
                if kk == *k {
                    assert(m[kk]@.artists == texts(meta.artists@));
                } else {
                    let j = choose|j: int| 0 <= j < seen.len() && seen[j] == kk;
                    assert(old_seen[j] == kk);
                    assert(old_seen.contains(kk));
                    let i = choose|i: int| 0 <= i < before.len() && #[trigger] before[i]@ == x;
                    assert(list@[i] == before[i]);
                }
            }
            assert forall|kk: u128| #[trigger] m.contains_key(kk) implies seen.contains(kk) || exists|j: int| it.index() + 1 <= j < it.seq().len() && *it.seq()[j].0 == kk by {
                if !old_seen.contains(kk) {
                    let j = choose|j: int| it.index() <= j < it.seq().len() && *it.seq()[j].0 == kk;
                    if j == it.index() {
                        assert(seen[seen.len() - 1] == kk);
                    } else {
                        assert(it.index() + 1 <= j);
                    }
                }
            }
            assert forall|j: int| 0 <= j < seen.len() implies m.contains_key(#[trigger] seen[j]) by {
                if j < old_seen.len() {
                    assert(seen[j] == old_seen[j]);
                }
            }
        }
    }
    let sorted = sort_by_title(list);
    proof {
        lemma_same_items(list@, sorted@, |s: String| s@);
        assert forall|i: int| 0 <= i < sorted@.len() implies has_artist(m, #[trigger] sorted@[i]@) by {
            assert(list@.contains(sorted@[i]));
            let j = choose|j: int| 0 <= j < list@.len() && list@[j] == sorted@[i];
            assert(has_artist(m, list@[j]@));
        }
        assert forall|k: u128, x: Seq<char>| #[trigger] m.contains_key(k) && #[trigger] m[k]@.artists.contains(x) implies exists|i: int| 0 <= i < sorted@.len() && #[trigger] sorted@[i]@ == x by {
            assert(seen.contains(k));
            let j = choose|j: int| 0 <= j < list@.len() && #[trigger] list@[j]@ == x;
            assert(sorted@.contains(list@[j]));
            let i = choose|i: int| 0 <= i < sorted@.len() && sorted@[i] == list@[j];
            assert(sorted@[i]@ == x);
        }
    }
    sorted
}

/// Marks a song as liked or no longer liked.
pub fn set_liked(liked: &mut HashSet<u128>, id: u128, like: bool)
    ensures
        like ==> final(liked)@ == old(liked)@.insert(id),
        !like ==> final(liked)@ == old(liked)@.remove(id),
{
    if like {
        liked.insert(id);
    } else {
        liked.remove(&id);
    }
}

} // verus!
