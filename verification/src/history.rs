//! The play history: the most recently played songs, newest first, each once.

use std::collections::{HashSet, VecDeque};
use vstd::prelude::*;

use crate::ids::{hyphenated, id_text, parse_id, parsed_id};

verus! {

/// How many songs the history keeps.
pub const MAX_HISTORY: usize = 30;

/// The identifiers other than `id`.
pub open spec fn other_than(id: u128) -> spec_fn(u128) -> bool {
    |x: u128| x != id
}

/// The history after `id` was played: unchanged if `id` is already the
/// newest; otherwise `id` goes to the front, any older mention of it goes,
/// and the history is cut to `MAX_HISTORY` songs.
pub open spec fn pushed_history(h: Seq<u128>, id: u128) -> Seq<u128> {
    if h.len() > 0 && h[0] == id {
        h
    } else {
        let n = seq![id] + h.filter(other_than(id));
        if n.len() <= MAX_HISTORY {
            n
        } else {
            n.take(MAX_HISTORY as int)
        }
    }
}

/// Records that `song_id` was played.
pub fn push_history(history: &mut VecDeque<u128>, song_id: u128)
    ensures
        final(history)@ == pushed_history(old(history)@, song_id),
{
    if history.len() > 0 && history[0] == song_id {
        return;
    }
    let ghost s = history@;
    let len = history.len();
    let mut i: usize = 0;
    assert(s.skip(0) =~= s);
    assert(s.take(0).filter(other_than(song_id)) =~= Seq::<u128>::empty());
    while i < len
        invariant
            i <= len,
            len == s.len(),
            history@ == s.skip(i as int) + s.take(i as int).filter(other_than(song_id)),
        decreases len - i,
    {
        let id = history.pop_front().unwrap();
        proof {
            assert(id == s[i as int]);
            assert(s.take(i as int + 1) =~= s.take(i as int).push(s[i as int]));
            assert(s.skip(i as int).drop_first() =~= s.skip(i as int + 1));
            s.take(i as int).lemma_filter_push(s[i as int], other_than(song_id));
        }
        if id != song_id {
            history.push_back(id);
        }
        i = i + 1;
        assert(history@ =~= s.skip(i as int) + s.take(i as int).filter(other_than(song_id)));
    }
    assert(s.take(len as int) =~= s);
    assert(s.skip(len as int) =~= Seq::<u128>::empty());
    let ghost filtered = s.filter(other_than(song_id));
    assert(history@ =~= filtered);
    history.push_front(song_id);
    assert(history@ =~= seq![song_id] + filtered);
    history.truncate(MAX_HISTORY);
    assert(history@ =~= pushed_history(s, song_id));
}

/// A row of the stored history: the song's identifier as text, and a rank
/// that orders the rows newest first.
pub struct HistoryRow {
    pub song_id: String,
    pub played_at: i64,
}

/// The rows that store a history: the `i`-th newest song gets the rank
/// `i64::MAX - i`, so that ordering by rank, highest first, restores the
/// order.
pub fn history_rows(history: &VecDeque<u128>) -> (rows: Vec<HistoryRow>)
    requires
        history@.len() <= i64::MAX,
    ensures
        rows@.len() == history@.len(),
        forall|i: int| 0 <= i < rows@.len() ==> {
            &&& (#[trigger] rows@[i]).song_id@ == hyphenated(history@[i])
            &&& rows@[i].played_at == i64::MAX - i
        },
{
    let mut rows: Vec<HistoryRow> = Vec::new();
    let len = history.len();
    for i in 0..len
        invariant
            len == history@.len(),
            len <= i64::MAX,
            rows@.len() == i,
            forall|j: int| 0 <= j < i ==> {
                &&& (#[trigger] rows@[j]).song_id@ == hyphenated(history@[j])
                &&& rows@[j].played_at == i64::MAX - j
            },
    {
        let rank: i64 = i64::MAX - (i as i64);
        rows.push(HistoryRow { song_id: id_text(history[i]), played_at: rank });
        assert(rows@[i as int].played_at == i64::MAX - i);
    }
    rows
}

/// The identifiers that parse among `texts`, in order.
pub open spec fn parsed_ids(texts: Seq<Seq<char>>) -> Seq<u128>
    decreases texts.len(),
{
    if texts.len() == 0 {
        Seq::empty()
    } else {
        let rest = parsed_ids(texts.drop_last());
        match parsed_id(texts.last()) {
            Some(x) => rest.push(x),
            None => rest,
        }
    }
}

/// Whether the texts are the hyphenated forms of `ids`, one for one.
pub open spec fn spells_ids(t: Seq<Seq<char>>, ids: Seq<u128>) -> bool {
    t.len() == ids.len() && forall|i: int| 0 <= i < ids.len() ==> t[i] == hyphenated(#[trigger] ids[i])
}

/// The identifiers that parse among stored texts, in order; the others are
/// skipped. Texts that are all hyphenated identifiers give those identifiers
/// back.
pub fn ids_from_texts(rows: &Vec<String>) -> (res: VecDeque<u128>)
    ensures
        res@ == parsed_ids(crate::protocol::texts(rows@)),
        forall|ids: Seq<u128>| #[trigger] spells_ids(crate::protocol::texts(rows@), ids) ==> res@ == ids,
{
    let ghost t = crate::protocol::texts(rows@);
    let mut res: VecDeque<u128> = VecDeque::new();
    assert(t.take(0) =~= Seq::<Seq<char>>::empty());
    for i in 0..rows.len()
        invariant
            t == crate::protocol::texts(rows@),
            res@ == parsed_ids(t.take(i as int)),
            forall|ids: Seq<u128>| #[trigger] spells_ids(t, ids) ==> res@ == ids.take(i as int),
    {
        let parsed = parse_id(rows[i].as_str());
        proof {
            assert(t.take(i + 1).drop_last() =~= t.take(i as int));
            assert(t.take(i + 1).last() == rows@[i as int]@);
        }
        let ghost before = res@;
        match parsed {
            Some(x) => res.push_back(x),
            None => {},
        }
        proof {
            assert forall|ids: Seq<u128>| #[trigger] spells_ids(t, ids) implies res@ == ids.take(i + 1) by {
                assert(t[i as int] == hyphenated(ids[i as int]));
                assert(t[i as int] == rows@[i as int]@);
                assert(ids.take(i + 1) =~= ids.take(i as int).push(ids[i as int]));
            }
        }
    }
    proof {
        assert(t.take(rows@.len() as int) =~= t);
        assert forall|ids: Seq<u128>| #[trigger] spells_ids(t, ids) implies res@ == ids by {
            assert(ids.take(ids.len() as int) =~= ids);
        }
    }
    res
}

/// The set of identifiers that parse among stored texts.
pub fn id_set_from_texts(rows: &Vec<String>) -> (res: HashSet<u128>)
    ensures
        res@ == parsed_ids(crate::protocol::texts(rows@)).to_set(),
{
    let ids = ids_from_texts(rows);
    let mut res: HashSet<u128> = HashSet::new();
    for i in 0..ids.len()
        invariant
            res@ == ids@.take(i as int).to_set(),
    {
        assert(ids@.take(i + 1) =~= ids@.take(i as int).push(ids@[i as int]));
        res.insert(ids[i]);
        assert(res@ =~= ids@.take(i + 1).to_set()) by {
            ids@.take(i as int).lemma_push_to_set_commute(ids@[i as int]);
        }
    }
    assert(ids@.take(ids@.len() as int) =~= ids@);
    res
}

} // verus!
