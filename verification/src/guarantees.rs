//! What the operations are for, stated over their inputs and results: a
//! title search looks only at titles, an absolute seek ignores where the
//! audio was, a jump is announced in either direction, the title and artist
//! tags are the ones read, and a client song keeps the library song's
//! fields.

use vstd::prelude::*;

use crate::library::search_result;
use crate::mpris::{command_effect, jumped, MprisCommand, MprisEffect, SyncSnapshot};
use crate::protocol::{entry_of, opt_text, texts, SearchType, SongMeta};
use crate::scan::{tagged_artist, tagged_title, TagField};
use crate::queue::{placed, rotate_left, shuffle_step};
use crate::text::{contains_text, lowercase, text_le};

verus! {

/// Every answer to a title search has a title that contains the query, once
/// both are lower-cased, and every song of the index whose title does is in
/// the answer; the artists play no part.
pub proof fn law_title_search_looks_at_titles(index: Map<u128, SongMeta>, q: String, res: Seq<SongMeta>)
    requires
        search_result(index, SearchType::ByTitle(q), res),
    ensures
        forall|i: int| 0 <= i < res.len() ==> contains_text(lowercase((#[trigger] res[i]).title@), lowercase(q@)),
        forall|k: u128| #[trigger] index.contains_key(k) && contains_text(lowercase(index[k].title@), lowercase(q@))
            ==> exists|i: int| 0 <= i < res.len() && res[i].id == k,
{
    assert forall|i: int| 0 <= i < res.len() implies contains_text(lowercase((#[trigger] res[i]).title@), lowercase(q@)) by {
        assert(res[i]@.title == res[i].title@);
    }
    assert forall|k: u128| #[trigger] index.contains_key(k) && contains_text(lowercase(index[k].title@), lowercase(q@))
        implies exists|i: int| 0 <= i < res.len() && res[i].id == k by {
        assert(index[k]@.title == index[k].title@);
    }
}

/// Every answer to an artist search has an artist that contains the query,
/// once both are lower-cased, and every song of the index with such an
/// artist is in the answer; the title plays no part.
pub proof fn law_artist_search_looks_at_artists(index: Map<u128, SongMeta>, q: String, res: Seq<SongMeta>)
    requires
        search_result(index, SearchType::ByArtist(q), res),
    ensures
        forall|i: int| 0 <= i < res.len() ==> exists|j: int| 0 <= j < (#[trigger] res[i]).artists@.len()
            && contains_text(lowercase(res[i].artists@[j]@), lowercase(q@)),
        forall|k: u128, j: int| #[trigger] index.contains_key(k) && 0 <= j < index[k].artists@.len()
            && contains_text(lowercase(#[trigger] index[k].artists@[j]@), lowercase(q@))
            ==> exists|i: int| 0 <= i < res.len() && res[i].id == k,
{
    assert forall|i: int| 0 <= i < res.len() implies exists|j: int| 0 <= j < (#[trigger] res[i]).artists@.len()
        && contains_text(lowercase(res[i].artists@[j]@), lowercase(q@)) by {
        let v = res[i]@;
        let j = choose|j: int| 0 <= j < v.artists.len() && contains_text(#[trigger] lowercase(v.artists[j]), lowercase(q@));
        assert(v.artists[j] == res[i].artists@[j]@);
    }
    assert forall|k: u128, j: int| #[trigger] index.contains_key(k) && 0 <= j < index[k].artists@.len()
        && contains_text(lowercase(#[trigger] index[k].artists@[j]@), lowercase(q@))
        implies exists|i: int| 0 <= i < res.len() && res[i].id == k by {
        assert(index[k]@.artists[j] == index[k].artists@[j]@);
    }
}

/// Seeking to an absolute position goes to that position, wherever the
/// loaded audio was and whether or not it was paused; a negative position is
/// ignored.
pub proof fn law_absolute_seek_ignores_position(pos: i64, paused: bool, p: i64, other_paused: bool, q: i64)
    ensures
        pos >= 0 ==> command_effect(MprisCommand::SeekAbsolute(pos), paused, Some(p)) == MprisEffect::SeekTo(pos as u64),
        command_effect(MprisCommand::SeekAbsolute(pos), paused, Some(p))
            == command_effect(MprisCommand::SeekAbsolute(pos), other_paused, Some(q)),
        pos < 0 ==> command_effect(MprisCommand::SeekAbsolute(pos), paused, Some(p)) == MprisEffect::Nothing,
{
}

/// A jump is announced when the position lies more than 1.5 s away from
/// where the last position would have moved to (it stands still when
/// paused), before it as well as after it.
pub proof fn law_jumps_either_way(last_position_us: i64, snap: SyncSnapshot)
    ensures
        ({
            let expected = last_position_us + if snap.is_paused { 0 } else { snap.elapsed_us as int };
            &&& jumped(last_position_us, snap) <==> (snap.position_us > expected + 1_500_000
                || snap.position_us < expected - 1_500_000)
            &&& snap.position_us + 1_500_000 < expected ==> jumped(last_position_us, snap)
            &&& expected + 1_500_000 < snap.position_us ==> jumped(last_position_us, snap)
        }),
{
}

/// The title a file's tags give: with no fields, the file's stem (or
/// `Unknown`); a last field keyed `title` or `TIT2` (in any case) with a
/// value sets it; any other last field, or one without a value, leaves the
/// title that the fields before it give.
pub proof fn law_title_tags(stem: Option<String>, fields: Seq<TagField>)
    ensures
        fields.len() == 0 ==> tagged_title(stem, fields) == match stem {
            Some(x) => x@,
            None => "Unknown"@,
        },
        fields.len() > 0 ==> ({
            let f = fields.last();
            let key = lowercase(f.key@);
            &&& (key == "title"@ || key == "tit2"@) && f.value@.len() > 0 ==> tagged_title(stem, fields) == f.value@
            &&& !((key == "title"@ || key == "tit2"@) && f.value@.len() > 0)
                ==> tagged_title(stem, fields) == tagged_title(stem, fields.drop_last())
        }),
{
}

/// The artist text a file's tags give: with no fields, `Unknown`; a last
/// field keyed `artist` or `TPE1` (in any case) with a value sets it; any
/// other last field, or one without a value, leaves the artist text that
/// the fields before it give.
pub proof fn law_artist_tags(fields: Seq<TagField>)
    ensures
        fields.len() == 0 ==> tagged_artist(fields) == "Unknown"@,
        fields.len() > 0 ==> ({
            let f = fields.last();
            let key = lowercase(f.key@);
            &&& (key == "artist"@ || key == "tpe1"@) && f.value@.len() > 0 ==> tagged_artist(fields) == f.value@
            &&& !((key == "artist"@ || key == "tpe1"@) && f.value@.len() > 0)
                ==> tagged_artist(fields) == tagged_artist(fields.drop_last())
        }),
{
}

/// The client view of a library song keeps the song's identifier, title,
/// artists, length and thumbnail, and is not marked liked.
pub proof fn law_client_song_keeps_fields(m: SongMeta)
    ensures
        entry_of(m@).id == m.id,
        entry_of(m@).title == m.title@,
        entry_of(m@).artists == texts(m.artists@),
        entry_of(m@).duration_ms == m.duration_ms,
        entry_of(m@).art_path == opt_text(m.art_path),
        !entry_of(m@).liked,
{
}

/// A client song carries the fields of the library song filed under one of
/// `ids`.
pub open spec fn carries_library_song(m: Map<u128, SongMeta>, ids: Seq<u128>, e: crate::protocol::SongEntry) -> bool {
    exists|j: int| #![trigger ids[j]]
        0 <= j < ids.len() && m.contains_key(ids[j]) && e.id == m[ids[j]].id && e.title == m[ids[j]].title@
            && e.artists == texts(m[ids[j]].artists@) && e.duration_ms == m[ids[j]].duration_ms
            && e.art_path == opt_text(m[ids[j]].art_path)
}

/// Every song of a playlist (or of any list of library songs) is a library
/// song of the list, with that song's identifier, title, artists, length
/// and thumbnail.
pub proof fn law_listed_songs_keep_fields(m: Map<u128, SongMeta>, ids: Seq<u128>)
    ensures
        forall|i: int| 0 <= i < crate::library::present_entries(m, ids).len()
            ==> carries_library_song(m, ids, #[trigger] crate::library::present_entries(m, ids)[i]),
    decreases ids.len(),
{
    if ids.len() > 0 {
        let rest = ids.drop_last();
        law_listed_songs_keep_fields(m, rest);
        let p = crate::library::present_entries(m, ids);
        let pr = crate::library::present_entries(m, rest);
        assert forall|i: int| 0 <= i < p.len() implies carries_library_song(m, ids, #[trigger] p[i]) by {
            if i < pr.len() {
                assert(p[i] == pr[i]);
                assert(carries_library_song(m, rest, pr[i]));
                let j = choose|j: int| #![trigger rest[j]]
                    0 <= j < rest.len() && m.contains_key(rest[j]) && pr[i].id == m[rest[j]].id && pr[i].title == m[rest[j]].title@
                        && pr[i].artists == texts(m[rest[j]].artists@) && pr[i].duration_ms == m[rest[j]].duration_ms
                        && pr[i].art_path == opt_text(m[rest[j]].art_path);
                assert(ids[j] == rest[j]);
            } else {
                let j = ids.len() - 1;
                assert(ids[j] == ids.last());
            }
        }
    }
}

/// Moving on one song sends the song that played to the back and brings
/// the next one to the front.
pub proof fn law_next_sends_front_back(s: Seq<SongMeta>)
    requires
        s.len() > 0,
    ensures
        rotate_left(s, 1).len() == s.len(),
        rotate_left(s, 1).last() == s[0],
        forall|i: int| 0 <= i < s.len() - 1 ==> #[trigger] rotate_left(s, 1)[i] == s[i + 1],
{
}

/// A shuffled advance sends the song that played to the back and brings the
/// picked song (counted after the one that played) to the front; the other
/// places keep their songs.
pub proof fn law_shuffle_sends_front_back(s: Seq<SongMeta>, pick: int)
    requires
        s.len() > 1,
        0 <= pick < s.len() - 1,
    ensures
        shuffle_step(s, pick).len() == s.len(),
        shuffle_step(s, pick).last() == s[0],
        shuffle_step(s, pick)[0] == s[pick + 1],
        pick > 0 ==> shuffle_step(s, pick)[pick] == s[1],
        forall|i: int| 0 < i < s.len() - 1 && i != pick ==> #[trigger] shuffle_step(s, pick)[i] == s[i + 1],
{
}

/// Where an enqueued song lands: appended without a position; alone when
/// played now; right after the playing song when played next; at the given
/// place otherwise, or at the end when the queue is shorter. The songs
/// before it keep their places.
pub proof fn law_enqueue_places(s: Seq<SongMeta>, song: SongMeta, p: usize)
    ensures
        placed(s, song, None) == s.push(song),
        placed(s, song, Some(0usize)) == seq![song],
        s.len() > 0 ==> placed(s, song, Some(1usize))[0] == s[0] && placed(s, song, Some(1usize))[1] == song
            && placed(s, song, Some(1usize)).len() == s.len() + 1,
        p >= 2 && p < s.len() ==> placed(s, song, Some(p))[p as int] == song && placed(s, song, Some(p)).len() == s.len() + 1,
        p >= 2 && p >= s.len() ==> placed(s, song, Some(p)) == s.push(song),
        p >= 1 ==> forall|i: int| 0 <= i < s.len() && i < p ==> #[trigger] placed(s, song, Some(p))[i] == s[i],
{
}

/// Titles are ordered character by character by code point, a proper
/// prefix first: a text that is a prefix of another comes first, and at the
/// first place where two texts differ the smaller character decides.
pub proof fn law_title_order(a: Seq<char>, b: Seq<char>, k: int)
    requires
        0 <= k <= a.len(),
        k <= b.len(),
        a.take(k) == b.take(k),
    ensures
        k == a.len() ==> text_le(a, b),
        k < a.len() && k < b.len() && a[k] != b[k] ==> (text_le(a, b) <==> a[k] < b[k]),
        k == b.len() && k < a.len() ==> !text_le(a, b),
    decreases k,
{
    if k > 0 {
        assert(a[0] == a.take(k)[0] && b[0] == b.take(k)[0]);
        assert(a.drop_first().take(k - 1) =~= a.take(k).drop_first());
        assert(b.drop_first().take(k - 1) =~= b.take(k).drop_first());
        law_title_order(a.drop_first(), b.drop_first(), k - 1);
    }
}

} // verus!
