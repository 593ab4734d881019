//! Playlists as the clients see them, assembled from stored rows and the
//! library.

use vstd::prelude::*;

use crate::ids::{parse_id, parsed_id};
use crate::library::{present_entries, songs_in_index, SongIndex};
use crate::protocol::{opt_text, songs_view, texts, ErrorReply, Playlist, PlaylistMinimal, SongMeta};

verus! {

/// A playlist with the library songs of `song_ids`, in order; songs that
/// the library no longer holds are skipped.
pub fn playlist(index: &SongIndex, id: u128, title: String, song_ids: &Vec<u128>) -> (res: Playlist)
    ensures
        res.id == id,
        res.title == title,
        songs_view(res.songs@) == present_entries(index@, song_ids@),
{
    Playlist { id, title, songs: songs_in_index(index, song_ids) }
}

/// A stored playlist: its identifier and title as stored, how many songs it
/// has, and the identifiers of its first songs (those whose art the list
/// shows).
pub struct PlaylistRow {
    pub id: String,
    pub title: String,
    pub count: usize,
    pub art_ids: Vec<String>,
}

/// The art entries of the art identifiers of a row: one entry for each text
/// that parses, the song's thumbnail if the library holds the song and has
/// one.
pub open spec fn art_entries(m: Map<u128, SongMeta>, ids: Seq<Seq<char>>) -> Seq<Option<Seq<char>>>
    decreases ids.len(),
{
    if ids.len() == 0 {
        Seq::empty()
    } else {
        let rest = art_entries(m, ids.drop_last());
        match parsed_id(ids.last()) {
            Some(k) => rest.push(
                if m.contains_key(k) {
                    opt_text(m[k].art_path)
                } else {
                    None
                },
            ),
            None => rest,
        }
    }
}

/// The thumbnails of a list of optional paths.
pub open spec fn opt_texts(v: Seq<Option<String>>) -> Seq<Option<Seq<char>>> {
    v.map_values(|o: Option<String>| opt_text(o))
}

/// The list entry of a stored playlist, or `None` when its identifier does
/// not parse.
pub fn playlist_minimal(index: &SongIndex, row: &PlaylistRow) -> (res: Option<PlaylistMinimal>)
    ensures
        match parsed_id(row.id@) {
            None => res is None,
            Some(k) => res matches Some(p) && p.id == k && p.name@ == row.title@ && p.len == row.count && opt_texts(p.art_paths@) == art_entries(index@, texts(row.art_ids@)),
        },
{
    let id = match parse_id(row.id.as_str()) {
        Some(id) => id,
        None => return None,
    };
    let ghost t = texts(row.art_ids@);
    let mut art_paths: Vec<Option<String>> = Vec::new();
    assert(t.take(0) =~= Seq::<Seq<char>>::empty());
    assert(opt_texts(art_paths@) =~= Seq::<Option<Seq<char>>>::empty());
    for i in 0..row.art_ids.len()
        invariant
            t == texts(row.art_ids@),
            opt_texts(art_paths@) == art_entries(index@, t.take(i as int)),
    {
        proof {
            assert(t.take(i + 1).drop_last() =~= t.take(i as int));
            assert(t.take(i + 1).last() == row.art_ids@[i as int]@);
        }
        let ghost before = art_paths@;
        match parse_id(row.art_ids[i].as_str()) {
            Some(song_id) => {
                let entry = match index.get(&song_id) {
                    Some(m) => match &m.art_path {
                        Some(p) => Some(p.clone()),
                        None => None,
                    },
                    None => None,
                };
                art_paths.push(entry);
                assert(opt_texts(art_paths@) =~= opt_texts(before).push(opt_text(entry)));
            },
            None => {},
        }
    }
    assert(t.take(row.art_ids@.len() as int) =~= t);
    Some(PlaylistMinimal { id, name: row.title.clone(), len: row.count, art_paths })
}

/// A list entry as plain values: identifier, name, length and thumbnails.
pub open spec fn minimal_view(p: PlaylistMinimal) -> (u128, Seq<char>, usize, Seq<Option<Seq<char>>>) {
    (p.id, p.name@, p.len, opt_texts(p.art_paths@))
}

/// The entries that the playlist list shows for stored rows: one for each
/// row whose identifier parses, in row order, with the row's title, song
/// count and thumbnails.
pub open spec fn listed(m: Map<u128, SongMeta>, rows: Seq<PlaylistRow>) -> Seq<(u128, Seq<char>, usize, Seq<Option<Seq<char>>>)>
    decreases rows.len(),
{
    if rows.len() == 0 {
        Seq::empty()
    } else {
        let rest = listed(m, rows.drop_last());
        let r = rows.last();
        match parsed_id(r.id@) {
            Some(k) => rest.push((k, r.title@, r.count, art_entries(m, texts(r.art_ids@)))),
            None => rest,
        }
    }
}

/// The list entries of the stored playlists whose identifiers parse, in
/// order.
pub fn playlists_from_rows(index: &SongIndex, rows: &Vec<PlaylistRow>) -> (res: Vec<PlaylistMinimal>)
    ensures
        res@.map_values(|p: PlaylistMinimal| minimal_view(p)) == listed(index@, rows@),
{
    let mut res: Vec<PlaylistMinimal> = Vec::new();
    assert(rows@.take(0) =~= Seq::<PlaylistRow>::empty());
    for i in 0..rows.len()
        invariant
            res@.map_values(|p: PlaylistMinimal| minimal_view(p)) == listed(index@, rows@.take(i as int)),
    {
        let ghost before = res@;
        assert(rows@.take(i + 1).drop_last() =~= rows@.take(i as int));
        assert(rows@.take(i + 1).last() == rows@[i as int]);
        match playlist_minimal(index, &rows[i]) {
            Some(p) => {
                res.push(p);
                assert(res@.map_values(|p: PlaylistMinimal| minimal_view(p)) =~= before.map_values(
                    |p: PlaylistMinimal| minimal_view(p),
                ).push(minimal_view(p)));
            },
            None => {},
        }
    }
    assert(rows@.take(rows@.len() as int) =~= rows@);
    res
}

/// A playlist request that the database may refuse.
#[derive(Clone, Copy, Debug, PartialEq, Eq, Structural)]
pub enum PlaylistOp {
    Create,
    List,
    Get,
    AddSongs,
    RemoveSong,
    Delete,
    Rename,
}

/// The error code answered when the database refuses a playlist request.
pub open spec fn playlist_error_code(op: PlaylistOp) -> u32 {
    match op {
        PlaylistOp::Create => 2,
        PlaylistOp::List => 2,
        PlaylistOp::Get => 4,
        PlaylistOp::AddSongs => 5,
        PlaylistOp::RemoveSong => 6,
        PlaylistOp::Delete => 7,
        PlaylistOp::Rename => 8,
    }
}

/// The answer to a playlist request that the database refused: the
/// request's code and the error's text.
pub fn playlist_error(op: PlaylistOp, message: String) -> (res: ErrorReply)
    ensures
        res.err_id == playlist_error_code(op),
        res.err_msg@ == message@,
{
    let code: u32 = match op {
        PlaylistOp::Create => 2,
        PlaylistOp::List => 2,
        PlaylistOp::Get => 4,
        PlaylistOp::AddSongs => 5,
        PlaylistOp::RemoveSong => 6,
        PlaylistOp::Delete => 7,
        PlaylistOp::Rename => 8,
    };
    ErrorReply { err_id: code, err_msg: message }
}

} // verus!
