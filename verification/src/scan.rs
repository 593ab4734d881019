//! Scanning the music directory: which files are audio, which songs the
//! stored cache still describes, which must be read again, and how tags
//! become a song.

use vstd::prelude::*;

use crate::ids::{hyphenated, id_text, parse_id, parsed_id, song_id_for_path, url_v5_id};
use crate::library::{index_wf, SongIndex};
use crate::protocol::{copy_opt_string, copy_strings, opt_text, texts, SongMeta};
use crate::text::{lowercase, to_lowercase};
use vstd::utf8::encode_utf8;

verus! {

/// The JSON text that `serde_json::to_string` writes for a list of strings
/// (`None` if it fails).
pub uninterp spec fn json_text(list: Seq<Seq<char>>) -> Option<Seq<char>>;

/// The list of strings that `serde_json::from_str` reads from a text, if it
/// holds one.
pub uninterp spec fn json_list(text: Seq<char>) -> Option<Seq<Seq<char>>>;

/// The texts of an optional list of strings.
pub open spec fn opt_texts_list(o: Option<Vec<String>>) -> Option<Seq<Seq<char>>> {
    match o {
        Some(v) => Some(texts(v@)),
        None => None,
    }
}

/// Writes a list of strings as JSON with `serde_json::to_string`. Trusted:
/// the result is `json_text` of the texts, and it is there: `to_string`
/// fails only for a value whose `Serialize` fails or a map with non-string
/// keys, and a list of strings is neither.
#[verifier::external_body]
fn write_json_list(list: &Vec<String>) -> (res: Option<String>)
    ensures
        opt_text(res) == json_text(texts(list@)),
        res is Some,
{
    serde_json::to_string(list).ok()
}

/// Reads a list of strings from JSON with `serde_json::from_str`. Trusted:
/// the result is `json_list` of the text, and what `to_string` wrote for a
/// list reads back as that list (serde_json's round trip for strings).
#[verifier::external_body]
fn read_json_list(text: &str) -> (res: Option<Vec<String>>)
    ensures
        opt_texts_list(res) == json_list(text@),
        forall|a: Seq<Seq<char>>| #[trigger] json_text(a) == Some(text@) ==> opt_texts_list(res) == Some(a),
{
    serde_json::from_str::<Vec<String>>(text).ok()
}

/// Whether a string has the text of `lit`.
pub fn text_is(s: &String, lit: &str) -> (res: bool)
    ensures
        res == (s@ == lit@),
{
    *s == String::from_str(lit)
}

/// The extensions of the files that are scanned, lower-cased.
pub open spec fn audio_extension(ext: Seq<char>) -> bool {
    ext == "mp3"@ || ext == "flac"@ || ext == "wav"@ || ext == "ogg"@ || ext == "m4a"@
}

/// Whether a file with this extension is scanned: its lower-cased form is
/// one of `mp3`, `flac`, `wav`, `ogg` and `m4a`.
pub fn is_audio_extension(ext: &str) -> (res: bool)
    ensures
        res == audio_extension(lowercase(ext@)),
{
    let e = to_lowercase(ext);
    text_is(&e, "mp3") || text_is(&e, "flac") || text_is(&e, "wav") || text_is(&e, "ogg")
        || text_is(&e, "m4a")
}

/// A song as the cache table stores it.
pub struct CacheRow {
    pub id: String,
    pub path: String,
    pub title: String,
    pub artists_json: String,
    pub dur_ms: i64,
    pub mtime: i64,
    pub art_path: Option<String>,
}

/// The position of the last cache row stored for `path` (a later row for
/// the same path replaces an earlier one).
pub open spec fn last_row_for(rows: Seq<CacheRow>, path: Seq<char>) -> Option<int>
    decreases rows.len(),
{
    if rows.len() == 0 {
        None
    } else if rows.last().path@ == path {
        Some(rows.len() - 1)
    } else {
        last_row_for(rows.drop_last(), path)
    }
}

/// The row found for a path lies in the table and has that path.
pub proof fn lemma_last_row_for(rows: Seq<CacheRow>, path: Seq<char>)
    ensures
        last_row_for(rows, path) matches Some(r) ==> 0 <= r < rows.len() && rows[r].path@ == path,
    decreases rows.len(),
{
    if rows.len() > 0 && rows.last().path@ != path {
        lemma_last_row_for(rows.drop_last(), path);
    }
}

/// The last cache row stored for `path`, if any.
fn find_row(rows: &Vec<CacheRow>, path: &String) -> (res: Option<usize>)
    ensures
        res is None <==> last_row_for(rows@, path@) is None,
        res matches Some(r) ==> r < rows@.len() && last_row_for(rows@, path@) == Some(r as int),
{
    proof {
        lemma_last_row_for(rows@, path@);
    }
    let mut i: usize = rows.len();
    assert(rows@.take(i as int) =~= rows@);
    while i > 0
        invariant
            i <= rows@.len(),
            last_row_for(rows@, path@) == last_row_for(rows@.take(i as int), path@),
        decreases i,
    {
        assert(rows@.take(i as int).drop_last() =~= rows@.take(i - 1));
        if rows[i - 1].path == *path {
            return Some(i - 1);
        }
        i = i - 1;
    }
    None
}

/// What scanning a file decides.
pub enum FileScan {
    /// The cache describes the file as it is: the song it gives.
    Cached(SongMeta),
    /// The cache describes the file as it is, but under an identifier that
    /// does not parse: the file is left out.
    BadCachedId,
    /// The file is new or changed: its tags are to be read, and the song gets
    /// this identifier and keeps the thumbnail the cache knew of.
    Rescan { id: u128, art_path: Option<String> },
}

/// The song a cache row gives for the file at `path`, under identifier `id`.
pub open spec fn cached_song(row: CacheRow, id: u128, path: Seq<char>) -> crate::protocol::SongView {
    crate::protocol::SongView {
        id,
        title: row.title@,
        artists: match json_list(row.artists_json@) {
            Some(a) => a,
            None => Seq::empty(),
        },
        duration_ms: row.dur_ms as u64,
        path,
        art_path: opt_text(row.art_path),
    }
}

/// The song that a cache row describes for the file at `path`, under
/// identifier `id` and with artists `artists`.
pub open spec fn row_song(row: CacheRow, id: u128, artists: Seq<Seq<char>>, path: Seq<char>) -> crate::protocol::SongView {
    crate::protocol::SongView {
        id,
        title: row.title@,
        artists,
        duration_ms: row.dur_ms as u64,
        path,
        art_path: opt_text(row.art_path),
    }
}

/// Whether the cache row that describes the file at `path` with time
/// `mtime` was written for identifier `x` and artists `a`.
pub open spec fn written_for(cache: Seq<CacheRow>, path: Seq<char>, mtime: u64, x: u128, a: Seq<Seq<char>>) -> bool {
    match last_row_for(cache, path) {
        Some(r) => cache[r].mtime == mtime as i64 && cache[r].id@ == hyphenated(x) && json_text(a) == Some(cache[r].artists_json@),
        None => false,
    }
}

/// Decides what to do with a file found at `path` with modification time
/// `mtime`: the last cache row for the path describes it when it holds the
/// same time; otherwise the file is read again.
pub fn classify_file(path: &String, mtime: u64, cache: &Vec<CacheRow>) -> (res: FileScan)
    ensures
        match last_row_for(cache@, path@) {
            Some(r) => if cache@[r].mtime == mtime as i64 {
                match parsed_id(cache@[r].id@) {
                    Some(x) => res matches FileScan::Cached(m) && m@ == cached_song(cache@[r], x, path@),
                    None => res is BadCachedId,
                }
            } else {
                res matches FileScan::Rescan { id, art_path } && id == url_v5_id(encode_utf8(path@)) && opt_text(art_path) == opt_text(cache@[r].art_path)
            },
            None => res matches FileScan::Rescan { id, art_path } && id == url_v5_id(encode_utf8(path@)) && art_path is None,
        },
        forall|x: u128, a: Seq<Seq<char>>| #[trigger] written_for(cache@, path@, mtime, x, a) ==> (res matches FileScan::Cached(m) && m@ == row_song(cache@[last_row_for(cache@, path@).unwrap()], x, a, path@)),
{
    match find_row(cache, path) {
        Some(r) => {
            let row = &cache[r];
            if row.mtime == mtime as i64 {
                match parse_id(row.id.as_str()) {
                    Some(id) => {
                        let artists = match read_json_list(row.artists_json.as_str()) {
                            Some(a) => a,
                            None => Vec::new(),
                        };
                        let meta = SongMeta {
                            id,
                            title: row.title.clone(),
                            artists,
                            duration_ms: row.dur_ms as u64,
                            path: path.clone(),
                            art_path: copy_opt_string(&row.art_path),
                        };
                        assert(meta@.artists =~= cached_song(*row, id, path@).artists);
                        assert(meta@ =~= cached_song(cache@[r as int], id, path@));
                        FileScan::Cached(meta)
                    },
                    None => FileScan::BadCachedId,
                }
            } else {
                FileScan::Rescan { id: song_id_for_path(path.as_str()), art_path: copy_opt_string(&row.art_path) }
            }
        },
        None => FileScan::Rescan { id: song_id_for_path(path.as_str()), art_path: None },
    }
}

/// The pieces of `s` between the separators `sep`, as `str::split` gives
/// them (an empty text gives one empty piece).
pub open spec fn split_on(s: Seq<char>, sep: char) -> Seq<Seq<char>>
    decreases s.len(),
{
    if s.len() == 0 {
        seq![Seq::<char>::empty()]
    } else {
        let prev = split_on(s.drop_last(), sep);
        if s.last() == sep {
            prev.push(Seq::<char>::empty())
        } else {
            prev.update(prev.len() - 1, prev.last().push(s.last()))
        }
    }
}

/// There is always at least one piece.
pub proof fn lemma_split_on_len(s: Seq<char>, sep: char)
    ensures
        split_on(s, sep).len() >= 1,
    decreases s.len(),
{
    if s.len() > 0 {
        lemma_split_on_len(s.drop_last(), sep);
    }
}

/// Splits a text at each `sep`, as `str::split` does.
pub fn split_text(s: &str, sep: char) -> (res: Vec<String>)
    ensures
        texts(res@) == split_on(s@, sep),
{
    let chars = crate::text::chars_of(s);
    let mut pieces: Vec<Vec<char>> = Vec::new();
    let mut cur: Vec<char> = Vec::new();
    assert(chars@.take(0) =~= Seq::<char>::empty());
    for k in 0..chars.len()
        invariant
            chars@ == s@,
            pieces@.map_values(|p: Vec<char>| p@).push(cur@) == split_on(chars@.take(k as int), sep),
    {
        let ghost t = chars@.take(k + 1);
        proof {
            assert(t.drop_last() =~= chars@.take(k as int));
            assert(t.last() == chars@[k as int]);
            lemma_split_on_len(chars@.take(k as int), sep);
        }
        let ghost before = pieces@.map_values(|p: Vec<char>| p@).push(cur@);
        if chars[k] == sep {
            let done = cur;
            pieces.push(done);
            cur = Vec::new();
            assert(pieces@.map_values(|p: Vec<char>| p@).push(cur@) =~= before.push(Seq::<char>::empty()));
        } else {
            cur.push(chars[k]);
            assert(pieces@.map_values(|p: Vec<char>| p@).push(cur@) =~= before.update(before.len() - 1, before.last().push(chars@[k as int])));
        }
    }
    assert(chars@.take(chars@.len() as int) =~= chars@);
    let ghost all = pieces@.map_values(|p: Vec<char>| p@).push(cur@);
    let mut res: Vec<String> = Vec::new();
    for i in 0..pieces.len()
        invariant
            all == pieces@.map_values(|p: Vec<char>| p@).push(cur@),
            res@.len() == i,
            forall|j: int| 0 <= j < i ==> #[trigger] res@[j]@ == all[j],
    {
        res.push(crate::text::string_from_chars(&pieces[i]));
    }
    res.push(crate::text::string_from_chars(&cur));
    assert(texts(res@) =~= all);
    res
}

/// A field of a file's tags, with its key and value as text.
pub struct TagField {
    pub key: String,
    pub value: String,
}

/// The value of the last field whose lower-cased key is one of `k1` and
/// `k2` and whose value is not empty, or `default`.
pub open spec fn tag_value(fields: Seq<TagField>, k1: Seq<char>, k2: Seq<char>, default: Seq<char>) -> Seq<char>
    decreases fields.len(),
{
    if fields.len() == 0 {
        default
    } else {
        let f = fields.last();
        let key = lowercase(f.key@);
        if (key == k1 || key == k2) && f.value@.len() > 0 {
            f.value@
        } else {
            tag_value(fields.drop_last(), k1, k2, default)
        }
    }
}

/// What a file's tags say of a song.
pub struct SongTags {
    pub title: String,
    pub artists: Vec<String>,
    pub duration_ms: u64,
}

/// The title a file gets: its last non-empty `title` or `TIT2` field, or the
/// file's stem, or `Unknown`.
pub open spec fn tagged_title(stem: Option<String>, fields: Seq<TagField>) -> Seq<char> {
    tag_value(fields, "title"@, "tit2"@, match stem { Some(x) => x@, None => "Unknown"@ })
}

/// The artist text a file gets: its last non-empty `artist` or `TPE1`
/// field, or `Unknown`.
pub open spec fn tagged_artist(fields: Seq<TagField>) -> Seq<char> {
    tag_value(fields, "artist"@, "tpe1"@, "Unknown"@)
}

/// What the tags of a file say: the title, the artists (the artist text
/// split at `/`) and the length the decoder reported.
pub fn song_tags(stem: Option<String>, fields: &Vec<TagField>, duration_ms: u64) -> (res: SongTags)
    ensures
        res.title@ == tagged_title(stem, fields@),
        texts(res.artists@) == split_on(tagged_artist(fields@), '/'),
        res.duration_ms == duration_ms,
{
    let ghost st = stem;
    let mut title = match stem {
        Some(x) => x,
        None => String::from_str("Unknown"),
    };
    let mut artist = String::from_str("Unknown");
    assert(fields@.take(0) =~= Seq::<TagField>::empty());
    for i in 0..fields.len()
        invariant
            title@ == tagged_title(st, fields@.take(i as int)),
            artist@ == tagged_artist(fields@.take(i as int)),
    {
        proof {
            assert(fields@.take(i + 1).drop_last() =~= fields@.take(i as int));
            assert(fields@.take(i + 1).last() == fields@[i as int]);
            reveal_strlit("title");
            reveal_strlit("tit2");
            reveal_strlit("artist");
            reveal_strlit("tpe1");
            assert("title"@.len() == 5 && "artist"@.len() == 6);
            assert("tit2"@[1] == 'i' && "tpe1"@[1] == 'p' && "tit2"@.len() == 4);
        }
        let key = to_lowercase(fields[i].key.as_str());
        let nonempty = !fields[i].value.as_str().is_empty();
        if (text_is(&key, "title") || text_is(&key, "tit2")) && nonempty {
            title = fields[i].value.clone();
        } else if (text_is(&key, "artist") || text_is(&key, "tpe1")) && nonempty {
            artist = fields[i].value.clone();
        }
    }
    assert(fields@.take(fields@.len() as int) =~= fields@);
    let artists = split_text(artist.as_str(), '/');
    SongTags { title, artists, duration_ms }
}

/// A song to write into the cache table.
pub struct UpsertRow {
    pub id: String,
    pub path: String,
    pub title: String,
    pub artists_json: String,
    pub dur_ms: i64,
    pub mtime: i64,
    pub art_path: Option<String>,
}

/// The JSON text stored for a list of artists: what `serde_json` writes, or
/// `[]` should it fail.
pub open spec fn artists_json_text(artists: Seq<Seq<char>>) -> Seq<char> {
    match json_text(artists) {
        Some(t) => t,
        None => "[]"@,
    }
}

/// Files the decision about one scanned file: a cached song goes into the
/// index; a file read again (`tags`, if its tags could be read) goes into
/// the index and into the rows to write back to the cache.
pub fn apply_scan(
    index: &mut SongIndex,
    upserts: &mut Vec<UpsertRow>,
    path: &String,
    mtime: u64,
    decision: FileScan,
    tags: Option<SongTags>,
)
    requires
        index_wf(old(index)@),
    ensures
        index_wf(final(index)@),
        match decision {
            FileScan::Cached(m) => final(index)@ == old(index)@.insert(m.id, m) && final(upserts)@ == old(upserts)@,
            FileScan::BadCachedId => final(index)@ == old(index)@ && final(upserts)@ == old(upserts)@,
            FileScan::Rescan { id, art_path } => match tags {
                None => final(index)@ == old(index)@ && final(upserts)@ == old(upserts)@,
                Some(t) => {
                    &&& final(index)@.dom() == old(index)@.dom().insert(id)
                    &&& forall|k: u128| k != id && #[trigger] old(index)@.contains_key(k) ==> final(index)@[k] == old(index)@[k]
                    &&& final(index)@[id]@ == crate::protocol::SongView {
                        id,
                        title: t.title@,
                        artists: texts(t.artists@),
                        duration_ms: t.duration_ms,
                        path: path@,
                        art_path: opt_text(art_path),
                    }
                    &&& final(upserts)@.len() == old(upserts)@.len() + 1
                    &&& final(upserts)@.take(old(upserts)@.len() as int) == old(upserts)@
                    &&& final(upserts)@.last().id@ == hyphenated(id)
                    &&& final(upserts)@.last().path@ == path@
                    &&& final(upserts)@.last().title@ == t.title@
                    &&& final(upserts)@.last().artists_json@ == artists_json_text(texts(t.artists@))
                    &&& json_text(texts(t.artists@)) == Some(final(upserts)@.last().artists_json@)
                    &&& final(upserts)@.last().dur_ms == t.duration_ms as i64
                    &&& final(upserts)@.last().mtime == mtime as i64
                    &&& opt_text(final(upserts)@.last().art_path) == opt_text(art_path)
                },
            },
        },
{
    match decision {
        FileScan::Cached(m) => {
            index.insert(m.id, m);
        },
        FileScan::BadCachedId => {},
        FileScan::Rescan { id, art_path } => {
            match tags {
                Some(t) => {
                    let json = match write_json_list(&t.artists) {
                        Some(j) => j,
                        None => String::from_str("[]"),
                    };
                    let ghost u0 = upserts@;
                    upserts.push(UpsertRow {
                        id: id_text(id),
                        path: path.clone(),
                        title: t.title.clone(),
                        artists_json: json,
                        dur_ms: t.duration_ms as i64,
                        mtime: mtime as i64,
                        art_path: copy_opt_string(&art_path),
                    });
                    assert(upserts@.take(u0.len() as int) =~= u0);
                    let meta = SongMeta {
                        id,
                        title: t.title,
                        artists: t.artists,
                        duration_ms: t.duration_ms,
                        path: path.clone(),
                        art_path,
                    };
                    index.insert(id, meta);
                },
                None => {},
            }
        },
    }
}

/// The paths the cache still knows but the scan did not find, each once.
pub fn stale_paths(cache: &Vec<CacheRow>, found: &Vec<String>) -> (res: Vec<String>)
    ensures
        forall|i: int, j: int| 0 <= i < j < res@.len() ==> (#[trigger] res@[i])@ != (#[trigger] res@[j])@,
        forall|i: int| 0 <= i < res@.len() ==> is_stale(cache@, found@, (#[trigger] res@[i])@),
        forall|r: int| 0 <= r < cache@.len() && is_stale(cache@, found@, (#[trigger] cache@[r]).path@) ==> exists|i: int| 0 <= i < res@.len() && (#[trigger] res@[i])@ == cache@[r].path@,
{
    let mut res: Vec<String> = Vec::new();
    for r in 0..cache.len()
        invariant
            forall|i: int, j: int| 0 <= i < j < res@.len() ==> (#[trigger] res@[i])@ != (#[trigger] res@[j])@,
            forall|i: int| 0 <= i < res@.len() ==> is_stale(cache@, found@, (#[trigger] res@[i])@),
            forall|q: int| 0 <= q < r && is_stale(cache@, found@, (#[trigger] cache@[q]).path@) ==> exists|i: int| 0 <= i < res@.len() && (#[trigger] res@[i])@ == cache@[q].path@,
    {
        let p = &cache[r].path;
        let in_found = has_path(found, p);
        let known = has_path(&res, p);
        let ghost before = res@;
        if !in_found && !known {
            res.push(p.clone());
            proof {
                assert(is_stale(cache@, found@, p@)) by {
                    assert(cache@[r as int].path@ == p@);
                }
                assert forall|q: int| 0 <= q < r + 1 && is_stale(cache@, found@, (#[trigger] cache@[q]).path@) implies exists|i: int| 0 <= i < res@.len() && (#[trigger] res@[i])@ == cache@[q].path@ by {
                    if q < r {
                        let i = choose|i: int| 0 <= i < before.len() && (#[trigger] before[i])@ == cache@[q].path@;
                        assert(res@[i] == before[i]);
                    } else {
                        assert(res@[res@.len() - 1]@ == cache@[q].path@);
                    }
                }
                assert forall|i: int| 0 <= i < res@.len() implies is_stale(cache@, found@, (#[trigger] res@[i])@) by {
                    if i < before.len() {
                        assert(res@[i] == before[i]);
                    }
                }
                assert forall|i: int, j: int| 0 <= i < j < res@.len() implies (#[trigger] res@[i])@ != (#[trigger] res@[j])@ by {
                    if j == res@.len() - 1 {
                        assert(res@[i] == before[i]);
                    } else {
                        assert(res@[i] == before[i] && res@[j] == before[j]);
                    }
                }
            }
        } else {
            proof {
                assert forall|q: int| 0 <= q < r + 1 && is_stale(cache@, found@, (#[trigger] cache@[q]).path@) implies exists|i: int| 0 <= i < res@.len() && (#[trigger] res@[i])@ == cache@[q].path@ by {
                    if q == r {
                        assert(!in_found);
                        let i = choose|i: int| 0 <= i < res@.len() && (#[trigger] res@[i])@ == p@;
                    }
                }
            }
        }
    }
    res
}

/// Whether the cache knows `path` and the scan did not find it.
pub open spec fn is_stale(cache: Seq<CacheRow>, found: Seq<String>, path: Seq<char>) -> bool {
    &&& exists|r: int| 0 <= r < cache.len() && (#[trigger] cache[r]).path@ == path
    &&& forall|i: int| 0 <= i < found.len() ==> (#[trigger] found[i])@ != path
}

/// Whether one of `list` has the text of `p`.
fn has_path(list: &Vec<String>, p: &String) -> (res: bool)
    ensures
        res == exists|i: int| 0 <= i < list@.len() && (#[trigger] list@[i])@ == p@,
{
    let mut i: usize = 0;
    while i < list.len()
        invariant
            i <= list@.len(),
            forall|j: int| 0 <= j < i ==> (#[trigger] list@[j])@ != p@,
        decreases list@.len() - i,
    {
        if list[i] == *p {
            return true;
        }
        i = i + 1;
    }
    false
}

} // verus!
