//! The values the daemon keeps and hands to its clients.

use vstd::prelude::*;

verus! {

/// A song of the library, as the index keeps it.
#[derive(Clone, Debug)]
pub struct SongMeta {
    pub id: u128,
    pub title: String,
    pub artists: Vec<String>,
    /// Length of the song in milliseconds.
    pub duration_ms: u64,
    /// Where the audio file lies.
    pub path: String,
    /// Where a thumbnail of the album art was written, once it was.
    pub art_path: Option<String>,
}

/// The mathematical value of a [`SongMeta`].
#[verifier::ext_equal]
pub struct SongView {
    pub id: u128,
    pub title: Seq<char>,
    pub artists: Seq<Seq<char>>,
    pub duration_ms: u64,
    pub path: Seq<char>,
    pub art_path: Option<Seq<char>>,
}

/// The texts of a list of strings.
pub open spec fn texts(v: Seq<String>) -> Seq<Seq<char>> {
    v.map_values(|s: String| s@)
}

/// The text of an optional string.
pub open spec fn opt_text(o: Option<String>) -> Option<Seq<char>> {
    match o {
        Some(s) => Some(s@),
        None => None,
    }
}

impl View for SongMeta {
    type V = SongView;

    open spec fn view(&self) -> SongView {
        SongView {
            id: self.id,
            title: self.title@,
            artists: texts(self.artists@),
            duration_ms: self.duration_ms,
            path: self.path@,
            art_path: opt_text(self.art_path),
        }
    }
}

/// The views of a sequence of songs.
pub open spec fn metas_view(s: Seq<SongMeta>) -> Seq<SongView> {
    s.map_values(|m: SongMeta| m@)
}

/// A copy of a list of strings with the same texts.
pub fn copy_strings(v: &Vec<String>) -> (res: Vec<String>)
    ensures
        texts(res@) == texts(v@),
{
    let mut res: Vec<String> = Vec::new();
    for i in 0..v.len()
        invariant
            res@.len() == i,
            forall|j: int| 0 <= j < i ==> #[trigger] res@[j]@ == v@[j]@,
    {
        res.push(v[i].clone());
    }
    assert(texts(res@) =~= texts(v@));
    res
}

/// A copy of an optional string with the same text.
pub fn copy_opt_string(o: &Option<String>) -> (res: Option<String>)
    ensures
        opt_text(res) == opt_text(*o),
{
    match o {
        Some(s) => Some(s.clone()),
        None => None,
    }
}

impl SongMeta {
    /// A copy of this song with the same value.
    pub fn duplicate(&self) -> (res: SongMeta)
        ensures
            res@ == self@,
    {
        SongMeta {
            id: self.id,
            title: self.title.clone(),
            artists: copy_strings(&self.artists),
            duration_ms: self.duration_ms,
            path: self.path.clone(),
            art_path: copy_opt_string(&self.art_path),
        }
    }
}

/// A song as the clients see it.
#[derive(Clone, Debug)]
pub struct Song {
    pub id: u128,
    pub title: String,
    pub artists: Vec<String>,
    pub duration_ms: u64,
    pub art_path: Option<String>,
    pub liked: bool,
}

/// The mathematical value of a [`Song`].
#[verifier::ext_equal]
pub struct SongEntry {
    pub id: u128,
    pub title: Seq<char>,
    pub artists: Seq<Seq<char>>,
    pub duration_ms: u64,
    pub art_path: Option<Seq<char>>,
    pub liked: bool,
}

impl View for Song {
    type V = SongEntry;

    open spec fn view(&self) -> SongEntry {
        SongEntry {
            id: self.id,
            title: self.title@,
            artists: texts(self.artists@),
            duration_ms: self.duration_ms,
            art_path: opt_text(self.art_path),
            liked: self.liked,
        }
    }
}

/// The client's view of a library song, not yet marked as liked.
pub open spec fn entry_of(m: SongView) -> SongEntry {
    SongEntry {
        id: m.id,
        title: m.title,
        artists: m.artists,
        duration_ms: m.duration_ms,
        art_path: m.art_path,
        liked: false,
    }
}

/// The views of a sequence of client songs.
pub open spec fn songs_view(s: Seq<Song>) -> Seq<SongEntry> {
    s.map_values(|x: Song| x@)
}

impl Song {
    /// The client's view of a library song.
    pub fn from_meta(meta: &SongMeta) -> (res: Song)
        ensures
            res@ == entry_of(meta@),
    {
        Song {
            id: meta.id,
            title: meta.title.clone(),
            artists: copy_strings(&meta.artists),
            duration_ms: meta.duration_ms,
            art_path: copy_opt_string(&meta.art_path),
            liked: false,
        }
    }
}

/// The client songs of a sequence of library songs, in the same order.
pub fn songs_of(metas: &Vec<SongMeta>) -> (res: Vec<Song>)
    ensures
        songs_view(res@) == metas_view(metas@).map_values(|m: SongView| entry_of(m)),
{
    let mut res: Vec<Song> = Vec::new();
    for i in 0..metas.len()
        invariant
            res@.len() == i,
            forall|j: int| 0 <= j < i ==> #[trigger] res@[j]@ == entry_of(metas@[j]@),
    {
        res.push(Song::from_meta(&metas[i]));
    }
    assert(songs_view(res@) =~= metas_view(metas@).map_values(|m: SongView| entry_of(m)));
    res
}

/// What `next` and `prev` report.
#[derive(Clone, Copy, Debug, PartialEq, Eq, Structural)]
pub enum GetReturn {
    /// A current song was chosen from the queue.
    Done,
    QueueEmpty,
}

/// A command for the task that owns a client's connection.
#[derive(Clone, Debug)]
pub enum TcpCommand {
    Send(Vec<u8>),
    Disconnect,
}

/// A command for the task that owns the daemon socket.
#[derive(Clone, Debug)]
pub enum UnixSocketCommand {
    Send(Vec<u8>),
    Disconnect,
}

/// An error answer to a client: a code and a message.
#[derive(Clone, Debug)]
pub struct ErrorReply {
    pub err_id: u32,
    pub err_msg: String,
}

/// How a search matches songs.
#[derive(Clone, Debug)]
pub enum SearchType {
    ByTitle(String),
    ByArtist(String),
}

/// A playlist as the playlist list shows it.
#[derive(Clone, Debug)]
pub struct PlaylistMinimal {
    pub id: u128,
    pub name: String,
    pub len: usize,
    pub art_paths: Vec<Option<String>>,
}

/// A playlist with its songs.
#[derive(Clone, Debug)]
pub struct Playlist {
    pub id: u128,
    pub title: String,
    pub songs: Vec<Song>,
}

/// The colours of the user interface, as `#rrggbb` texts.
#[derive(Clone, Debug)]
pub struct Theme {
    pub bgd0: String,
    pub bgd1: String,
    pub bgd2: String,
    pub bgd3: String,
    pub bgd4: String,
    pub txt1: String,
    pub txt2: String,
    pub acct: String,
    pub srch: String,
    pub btns: String,
}

} // verus!
