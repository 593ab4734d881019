//! Album art: where thumbnails go, and how pictures travel to clients.

use base64::Engine;
use image::imageops::FilterType;
use image::ImageFormat;
use vstd::prelude::*;

use crate::ids::{hyphenated, id_text};
use crate::library::{index_wf, SongIndex};
use crate::protocol::{opt_text, ErrorReply, SongMeta, SongView};

verus! {

/// The URL-safe Base64 text (with padding) of some bytes, as
/// `base64::prelude::BASE64_URL_SAFE.encode` writes it.
pub uninterp spec fn base64_url(data: Seq<u8>) -> Seq<char>;

/// What `base64::prelude::BASE64_URL_SAFE.decode` gives for a text.
pub uninterp spec fn base64_url_decoded(text: Seq<char>) -> Option<Seq<u8>>;

/// The filters that `image::imageops::resize` offers.
#[derive(Clone, Copy, Debug, PartialEq, Eq, Structural)]
pub enum ResizeFilter {
    Nearest,
    Triangle,
    CatmullRom,
    Gaussian,
    Lanczos3,
}

/// The formats a thumbnail can be written in.
#[derive(Clone, Copy, Debug, PartialEq, Eq, Structural)]
pub enum PictureFormat {
    Jpeg,
    Png,
}

/// The side of a thumbnail, in pixels.
pub const THUMBNAIL_SIDE: u32 = 100;

/// The thumbnail of a picture as the `image` crate makes it. This one name
/// stands for a pipeline of the crate's calls, not a single function:
/// `ImageReader::with_guessed_format`, `decode`, `into_rgb8`,
/// `imageops::resize` to `width` x `height` with `filter`, and `write_to` in
/// `format`; `None` when a step fails.
pub uninterp spec fn thumbnail_of(picture: Seq<u8>, width: u32, height: u32, filter: ResizeFilter, format: PictureFormat) -> Option<Seq<u8>>;

/// The bytes of an optional vector.
pub open spec fn opt_bytes(o: Option<Vec<u8>>) -> Option<Seq<u8>> {
    match o {
        Some(v) => Some(v@),
        None => None,
    }
}

/// Encodes bytes with `BASE64_URL_SAFE.encode`. Trusted: the result is
/// `base64_url` of the bytes. `requires` keeps the length far from where the
/// encoder's size computation overflows and panics.
#[verifier::external_body]
fn encode_base64_url(data: &[u8]) -> (res: String)
    requires
        data@.len() <= usize::MAX / 2,
    ensures
        res@ == base64_url(data@),
{
    base64::prelude::BASE64_URL_SAFE.encode(data)
}

/// Decodes a text with `BASE64_URL_SAFE.decode`. Trusted: the result is
/// `base64_url_decoded` of the text, and decoding what the encoder wrote
/// gives the encoded bytes back (the engine's documented round trip).
#[verifier::external_body]
fn decode_base64_url(text: &str) -> (res: Option<Vec<u8>>)
    ensures
        opt_bytes(res) == base64_url_decoded(text@),
        forall|b: Seq<u8>| #[trigger] base64_url(b) == text@ ==> opt_bytes(res) == Some(b),
{
    base64::prelude::BASE64_URL_SAFE.decode(text).ok()
}

/// Makes a thumbnail with the `image` crate (`ImageReader::with_guessed_format`,
/// `decode`, `into_rgb8`, `imageops::resize`, `write_to`). Trusted: the
/// result is `thumbnail_of` the picture and the settings, a function of
/// those alone. `requires` keeps the sizes small enough that the buffers
/// `resize` allocates cannot overflow `usize` (`ImageBuffer::new` panics
/// then).
#[verifier::external_body]
fn make_thumbnail(picture: &[u8], width: u32, height: u32, filter: ResizeFilter, format: PictureFormat) -> (res: Option<Vec<u8>>)
    requires
        width <= 4096,
        height <= 4096,
    ensures
        opt_bytes(res) == thumbnail_of(picture@, width, height, filter, format),
{
    let f = match filter {
        ResizeFilter::Nearest => FilterType::Nearest,
        ResizeFilter::Triangle => FilterType::Triangle,
        ResizeFilter::CatmullRom => FilterType::CatmullRom,
        ResizeFilter::Gaussian => FilterType::Gaussian,
        ResizeFilter::Lanczos3 => FilterType::Lanczos3,
    };
    let fmt = match format { PictureFormat::Jpeg => ImageFormat::Jpeg, PictureFormat::Png => ImageFormat::Png };
    let img = image::ImageReader::new(std::io::Cursor::new(picture)).with_guessed_format().ok()?.decode().ok()?;
    let mut out = std::io::Cursor::new(Vec::new());
    image::imageops::resize(&img.into_rgb8(), width, height, f).write_to(&mut out, fmt).ok()?;
    Some(out.into_inner())
}

/// The pixels of a picture as `image::load_from_memory` decodes it and
/// `to_rgba8` converts it: width, height and the RGBA bytes row by row;
/// `None` when the bytes do not decode.
pub uninterp spec fn rgba_of(data: Seq<u8>) -> Option<(u32, u32, Seq<u8>)>;

/// Decodes album art for display with `image::load_from_memory` and
/// `DynamicImage::to_rgba8`. Trusted: the result is `rgba_of` the bytes,
/// and the pixel buffer holds four bytes for each of the width times height
/// pixels (the `ImageBuffer` invariant).
#[verifier::external_body]
pub fn album_art_from_data(data: &[u8]) -> (res: Option<(u32, u32, Vec<u8>)>)
    ensures
        match res {
            Some((w, h, px)) => rgba_of(data@) == Some((w, h, px@)) && px@.len() == (w as int) * (h as int) * 4,
            None => rgba_of(data@) is None,
        },
{
    let rgba = image::load_from_memory(data).ok()?.to_rgba8();
    Some((rgba.width(), rgba.height(), rgba.into_raw()))
}

/// The directory that holds the thumbnails.
pub open spec fn art_dir() -> Seq<char> {
    "/tmp/aurora-player"@
}

/// The file that holds a song's thumbnail.
pub open spec fn art_file_text(id: u128) -> Seq<char> {
    "/tmp/aurora-player/"@ + hyphenated(id) + ".jpg"@
}

/// The file that holds a song's thumbnail: `/tmp/aurora-player/<id>.jpg`.
pub fn art_file(id: u128) -> (res: String)
    ensures
        res@ == art_file_text(id),
{
    let mut path = String::from_str("/tmp/aurora-player/");
    let text = id_text(id);
    path.append(text.as_str());
    path.append(".jpg");
    path
}

/// The audio file to take a song's album art from: the song must be in the
/// library and have no thumbnail yet.
pub fn art_source(index: &SongIndex, id: u128) -> (res: Option<String>)
    ensures
        res is Some <==> (index@.contains_key(id) && index@[id].art_path is None),
        res matches Some(p) ==> p@ == index@[id].path@,
{
    match index.get(&id) {
        Some(m) => if m.art_path.is_none() { Some(m.path.clone()) } else { None },
        None => None,
    }
}

/// The thumbnail to write for a song, and where: given the first picture of
/// the song's tag, the JPEG thumbnail and the song's art file, when the
/// picture decodes.
pub fn art_thumbnail(id: u128, picture: &Vec<u8>) -> (res: Option<(String, Vec<u8>)>)
    ensures
        match res {
            Some((path, jpeg)) => path@ == art_file_text(id) && thumbnail_of(picture@, THUMBNAIL_SIDE, THUMBNAIL_SIDE, ResizeFilter::Nearest, PictureFormat::Jpeg) == Some(jpeg@),
            None => thumbnail_of(picture@, THUMBNAIL_SIDE, THUMBNAIL_SIDE, ResizeFilter::Nearest, PictureFormat::Jpeg) is None,
        },
{
    match make_thumbnail(picture.as_slice(), THUMBNAIL_SIDE, THUMBNAIL_SIDE, ResizeFilter::Nearest, PictureFormat::Jpeg) {
        Some(jpeg) => Some((art_file(id), jpeg)),
        None => None,
    }
}

/// Records where a song's thumbnail was written.
pub fn record_art(index: &mut SongIndex, id: u128, path: String)
    requires
        index_wf(old(index)@),
    ensures
        index_wf(final(index)@),
        old(index)@.contains_key(id) ==> final(index)@ == old(index)@.insert(id, SongMeta { art_path: Some(path), ..old(index)@[id] }),
        !old(index)@.contains_key(id) ==> final(index)@ == old(index)@,
{
    match index.remove(&id) {
        Some(mut m) => {
            m.art_path = Some(path);
            index.insert(id, m);
            assert(final(index)@ =~= old(index)@.insert(id, SongMeta { art_path: Some(path), ..old(index)@[id] }));
        },
        None => {},
    }
}

/// What the tag of a song's file holds, as far as album art goes.
pub enum TagPictures {
    /// The file's tags could not be read.
    Unreadable,
    /// The file has no primary tag.
    NoTag,
    /// The pictures of the primary tag, in order.
    Pictures(Vec<Vec<u8>>),
}

/// The message of the error answered when album art is asked for an unknown
/// song.
pub open spec fn no_art_song_message(id: u128) -> Seq<char> {
    "There this no song with the id `"@ + hyphenated(id) + "`"@
}

/// The audio file to read album art from for a client, or the error to
/// answer for an unknown song.
pub fn album_art_source(index: &SongIndex, id: u128) -> (res: Result<String, ErrorReply>)
    ensures
        index@.contains_key(id) ==> (res matches Ok(p) && p@ == index@[id].path@),
        !index@.contains_key(id) ==> (res matches Err(e) && e.err_id == 1 && e.err_msg@ == no_art_song_message(id)),
{
    match index.get(&id) {
        Some(m) => Ok(m.path.clone()),
        None => {
            let mut msg = String::from_str("There this no song with the id `");
            let text = id_text(id);
            msg.append(text.as_str());
            msg.append("`");
            Err(ErrorReply { err_id: 1, err_msg: msg })
        },
    }
}

/// The message of the error answered when a file's tags cannot be read.
pub open spec fn unreadable_message() -> Seq<char> {
    "Could not open file metadata."@
}

/// The album-art answer for a client: the first picture of the tag as
/// URL-safe Base64, nothing without a tag, or the unreadable-file error.
pub fn album_art_reply(tags: &TagPictures) -> (res: Result<Option<String>, ErrorReply>)
    requires
        tags matches TagPictures::Pictures(p) ==> p@.len() > 0 && p@[0]@.len() <= usize::MAX / 2,
    ensures
        match *tags {
            TagPictures::Unreadable => res matches Err(e) && e.err_id == 2 && e.err_msg@ == unreadable_message(),
            TagPictures::NoTag => res matches Ok(None),
            TagPictures::Pictures(p) => res matches Ok(Some(data)) && data@ == base64_url(p@[0]@),
        },
{
    match tags {
        TagPictures::Unreadable => Err(ErrorReply { err_id: 2, err_msg: String::from_str("Could not open file metadata.") }),
        TagPictures::NoTag => Ok(None),
        TagPictures::Pictures(p) => Ok(Some(encode_base64_url(p[0].as_slice()))),
    }
}

/// The picture bytes of an album-art answer, when its text decodes.
pub fn picture_bytes(data: &str) -> (res: Option<Vec<u8>>)
    ensures
        opt_bytes(res) == base64_url_decoded(data@),
        forall|b: Seq<u8>| #[trigger] base64_url(b) == data@ ==> opt_bytes(res) == Some(b),
{
    decode_base64_url(data)
}

} // verus!
