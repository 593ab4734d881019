//! What the player windows show: shortened texts, durations, the order of
//! the queue list, theme colours, search requests and album art requests.

use std::collections::HashMap;
use vstd::prelude::*;

use crate::art::{base64_url, picture_bytes};
use crate::protocol::{texts, SearchType, Song};
use crate::text::{chars_of, string_from_chars};

verus! {

/// `s` cut to at most `max` characters, an ellipsis marking the cut.
pub open spec fn truncated(s: Seq<char>, max: nat) -> Seq<char> {
    if s.len() <= max {
        s
    } else if max == 0 {
        Seq::empty()
    } else if max == 1 {
        seq!['…']
    } else {
        s.take(max - 1).push('…')
    }
}

/// Cuts a text to at most `max_len` characters: a longer text keeps its
/// first `max_len - 1` characters and ends with `…`.
pub fn truncate(s: &str, max_len: usize) -> (res: String)
    ensures
        res@ == truncated(s@, max_len as nat),
{
    let chars = chars_of(s);
    if chars.len() <= max_len {
        return string_from_chars(&chars);
    }
    if max_len == 0 {
        return String::new();
    }
    let mut kept: Vec<char> = Vec::new();
    let keep = max_len - 1;
    for i in 0..keep
        invariant
            keep < chars@.len(),
            kept@ == chars@.take(i as int),
    {
        assert(chars@.take(i + 1) =~= chars@.take(i as int).push(chars@[i as int]));
        kept.push(chars[i]);
    }
    kept.push('…');
    proof {
        if max_len == 1 {
            assert(kept@ =~= seq!['…']);
        }
    }
    string_from_chars(&kept)
}

/// The texts joined with `sep` between them.
pub open spec fn joined(list: Seq<Seq<char>>, sep: Seq<char>) -> Seq<char>
    decreases list.len(),
{
    if list.len() == 0 {
        Seq::empty()
    } else if list.len() == 1 {
        list[0]
    } else {
        joined(list.drop_last(), sep) + sep + list.last()
    }
}

/// Joins strings with `sep` between them, as `join` on a slice does.
pub fn join(list: &Vec<String>, sep: &str) -> (res: String)
    ensures
        res@ == joined(texts(list@), sep@),
{
    let ghost t = texts(list@);
    let mut res = String::new();
    assert(t.take(0) =~= Seq::<Seq<char>>::empty());
    for i in 0..list.len()
        invariant
            t == texts(list@),
            res@ == joined(t.take(i as int), sep@),
    {
        assert(t.take(i + 1).drop_last() =~= t.take(i as int));
        assert(t.take(i + 1).last() == list@[i as int]@);
        if i != 0 {
            res.append(sep);
        }
        res.append(list[i].as_str());
        proof {
            if i == 0 {
                assert(t.take(1).len() == 1);
                assert(res@ =~= t.take(1)[0]);
            }
        }
    }
    assert(t.take(list@.len() as int) =~= t);
    res
}

/// The two lines of the now-playing box: the title cut to 25 characters
/// and the artists joined with ` ,` cut to 40, or `Nothing Playing` and
/// `No Artists`.
pub fn now_playing_lines(current: &Option<Song>) -> (res: (String, String))
    ensures
        match *current {
            Some(s) => res.0@ == truncated(s.title@, 25) && res.1@ == truncated(joined(texts(s.artists@), " ,"@), 40),
            None => res.0@ == "Nothing Playing"@ && res.1@ == "No Artists"@,
        },
{
    match current {
        Some(s) => {
            let artists = join(&s.artists, " ,");
            (truncate(s.title.as_str(), 25), truncate(artists.as_str(), 40))
        },
        None => (String::from_str("Nothing Playing"), String::from_str("No Artists")),
    }
}

/// The title and artist texts of the main view: the song's title and its
/// artists joined with ` ,`, or `Nothing Playing` and nothing.
pub fn main_view_texts(current: &Option<Song>) -> (res: (String, String))
    ensures
        match *current {
            Some(s) => res.0@ == s.title@ && res.1@ == joined(texts(s.artists@), " ,"@),
            None => res.0@ == "Nothing Playing"@ && res.1@.len() == 0,
        },
{
    match current {
        Some(s) => (s.title.clone(), join(&s.artists, " ,")),
        None => (String::from_str("Nothing Playing"), String::new()),
    }
}

/// The title and artist texts of the player bar: the song's title and its
/// artists joined with `, `, or `Nothing Playing` and `No Artist`.
pub fn status_texts(current: &Option<Song>) -> (res: (String, String))
    ensures
        match *current {
            Some(s) => res.0@ == s.title@ && res.1@ == joined(texts(s.artists@), ", "@),
            None => res.0@ == "Nothing Playing"@ && res.1@ == "No Artist"@,
        },
{
    match current {
        Some(s) => (s.title.clone(), join(&s.artists, ", ")),
        None => (String::from_str("Nothing Playing"), String::from_str("No Artist")),
    }
}

/// The places of the queue that the queue list shows, top to bottom: the
/// songs after the current one and then those before it, last first.
pub open spec fn display_places(len: nat, current: nat) -> Seq<int> {
    (Seq::new((if current + 1 <= len { len - current - 1 } else { 0 }) as nat, |i: int| current + 1 + i)
        + Seq::new((if current <= len { current } else { len }) as nat, |i: int| i)).reverse()
}

/// The places of the queue that the queue list shows, top to bottom.
pub fn display_order(len: usize, current: usize) -> (res: Vec<usize>)
    requires
        current < usize::MAX,
    ensures
        res@.map_values(|i: usize| i as int) == display_places(len as nat, current as nat),
{
    let mut order: Vec<usize> = Vec::new();
    let mut i = current + 1;
    while i < len
        invariant
            current + 1 <= i,
            i <= len || i == current + 1,
            order@.len() == i - current - 1,
            forall|k: int| 0 <= k < order@.len() ==> order@[k] == current + 1 + k,
        decreases len - i,
    {
        order.push(i);
        i = i + 1;
    }
    let after = order.len();
    let before = if current < len { current } else { len };
    for j in 0..before
        invariant
            order@.len() == after + j,
            forall|k: int| 0 <= k < after ==> order@[k] == current + 1 + k,
            forall|k: int| #![trigger order@[after + k]] 0 <= k < j ==> order@[after + k] == k,
    {
        order.push(j);
    }
    let mut res: Vec<usize> = Vec::new();
    let mut k = order.len();
    while k > 0
        invariant
            k <= order@.len(),
            res@.len() == order@.len() - k,
            forall|m: int| 0 <= m < res@.len() ==> res@[m] == order@[order@.len() - 1 - m],
        decreases k,
    {
        k = k - 1;
        res.push(order[k]);
    }
    proof {
        let a = Seq::new((if current + 1 <= len { len - current - 1 } else { 0 }) as nat, |i: int| current + 1 + i);
        let b = Seq::new((if current <= len { current } else { len }) as nat, |i: int| i);
        let o = order@.map_values(|i: usize| i as int);
        assert(after == a.len());
        assert forall|m: int| 0 <= m < o.len() implies o[m] == (a + b)[m] by {
            if m >= after {
                assert(order@[after + (m - after)] == m - after);
            }
        }
        assert(o =~= a + b);
        assert(res@.map_values(|i: usize| i as int) =~= o.reverse());
    }
    res
}

/// The value of a hexadecimal digit.
pub open spec fn hex_value(c: char) -> Option<int> {
    if '0' <= c && c <= '9' {
        Some(c as int - 48)
    } else if 'a' <= c && c <= 'f' {
        Some(c as int - 87)
    } else if 'A' <= c && c <= 'F' {
        Some(c as int - 55)
    } else {
        None
    }
}

/// What `u8::from_str_radix` reads in base 16 from two characters: two
/// digits, or a `+` and one digit.
pub open spec fn byte_of(c0: char, c1: char) -> Option<int> {
    if c0 == '+' {
        hex_value(c1)
    } else {
        match (hex_value(c0), hex_value(c1)) {
            (Some(a), Some(b)) => Some(a * 16 + b),
            _ => None,
        }
    }
}

/// How many `#` a text begins with.
pub open spec fn leading_hashes(s: Seq<char>) -> int
    decreases s.len(),
{
    if s.len() > 0 && s[0] == '#' {
        1 + leading_hashes(s.drop_first())
    } else {
        0
    }
}

/// A colour text that the theme reader accepts: after its leading `#`s come
/// six ASCII characters that read as three bytes.
pub open spec fn colour_ok(s: Seq<char>) -> bool {
    let t = s.skip(leading_hashes(s));
    &&& t.len() >= 6
    &&& forall|i: int| 0 <= i < 6 ==> (t[i] as int) < 128
    &&& byte_of(t[0], t[1]) is Some
    &&& byte_of(t[2], t[3]) is Some
    &&& byte_of(t[4], t[5]) is Some
}

/// The value of one hexadecimal digit.
fn hex_digit(c: char) -> (res: Option<u8>)
    ensures
        match hex_value(c) {
            Some(v) => res == Some(v as u8),
            None => res is None,
        },
{
    if '0' <= c && c <= '9' {
        Some((c as u32 - 48) as u8)
    } else if 'a' <= c && c <= 'f' {
        Some((c as u32 - 87) as u8)
    } else if 'A' <= c && c <= 'F' {
        Some((c as u32 - 55) as u8)
    } else {
        None
    }
}

/// Reads a byte from two characters as `u8::from_str_radix` in base 16.
fn read_byte(c0: char, c1: char) -> (res: Option<u8>)
    ensures
        match byte_of(c0, c1) {
            Some(v) => res == Some(v as u8),
            None => res is None,
        },
{
    if c0 == '+' {
        hex_digit(c1)
    } else {
        match (hex_digit(c0), hex_digit(c1)) {
            (Some(a), Some(b)) => Some(a * 16 + b),
            _ => None,
        }
    }
}

/// The red, green and blue bytes of a theme colour such as `#1e1e2e`.
pub fn hex_to_rgb(hex: &str) -> (res: (u8, u8, u8))
    requires
        colour_ok(hex@),
    ensures
        ({
            let t = hex@.skip(leading_hashes(hex@));
            &&& byte_of(t[0], t[1]) == Some(res.0 as int)
            &&& byte_of(t[2], t[3]) == Some(res.1 as int)
            &&& byte_of(t[4], t[5]) == Some(res.2 as int)
        }),
{
    let chars = chars_of(hex);
    let mut start: usize = 0;
    assert(hex@.skip(0) =~= hex@);
    while start < chars.len() && chars[start] == '#'
        invariant
            start <= chars@.len(),
            chars@ == hex@,
            leading_hashes(hex@) == start + leading_hashes(hex@.skip(start as int)),
        decreases chars@.len() - start,
    {
        assert(hex@.skip(start as int).drop_first() =~= hex@.skip(start + 1));
        start = start + 1;
    }
    proof {
        assert(leading_hashes(hex@.skip(start as int)) == 0);
    }
    let ghost t = hex@.skip(start as int);
    assert(t[0] == chars@[start as int] && t[5] == chars@[start + 5]);
    let r = read_byte(chars[start], chars[start + 1]).unwrap();
    let g = read_byte(chars[start + 2], chars[start + 3]).unwrap();
    let b = read_byte(chars[start + 4], chars[start + 5]).unwrap();
    (r, g, b)
}

/// The characters that `char::is_whitespace` accepts: Unicode's
/// White_Space property.
pub open spec fn white_space(c: char) -> bool {
    let n = c as u32;
    ||| 9 <= n <= 13
    ||| n == 32 || n == 0x85 || n == 0xA0 || n == 0x1680
    ||| 0x2000 <= n <= 0x200A
    ||| n == 0x2028 || n == 0x2029 || n == 0x202F || n == 0x205F || n == 0x3000
}

/// A text without its leading white space.
pub open spec fn trim_start(s: Seq<char>) -> Seq<char>
    decreases s.len(),
{
    if s.len() > 0 && white_space(s[0]) {
        trim_start(s.drop_first())
    } else {
        s
    }
}

/// A text without its trailing white space.
pub open spec fn trim_end(s: Seq<char>) -> Seq<char>
    decreases s.len(),
{
    if s.len() > 0 && white_space(s.last()) {
        trim_end(s.drop_last())
    } else {
        s
    }
}

/// The trimmed form of a text, as `str::trim` gives it: white space removed
/// at both ends.
pub open spec fn trimmed(s: Seq<char>) -> Seq<char> {
    trim_end(trim_start(s))
}

/// Whether a character is white space, as `char::is_whitespace` answers.
fn is_white_space(c: char) -> (res: bool)
    ensures
        res == white_space(c),
{
    let n = c as u32;
    (9 <= n && n <= 13) || n == 32 || n == 0x85 || n == 0xA0 || n == 0x1680
        || (0x2000 <= n && n <= 0x200A) || n == 0x2028 || n == 0x2029 || n == 0x202F
        || n == 0x205F || n == 0x3000
}

/// Trims a text as `str::trim` does: white space removed at both ends.
fn trim_text(s: &str) -> (res: String)
    ensures
        res@ == trimmed(s@),
{
    let chars = chars_of(s);
    let len = chars.len();
    let mut start: usize = 0;
    assert(s@.skip(0) =~= s@);
    while start < len && is_white_space(chars[start])
        invariant
            start <= len,
            len == s@.len(),
            chars@ == s@,
            trim_start(s@) == trim_start(s@.skip(start as int)),
        decreases len - start,
    {
        assert(s@.skip(start as int).drop_first() =~= s@.skip(start + 1));
        start = start + 1;
    }
    let ghost u = s@.skip(start as int);
    assert(trim_start(s@) == u);
    let mut end: usize = len;
    assert(s@.subrange(start as int, len as int) =~= u);
    while end > start && is_white_space(chars[end - 1])
        invariant
            start <= end <= len,
            len == s@.len(),
            chars@ == s@,
            u == s@.skip(start as int),
            trim_end(u) == trim_end(s@.subrange(start as int, end as int)),
        decreases end,
    {
        assert(s@.subrange(start as int, end as int).drop_last() =~= s@.subrange(start as int, end - 1));
        end = end - 1;
    }
    assert(trim_end(u) == s@.subrange(start as int, end as int));
    let mut out: Vec<char> = Vec::new();
    for i in start..end
        invariant
            start <= end <= len,
            start <= i <= end,
            len == s@.len(),
            chars@ == s@,
            out@ == s@.subrange(start as int, i as int),
    {
        assert(s@.subrange(start as int, i + 1) =~= s@.subrange(start as int, i as int).push(s@[i as int]));
        out.push(chars[i]);
    }
    string_from_chars(&out)
}

/// The length in bytes of a text in UTF-8, as `str::len` reports it.
pub open spec fn byte_count(t: Seq<char>) -> usize {
    vstd::utf8::encode_utf8(t).len() as usize
}

/// The search a query asks for, once trimmed: one longer than two bytes, or
/// a non-empty one when the search is forced. `By Artist` mode searches
/// artists, any other searches titles.
pub fn search_request(query: &str, mode: &str, forced: bool) -> (res: Option<SearchType>)
    ensures
        ({
            let t = trimmed(query@);
            if byte_count(t) > 2 || (t.len() > 0 && forced) {
                if mode@ == "By Artist"@ {
                    res matches Some(SearchType::ByArtist(q)) && q@ == t
                } else {
                    res matches Some(SearchType::ByTitle(q)) && q@ == t
                }
            } else {
                res is None
            }
        }),
{
    let t = trim_text(query);
    let long = t.as_str().len() > 2;
    let nonempty = !t.as_str().is_empty();
    if long || (nonempty && forced) {
        if crate::scan::text_is(&String::from_str(mode), "By Artist") {
            Some(SearchType::ByArtist(t))
        } else {
            Some(SearchType::ByTitle(t))
        }
    } else {
        None
    }
}

/// The title a playlist is created or renamed with: the trimmed name, or
/// nothing when that is empty.
pub fn playlist_title(name: &str) -> (res: Option<String>)
    ensures
        trimmed(name@).len() == 0 ==> res is None,
        trimmed(name@).len() > 0 ==> (res matches Some(t) && t@ == trimmed(name@)),
{
    let t = trim_text(name);
    if t.as_str().is_empty() {
        None
    } else {
        Some(t)
    }
}

/// The album art a player window holds, and the requests it has out.
pub struct ArtCache {
    pub pictures: HashMap<u128, Vec<u8>>,
    pub pending: Vec<u128>,
}

impl ArtCache {
    /// An empty cache with no request out.
    pub fn new() -> (res: ArtCache)
        ensures
            res.pictures@ == Map::<u128, Vec<u8>>::empty(),
            res.pending@ == Seq::<u128>::empty(),
    {
        ArtCache { pictures: HashMap::new(), pending: Vec::new() }
    }

    /// Whether to ask the daemon for a song's album art: it is neither held
    /// nor asked for yet.
    pub fn wants(&self, id: u128) -> (res: bool)
        ensures
            res == (!self.pictures@.contains_key(id) && !self.pending@.contains(id)),
    {
        if self.pictures.contains_key(&id) {
            return false;
        }
        let mut i: usize = 0;
        while i < self.pending.len()
            invariant
                i <= self.pending@.len(),
                forall|j: int| 0 <= j < i ==> self.pending@[j] != id,
            decreases self.pending@.len() - i,
        {
            if self.pending[i] == id {
                return false;
            }
            i = i + 1;
        }
        true
    }

    /// Files the album art the daemon sent for a song, when its text decodes.
    /// What the daemon encoded from some bytes is held as those bytes.
    pub fn receive(&mut self, id: u128, data: &str)
        ensures
            final(self).pending@ == old(self).pending@,
            forall|b: Seq<u8>| #[trigger] base64_url(b) == data@ ==> final(self).pictures@.contains_key(id) && final(self).pictures@[id]@ == b,
            crate::art::base64_url_decoded(data@) is None ==> final(self).pictures@ == old(self).pictures@,
            crate::art::base64_url_decoded(data@) matches Some(b) ==> final(self).pictures@.dom() == old(self).pictures@.dom().insert(id) && final(self).pictures@[id]@ == b,
            crate::art::base64_url_decoded(data@) is Some ==> forall|k: u128| #![trigger old(self).pictures@[k]] k != id && old(self).pictures@.contains_key(k) ==> final(self).pictures@[k] == old(self).pictures@[k],
    {
        match picture_bytes(data) {
            Some(bytes) => {
                self.pictures.insert(id, bytes);
            },
            None => {},
        }
    }
}

/// The decimal digits of `n`.
pub open spec fn decimal(n: nat) -> Seq<char>
    decreases n,
{
    if n < 10 {
        seq![(48 + n) as char]
    } else {
        decimal(n / 10).push((48 + n % 10) as char)
    }
}

/// The character of a decimal digit.
fn digit_char(d: u64) -> (res: char)
    requires
        d < 10,
    ensures
        res == (48 + d) as char,
{
    match d {
        0 => '0',
        1 => '1',
        2 => '2',
        3 => '3',
        4 => '4',
        5 => '5',
        6 => '6',
        7 => '7',
        8 => '8',
        _ => '9',
    }
}

/// Appends the decimal digits of `n`.
fn push_decimal(out: &mut Vec<char>, n: u64)
    ensures
        final(out)@ == old(out)@ + decimal(n as nat),
    decreases n,
{
    if n >= 10 {
        push_decimal(out, n / 10);
    }
    out.push(digit_char(n % 10));
    assert(final(out)@ =~= old(out)@ + decimal(n as nat));
}

/// A length as the song lists show it: whole minutes, a colon, and the
/// seconds as two digits, such as `3:07`.
pub open spec fn duration_text(ms: u64) -> Seq<char> {
    let total = ms / 1000;
    let s = total % 60;
    decimal((total / 60) as nat) + seq![':'] + if s < 10 { seq!['0'] + decimal(s as nat) } else { decimal(s as nat) }
}

/// Formats a length given in milliseconds as `m:ss`.
pub fn format_duration(ms: u64) -> (res: String)
    ensures
        res@ == duration_text(ms),
{
    let total = ms / 1000;
    let m = total / 60;
    let s = total % 60;
    let mut out: Vec<char> = Vec::new();
    push_decimal(&mut out, m);
    out.push(':');
    if s < 10 {
        out.push('0');
    }
    push_decimal(&mut out, s);
    assert(out@ =~= duration_text(ms));
    string_from_chars(&out)
}

} // verus!
