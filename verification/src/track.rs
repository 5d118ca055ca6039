//! Track metadata rules: the filename fallback for missing titles, the
//! `X/Y` track and disc number notation, and the assembly of a track
//! record from whatever the tag reader handed over. The tag reading
//! itself happens outside this crate; these functions combine the
//! plain values that came of it.

use vstd::prelude::*;
use vstd::string::StrSliceExecFns;
use vstd::string::StringExecFns;

use crate::text::index_of_char;
use crate::text::last_index_of;
use crate::text::lemma_index_of_char_at;
use crate::text::lemma_last_index_of_at;
use crate::text::lower_of;
use crate::text::parse_i32_in;
use crate::text::parseable_i32;
use crate::text::parsed_i32;
use crate::text::str_to_chars;
use crate::text::to_lowercase_str;
use crate::text::trim_str;
use crate::text::trimmed;

verus! {

/// A track record as the library stores it, straight from a scan.
#[derive(Debug)]
pub struct TrackInsert {
    pub path: String,
    pub title: Option<String>,
    pub artist: Option<String>,
    pub album: Option<String>,
    pub album_artist: Option<String>,
    pub track_number: Option<i32>,
    pub disc_number: Option<i32>,
    pub duration: Option<i32>,
    pub album_art: Option<Vec<u8>>,
    pub track_cover: Option<Vec<u8>>,
    pub format: Option<String>,
    pub bitrate: Option<i32>,
    pub source_type: Option<String>,
    pub cover_url: Option<String>,
    pub external_id: Option<String>,
    pub content_hash: Option<String>,
    pub local_src: Option<String>,
}

/// What a caller asks for when saving a downloaded track: where the
/// audio comes from and goes to, and the tag values to write into it.
#[derive(Debug)]
pub struct DownloadAudioInput {
    pub url: String,
    pub path: String,
    pub title: Option<String>,
    pub artist: Option<String>,
    pub album: Option<String>,
    pub album_artist: Option<String>,
    pub track_number: Option<u32>,
    pub cover_url: Option<String>,
}

/// The extension of the file a path names: what follows the last dot
/// of its last component, when that dot is neither first nor last.
pub open spec fn spec_file_ext(path: Seq<char>) -> Option<Seq<char>> {
    let name = path.subrange(last_index_of(path, '/') + 1, path.len() as int);
    let dot = last_index_of(name, '.');
    if 0 < dot < name.len() - 1 {
        Some(name.subrange(dot + 1, name.len() as int))
    } else {
        None
    }
}

/// Whether an extension reads `aac` regardless of ASCII letter case.
pub open spec fn matches_aac(e: Seq<char>) -> bool {
    &&& e.len() == 3
    &&& (e[0] == 'a' || e[0] == 'A')
    &&& (e[1] == 'a' || e[1] == 'A')
    &&& (e[2] == 'c' || e[2] == 'C')
}

/// Whether a path names an AAC file, whatever the case of its
/// extension. Writing tags into AAC files tends to break playback, so
/// the metadata step is skipped for them.
pub fn is_aac_file(path: &str) -> (r: bool)
    ensures
        r == (match spec_file_ext(path@) {
            Some(e) => matches_aac(e),
            None => false,
        }),
{
    let n = path.unicode_len();
    let mut a: usize = n;
    while a > 0 && path.get_char(a - 1) != '/'
        invariant
            n == path@.len(),
            a <= n,
            forall|j: int| a <= j < n ==> path@[j] != '/',
        decreases a,
    {
        a = a - 1;
    }
    proof {
        if a == 0 {
            lemma_last_index_of_at(path@, '/', -1);
        } else {
            lemma_last_index_of_at(path@, '/', a as int - 1);
        }
    }
    let ghost name = path@.subrange(a as int, n as int);

    let mut d: usize = n;
    while d > a && path.get_char(d - 1) != '.'
        invariant
            n == path@.len(),
            a <= d <= n,
            forall|j: int| d <= j < n ==> path@[j] != '.',
        decreases d,
    {
        d = d - 1;
    }
    proof {
        assert(forall|j: int| 0 <= j < name.len() ==> name[j] == path@[j + a]);
        if d == a {
            lemma_last_index_of_at(name, '.', -1);
        } else {
            lemma_last_index_of_at(name, '.', d as int - 1 - a as int);
        }
    }
    if d - a <= 1 || d >= n {
        return false;
    }
    let ext = path.substring_char(d, n);
    proof {
        assert(ext@ =~= name.subrange(last_index_of(name, '.') + 1, name.len() as int));
    }
    if ext.unicode_len() != 3 {
        return false;
    }
    let c0 = ext.get_char(0);
    let c1 = ext.get_char(1);
    let c2 = ext.get_char(2);
    (c0 == 'a' || c0 == 'A') && (c1 == 'a' || c1 == 'A') && (c2 == 'c' || c2 == 'C')
}

/// The stem of the file a path names: the part after the last slash,
/// without the extension after its last dot. A dot in first position
/// marks a hidden file, not an extension. `None` when nothing follows
/// the last slash.
pub open spec fn spec_file_stem(path: Seq<char>) -> Option<Seq<char>> {
    let name = path.subrange(last_index_of(path, '/') + 1, path.len() as int);
    if name.len() == 0 {
        None
    } else {
        let dot = last_index_of(name, '.');
        if dot > 0 {
            Some(name.take(dot))
        } else {
            Some(name)
        }
    }
}

/// The filename a path names, without its directory or extension.
pub fn get_filename_without_ext(path: &str) -> (r: Option<String>)
    ensures
        r is Some <==> spec_file_stem(path@) is Some,
        r matches Some(stem) ==> Some(stem@) == spec_file_stem(path@),
{
    let n = path.unicode_len();
    let mut a: usize = n;
    while a > 0 && path.get_char(a - 1) != '/'
        invariant
            n == path@.len(),
            a <= n,
            forall|j: int| a <= j < n ==> path@[j] != '/',
        decreases a,
    {
        a = a - 1;
    }
    proof {
        if a == 0 {
            lemma_last_index_of_at(path@, '/', -1);
        } else {
            lemma_last_index_of_at(path@, '/', a as int - 1);
        }
    }
    let ghost name = path@.subrange(a as int, n as int);
    if a == n {
        return None;
    }

    let mut d: usize = n;
    while d > a && path.get_char(d - 1) != '.'
        invariant
            n == path@.len(),
            a <= d <= n,
            forall|j: int| d <= j < n ==> path@[j] != '.',
        decreases d,
    {
        d = d - 1;
    }
    proof {
        assert(forall|j: int| 0 <= j < name.len() ==> name[j] == path@[j + a]);
        if d == a {
            lemma_last_index_of_at(name, '.', -1);
        } else {
            lemma_last_index_of_at(name, '.', d as int - 1 - a as int);
        }
    }
    if d > a + 1 {
        let stem = path.substring_char(a, d - 1);
        proof {
            assert(stem@ =~= name.take(last_index_of(name, '.')));
        }
        Some(stem.to_owned())
    } else {
        let whole = path.substring_char(a, n);
        proof {
            assert(whole@ =~= name);
        }
        Some(whole.to_owned())
    }
}

/// The number an `X/Y`-style field denotes: the text before the first
/// slash (or all of it), trimmed and parsed as an `i32`.
pub open spec fn spec_index_number(s: Seq<char>) -> Option<int> {
    let head = s.take(index_of_char(s, '/') as int);
    let t = trimmed(head);
    if parseable_i32(t) {
        Some(parsed_i32(t))
    } else {
        None
    }
}

/// Read a track or disc number out of its tag text, which may carry a
/// total after a slash, as in `3/12`.
pub fn parse_index_number(s: &str) -> (r: Option<i32>)
    ensures
        r is Some <==> spec_index_number(s@) is Some,
        r matches Some(x) ==> Some(x as int) == spec_index_number(s@),
{
    let n = s.unicode_len();
    let mut k: usize = 0;
    while k < n && s.get_char(k) != '/'
        invariant
            n == s@.len(),
            k <= n,
            forall|j: int| 0 <= j < k ==> s@[j] != '/',
        decreases n - k,
    {
        k = k + 1;
    }
    proof {
        lemma_index_of_char_at(s@, '/', k as int);
    }
    let head = s.substring_char(0, k);
    proof {
        assert(head@ =~= s@.take(k as int));
    }
    let t = trim_str(head);
    let tc = str_to_chars(t.as_str());
    let len = tc.len();
    proof {
        assert(tc@.subrange(0, len as int) =~= trimmed(s@.take(k as int)));
    }
    parse_i32_in(&tc, 0, len)
}

/// A record with nothing but the path and the filename as its title,
/// used when a file yields no readable tags at all.
pub fn create_fallback_metadata(path: &str) -> (r: TrackInsert)
    ensures
        r.path@ == path@,
        r.title matches Some(t) ==> Some(t@) == spec_file_stem(path@),
        r.title is Some <==> spec_file_stem(path@) is Some,
        r.artist is None,
        r.album is None,
        r.album_artist is None,
        r.track_number is None,
        r.disc_number is None,
        r.duration is None,
        r.album_art is None,
        r.track_cover is None,
        r.format is None,
        r.bitrate is None,
        r.source_type is None,
        r.cover_url is None,
        r.external_id is None,
        r.content_hash is None,
        r.local_src is None,
{
    TrackInsert {
        path: path.to_owned(),
        title: get_filename_without_ext(path),
        artist: None,
        album: None,
        album_artist: None,
        track_number: None,
        disc_number: None,
        duration: None,
        album_art: None,
        track_cover: None,
        format: None,
        bitrate: None,
        source_type: None,
        cover_url: None,
        external_id: None,
        content_hash: None,
        local_src: None,
    }
}

/// The title a scan records: the tag's title, or the filename when the
/// tag has none.
pub fn resolve_title(path: &str, tag_title: Option<String>) -> (r: Option<String>)
    ensures
        tag_title matches Some(t) ==> r matches Some(x) && x@ == t@,
        tag_title is None ==> {
            &&& r is Some <==> spec_file_stem(path@) is Some
            &&& (r matches Some(x) ==> Some(x@) == spec_file_stem(path@))
        },
{
    match tag_title {
        Some(t) => Some(t),
        None => get_filename_without_ext(path),
    }
}

/// The album artist a scan records: the tag's album artist, or the
/// track artist when the tag has none.
pub fn resolve_album_artist(album_artist: Option<String>, artist: &Option<String>) -> (r: Option<
    String,
>)
    ensures
        album_artist matches Some(a) ==> r matches Some(x) && x@ == a@,
        album_artist is None ==> (artist matches Some(a) ==> r matches Some(x) && x@ == a@),
        album_artist is None && artist is None ==> r is None,
{
    match album_artist {
        Some(a) => Some(a),
        None => match artist {
            Some(a) => Some(a.clone()),
            None => None,
        },
    }
}

/// The track or disc number a scan records: the tag's numeric field,
/// or the number read out of its `X/Y` text form.
pub fn resolve_index_number(numeric: Option<i32>, text: Option<&String>) -> (r: Option<i32>)
    ensures
        numeric matches Some(x) ==> r == Some(x),
        numeric is None ==> (match text {
            Some(t) => {
                &&& r is Some <==> spec_index_number(t@) is Some
                &&& (r matches Some(x) ==> Some(x as int) == spec_index_number(t@))
            },
            None => r is None,
        }),
{
    match numeric {
        Some(x) => Some(x),
        None => match text {
            Some(t) => parse_index_number(t.as_str()),
            None => None,
        },
    }
}

/// The text whose digest identifies a track's content: title, artist
/// and album, trimmed and lowercased, and the duration in seconds,
/// joined by pipes. Missing fields contribute nothing between their
/// pipes.
pub open spec fn spec_content_hash_input(
    title: Option<Seq<char>>,
    artist: Option<Seq<char>>,
    album: Option<Seq<char>>,
    duration: Option<Seq<char>>,
) -> Seq<char> {
    let t = lower_of(trimmed(opt_or_empty(title)));
    let a = lower_of(trimmed(opt_or_empty(artist)));
    let al = lower_of(trimmed(opt_or_empty(album)));
    let d = opt_or_empty(duration);
    t + "|"@ + a + "|"@ + al + "|"@ + d
}

/// The sequence an optional text stands for: itself, or nothing.
pub open spec fn opt_or_empty(s: Option<Seq<char>>) -> Seq<char> {
    match s {
        Some(x) => x,
        None => Seq::empty(),
    }
}

/// Build the normalized text whose digest identifies a track. An
/// unknown duration contributes empty text.
pub fn content_hash_input(
    title: Option<&String>,
    artist: Option<&String>,
    album: Option<&String>,
    duration: Option<i32>,
) -> (r: String)
    ensures
        r@ == spec_content_hash_input(
            match title {
                Some(t) => Some(t@),
                None => None,
            },
            match artist {
                Some(a) => Some(a@),
                None => None,
            },
            match album {
                Some(a) => Some(a@),
                None => None,
            },
            match duration {
                Some(d) => Some(crate::text::spec_i32_string(d as int)),
                None => None,
            },
        ),
{
    let t = normalized_field(title);
    let a = normalized_field(artist);
    let al = normalized_field(album);
    let d: String = match duration {
        Some(x) => crate::text::i32_to_decimal(x),
        None => String::new(),
    };
    t.concat("|").concat(a.as_str()).concat("|").concat(al.as_str()).concat("|").concat(d.as_str())
}

/// One field of the content-hash text: trimmed and lowercased, empty
/// when missing.
fn normalized_field(field: Option<&String>) -> (r: String)
    ensures
        r@ == lower_of(trimmed(opt_or_empty(match field {
            Some(f) => Some(f@),
            None => None,
        }))),
{
    match field {
        Some(f) => {
            let trimmed_field = trim_str(f.as_str());
            to_lowercase_str(trimmed_field.as_str())
        },
        None => {
            let empty = String::new();
            let trimmed_empty = trim_str(empty.as_str());
            to_lowercase_str(trimmed_empty.as_str())
        },
    }
}

} // verus!
