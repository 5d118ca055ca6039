//! Rich-presence rules: what text, timestamps and artwork a presence
//! update shows for a playing track. The connection to the presence
//! service lives outside this crate; these functions decide every field
//! of the update.

use vstd::prelude::*;
use vstd::string::StrSliceExecFns;
use vstd::string::StringExecFns;

use crate::text::byte_len_exceeds;
use crate::text::spec_starts_with;
use crate::text::str_byte_len;
use crate::text::str_starts_with;
use crate::text::trim_str;
use crate::text::trimmed;
use crate::text::truncate_to_bytes;
use crate::text::truncated_to_bytes;

verus! {

/// The longest text the presence service accepts, in bytes.
pub const MAX_DISCORD_TEXT_LENGTH: usize = 128;

/// The shortest text the presence service accepts, in bytes.
pub const MIN_DISCORD_TEXT_LENGTH: usize = 2;

/// What a presence update describes: the track, its timing, and the
/// artwork to show.
#[derive(Debug)]
pub struct PresenceData {
    pub song_title: String,
    pub artist: String,
    pub album: Option<String>,
    pub large_text: Option<String>,
    pub cover_url: Option<String>,
    pub current_time: Option<u64>,
    pub duration: Option<u64>,
    pub is_playing: bool,
    pub show_pause_icon: bool,
    pub status_display_text: String,
}

/// Whether a cover URL is usable: it must name an http or https
/// resource.
pub fn is_valid_url(url: &str) -> (r: bool)
    ensures
        r == (spec_starts_with(url@, "http://"@) || spec_starts_with(url@, "https://"@)),
{
    str_starts_with(url, "http://") || str_starts_with(url, "https://")
}

/// A nonempty trimmed text made presentable: cut to the length cap with
/// an ellipsis when it runs over, padded by one space when it falls
/// under the minimum.
pub open spec fn spec_sanitize_trimmed(t: Seq<char>) -> Seq<char> {
    let r = if str_byte_len(t) > MAX_DISCORD_TEXT_LENGTH as int {
        truncated_to_bytes(t, MAX_DISCORD_TEXT_LENGTH as int - 3) + "..."@
    } else {
        t
    };
    if str_byte_len(r) < MIN_DISCORD_TEXT_LENGTH as int {
        r.push(' ')
    } else {
        r
    }
}

/// What `sanitize_text` returns: the trimmed input made presentable,
/// or, when it trims to nothing, the trimmed fallback, or the word
/// `Unknown` when that is empty too.
pub open spec fn spec_sanitize(input: Seq<char>, fallback: Seq<char>) -> Seq<char> {
    let t = trimmed(input);
    if t.len() == 0 {
        let f = trimmed(fallback);
        if f.len() == 0 {
            "Unknown"@
        } else {
            spec_sanitize_trimmed(f)
        }
    } else {
        spec_sanitize_trimmed(t)
    }
}

/// Make a nonempty trimmed text presentable.
fn sanitize_trimmed(t: String) -> (r: String)
    ensures
        r@ == spec_sanitize_trimmed(t@),
{
    let mut result: String = if byte_len_exceeds(t.as_str(), MAX_DISCORD_TEXT_LENGTH) {
        let cut = truncate_to_bytes(t.as_str(), MAX_DISCORD_TEXT_LENGTH - 3);
        cut.concat("...")
    } else {
        t
    };
    if !byte_len_exceeds(result.as_str(), MIN_DISCORD_TEXT_LENGTH - 1) {
        result.append(" ");
        proof {
            reveal_strlit(" ");
            assert(" "@ =~= seq![' ']);
        }
    }
    result
}

/// Clean a text for the presence service: trim it, fall back to
/// `fallback` (or `Unknown`) when it is blank, cut it to the length cap
/// with an ellipsis, and pad it to the minimum length.
pub fn sanitize_text(input: &str, fallback: &str) -> (r: String)
    ensures
        r@ == spec_sanitize(input@, fallback@),
{
    let t = trim_str(input);
    if t.as_str().unicode_len() == 0 {
        let f = trim_str(fallback);
        if f.as_str().unicode_len() == 0 {
            return "Unknown".to_owned();
        }
        sanitize_trimmed(f)
    } else {
        sanitize_trimmed(t)
    }
}

/// The timestamps a presence update carries: none without a known
/// duration, a start-and-end range while playing, and a bare start
/// while paused.
#[derive(Clone, Copy, Debug, PartialEq, Eq, Structural)]
pub enum PresenceTimes {
    NoTimes,
    StartOnly(i64),
    Range(i64, i64),
}

/// Every decided field of one presence update.
#[derive(Debug)]
pub struct PresencePlan {
    /// The details line: the sanitized track title.
    pub details: String,
    /// The state line: the sanitized artist, with the sanitized album
    /// appended after a dot separator when one is known.
    pub state_text: String,
    /// The sanitized custom status, shown as the activity name when the
    /// raw status text is not blank.
    pub activity_name: Option<String>,
    pub times: PresenceTimes,
    /// The cover to show as the large image; the application logo is
    /// shown when this is absent.
    pub large_image_cover: Option<String>,
    pub large_text: String,
    /// The small logo overlay, shown only when the large image is a
    /// cover.
    pub show_small_logo: bool,
}

/// The state line: artist, with the album appended when known.
pub open spec fn spec_state_text(d: PresenceData) -> Seq<char> {
    match d.album {
        Some(a) => spec_sanitize(d.artist@, "Unknown Artist"@) + " \u{2022} "@ + spec_sanitize(
            a@,
            "Unknown Album"@,
        ),
        None => spec_sanitize(d.artist@, "Unknown Artist"@),
    }
}

/// The hover text of the large image: the explicit large text when it
/// is not blank, else the album, else the track title.
pub open spec fn spec_large_text_content(d: PresenceData) -> Seq<char> {
    let from_album_or_title = match d.album {
        Some(a) => spec_sanitize(a@, "Unknown Album"@),
        None => spec_sanitize(d.song_title@, "Unknown Track"@),
    };
    match d.large_text {
        Some(lt) => if trimmed(lt@).len() > 0 {
            spec_sanitize(lt@, "Unknown"@)
        } else {
            from_album_or_title
        },
        None => from_album_or_title,
    }
}

/// The timestamps: with a known nonzero duration, a playing track
/// shows the span it occupies on the clock, and a paused one shows
/// only the current instant; without one, nothing.
pub open spec fn spec_presence_times(d: PresenceData, now_ms: i64) -> PresenceTimes {
    let cur = match d.current_time {
        Some(c) => c as int,
        None => 0,
    };
    let dur = match d.duration {
        Some(x) => x as int,
        None => 0,
    };
    if dur > 0 {
        if d.is_playing {
            PresenceTimes::Range((now_ms - cur) as i64, (now_ms - cur + dur) as i64)
        } else {
            PresenceTimes::StartOnly(now_ms)
        }
    } else {
        PresenceTimes::NoTimes
    }
}

/// Whether the update shows the cover as its large image: a cover URL
/// is present and names an http or https resource.
pub open spec fn spec_shows_cover(d: PresenceData) -> bool {
    match d.cover_url {
        Some(c) => spec_starts_with(c@, "http://"@) || spec_starts_with(c@, "https://"@),
        None => false,
    }
}

/// Decide every field of a presence update for `d` at clock reading
/// `now_ms` (milliseconds since the epoch).
pub fn presence_plan(d: &PresenceData, now_ms: i64) -> (r: PresencePlan)
    requires
        now_ms >= 0,
        d.current_time matches Some(c) ==> c <= i64::MAX as u64,
        d.duration matches Some(x) ==> now_ms + x <= i64::MAX,
    ensures
        r.details@ == spec_sanitize(d.song_title@, "Unknown Track"@),
        r.state_text@ == spec_state_text(*d),
        r.activity_name is Some <==> trimmed(d.status_display_text@).len() > 0,
        r.activity_name matches Some(a) ==> a@ == spec_sanitize(
            d.status_display_text@,
            "Audion"@,
        ),
        r.times == spec_presence_times(*d, now_ms),
        r.large_image_cover is Some <==> spec_shows_cover(*d),
        r.large_image_cover matches Some(c) ==> Some(c@) == (match d.cover_url {
            Some(u) => Some(u@),
            None => None::<Seq<char>>,
        }),
        r.large_text@ == (if spec_shows_cover(*d) && !(d.is_playing || !d.show_pause_icon) {
            "\u{23f8} "@
        } else {
            spec_large_text_content(*d)
        }),
        r.show_small_logo == spec_shows_cover(*d),
{
    let details = sanitize_text(d.song_title.as_str(), "Unknown Track");

    let state_text: String = match &d.album {
        Some(album) => {
            let artist_part = sanitize_text(d.artist.as_str(), "Unknown Artist");
            let album_part = sanitize_text(album.as_str(), "Unknown Album");
            artist_part.concat(" \u{2022} ").concat(album_part.as_str())
        },
        None => sanitize_text(d.artist.as_str(), "Unknown Artist"),
    };

    let status_trimmed = trim_str(d.status_display_text.as_str());
    let activity_name: Option<String> = if status_trimmed.as_str().unicode_len() > 0 {
        Some(sanitize_text(d.status_display_text.as_str(), "Audion"))
    } else {
        None
    };

    let cur: i64 = match d.current_time {
        Some(c) => c as i64,
        None => 0,
    };
    let dur: i64 = match d.duration {
        Some(x) => x as i64,
        None => 0,
    };
    let times: PresenceTimes = if dur > 0 {
        if d.is_playing {
            let start = now_ms - cur;
            PresenceTimes::Range(start, start + dur)
        } else {
            PresenceTimes::StartOnly(now_ms)
        }
    } else {
        PresenceTimes::NoTimes
    };

    let large_text_content: String = match &d.large_text {
        Some(lt) => {
            let lt_trimmed = trim_str(lt.as_str());
            if lt_trimmed.as_str().unicode_len() > 0 {
                sanitize_text(lt.as_str(), "Unknown")
            } else {
                match &d.album {
                    Some(album) => sanitize_text(album.as_str(), "Unknown Album"),
                    None => sanitize_text(d.song_title.as_str(), "Unknown Track"),
                }
            }
        },
        None => {
            match &d.album {
                Some(album) => sanitize_text(album.as_str(), "Unknown Album"),
                None => sanitize_text(d.song_title.as_str(), "Unknown Track"),
            }
        },
    };

    let mut large_image_cover: Option<String> = None;
    let mut large_text: String = large_text_content;
    let mut show_small_logo = false;
    match &d.cover_url {
        Some(cover) => {
            if is_valid_url(cover.as_str()) {
                large_image_cover = Some(cover.clone());
                show_small_logo = true;
                if !(d.is_playing || !d.show_pause_icon) {
                    large_text = "\u{23f8} ".to_owned();
                }
            }
        },
        None => {
        },
    }

    PresencePlan {
        details,
        state_text,
        activity_name,
        times,
        large_image_cover,
        large_text,
        show_small_logo,
    }
}

} // verus!
