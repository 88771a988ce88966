//! What is shown on Discord for a track, and the bookkeeping of the Discord
//! connection (lazy connect, reconnect after a failed send). The IPC itself is
//! the caller's.

use vstd::prelude::*;
use crate::players::Track;
use crate::text::str_concat;

verus! {

/// The project's page, linked from the presence.
pub const GITHUB_URL: &'static str = "https://github.com/AZNitro/NetEase-Cloud-Music-DiscordRPC";

/// The bundled image key, used as the small image and when a track has no cover.
pub const FALLBACK_IMAGE: &'static str = "timg";

pub const LISTEN_LABEL: &'static str = "🎧 Listen";
pub const GITHUB_LABEL: &'static str = "👏 View App on GitHub";

/// A Discord "Listening" activity.
pub struct Presence {
    pub details: String,
    pub state: String,
    /// Unix seconds at which the track (virtually) started.
    pub start: i64,
    /// Unix seconds at which it ends, when its length is known.
    pub end: Option<i64>,
    pub large_image: String,
    pub large_text: Option<String>,
    pub small_image: String,
    pub small_text: String,
    /// (label, url) of each button, in order.
    pub buttons: Vec<(String, String)>,
}

pub open spec fn details_of(title: Seq<char>) -> Seq<char> {
    "🎵 "@ + title
}

pub open spec fn state_of(artists: Seq<char>) -> Seq<char> {
    "🎤 "@ + artists
}

pub open spec fn album_text_of(album: Seq<char>) -> Seq<char> {
    "💿 "@ + album
}

/// Law: the presence's lines show the whole title, the whole artists string
/// (every artist, commas included) and the whole album, each after its
/// two-char prefix (an emoji and a space).
pub proof fn law_presence_lines_show_whole_fields(title: Seq<char>, artists: Seq<char>, album: Seq<char>)
    ensures
        details_of(title) == seq!['\u{1F3B5}', ' '] + title,
        state_of(artists) == seq!['\u{1F3A4}', ' '] + artists,
        album_text_of(album) == seq!['\u{1F4BF}', ' '] + album,
        state_of(artists).len() == artists.len() + 2,
        state_of(artists).skip(2) == artists,
{
    reveal_strlit("🎵 ");
    reveal_strlit("🎤 ");
    reveal_strlit("💿 ");
    assert(state_of(artists).skip(2) =~= artists);
}

/// The presence of `track`, shown under `brand`, at `now` (Unix seconds),
/// `position` seconds into the track, with its length `length` seconds when
/// `has_length` (a count-up timer otherwise). Discord needs a non-empty image
/// key and rejects empty button URLs: a track without a cover shows the bundled
/// image, and one without a URL has no "Listen" button. The album line is
/// only set for a non-empty album.
pub fn presence_for(
    track: &Track,
    brand: &str,
    now: i64,
    position: i64,
    length: i64,
    has_length: bool,
) -> (r: Presence)
    ensures
        r.details@ == details_of(track.title@),
        r.state@ == state_of(track.artists@),
        r.details@ == "🎵 "@ + track.title@,
        r.state@ == "🎤 "@ + track.artists@,
        r.start == now.wrapping_sub(position),
        r.end == (if has_length {
            Some(now.wrapping_sub(position).wrapping_add(length))
        } else {
            None::<i64>
        }),
        r.large_image@ == (if track.cover@.len() == 0 {
            FALLBACK_IMAGE@
        } else {
            track.cover@
        }),
        match r.large_text {
            Some(t) => track.album@.len() > 0 && t@ == album_text_of(track.album@) && t@ == "💿 "@
                + track.album@,
            None => track.album@.len() == 0,
        },
        r.small_image@ == FALLBACK_IMAGE@,
        r.small_text@ == brand@,
        track.url@.len() > 0 ==> r.buttons@.len() == 2 && r.buttons@[0].0@ == LISTEN_LABEL@
            && r.buttons@[0].1@ == track.url@ && r.buttons@[1].0@ == GITHUB_LABEL@
            && r.buttons@[1].1@ == GITHUB_URL@,
        track.url@.len() == 0 ==> r.buttons@.len() == 1 && r.buttons@[0].0@ == GITHUB_LABEL@
            && r.buttons@[0].1@ == GITHUB_URL@,
{
    let start = now.wrapping_sub(position);
    let end = if has_length {
        Some(start.wrapping_add(length))
    } else {
        None
    };
    let details = str_concat("🎵 ", track.title.as_str());
    let state = str_concat("🎤 ", track.artists.as_str());
    let large_image = if track.cover.as_str().is_empty() {
        String::from_str(FALLBACK_IMAGE)
    } else {
        track.cover.clone()
    };
    let large_text = if track.album.as_str().is_empty() {
        None
    } else {
        Some(str_concat("💿 ", track.album.as_str()))
    };
    let mut buttons: Vec<(String, String)> = Vec::new();
    if !track.url.as_str().is_empty() {
        buttons.push((String::from_str(LISTEN_LABEL), track.url.clone()));
    }
    buttons.push((String::from_str(GITHUB_LABEL), String::from_str(GITHUB_URL)));
    Presence {
        details,
        state,
        start,
        end,
        large_image,
        large_text,
        small_image: String::from_str(FALLBACK_IMAGE),
        small_text: String::from_str(brand),
        buttons,
    }
}

/// The page linked from the two-player console build's presence.
pub const CONSOLE_GITHUB_URL: &'static str = "https://github.com/Kxnrl/NetEase-Cloud-Music-DiscordRPC";

/// The brand of the two-player console build's presence.
pub const CONSOLE_BRAND: &'static str = "NetEase CloudMusic";

/// The presence of `track` as the two-player console build shows it: always a
/// start-to-end bar (`now - position` to that plus `length`), the album line,
/// the cover as the large image and both buttons (linking [`CONSOLE_GITHUB_URL`]), under [`CONSOLE_BRAND`].
pub fn console_presence(track: &Track, now: i64, position: i64, length: i64) -> (r: Presence)
    ensures
        r.details@ == details_of(track.title@),
        r.state@ == state_of(track.artists@),
        r.details@ == "🎵 "@ + track.title@,
        r.state@ == "🎤 "@ + track.artists@,
        r.start == now.wrapping_sub(position),
        r.end == Some(now.wrapping_sub(position).wrapping_add(length)),
        r.large_image@ == track.cover@,
        r.large_text matches Some(t) && t@ == album_text_of(track.album@) && t@ == "💿 "@
            + track.album@,
        r.small_image@ == FALLBACK_IMAGE@,
        r.small_text@ == CONSOLE_BRAND@,
        r.buttons@.len() == 2,
        r.buttons@[0].0@ == LISTEN_LABEL@ && r.buttons@[0].1@ == track.url@,
        r.buttons@[1].0@ == GITHUB_LABEL@ && r.buttons@[1].1@ == CONSOLE_GITHUB_URL@,
{
    let start = now.wrapping_sub(position);
    let mut buttons: Vec<(String, String)> = Vec::new();
    buttons.push((String::from_str(LISTEN_LABEL), track.url.clone()));
    buttons.push((String::from_str(GITHUB_LABEL), String::from_str(CONSOLE_GITHUB_URL)));
    Presence {
        details: str_concat("🎵 ", track.title.as_str()),
        state: str_concat("🎤 ", track.artists.as_str()),
        start,
        end: Some(start.wrapping_add(length)),
        large_image: track.cover.clone(),
        large_text: Some(str_concat("💿 ", track.album.as_str())),
        small_image: String::from_str(FALLBACK_IMAGE),
        small_text: String::from_str(CONSOLE_BRAND),
        buttons,
    }
}

/// Whether the Discord connection is believed up.
pub struct RpcLink {
    connected: bool,
}

impl RpcLink {
    pub closed spec fn connected(&self) -> bool {
        self.connected
    }

    /// Not connected yet.
    pub fn new() -> (r: Self)
        ensures
            !r.connected(),
    {
        RpcLink { connected: false }
    }

    /// Whether a connect attempt is needed before sending.
    pub fn needs_connect(&self) -> (r: bool)
        ensures
            r == !self.connected(),
    {
        !self.connected
    }

    /// Record a connect attempt; returns whether the link is up.
    pub fn connect_finished(&mut self, ok: bool) -> (r: bool)
        ensures
            final(self).connected() == (old(self).connected() || ok),
            r == final(self).connected(),
    {
        if ok {
            self.connected = true;
        }
        self.connected
    }

    /// Whether clearing the activity is to be sent (only over a live link).
    pub fn should_send_clear(&self) -> (r: bool)
        ensures
            r == self.connected(),
    {
        self.connected
    }

    /// Record the outcome of sending an activity or a clear: a failure marks
    /// the link down so the next update reconnects first.
    pub fn send_finished(&mut self, ok: bool)
        ensures
            final(self).connected() == (old(self).connected() && ok),
    {
        if !ok {
            self.connected = false;
        }
    }
}

/// Unix time in whole seconds from the time elapsed since the epoch (`None`
/// when the clock is before it, which counts as 0).
pub fn unix_seconds(since_epoch_secs: Option<u64>) -> (r: i64)
    ensures
        r == match since_epoch_secs {
            Some(s) => s as i64,
            None => 0,
        },
{
    match since_epoch_secs {
        Some(s) => s as i64,
        None => 0,
    }
}

} // verus!
