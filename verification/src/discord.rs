//! What the Discord Rich Presence activity shows, and the album-art cache
//! behind it.

use vstd::prelude::*;
use crate::session::{Action, ActionView, SessionState, SessionView, actions_view};
use crate::text::{chars_of, split, spec_split, parse_i64, spec_parse_i64};
use crate::progress::in_i64;

verus! {

/// The text fields of the "Listening" activity.
pub struct ActivityFields {
    pub details: String,
    pub state: String,
    pub large_image: String,
    pub large_text: String,
    pub small_image: String,
    pub small_text: String,
}

/// The activity for a session: the title as details, the artist as state,
/// the album art with the album name, and the application's own icon.
pub fn discord_activity(session: &SessionState) -> (res: ActivityFields)
    ensures
        res.details@ == session@.title,
        res.state@ == session@.artist,
        res.large_image@ == session@.album_art,
        res.large_text@ == session@.album,
        res.small_image@ == "uiplay"@,
        res.small_text@ == "UiPlay"@,
{
    ActivityFields {
        details: session.title.clone(),
        state: session.artist.clone(),
        large_image: session.album_art.clone(),
        large_text: session.album.clone(),
        small_image: "uiplay".to_owned(),
        small_text: "UiPlay".to_owned(),
    }
}

/// `minutes:seconds` (no white space allowed) in seconds; parts after the
/// second are ignored.
pub open spec fn spec_parse_min_sec(s: Seq<char>) -> Option<int> {
    let parts = spec_split(s, ':');
    if parts.len() < 2 {
        None
    } else {
        match (spec_parse_i64(parts[0]), spec_parse_i64(parts[1])) {
            (Some(m), Some(sec)) => Some(m * 60 + sec),
            _ => None,
        }
    }
}

/// Where reading `s` as `minutes:seconds` stays within `i64`: both parts
/// are read before anything is computed, so the bound matters only where
/// both can be read.
pub open spec fn min_sec_in_range(s: Seq<char>) -> bool {
    let parts = spec_split(s, ':');
    parts.len() >= 2 ==> match (spec_parse_i64(parts[0]), spec_parse_i64(parts[1])) {
        (Some(m), Some(sec)) => in_i64(m * 60) && in_i64(m * 60 + sec),
        _ => true,
    }
}

fn parse_min_sec_checked(s: &str) -> (res: (bool, Option<i64>))
    ensures
        res.0 == min_sec_in_range(s@),
        res.0 ==> match res.1 {
            Some(v) => spec_parse_min_sec(s@) == Some(v as int),
            None => spec_parse_min_sec(s@) is None,
        },
{
    let c = chars_of(s);
    let parts = split(c.as_slice(), ':');
    if parts.len() < 2 {
        return (true, None);
    }
    let m = match parse_i64(parts[0].as_slice()) {
        None => return (true, None),
        Some(m) => m,
    };
    let sec = match parse_i64(parts[1].as_slice()) {
        None => return (true, None),
        Some(sec) => sec,
    };
    if m < -153722867280912930 || m > 153722867280912930 {
        return (false, None);
    }
    let mm = m * 60;
    if (sec > 0 && mm > i64::MAX - sec) || (sec < 0 && mm < i64::MIN - sec) {
        (false, None)
    } else {
        (true, Some(mm + sec))
    }
}

/// Reads `minutes:seconds` as a number of seconds.
pub fn parse_min_sec(s: &str) -> (res: Option<i64>)
    requires
        min_sec_in_range(s@),
    ensures
        match res {
            Some(v) => spec_parse_min_sec(s@) == Some(v as int),
            None => spec_parse_min_sec(s@) is None,
        },
{
    parse_min_sec_checked(s).1
}

/// The start and end of the track, in Unix seconds, for a progress and a
/// length at time `now`, where both can be read.
pub open spec fn spec_timestamps(progress: Seq<char>, length: Seq<char>, now: int) -> Option<(int, int)> {
    match (spec_parse_min_sec(progress), spec_parse_min_sec(length)) {
        (Some(p), Some(l)) => Some((now - p, now - p + l)),
        _ => None,
    }
}

/// Where computing the timestamps stays within `i64`.
pub open spec fn timestamps_in_range(progress: Seq<char>, length: Seq<char>, now: int) -> bool {
    &&& min_sec_in_range(progress)
    &&& min_sec_in_range(length)
    &&& match (spec_parse_min_sec(progress), spec_parse_min_sec(length)) {
        (Some(p), Some(l)) => in_i64(now - p) && in_i64(now - p + l),
        _ => true,
    }
}

/// Whether `discord_timestamps` stays within `i64` for these values.
pub fn discord_timestamps_in_range(progress: &str, length: &str, now: i64) -> (res: bool)
    ensures
        res == timestamps_in_range(progress@, length@, now as int),
{
    let (pok, p) = parse_min_sec_checked(progress);
    let (lok, l) = parse_min_sec_checked(length);
    if !pok || !lok {
        return false;
    }
    match (p, l) {
        (Some(p), Some(l)) => {
            if (p < 0 && now > i64::MAX + p) || (p > 0 && now < i64::MIN + p) {
                return false;
            }
            let start = now - p;
            !((l > 0 && start > i64::MAX - l) || (l < 0 && start < i64::MIN - l))
        },
        _ => true,
    }
}

/// The activity's start and end timestamps for the progress report.
pub fn discord_timestamps(progress: &str, length: &str, now: i64) -> (res: Option<(i64, i64)>)
    requires
        timestamps_in_range(progress@, length@, now as int),
    ensures
        match res {
            Some((start, end)) => spec_timestamps(progress@, length@, now as int) == Some(
                (start as int, end as int),
            ),
            None => spec_timestamps(progress@, length@, now as int) is None,
        },
{
    let p = parse_min_sec(progress);
    let l = parse_min_sec(length);
    match (p, l) {
        (Some(p), Some(l)) => {
            let start = now - p;
            Some((start, start + l))
        },
        _ => None,
    }
}

/// Whether the album art file differs from the one uploaded last, by hash.
pub fn album_art_changed(state: &SessionState, hash: u64) -> (res: bool)
    ensures
        res == (state@.album_art_hash != hash),
{
    state.album_art_hash != hash
}

/// What is done with an album-art file.
#[derive(Clone, Copy, Debug, PartialEq, Eq)]
pub enum AlbumArtStep {
    /// It is the art shown already: nothing.
    Skip,
    /// No auth token is cached: fetch one, then upload.
    FetchToken,
    /// Upload it with the cached token.
    Upload,
}

/// The first step for an album-art file, given whether it differs from the
/// art shown (`album_art_changed`): nothing where it does not; else an auth
/// token is fetched where none is cached, and the file is uploaded.
pub fn album_art_step(changed: bool, cached_token: &str) -> (res: AlbumArtStep)
    ensures
        res == (if !changed {
            AlbumArtStep::Skip
        } else if cached_token@.len() == 0 {
            AlbumArtStep::FetchToken
        } else {
            AlbumArtStep::Upload
        }),
{
    if !changed {
        AlbumArtStep::Skip
    } else if cached_token.is_empty() {
        AlbumArtStep::FetchToken
    } else {
        AlbumArtStep::Upload
    }
}

/// Remembers the uploaded album art's hash and URL, and shows it on Discord.
pub fn album_art_uploaded(state: &mut SessionState, hash: u64, url: String) -> (res: Vec<Action>)
    ensures
        final(state)@ == (SessionView { album_art_hash: hash, album_art: url@, ..old(state)@ }),
        actions_view(res@) == seq![ActionView::UpdateDiscord],
{
    state.album_art_hash = hash;
    state.album_art = url;
    let mut actions: Vec<Action> = Vec::new();
    actions.push(Action::UpdateDiscord);
    assert(actions_view(actions@) =~= seq![ActionView::UpdateDiscord]);
    actions
}

} // verus!
