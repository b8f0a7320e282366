//! What the MPRIS player interface reports about the session, and how its
//! play/pause requests change the playing state.

use vstd::prelude::*;
use crate::session::{SessionState, SessionView};
use crate::progress::{progress_in_range, progress_values, spec_progress_values};

verus! {

/// The `org.mpris.MediaPlayer2` root interface.
pub struct MprisRoot;

impl MprisRoot {
    /// `Raise`: the window cannot be raised; nothing happens.
    pub fn raise(&self) {
    }

    /// `Quit`: the player cannot be quit from MPRIS; nothing happens.
    pub fn quit(&self) {
    }

    /// `CanQuit`.
    pub fn can_quit(&self) -> (res: bool)
        ensures
            !res,
    {
        false
    }

    /// `CanRaise`.
    pub fn can_raise(&self) -> (res: bool)
        ensures
            !res,
    {
        false
    }

    /// `HasTrackList`.
    pub fn has_track_list(&self) -> (res: bool)
        ensures
            !res,
    {
        false
    }

    /// `Identity`.
    pub fn identity(&self) -> (res: &'static str)
        ensures
            res@ == "UiPlay"@,
    {
        "UiPlay"
    }

    /// `DesktopEntry`.
    pub fn desktop_entry(&self) -> (res: &'static str)
        ensures
            res@ == "uiplay"@,
    {
        "uiplay"
    }
}

/// The value a lock gave (`None` where the lock was poisoned), or the empty
/// string.
pub fn locked(value: Option<&String>) -> (res: String)
    ensures
        res@ == match value {
            Some(v) => v@,
            None => Seq::<char>::empty(),
        },
{
    match value {
        Some(v) => v.clone(),
        None => String::new(),
    }
}

/// The current title.
pub fn title(state: &SessionState) -> (res: String)
    ensures
        res@ == state@.title,
{
    state.title.clone()
}

/// `PlaybackStatus`: `Stopped` without a title, else `Playing` or `Paused`.
pub open spec fn spec_playback_status(title: Seq<char>, playing: bool) -> Seq<char> {
    if title.len() == 0 {
        "Stopped"@
    } else if playing {
        "Playing"@
    } else {
        "Paused"@
    }
}

pub fn playback_status(title: &str, playing: bool) -> (res: &'static str)
    ensures
        res@ == spec_playback_status(title@, playing),
{
    if title.is_empty() {
        "Stopped"
    } else if playing {
        "Playing"
    } else {
        "Paused"
    }
}

/// `CanGoNext`, `CanGoPrevious`, `CanPlay` and `CanPause`: whether there is a track.
pub fn can_control_track(title: &str) -> (res: bool)
    ensures
        res == (title@.len() > 0),
{
    !title.is_empty()
}

/// Microseconds in a second, the unit of MPRIS times.
pub open spec fn micros(seconds: int) -> int {
    seconds * 1_000_000
}

/// Where reading a cached progress value and turning its position into
/// microseconds stays within `i64`.
pub open spec fn position_in_range(progress: Seq<char>) -> bool {
    &&& progress_in_range(progress)
    &&& i64::MIN <= micros(spec_progress_values(progress).0) <= i64::MAX
}

/// Where reading a cached progress value and turning its length into
/// microseconds stays within `i64`.
pub open spec fn length_in_range(progress: Seq<char>) -> bool {
    &&& progress_in_range(progress)
    &&& i64::MIN <= micros(spec_progress_values(progress).1) <= i64::MAX
}

/// Whether `position` stays within `i64` for this progress value.
pub fn position_fits(progress: &str) -> (res: bool)
    ensures
        res == position_in_range(progress@),
{
    if !crate::progress::progress_values_in_range(progress) {
        return false;
    }
    let (p, _) = progress_values(progress);
    let limit: i64 = 9_223_372_036_854;
    -limit <= p && p <= limit
}

/// Whether `metadata` stays within `i64` for this progress value.
pub fn length_fits(progress: &str) -> (res: bool)
    ensures
        res == length_in_range(progress@),
{
    if !crate::progress::progress_values_in_range(progress) {
        return false;
    }
    let (_, l) = progress_values(progress);
    let limit: i64 = 9_223_372_036_854;
    -limit <= l && l <= limit
}

/// `Position`: the playback position in microseconds.
pub fn position(progress: &str) -> (res: i64)
    requires
        position_in_range(progress@),
    ensures
        res == micros(spec_progress_values(progress@).0),
{
    let (p, _) = progress_values(progress);
    p * 1_000_000
}

/// Whether the player is playing, as far as its play/pause requests tell.
pub struct PlaybackState {
    pub playing: bool,
}

impl PlaybackState {
    /// The player starts out playing.
    pub fn new() -> (res: PlaybackState)
        ensures
            res.playing,
    {
        PlaybackState { playing: true }
    }

    /// `Play`, `Pause` and `Stop`: moves to the requested state. Returns
    /// whether that changed it; only then is a play/pause command sent and
    /// the status change signalled.
    pub fn set_playing(&mut self, playing: bool) -> (changed: bool)
        ensures
            final(self).playing == playing,
            changed == (old(self).playing != playing),
    {
        let previous = self.playing;
        self.playing = playing;
        previous != playing
    }

    /// `PlayPause`: flips the state; a play/pause command is always sent.
    pub fn play_pause(&mut self)
        ensures
            final(self).playing == !old(self).playing,
    {
        self.playing = !self.playing;
    }
}

/// A value in the MPRIS metadata map.
pub enum MetadataValue {
    ObjectPath(String),
    Text(String),
    TextList(Vec<String>),
    Int(i64),
}

pub enum MetadataValueView {
    ObjectPath(Seq<char>),
    Text(Seq<char>),
    TextList(Seq<Seq<char>>),
    Int(int),
}

impl View for MetadataValue {
    type V = MetadataValueView;

    open spec fn view(&self) -> MetadataValueView {
        match self {
            MetadataValue::ObjectPath(p) => MetadataValueView::ObjectPath(p@),
            MetadataValue::Text(t) => MetadataValueView::Text(t@),
            MetadataValue::TextList(l) => MetadataValueView::TextList(
                l@.map_values(|s: String| s@),
            ),
            MetadataValue::Int(i) => MetadataValueView::Int(*i as int),
        }
    }
}

pub open spec fn entries_view(e: Seq<(String, MetadataValue)>) -> Seq<(Seq<char>, MetadataValueView)> {
    e.map_values(|p: (String, MetadataValue)| (p.0@, p.1@))
}

/// The MPRIS metadata of the session: track ID, title, album, artist and
/// genre; the length where it is known (non-zero); the art URL where there is one.
pub open spec fn spec_metadata(s: SessionView) -> Seq<(Seq<char>, MetadataValueView)> {
    let base = seq![
        ("mpris:trackid"@, MetadataValueView::ObjectPath("/org/mpris/MediaPlayer2/Track/Current"@)),
        ("xesam:title"@, MetadataValueView::Text(s.title)),
        ("xesam:album"@, MetadataValueView::Text(s.album)),
        ("xesam:artist"@, MetadataValueView::TextList(seq![s.artist])),
        ("xesam:genre"@, MetadataValueView::TextList(seq![s.genre])),
    ];
    let length = spec_progress_values(s.audio_progress).1;
    let with_length = if length > 0 {
        base.push(("mpris:length"@, MetadataValueView::Int(micros(length))))
    } else {
        base
    };
    if s.album_art.len() > 0 {
        with_length.push(("mpris:artUrl"@, MetadataValueView::Text(s.album_art)))
    } else {
        with_length
    }
}

fn entry(key: &str, value: MetadataValue) -> (res: (String, MetadataValue))
    ensures
        res.0@ == key@,
        res.1 == value,
{
    (key.to_owned(), value)
}

/// `Metadata`.
pub fn metadata(state: &SessionState) -> (res: Vec<(String, MetadataValue)>)
    requires
        length_in_range(state@.audio_progress),
    ensures
        entries_view(res@) == spec_metadata(state@),
{
    let mut m: Vec<(String, MetadataValue)> = Vec::new();
    m.push(entry("mpris:trackid", MetadataValue::ObjectPath("/org/mpris/MediaPlayer2/Track/Current".to_owned())));
    m.push(entry("xesam:title", MetadataValue::Text(state.title.clone())));
    m.push(entry("xesam:album", MetadataValue::Text(state.album.clone())));
    let artists: Vec<String> = vec![state.artist.clone()];
    assert(artists@.map_values(|s: String| s@) =~= seq![state@.artist]);
    m.push(entry("xesam:artist", MetadataValue::TextList(artists)));
    let genres: Vec<String> = vec![state.genre.clone()];
    assert(genres@.map_values(|s: String| s@) =~= seq![state@.genre]);
    m.push(entry("xesam:genre", MetadataValue::TextList(genres)));
    let (_, length) = progress_values(state.audio_progress.as_str());
    if length > 0 {
        m.push(entry("mpris:length", MetadataValue::Int(length * 1_000_000)));
    }
    if !state.album_art.as_str().is_empty() {
        m.push(entry("mpris:artUrl", MetadataValue::Text(state.album_art.clone())));
    }
    assert(entries_view(m@) =~= spec_metadata(state@));
    m
}

} // verus!
