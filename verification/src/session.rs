//! The state of one AirPlay session and how receiver output changes it.
//!
//! Receiver output (UxPlay's log lines, Shairport's metadata items) is
//! turned into changes of a `SessionState` and a list of `Action`s that the
//! application performs: events for the front end, Discord and MPRIS
//! updates, and the album-art upload.

use vstd::prelude::*;
use vstd::utf8::{decode_utf8, valid_utf8};
use crate::text::{chars_of, string_of, push_decimal, decimal_digits, spec_find, index_in_from, matches_at};
use vstd::utf8::is_ascii_chars;
use crate::metadata::chars_equal;
use crate::progress::{shairport_progress_message, spec_progress_message};

verus! {

/// What `regex::Regex::new(pattern)` and then `captures(text)` give: the
/// groups of the first match (`None` for a group that did not take part), or
/// `None` where there is no match or the pattern does not compile.
pub uninterp spec fn regex_captures(pattern: Seq<char>, text: Seq<char>) -> Option<
    Seq<Option<Seq<char>>>,
>;

/// The patterns `<prefix>(.*)` with which the library reads UxPlay lines.
pub open spec fn is_prefix_pattern(pattern: Seq<char>) -> bool {
    ||| pattern == "Title: (.*)"@
    ||| pattern == "Artist: (.*)"@
    ||| pattern == "Album: (.*)"@
    ||| pattern == "Genre: (.*)"@
    ||| pattern == "coverart size (.*)"@
}

/// Where the line that holds position `from` ends: its `\n`, or the end.
pub open spec fn line_end(text: Seq<char>, from: int) -> int {
    match index_in_from(text, seq!['\n'], from as nat) {
        Some(e) => e as int,
        None => text.len() as int,
    }
}

/// The groups of the first match of `<prefix>(.*)`: the match starts at the
/// first occurrence of the prefix, and `.` (any character but `\n`) takes
/// the rest of that line.
pub open spec fn prefix_captures(prefix: Seq<char>, text: Seq<char>) -> Option<Seq<Option<Seq<char>>>> {
    match spec_find(text, prefix) {
        Some(i) => {
            let start = i + prefix.len();
            let end = line_end(text, start);
            Some(seq![Some(text.subrange(i, end)), Some(text.subrange(start, end))])
        },
        None => None,
    }
}

/// White space, within ASCII: tab to carriage return, and space.
pub open spec fn ascii_space(c: char) -> bool {
    ('\t' <= c && c <= '\r') || c == ' '
}

pub open spec fn ascii_digit(c: char) -> bool {
    '0' <= c && c <= '9'
}

/// The first position at or after `i` that holds no white space (or the end).
pub open spec fn skip_spaces(text: Seq<char>, i: int) -> int
    decreases text.len() - i,
{
    if 0 <= i < text.len() && ascii_space(text[i]) {
        skip_spaces(text, i + 1)
    } else {
        i
    }
}

/// The first position at or after `i` that holds no digit (or the end).
pub open spec fn skip_digits(text: Seq<char>, i: int) -> int
    decreases text.len() - i,
{
    if 0 <= i < text.len() && ascii_digit(text[i]) {
        skip_digits(text, i + 1)
    } else {
        i
    }
}

/// Where `\d+:\d+` that starts at `i` ends, where it matches there.
pub open spec fn time_end(text: Seq<char>, i: int) -> Option<int> {
    let a = skip_digits(text, i);
    if a > i && a < text.len() && text[a] == ':' && skip_digits(text, a + 1) > a + 1 {
        Some(skip_digits(text, a + 1))
    } else {
        None
    }
}

/// The groups of a match of the progress pattern that starts at `i`, in
/// ASCII text, where there is one: each `\s*` takes all the white space and
/// each `\d+` all the digits there, as nothing else can follow them.
pub open spec fn progress_match_at(text: Seq<char>, i: int) -> Option<Seq<Option<Seq<char>>>> {
    let lead = "audio progress (min:sec):"@;
    let mid = "remaining:"@;
    let last = "track length"@;
    let a = skip_spaces(text, i + lead.len());
    let b = skip_spaces(text, time_end(text, a).unwrap() + 1);
    let c = skip_spaces(text, b + mid.len());
    let d = skip_spaces(text, time_end(text, c).unwrap() + 1);
    let f = skip_spaces(text, d + last.len());
    if matches_at(text, lead, i) && time_end(text, a) is Some && time_end(text, a).unwrap() < text.len()
        && text[time_end(text, a).unwrap()] == ';' && matches_at(text, mid, b) && time_end(text, c) is Some
        && time_end(text, c).unwrap() < text.len() && text[time_end(text, c).unwrap()] == ';'
        && matches_at(text, last, d) && time_end(text, f) is Some {
        Some(
            seq![
                Some(text.subrange(i, time_end(text, f).unwrap())),
                Some(text.subrange(a, time_end(text, a).unwrap())),
                Some(text.subrange(c, time_end(text, c).unwrap())),
                Some(text.subrange(f, time_end(text, f).unwrap())),
            ],
        )
    } else {
        None
    }
}

/// The groups of the leftmost match of the progress pattern at or after `i`.
pub open spec fn first_progress_match(text: Seq<char>, i: int) -> Option<Seq<Option<Seq<char>>>>
    decreases text.len() + 1 - i,
{
    if i < 0 || i > text.len() {
        None
    } else {
        match progress_match_at(text, i) {
            Some(g) => Some(g),
            None => first_progress_match(text, i + 1),
        }
    }
}

/// What matching the progress line gives: for ASCII text (where `\s` and
/// `\d` are white space and digits as above), the leftmost match; for other
/// text, what the `regex` crate gives.
pub open spec fn progress_groups(message: Seq<char>) -> Option<Seq<Option<Seq<char>>>> {
    if is_ascii_chars(message) {
        first_progress_match(message, 0)
    } else {
        regex_captures(progress_pattern(), message)
    }
}

/// The last position `q` with `lo <= q` and `q + needle.len() <= hi` where
/// `needle` occurs, looking down from `q`.
pub open spec fn last_match(text: Seq<char>, needle: Seq<char>, lo: int, q: int) -> Option<int>
    decreases q - lo + 1,
{
    if q < lo {
        None
    } else if matches_at(text, needle, q) {
        Some(q)
    } else {
        last_match(text, needle, lo, q - 1)
    }
}

/// The groups of a match of the connection pattern that starts at `i`: the
/// greedy first `.*` runs to the last ` with deviceID = ` of the line, and
/// the second to the end of the line.
pub open spec fn connection_match_at(text: Seq<char>, i: int) -> Option<Seq<Option<Seq<char>>>> {
    let lead = "connection request from "@;
    let sep = " with deviceID = "@;
    let start = i + lead.len();
    let end = line_end(text, start);
    if matches_at(text, lead, i) {
        match last_match(text, sep, start, end - sep.len()) {
            Some(q) => Some(
                seq![
                    Some(text.subrange(i, end)),
                    Some(text.subrange(start, q)),
                    Some(text.subrange(q + sep.len(), end)),
                ],
            ),
            None => None,
        }
    } else {
        None
    }
}

/// The groups of the leftmost match of the connection pattern at or after `i`.
pub open spec fn first_connection_match(text: Seq<char>, i: int) -> Option<Seq<Option<Seq<char>>>>
    decreases text.len() + 1 - i,
{
    if i < 0 || i > text.len() {
        None
    } else {
        match connection_match_at(text, i) {
            Some(g) => Some(g),
            None => first_connection_match(text, i + 1),
        }
    }
}

/// The prefix of a pattern `<prefix>(.*)`.
proof fn lemma_prefix_pattern(pattern: Seq<char>, prefix: Seq<char>)
    requires
        pattern =~= prefix + seq!['(', '.', '*', ')'],
    ensures
        pattern.subrange(0, pattern.len() - 4) == prefix,
{
    assert(pattern.subrange(0, pattern.len() - 4) =~= prefix);
}

/// Compiles `pattern` with the `regex` crate and matches it against `text`.
/// Its contract names the result `regex_captures(pattern@, text@)`, a
/// function of the pattern and the text, and states it for the patterns
/// the library uses, all of which compile: its five patterns made of a
/// plain prefix and then `(.*)` (the leftmost match starts at the first
/// occurrence of the prefix, and the greedy `.*` runs to the end of the
/// line); the connection pattern (the first group runs to the
/// line's last ` with deviceID = `); and the progress pattern on ASCII text
/// (where `\s` and `\d` are ASCII white space and digits). For other
/// patterns and texts it states nothing more.
#[verifier::external_body]
fn captures(pattern: &str, text: &str) -> (res: Option<Vec<Option<String>>>)
    ensures
        match res {
            Some(groups) => regex_captures(pattern@, text@) == Some(
                groups@.map_values(|g: Option<String>| option_view(g)),
            ),
            None => regex_captures(pattern@, text@) is None,
        },
        pattern@ == connection_pattern() ==> match res {
            Some(groups) => first_connection_match(text@, 0) == Some(
                groups@.map_values(|g: Option<String>| option_view(g)),
            ),
            None => first_connection_match(text@, 0) is None,
        },
        pattern@ == progress_pattern() && is_ascii_chars(text@) ==> match res {
            Some(groups) => first_progress_match(text@, 0) == Some(
                groups@.map_values(|g: Option<String>| option_view(g)),
            ),
            None => first_progress_match(text@, 0) is None,
        },
        is_prefix_pattern(pattern@) ==> match res {
            Some(groups) => prefix_captures(pattern@.subrange(0, pattern@.len() - 4), text@) == Some(
                groups@.map_values(|g: Option<String>| option_view(g)),
            ),
            None => prefix_captures(pattern@.subrange(0, pattern@.len() - 4), text@) is None,
        },
{
    let re = match regex::Regex::new(pattern) {
        Ok(re) => re,
        Err(_) => return None,
    };
    let caps = re.captures(text)?;
    Some(caps.iter().map(|m| m.map(|m| m.as_str().to_string())).collect())
}

/// What `String::from_utf8_lossy` gives for `bytes`.
pub uninterp spec fn utf8_lossy(bytes: Seq<u8>) -> Seq<char>;

/// `String::from_utf8_lossy`: the text of `bytes`, with U+FFFD in place of
/// invalid sequences. Its contract names the result `utf8_lossy(bytes@)`,
/// and states what the documentation gives for valid UTF-8: the text that
/// the bytes encode.
#[verifier::external_body]
fn from_utf8_lossy(bytes: &[u8]) -> (res: String)
    ensures
        res@ == utf8_lossy(bytes@),
        valid_utf8(bytes@) ==> res@ == decode_utf8(bytes@),
{
    String::from_utf8_lossy(bytes).into_owned()
}

pub open spec fn option_view(g: Option<String>) -> Option<Seq<char>> {
    match g {
        Some(s) => Some(s@),
        None => None,
    }
}

/// The text of capture group `i`, or the empty string where the group is
/// absent or did not take part in the match.
pub open spec fn group_text(groups: Seq<Option<Seq<char>>>, i: int) -> Seq<char> {
    if 0 <= i < groups.len() {
        match groups[i] {
            Some(t) => t,
            None => seq![],
        }
    } else {
        seq![]
    }
}

/// Capture group `i` of a match, or the empty string.
pub fn group(caps: &Vec<Option<String>>, i: usize) -> (res: String)
    ensures
        res@ == group_text(caps@.map_values(|g: Option<String>| option_view(g)), i as int),
{
    if i < caps.len() {
        match &caps[i] {
            Some(t) => t.clone(),
            None => String::new(),
        }
    } else {
        String::new()
    }
}

/// The UxPlay endpoint resolved last, kept for as long as the credentials
/// stay the same.
pub struct CachedDacpEndpoint {
    pub dacp_id: String,
    pub active_remote: String,
    pub host: String,
    pub port: u16,
}

pub struct EndpointView {
    pub dacp_id: Seq<char>,
    pub active_remote: Seq<char>,
    pub host: Seq<char>,
    pub port: u16,
}

impl View for CachedDacpEndpoint {
    type V = EndpointView;

    open spec fn view(&self) -> EndpointView {
        EndpointView {
            dacp_id: self.dacp_id@,
            active_remote: self.active_remote@,
            host: self.host@,
            port: self.port,
        }
    }
}

/// Everything known about the current session.
pub struct SessionState {
    pub device_id: String,
    pub device_name: String,
    pub client_ip: String,
    pub dacp_port: String,
    pub active_remote: String,
    pub title: String,
    pub artist: String,
    pub album: String,
    pub genre: String,
    pub album_art: String,
    pub audio_progress: String,
    pub album_art_hash: u64,
    pub uxplay_endpoint: Option<CachedDacpEndpoint>,
}

pub struct SessionView {
    pub device_id: Seq<char>,
    pub device_name: Seq<char>,
    pub client_ip: Seq<char>,
    pub dacp_port: Seq<char>,
    pub active_remote: Seq<char>,
    pub title: Seq<char>,
    pub artist: Seq<char>,
    pub album: Seq<char>,
    pub genre: Seq<char>,
    pub album_art: Seq<char>,
    pub audio_progress: Seq<char>,
    pub album_art_hash: u64,
    pub uxplay_endpoint: Option<EndpointView>,
}

impl View for SessionState {
    type V = SessionView;

    open spec fn view(&self) -> SessionView {
        SessionView {
            device_id: self.device_id@,
            device_name: self.device_name@,
            client_ip: self.client_ip@,
            dacp_port: self.dacp_port@,
            active_remote: self.active_remote@,
            title: self.title@,
            artist: self.artist@,
            album: self.album@,
            genre: self.genre@,
            album_art: self.album_art@,
            audio_progress: self.audio_progress@,
            album_art_hash: self.album_art_hash,
            uxplay_endpoint: match self.uxplay_endpoint {
                Some(e) => Some(e@),
                None => None,
            },
        }
    }
}

/// The state of a session that has just begun: nothing known yet.
pub open spec fn empty_session() -> SessionView {
    SessionView {
        device_id: seq![],
        device_name: seq![],
        client_ip: seq![],
        dacp_port: seq![],
        active_remote: seq![],
        title: seq![],
        artist: seq![],
        album: seq![],
        genre: seq![],
        album_art: seq![],
        audio_progress: seq![],
        album_art_hash: 0,
        uxplay_endpoint: None,
    }
}

/// What the application does on behalf of the session.
pub enum Action {
    /// Emit a front-end event with a payload.
    Emit { event: String, payload: String },
    /// Show the current title, artist, album and art on Discord.
    UpdateDiscord,
    /// Point the Discord activity's timestamps at the given progress and
    /// track length (`min:sec`), where Discord is connected.
    SetDiscordTimestamps { progress: String, length: String },
    /// Tell MPRIS clients that the metadata changed.
    MetadataChanged,
    /// Upload the album art file and show it.
    UploadAlbumArt,
}

pub enum ActionView {
    Emit(Seq<char>, Seq<char>),
    UpdateDiscord,
    SetDiscordTimestamps(Seq<char>, Seq<char>),
    MetadataChanged,
    UploadAlbumArt,
}

impl View for Action {
    type V = ActionView;

    open spec fn view(&self) -> ActionView {
        match self {
            Action::Emit { event, payload } => ActionView::Emit(event@, payload@),
            Action::UpdateDiscord => ActionView::UpdateDiscord,
            Action::SetDiscordTimestamps { progress, length } => ActionView::SetDiscordTimestamps(
                progress@,
                length@,
            ),
            Action::MetadataChanged => ActionView::MetadataChanged,
            Action::UploadAlbumArt => ActionView::UploadAlbumArt,
        }
    }
}

pub open spec fn actions_view(a: Seq<Action>) -> Seq<ActionView> {
    a.map_values(|x: Action| x@)
}

fn emit(event: &str, payload: &String) -> (res: Action)
    ensures
        res@ == ActionView::Emit(event@, payload@),
{
    Action::Emit { event: event.to_owned(), payload: payload.clone() }
}

impl SessionState {
    /// A session in which nothing is known yet.
    pub fn new() -> (res: SessionState)
        ensures
            res@ == empty_session(),
    {
        SessionState {
            device_id: String::new(),
            device_name: String::new(),
            client_ip: String::new(),
            dacp_port: String::new(),
            active_remote: String::new(),
            title: String::new(),
            artist: String::new(),
            album: String::new(),
            genre: String::new(),
            album_art: String::new(),
            audio_progress: String::new(),
            album_art_hash: 0,
            uxplay_endpoint: None,
        }
    }
}

/// The actions that announce an emptied session: empty title, artist, album
/// and genre events, then an MPRIS metadata change.
pub open spec fn reset_actions() -> Seq<ActionView> {
    seq![
        ActionView::Emit("Title"@, seq![]),
        ActionView::Emit("Artist"@, seq![]),
        ActionView::Emit("Album"@, seq![]),
        ActionView::Emit("Genre"@, seq![]),
        ActionView::MetadataChanged,
    ]
}

/// Forgets everything about the session, and announces that.
pub fn reset_session_state(state: &mut SessionState) -> (res: Vec<Action>)
    ensures
        final(state)@ == empty_session(),
        actions_view(res@) == reset_actions(),
{
    *state = SessionState::new();
    let empty = String::new();
    let mut actions: Vec<Action> = Vec::new();
    actions.push(emit("Title", &empty));
    actions.push(emit("Artist", &empty));
    actions.push(emit("Album", &empty));
    actions.push(emit("Genre", &empty));
    actions.push(Action::MetadataChanged);
    assert(actions_view(actions@) =~= reset_actions());
    actions
}


pub open spec fn caps_view(caps: Seq<Option<String>>) -> Seq<Option<Seq<char>>> {
    caps.map_values(|g: Option<String>| option_view(g))
}

/// A new title: remembered, shown in the front end and on Discord; a
/// repeated one changes nothing.
pub open spec fn spec_title(s: SessionView, groups: Seq<Option<Seq<char>>>) -> (SessionView, Seq<ActionView>) {
    let v = group_text(groups, 1);
    if s.title == v {
        (s, seq![])
    } else {
        (SessionView { title: v, ..s }, seq![ActionView::Emit("Title"@, v), ActionView::UpdateDiscord])
    }
}

/// A new artist: remembered, shown in the front end and on Discord.
pub open spec fn spec_artist(s: SessionView, groups: Seq<Option<Seq<char>>>) -> (SessionView, Seq<ActionView>) {
    let v = group_text(groups, 1);
    if s.artist == v {
        (s, seq![])
    } else {
        (SessionView { artist: v, ..s }, seq![ActionView::Emit("Artist"@, v), ActionView::UpdateDiscord])
    }
}

/// A new album: remembered, shown in the front end and on Discord.
pub open spec fn spec_album(s: SessionView, groups: Seq<Option<Seq<char>>>) -> (SessionView, Seq<ActionView>) {
    let v = group_text(groups, 1);
    if s.album == v {
        (s, seq![])
    } else {
        (SessionView { album: v, ..s }, seq![ActionView::Emit("Album"@, v), ActionView::UpdateDiscord])
    }
}

/// A new genre: remembered and shown in the front end.
pub open spec fn spec_genre(s: SessionView, groups: Seq<Option<Seq<char>>>) -> (SessionView, Seq<ActionView>) {
    let v = group_text(groups, 1);
    if s.genre == v {
        (s, seq![])
    } else {
        (SessionView { genre: v, ..s }, seq![ActionView::Emit("Genre"@, v)])
    }
}

/// The cached form of a progress report: `progress|remaining|length`.
pub open spec fn progress_key(progress: Seq<char>, remaining: Seq<char>, length: Seq<char>) -> Seq<char> {
    progress + seq!['|'] + remaining + seq!['|'] + length
}

/// A new progress report: remembered, and the Discord timestamps set from it.
pub open spec fn spec_audio_progress(s: SessionView, groups: Seq<Option<Seq<char>>>) -> (SessionView, Seq<ActionView>) {
    let key = progress_key(group_text(groups, 1), group_text(groups, 2), group_text(groups, 3));
    if s.audio_progress == key {
        (s, seq![])
    } else {
        (
            SessionView { audio_progress: key, ..s },
            seq![ActionView::SetDiscordTimestamps(group_text(groups, 1), group_text(groups, 3))],
        )
    }
}

/// A connection request: the device ID (the second group) is remembered.
pub open spec fn spec_connection_request(s: SessionView, groups: Seq<Option<Seq<char>>>) -> SessionView {
    SessionView { device_id: group_text(groups, 2), ..s }
}

/// Handles a `Title: ...` line.
pub fn title(state: &mut SessionState, caps: &Vec<Option<String>>) -> (res: Vec<Action>)
    ensures
        (final(state)@, actions_view(res@)) == spec_title(old(state)@, caps_view(caps@)),
{
    let v = group(caps, 1);
    let mut actions: Vec<Action> = Vec::new();
    if state.title == v {
        assert(actions_view(actions@) =~= seq![]);
        return actions;
    }
    state.title = v.clone();
    actions.push(emit("Title", &v));
    actions.push(Action::UpdateDiscord);
    assert(actions_view(actions@) =~= spec_title(old(state)@, caps_view(caps@)).1);
    actions
}

/// Handles an `Artist: ...` line.
pub fn artist(state: &mut SessionState, caps: &Vec<Option<String>>) -> (res: Vec<Action>)
    ensures
        (final(state)@, actions_view(res@)) == spec_artist(old(state)@, caps_view(caps@)),
{
    let v = group(caps, 1);
    let mut actions: Vec<Action> = Vec::new();
    if state.artist == v {
        assert(actions_view(actions@) =~= seq![]);
        return actions;
    }
    state.artist = v.clone();
    actions.push(emit("Artist", &v));
    actions.push(Action::UpdateDiscord);
    assert(actions_view(actions@) =~= spec_artist(old(state)@, caps_view(caps@)).1);
    actions
}

/// Handles an `Album: ...` line.
pub fn album(state: &mut SessionState, caps: &Vec<Option<String>>) -> (res: Vec<Action>)
    ensures
        (final(state)@, actions_view(res@)) == spec_album(old(state)@, caps_view(caps@)),
{
    let v = group(caps, 1);
    let mut actions: Vec<Action> = Vec::new();
    if state.album == v {
        assert(actions_view(actions@) =~= seq![]);
        return actions;
    }
    state.album = v.clone();
    actions.push(emit("Album", &v));
    actions.push(Action::UpdateDiscord);
    assert(actions_view(actions@) =~= spec_album(old(state)@, caps_view(caps@)).1);
    actions
}

/// Handles a `Genre: ...` line.
pub fn genre(state: &mut SessionState, caps: &Vec<Option<String>>) -> (res: Vec<Action>)
    ensures
        (final(state)@, actions_view(res@)) == spec_genre(old(state)@, caps_view(caps@)),
{
    let v = group(caps, 1);
    let mut actions: Vec<Action> = Vec::new();
    if state.genre == v {
        assert(actions_view(actions@) =~= seq![]);
        return actions;
    }
    state.genre = v.clone();
    actions.push(emit("Genre", &v));
    assert(actions_view(actions@) =~= spec_genre(old(state)@, caps_view(caps@)).1);
    actions
}

/// Handles an `audio progress (min:sec): ...` line.
pub fn audio_progress(state: &mut SessionState, caps: &Vec<Option<String>>) -> (res: Vec<Action>)
    ensures
        (final(state)@, actions_view(res@)) == spec_audio_progress(old(state)@, caps_view(caps@)),
{
    let progress = group(caps, 1);
    let remaining = group(caps, 2);
    let length = group(caps, 3);
    let mut key = chars_of(progress.as_str());
    key.push('|');
    key.append(&mut chars_of(remaining.as_str()));
    key.push('|');
    key.append(&mut chars_of(length.as_str()));
    let key = string_of(key.as_slice());
    assert(key@ =~= progress_key(progress@, remaining@, length@));
    let mut actions: Vec<Action> = Vec::new();
    if state.audio_progress == key {
        assert(actions_view(actions@) =~= seq![]);
        return actions;
    }
    state.audio_progress = key;
    actions.push(Action::SetDiscordTimestamps { progress, length });
    assert(actions_view(actions@) =~= spec_audio_progress(old(state)@, caps_view(caps@)).1);
    actions
}

/// Handles a `connection request from ... with deviceID = ...` line.
pub fn connection_request(state: &mut SessionState, caps: &Vec<Option<String>>)
    ensures
        final(state)@ == spec_connection_request(old(state)@, caps_view(caps@)),
{
    state.device_id = group(caps, 2);
}


/// The UxPlay log lines that carry session information: most are a plain
/// prefix and then the value, matched by the pattern `<prefix>(.*)`.
pub open spec fn title_prefix() -> Seq<char> {
    "Title: "@
}

pub open spec fn artist_prefix() -> Seq<char> {
    "Artist: "@
}

pub open spec fn album_prefix() -> Seq<char> {
    "Album: "@
}

pub open spec fn genre_prefix() -> Seq<char> {
    "Genre: "@
}

pub open spec fn progress_pattern() -> Seq<char> {
    "audio progress \\(min:sec\\):\\s*(\\d+:\\d+);\\s*remaining:\\s*(\\d+:\\d+);\\s*track length\\s*(\\d+:\\d+)"@
}

pub open spec fn connection_pattern() -> Seq<char> {
    "connection request from (.*) with deviceID = (.*)"@
}

pub open spec fn album_art_prefix() -> Seq<char> {
    "coverart size "@
}

pub open spec fn step_title(s: SessionView, message: Seq<char>) -> (SessionView, Seq<ActionView>) {
    match prefix_captures(title_prefix(), message) {
        Some(g) => spec_title(s, g),
        None => (s, seq![]),
    }
}

pub open spec fn step_artist(s: SessionView, message: Seq<char>) -> (SessionView, Seq<ActionView>) {
    match prefix_captures(artist_prefix(), message) {
        Some(g) => spec_artist(s, g),
        None => (s, seq![]),
    }
}

pub open spec fn step_album(s: SessionView, message: Seq<char>) -> (SessionView, Seq<ActionView>) {
    match prefix_captures(album_prefix(), message) {
        Some(g) => spec_album(s, g),
        None => (s, seq![]),
    }
}

pub open spec fn step_genre(s: SessionView, message: Seq<char>) -> (SessionView, Seq<ActionView>) {
    match prefix_captures(genre_prefix(), message) {
        Some(g) => spec_genre(s, g),
        None => (s, seq![]),
    }
}

pub open spec fn step_progress(s: SessionView, message: Seq<char>) -> (SessionView, Seq<ActionView>) {
    match progress_groups(message) {
        Some(g) => spec_audio_progress(s, g),
        None => (s, seq![]),
    }
}

pub open spec fn step_connection(s: SessionView, message: Seq<char>) -> SessionView {
    match first_connection_match(message, 0) {
        Some(g) => spec_connection_request(s, g),
        None => s,
    }
}

pub open spec fn step_album_art(message: Seq<char>) -> Seq<ActionView> {
    match prefix_captures(album_art_prefix(), message) {
        Some(_) => seq![ActionView::UploadAlbumArt],
        None => seq![],
    }
}

/// What one line of UxPlay output does: each pattern that matches the line
/// is handled in turn (title, artist, album, genre, progress, connection
/// request), and a cover-art line ends with an album-art upload.
pub open spec fn spec_uxplay_output(s0: SessionView, message: Seq<char>) -> (SessionView, Seq<ActionView>) {
    let r1 = step_title(s0, message);
    let r2 = step_artist(r1.0, message);
    let r3 = step_album(r2.0, message);
    let r4 = step_genre(r3.0, message);
    let r5 = step_progress(r4.0, message);
    (step_connection(r5.0, message), r1.1 + r2.1 + r3.1 + r4.1 + r5.1 + step_album_art(message))
}

pub proof fn lemma_actions_view_add(a: Seq<Action>, b: Seq<Action>)
    ensures
        actions_view(a + b) == actions_view(a) + actions_view(b),
{
    assert(actions_view(a + b) =~= actions_view(a) + actions_view(b));
}

fn title_line(state: &mut SessionState, message: &str) -> (res: Vec<Action>)
    ensures
        (final(state)@, actions_view(res@)) == step_title(old(state)@, message@),
{
    proof {
        reveal_strlit("Title: (.*)");
        reveal_strlit("Title: ");
        lemma_prefix_pattern("Title: (.*)"@, "Title: "@);
    }
    match captures("Title: (.*)", message) {
        Some(c) => title(state, &c),
        None => {
            let v: Vec<Action> = Vec::new();
            assert(actions_view(v@) =~= seq![]);
            v
        },
    }
}

fn artist_line(state: &mut SessionState, message: &str) -> (res: Vec<Action>)
    ensures
        (final(state)@, actions_view(res@)) == step_artist(old(state)@, message@),
{
    proof {
        reveal_strlit("Artist: (.*)");
        reveal_strlit("Artist: ");
        lemma_prefix_pattern("Artist: (.*)"@, "Artist: "@);
    }
    match captures("Artist: (.*)", message) {
        Some(c) => artist(state, &c),
        None => {
            let v: Vec<Action> = Vec::new();
            assert(actions_view(v@) =~= seq![]);
            v
        },
    }
}

fn album_line(state: &mut SessionState, message: &str) -> (res: Vec<Action>)
    ensures
        (final(state)@, actions_view(res@)) == step_album(old(state)@, message@),
{
    proof {
        reveal_strlit("Album: (.*)");
        reveal_strlit("Album: ");
        lemma_prefix_pattern("Album: (.*)"@, "Album: "@);
    }
    match captures("Album: (.*)", message) {
        Some(c) => album(state, &c),
        None => {
            let v: Vec<Action> = Vec::new();
            assert(actions_view(v@) =~= seq![]);
            v
        },
    }
}

fn genre_line(state: &mut SessionState, message: &str) -> (res: Vec<Action>)
    ensures
        (final(state)@, actions_view(res@)) == step_genre(old(state)@, message@),
{
    proof {
        reveal_strlit("Genre: (.*)");
        reveal_strlit("Genre: ");
        lemma_prefix_pattern("Genre: (.*)"@, "Genre: "@);
    }
    match captures("Genre: (.*)", message) {
        Some(c) => genre(state, &c),
        None => {
            let v: Vec<Action> = Vec::new();
            assert(actions_view(v@) =~= seq![]);
            v
        },
    }
}

fn progress_line(state: &mut SessionState, message: &str) -> (res: Vec<Action>)
    ensures
        (final(state)@, actions_view(res@)) == step_progress(old(state)@, message@),
{
    match captures(
        "audio progress \\(min:sec\\):\\s*(\\d+:\\d+);\\s*remaining:\\s*(\\d+:\\d+);\\s*track length\\s*(\\d+:\\d+)",
        message,
    ) {
        Some(c) => audio_progress(state, &c),
        None => {
            let v: Vec<Action> = Vec::new();
            assert(actions_view(v@) =~= seq![]);
            v
        },
    }
}

/// Handles one line of UxPlay output.
pub fn listen_to_uxplay_output(state: &mut SessionState, message: &str) -> (res: Vec<Action>)
    ensures
        (final(state)@, actions_view(res@)) == spec_uxplay_output(old(state)@, message@),
{
    let mut actions = title_line(state, message);
    let mut a2 = artist_line(state, message);
    let mut a3 = album_line(state, message);
    let mut a4 = genre_line(state, message);
    let mut a5 = progress_line(state, message);
    proof {
        lemma_actions_view_add(actions@, a2@);
        lemma_actions_view_add(actions@ + a2@, a3@);
        lemma_actions_view_add(actions@ + a2@ + a3@, a4@);
        lemma_actions_view_add(actions@ + a2@ + a3@ + a4@, a5@);
    }
    actions.append(&mut a2);
    actions.append(&mut a3);
    actions.append(&mut a4);
    actions.append(&mut a5);
    if let Some(c) = captures("connection request from (.*) with deviceID = (.*)", message) {
        connection_request(state, &c);
    }
    let ghost before = actions@;
    proof {
        reveal_strlit("coverart size (.*)");
        reveal_strlit("coverart size ");
        lemma_prefix_pattern("coverart size (.*)"@, "coverart size "@);
    }
    if captures("coverart size (.*)", message).is_some() {
        actions.push(Action::UploadAlbumArt);
        assert(actions_view(actions@) =~= actions_view(before) + seq![ActionView::UploadAlbumArt]);
    } else {
        assert(actions_view(actions@) =~= actions_view(before) + seq![]);
    }
    actions
}


/// Whether a string equals a literal.
pub fn str_is(a: &str, b: &str) -> (res: bool)
    ensures
        res == (a@ == b@),
{
    let x = chars_of(a);
    let y = chars_of(b);
    chars_equal(x.as_slice(), y.as_slice())
}

fn text_with(prefix: &str, value: &str) -> (res: String)
    ensures
        res@ == prefix@ + value@,
{
    let mut out = chars_of(prefix);
    out.append(&mut chars_of(value));
    string_of(out.as_slice())
}

/// The connection line that UxPlay prints, once both the device's ID and its
/// name are known.
pub open spec fn spec_connection_message(s: SessionView) -> Option<Seq<char>> {
    if s.device_id.len() == 0 || s.device_name.len() == 0 {
        None
    } else {
        Some("connection request from "@ + s.device_name + " with deviceID = "@ + s.device_id)
    }
}

/// The connection line for the session, once the device's ID and name are known.
pub fn shairport_connection_message(state: &SessionState) -> (res: Option<String>)
    ensures
        match res {
            Some(m) => spec_connection_message(state@) == Some(m@),
            None => spec_connection_message(state@) is None,
        },
{
    if state.device_id.as_str().is_empty() || state.device_name.as_str().is_empty() {
        return None;
    }
    let mut out = chars_of("connection request from ");
    out.append(&mut chars_of(state.device_name.as_str()));
    out.append(&mut chars_of(" with deviceID = "));
    out.append(&mut chars_of(state.device_id.as_str()));
    Some(string_of(out.as_slice()))
}

/// What to do with one Shairport metadata item.
pub struct MetadataOutcome {
    /// The line, in UxPlay's log format, that the item amounts to.
    pub message: Option<String>,
    /// Whether the item's data is cover art to be saved and uploaded.
    pub save_cover_art: bool,
}

pub open spec fn opt_view(m: Option<String>) -> Option<Seq<char>> {
    match m {
        Some(s) => Some(s@),
        None => None,
    }
}

/// What a Shairport metadata item of type `kind` and code `code` does to the
/// session: the state it leaves, the UxPlay-style line it amounts to, and
/// whether its data is cover art to save.
pub open spec fn spec_shairport_metadata(
    s: SessionView,
    kind: Seq<char>,
    code: Seq<char>,
    data: Seq<u8>,
) -> (SessionView, Option<Seq<char>>, bool) {
    let v = utf8_lossy(data);
    let core = kind == "core"@;
    let ssnc = kind == "ssnc"@;
    if core && code == "minm"@ {
        (s, Some("Title: "@ + v), false)
    } else if core && code == "asar"@ {
        (s, Some("Artist: "@ + v), false)
    } else if core && code == "asal"@ {
        (s, Some("Album: "@ + v), false)
    } else if core && code == "asgn"@ {
        (s, Some("Genre: "@ + v), false)
    } else if ssnc && code == "cdid"@ {
        let s1 = SessionView { device_id: v, ..s };
        (s1, Some(match spec_connection_message(s1) {
            Some(m) => m,
            None => "Shairport client device ID: "@ + v,
        }), false)
    } else if ssnc && (code == "clip"@ || code == "conn"@) {
        (SessionView { client_ip: v, ..s }, None, false)
    } else if ssnc && code == "dapo"@ {
        (SessionView { dacp_port: v, ..s }, None, false)
    } else if ssnc && code == "acre"@ {
        (SessionView { active_remote: v, ..s }, None, false)
    } else if ssnc && code == "snam"@ {
        let s1 = SessionView { device_name: v, ..s };
        (s1, spec_connection_message(s1), false)
    } else if ssnc && code == "snua"@ {
        (s, Some("Client identified as User-Agent: "@ + v), false)
    } else if ssnc && code == "prgr"@ {
        (s, spec_progress_message(v), false)
    } else if ssnc && code == "pend"@ {
        (s, Some("Connection closed for socket shairport"@), false)
    } else if ssnc && code == "pbeg"@ {
        (s, Some("Accepted Shairport client on socket shairport"@), false)
    } else if code == "asfm"@ {
        (s, Some("start audio connection, format "@ + v), false)
    } else if ssnc && code == "PICT"@ {
        (s, Some("coverart size "@ + decimal_digits(data.len())), true)
    } else {
        (s, None, false)
    }
}

fn some_text(prefix: &str, value: &String) -> (res: Option<String>)
    ensures
        res matches Some(m) && m@ == prefix@ + value@,
{
    Some(text_with(prefix, value.as_str()))
}

/// Handles one Shairport metadata item.
pub fn listen_to_shairport_metadata(state: &mut SessionState, kind: &str, code: &str, data: &[u8]) -> (res: MetadataOutcome)
    ensures
        (final(state)@, opt_view(res.message), res.save_cover_art) == spec_shairport_metadata(
            old(state)@,
            kind@,
            code@,
            data@,
        ),
{
    let value = from_utf8_lossy(data);
    let core = str_is(kind, "core");
    let ssnc = str_is(kind, "ssnc");
    let mut save = false;
    let message: Option<String> = if core && str_is(code, "minm") {
        some_text("Title: ", &value)
    } else if core && str_is(code, "asar") {
        some_text("Artist: ", &value)
    } else if core && str_is(code, "asal") {
        some_text("Album: ", &value)
    } else if core && str_is(code, "asgn") {
        some_text("Genre: ", &value)
    } else if ssnc && str_is(code, "cdid") {
        state.device_id = value.clone();
        match shairport_connection_message(state) {
            Some(m) => Some(m),
            None => some_text("Shairport client device ID: ", &value),
        }
    } else if ssnc && (str_is(code, "clip") || str_is(code, "conn")) {
        state.client_ip = value;
        None
    } else if ssnc && str_is(code, "dapo") {
        state.dacp_port = value;
        None
    } else if ssnc && str_is(code, "acre") {
        state.active_remote = value;
        None
    } else if ssnc && str_is(code, "snam") {
        state.device_name = value;
        shairport_connection_message(state)
    } else if ssnc && str_is(code, "snua") {
        some_text("Client identified as User-Agent: ", &value)
    } else if ssnc && str_is(code, "prgr") {
        shairport_progress_message(value.as_str())
    } else if ssnc && str_is(code, "pend") {
        Some("Connection closed for socket shairport".to_owned())
    } else if ssnc && str_is(code, "pbeg") {
        Some("Accepted Shairport client on socket shairport".to_owned())
    } else if str_is(code, "asfm") {
        some_text("start audio connection, format ", &value)
    } else if ssnc && str_is(code, "PICT") {
        save = true;
        let mut out = chars_of("coverart size ");
        push_decimal(data.len() as u64, &mut out);
        Some(string_of(out.as_slice()))
    } else {
        None
    };
    MetadataOutcome { message, save_cover_art: save }
}

} // verus!
