use uiplay::session::{
    listen_to_shairport_metadata, listen_to_uxplay_output, reset_session_state,
    shairport_connection_message, Action, SessionState,
};

fn emitted(actions: &[Action]) -> Vec<(String, String)> {
    actions
        .iter()
        .filter_map(|a| match a {
            Action::Emit { event, payload } => Some((event.clone(), payload.clone())),
            _ => None,
        })
        .collect()
}

#[test]
fn title_line_is_announced_once() {
    let mut state = SessionState::new();
    let first = listen_to_uxplay_output(&mut state, "Title: Song");
    assert_eq!(emitted(&first), vec![("Title".to_string(), "Song".to_string())]);
    assert!(matches!(first.last(), Some(Action::UpdateDiscord)));
    assert_eq!(state.title, "Song");
    let second = listen_to_uxplay_output(&mut state, "Title: Song");
    assert!(second.is_empty());
}

#[test]
fn repeated_cover_art_line_uploads_again() {
    let mut state = SessionState::new();
    let first = listen_to_uxplay_output(&mut state, "coverart size 1234");
    assert!(matches!(first.as_slice(), [Action::UploadAlbumArt]));
    let second = listen_to_uxplay_output(&mut state, "coverart size 1234");
    assert!(matches!(second.as_slice(), [Action::UploadAlbumArt]));
}

#[test]
fn genre_is_not_sent_to_discord() {
    let mut state = SessionState::new();
    let actions = listen_to_uxplay_output(&mut state, "Genre: Jazz");
    assert_eq!(actions.len(), 1);
    assert_eq!(emitted(&actions), vec![("Genre".to_string(), "Jazz".to_string())]);
}

#[test]
fn progress_line_is_cached() {
    let mut state = SessionState::new();
    let actions = listen_to_uxplay_output(
        &mut state,
        "audio progress (min:sec): 1:00; remaining: 1:00; track length 2:00",
    );
    assert_eq!(state.audio_progress, "1:00|1:00|2:00");
    match actions.as_slice() {
        [Action::SetDiscordTimestamps { progress, length }] => {
            assert_eq!(progress, "1:00");
            assert_eq!(length, "2:00");
        }
        _ => panic!("unexpected actions"),
    }
}

#[test]
fn connection_line_sets_device_id() {
    let mut state = SessionState::new();
    let actions =
        listen_to_uxplay_output(&mut state, "connection request from Phone with deviceID = AB:CD");
    assert!(actions.is_empty());
    assert_eq!(state.device_id, "AB:CD");
}

#[test]
fn unrelated_line_does_nothing() {
    let mut state = SessionState::new();
    assert!(listen_to_uxplay_output(&mut state, "raop_rtp starting").is_empty());
    assert_eq!(state.title, "");
}

#[test]
fn reset_clears_and_announces() {
    let mut state = SessionState::new();
    listen_to_uxplay_output(&mut state, "Title: Song");
    state.album_art_hash = 7;
    let actions = reset_session_state(&mut state);
    assert_eq!(state.title, "");
    assert_eq!(state.album_art_hash, 0);
    assert_eq!(
        emitted(&actions),
        vec![
            ("Title".to_string(), String::new()),
            ("Artist".to_string(), String::new()),
            ("Album".to_string(), String::new()),
            ("Genre".to_string(), String::new()),
        ]
    );
    assert!(matches!(actions.last(), Some(Action::MetadataChanged)));
}

#[test]
fn shairport_title_item_becomes_title_line() {
    let mut state = SessionState::new();
    let outcome = listen_to_shairport_metadata(&mut state, "core", "minm", b"Song");
    assert_eq!(outcome.message.as_deref(), Some("Title: Song"));
    assert!(!outcome.save_cover_art);
}

#[test]
fn shairport_invalid_utf8_is_replaced() {
    let mut state = SessionState::new();
    let outcome = listen_to_shairport_metadata(&mut state, "core", "asar", &[0x41, 0xff]);
    assert_eq!(outcome.message.as_deref(), Some("Artist: A\u{fffd}"));
}

#[test]
fn shairport_connection_needs_id_and_name() {
    let mut state = SessionState::new();
    let first = listen_to_shairport_metadata(&mut state, "ssnc", "cdid", b"ID1");
    assert_eq!(first.message.as_deref(), Some("Shairport client device ID: ID1"));
    let second = listen_to_shairport_metadata(&mut state, "ssnc", "snam", b"Phone");
    assert_eq!(second.message.as_deref(), Some("connection request from Phone with deviceID = ID1"));
    assert_eq!(
        shairport_connection_message(&state).as_deref(),
        Some("connection request from Phone with deviceID = ID1")
    );
}

#[test]
fn shairport_endpoint_items_are_stored_silently() {
    let mut state = SessionState::new();
    assert!(listen_to_shairport_metadata(&mut state, "ssnc", "clip", b"10.0.0.2").message.is_none());
    assert!(listen_to_shairport_metadata(&mut state, "ssnc", "dapo", b"3689").message.is_none());
    assert!(listen_to_shairport_metadata(&mut state, "ssnc", "acre", b"42").message.is_none());
    assert_eq!(state.client_ip, "10.0.0.2");
    assert_eq!(state.dacp_port, "3689");
    assert_eq!(state.active_remote, "42");
}

#[test]
fn shairport_picture_is_saved() {
    let mut state = SessionState::new();
    let outcome = listen_to_shairport_metadata(&mut state, "ssnc", "PICT", &[1, 2, 3]);
    assert_eq!(outcome.message.as_deref(), Some("coverart size 3"));
    assert!(outcome.save_cover_art);
}

#[test]
fn shairport_misc_items() {
    let mut state = SessionState::new();
    let m = |s: &mut SessionState, k: &str, c: &str, d: &[u8]| {
        listen_to_shairport_metadata(s, k, c, d).message
    };
    assert_eq!(m(&mut state, "ssnc", "pbeg", b"").as_deref(), Some("Accepted Shairport client on socket shairport"));
    assert_eq!(m(&mut state, "ssnc", "pend", b"").as_deref(), Some("Connection closed for socket shairport"));
    assert_eq!(m(&mut state, "core", "asfm", b"ALAC").as_deref(), Some("start audio connection, format ALAC"));
    assert_eq!(m(&mut state, "ssnc", "snua", b"AirPlay/1").as_deref(), Some("Client identified as User-Agent: AirPlay/1"));
    assert_eq!(
        m(&mut state, "ssnc", "prgr", b"1000/2647000/5293000").as_deref(),
        Some("audio progress (min:sec): 1:00; remaining: 1:00; track length 2:00")
    );
    assert_eq!(m(&mut state, "core", "xxxx", b"x"), None);
}

#[test]
fn title_is_taken_from_its_line_only() {
    let mut state = SessionState::new();
    listen_to_uxplay_output(&mut state, "raop: Title: Song\nArtist: Someone");
    assert_eq!(state.title, "Song");
    assert_eq!(state.artist, "Someone");
    listen_to_uxplay_output(&mut state, "Title: A Title: B");
    assert_eq!(state.title, "A Title: B");
}

#[test]
fn shairport_progress_reaches_mpris() {
    // 60 s played of 120 s, at 44 100 frames per second.
    let mut state = SessionState::new();
    let outcome = listen_to_shairport_metadata(&mut state, "ssnc", "prgr", b"1000/2647000/5293000");
    let line = outcome.message.unwrap();
    listen_to_uxplay_output(&mut state, &line);
    assert_eq!(state.audio_progress, "1:00|1:00|2:00");
    assert_eq!(uiplay::progress::progress_values(&state.audio_progress), (60, 120));
}

#[test]
fn connection_line_records_device_id() {
    let mut state = SessionState::new();
    listen_to_uxplay_output(&mut state, "raop: connection request from My Phone with deviceID = AB:CD:EF");
    assert_eq!(state.device_id, "AB:CD:EF");
    // The first group is greedy: the ID follows the line's last separator.
    listen_to_uxplay_output(&mut state, "connection request from a with deviceID = b with deviceID = C\nnext");
    assert_eq!(state.device_id, "C");
    // No separator on the line of the request: no match.
    listen_to_uxplay_output(&mut state, "connection request from x\n with deviceID = y");
    assert_eq!(state.device_id, "C");
}

#[test]
fn shairport_device_id_reaches_the_session() {
    let mut state = SessionState::new();
    listen_to_shairport_metadata(&mut state, "ssnc", "snam", b"Phone");
    let outcome = listen_to_shairport_metadata(&mut state, "ssnc", "cdid", b"ID7");
    let line = outcome.message.unwrap();
    assert_eq!(line, "connection request from Phone with deviceID = ID7");
    let mut other = SessionState::new();
    listen_to_uxplay_output(&mut other, &line);
    assert_eq!(other.device_id, "ID7");
}
