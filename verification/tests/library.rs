use uiplay::dacp::{
    cached_endpoint, control_failure_message, dacp_command, dacp_service_name, dacp_url,
    parse_avahi_dacp_output, parse_uxplay_dacp, remember_endpoint, shairport_endpoint,
    unescape_avahi_field, avahi_output_in_range, PlaybackControl, mpris_control_method,
    native_control_method,
};
use uiplay::discord::{
    album_art_changed, album_art_step, album_art_uploaded, discord_activity, AlbumArtStep, discord_timestamps,
    discord_timestamps_in_range, parse_min_sec,
};
use uiplay::environment::{host_paths, is_bundled_path};
use uiplay::metadata::{hex_code, read_metadata_item, xml_value, ItemReader, MetadataError, ReadStep};
use uiplay::mpris::{
    length_fits, locked, metadata, playback_status, position, position_fits, MetadataValue,
    PlaybackState,
};
use uiplay::output::{split_output, LineSplitter};
use uiplay::progress::{min_sec, parse_time, parse_time_in_range, progress_values, shairport_progress_message};
use uiplay::session::{listen_to_uxplay_output, SessionState};
use uiplay::settings::{choose_receiver, receiver_started_message, Provider, Settings};

#[test]
fn min_sec_reads_back() {
    for s in [0u64, 5, 59, 60, 754, 3600, 86399] {
        let text = min_sec(s);
        assert_eq!(parse_time(&text), Some(s as i64));
        assert_eq!(parse_min_sec(&text), Some(s as i64));
    }
    assert_eq!(min_sec(754), "12:34");
    assert_eq!(min_sec(65), "1:05");
}

#[test]
fn parse_time_edges() {
    assert_eq!(parse_time(" 1 : 05 "), Some(65));
    assert_eq!(parse_time("-1:30"), Some(-30));
    assert_eq!(parse_time("+2:00"), Some(120));
    assert_eq!(parse_time("12"), None);
    assert_eq!(parse_time("a:1"), None);
    assert!(!parse_time_in_range("999999999999999999:0"));
    assert!(parse_time_in_range("1:0"));
}

#[test]
fn progress_key_reads_back() {
    let mut state = SessionState::new();
    listen_to_uxplay_output(
        &mut state,
        "audio progress (min:sec): 1:05; remaining: 2:00; track length 3:05",
    );
    assert_eq!(progress_values(&state.audio_progress), (65, 185));
    assert_eq!(progress_values(""), (0, 0));
    assert_eq!(progress_values("1:00|x"), (60, 0));
}

#[test]
fn progress_message_rejects_bad_values() {
    assert_eq!(shairport_progress_message("1/2"), None);
    assert_eq!(shairport_progress_message("1/2/3/4"), None);
    assert_eq!(shairport_progress_message("5/4/3"), None);
    assert_eq!(shairport_progress_message("1/x/3"), None);
    assert_eq!(shairport_progress_message("4294967296/1/2"), None);
    assert_eq!(
        shairport_progress_message("0/0/0").as_deref(),
        Some("audio progress (min:sec): 0:00; remaining: 0:00; track length 0:00")
    );
}

#[test]
fn xml_value_reads_back() {
    assert_eq!(xml_value("<item><code>abc</code>", "code"), Some("abc"));
    assert_eq!(xml_value("<code>abc", "code"), None);
    assert_eq!(xml_value("<type>x</type>", "code"), None);
}

#[test]
fn hex_code_spells_names() {
    assert_eq!(hex_code("636f7265").as_deref(), Some("core"));
    assert_eq!(hex_code("+50494354").as_deref(), Some("PICT"));
    assert_eq!(hex_code("ffffffff"), None);
    assert_eq!(hex_code("1ffffffff"), None);
    assert_eq!(hex_code("zz"), None);
    assert_eq!(hex_code("41").as_deref(), Some("\0\0\0A"));
    for name in ["core", "ssnc", "minm", "asar", "PICT", "éab", "€x"] {
        let bytes: [u8; 4] = name.as_bytes().try_into().unwrap();
        let digits = format!("{:08x}", u32::from_be_bytes(bytes));
        assert_eq!(hex_code(&digits).as_deref(), Some(name));
    }
}

#[test]
fn metadata_errors() {
    let missing = "<item><type>636f7265</type><code>6d696e6d</code><length>4</length>\nU29uZw==</data></item>\n";
    assert_eq!(read_metadata_item(missing), Err(MetadataError::MissingDataTag));
    let eof = "<item><type>636f7265</type><code>6d696e6d</code><length>4</length>\n<data encoding=\"base64\">\nU29u";
    assert_eq!(read_metadata_item(eof), Err(MetadataError::UnexpectedEof));
    let bad = "<item><type>636f7265</type><code>6d696e6d</code><length>4</length>\n<data encoding=\"base64\">\n!!!!</data></item>\n";
    assert_eq!(read_metadata_item(bad), Err(MetadataError::InvalidBase64));
    let short = "<item><type>636f7265</type><code>6d696e6d</code><length>5</length>\n<data encoding=\"base64\">\nU29uZw==</data></item>\n";
    assert_eq!(read_metadata_item(short), Err(MetadataError::InvalidLength));
    // Non-canonical Base64: trailing bits set, missing padding, padding inside.
    for payload in ["U29uZx==", "U29uZw", "U2=uZw==", "U29uZw==="] {
        let input = format!(
            "<item><type>636f7265</type><code>6d696e6d</code><length>4</length>\n<data encoding=\"base64\">\n{payload}</data></item>\n"
        );
        assert_eq!(read_metadata_item(&input), Err(MetadataError::InvalidBase64));
    }
    assert_eq!(read_metadata_item(""), Ok(None));
    assert_eq!(read_metadata_item("<item><type>zz</type></item>\n"), Ok(None));
}

#[test]
fn metadata_reader_steps_line_by_line() {
    let reader = ItemReader::new();
    let reader = match reader.step("<item><type>636f7265</type><code>6d696e6d</code><length>4</length>\n") {
        ReadStep::More(r) => r,
        ReadStep::Done(_) => panic!("header ended the item"),
    };
    let reader = match reader.step("<data encoding=\"base64\">\n") {
        ReadStep::More(r) => r,
        ReadStep::Done(_) => panic!("data tag ended the item"),
    };
    match reader.step("U29uZw==</data></item>\n") {
        ReadStep::Done(Ok(Some(item))) => assert_eq!(item.data, b"Song".to_vec()),
        _ => panic!("item not read"),
    }
}

#[test]
fn dacp_parsing_edges() {
    let c = parse_uxplay_dacp("  active-remote = 99 \n dacp-id: XY \n").unwrap();
    assert_eq!(c.dacp_id, "XY");
    assert_eq!(c.active_remote, "99");
    let c = parse_uxplay_dacp("\n\nID\r\n\nREMOTE\n").unwrap();
    assert_eq!(c.dacp_id, "ID");
    assert_eq!(c.active_remote, "REMOTE");
    assert_eq!(parse_uxplay_dacp("DACP-ID:\nActive-Remote: 1\n").err().as_deref(), Some("UxPlay's DACP export is incomplete"));
    assert!(parse_uxplay_dacp("").is_err());
}

#[test]
fn avahi_edges() {
    let output = "+;wlan0;IPv4;iTunes_Ctrl_X;_dacp._tcp;local\n=;wlan0;IPv4;iTunes_Ctrl_X;_dacp._tcp;local;h;fe80::1\\0372;70000;\n=;wlan0;IPv4;iTunes_Ctrl_X;_dacp._tcp;local;h;fe80::1\\0372;3689;\n";
    assert!(avahi_output_in_range(output, "iTunes_Ctrl_X"));
    assert_eq!(parse_avahi_dacp_output(output, "iTunes_Ctrl_X").unwrap(), ("fe80::1%2".to_string(), 3689));
    assert_eq!(
        parse_avahi_dacp_output(output, "iTunes_Ctrl_Y").err().as_deref(),
        Some("DACP service iTunes_Ctrl_Y was not found")
    );
    assert!(!avahi_output_in_range("=;a;b;S;_dacp._tcp;l;h;\\300;1;\n", "S"));
    assert_eq!(unescape_avahi_field("plain"), "plain");
    assert_eq!(unescape_avahi_field("\\12"), "\\12");
}

#[test]
fn dacp_requests() {
    assert_eq!(dacp_command(PlaybackControl::Previous), "previtem");
    assert_eq!(dacp_command(PlaybackControl::PlayPause), "playpause");
    assert_eq!(dacp_command(PlaybackControl::Next), "nextitem");
    assert_eq!(dacp_url("10.0.0.2", 3689, "nextitem"), "http://10.0.0.2:3689/ctrl-int/1/nextitem");
    assert_eq!(dacp_url("fe80::1", 80, "playpause"), "http://[fe80::1]:80/ctrl-int/1/playpause");
    assert_eq!(dacp_service_name("AB"), "iTunes_Ctrl_AB");
    assert_eq!(mpris_control_method(PlaybackControl::Next), "org.mpris.MediaPlayer2.Player.Next");
    assert_eq!(
        native_control_method(PlaybackControl::PlayPause),
        "org.gnome.ShairportSync.RemoteControl.PlayPause"
    );
    assert_eq!(
        control_failure_message("a", "b", "c"),
        "DACP control is unavailable: a. Shairport MPRIS control failed: b. Native control failed: c"
    );
}

#[test]
fn endpoints_and_cache() {
    let mut state = SessionState::new();
    assert!(shairport_endpoint(&state).is_none());
    state.client_ip = "10.0.0.2".into();
    state.dacp_port = "notaport".into();
    state.active_remote = "42".into();
    assert!(shairport_endpoint(&state).is_none());
    state.dacp_port = "3689".into();
    assert_eq!(shairport_endpoint(&state), Some(("10.0.0.2".to_string(), 3689, "42".to_string())));
    let creds = parse_uxplay_dacp("ID\nREMOTE\n").unwrap();
    assert!(cached_endpoint(&state, &creds).is_none());
    let got = remember_endpoint(&mut state, creds, "host".into(), 7);
    assert_eq!(got, ("host".to_string(), 7, "REMOTE".to_string()));
    let creds = parse_uxplay_dacp("ID\nREMOTE\n").unwrap();
    assert_eq!(cached_endpoint(&state, &creds), Some(("host".to_string(), 7, "REMOTE".to_string())));
    let other = parse_uxplay_dacp("ID\nOTHER\n").unwrap();
    assert!(cached_endpoint(&state, &other).is_none());
}

#[test]
fn discord_fields_and_timestamps() {
    let mut state = SessionState::new();
    state.title = "T".into();
    state.artist = "A".into();
    state.album = "B".into();
    state.album_art = "https://x/y.png".into();
    let f = discord_activity(&state);
    assert_eq!((f.details.as_str(), f.state.as_str(), f.large_text.as_str()), ("T", "A", "B"));
    assert_eq!(f.large_image, "https://x/y.png");
    assert_eq!((f.small_image.as_str(), f.small_text.as_str()), ("uiplay", "UiPlay"));
    assert!(discord_timestamps_in_range("1:00", "3:00", 1000));
    assert_eq!(discord_timestamps("1:00", "3:00", 1000), Some((940, 1120)));
    assert_eq!(discord_timestamps("x", "3:00", 1000), None);
    assert_eq!(parse_min_sec("1:02:03"), Some(62));
    assert_eq!(parse_min_sec(" 1:02"), None);
    assert!(!discord_timestamps_in_range("1:00", "3:00", i64::MIN));
    // Minutes that would overflow are never multiplied when the seconds do not read.
    assert!(discord_timestamps_in_range("200000000000000000:xx", "3:00", 1000));
    assert_eq!(parse_min_sec("200000000000000000:xx"), None);
    assert_eq!(discord_timestamps("200000000000000000:xx", "3:00", 1000), None);
}

#[test]
fn album_art_cache() {
    let mut state = SessionState::new();
    assert!(album_art_changed(&state, 5));
    let actions = album_art_uploaded(&mut state, 5, "url".into());
    assert_eq!(actions.len(), 1);
    assert!(!album_art_changed(&state, 5));
    assert_eq!(state.album_art, "url");
}

#[test]
fn mpris_reports() {
    assert_eq!(playback_status("", true), "Stopped");
    assert_eq!(playback_status("T", true), "Playing");
    assert_eq!(playback_status("T", false), "Paused");
    let mut p = PlaybackState::new();
    assert!(p.playing);
    assert!(!p.set_playing(true));
    assert!(p.set_playing(false));
    assert!(!p.set_playing(false));
    p.play_pause();
    assert!(p.playing);
    assert_eq!(locked(None), "");
    assert_eq!(locked(Some(&"x".to_string())), "x");
    assert!(position_fits("1:00|1:00|2:00"));
    assert!(length_fits("1:00|1:00|2:00"));
    // A huge position with a small length: only the position overflows.
    assert!(!position_fits("200000000000000:00|0:00|2:00"));
    assert!(length_fits("200000000000000:00|0:00|2:00"));
    assert_eq!(position("1:00|1:00|2:00"), 60_000_000);
    let mut state = SessionState::new();
    state.title = "T".into();
    state.audio_progress = "1:00|1:00|2:00".into();
    let m = metadata(&state);
    assert_eq!(m.len(), 6);
    assert!(matches!(&m[5], (k, MetadataValue::Int(120_000_000)) if k == "mpris:length"));
    state.album_art = "u".into();
    state.audio_progress = String::new();
    let m = metadata(&state);
    assert_eq!(m.len(), 6);
    assert!(matches!(&m[5], (k, MetadataValue::Text(u)) if k == "mpris:artUrl" && u == "u"));
}

#[test]
fn output_lines() {
    let lines = split_output(b"a\r\n\nbc\rd");
    assert_eq!(lines, vec![b"a".to_vec(), b"bc".to_vec(), b"d".to_vec()]);
    let mut s = LineSplitter::new();
    assert_eq!(s.push_byte(b'x'), None);
    assert_eq!(s.push_byte(b'\n'), Some(b"x".to_vec()));
    assert_eq!(s.push_byte(b'\n'), None);
    assert_eq!(s.finish(), None);
}

#[test]
fn receiver_choice() {
    let c = choose_receiver(Provider::Shairport, true, true).unwrap();
    assert_eq!(c.receiver, Provider::Shairport);
    assert!(c.fallback_notice.is_none());
    let c = choose_receiver(Provider::Shairport, false, true).unwrap();
    assert_eq!(c.receiver, Provider::Uxplay);
    assert_eq!(c.fallback_notice.as_deref(), Some("Shairport Sync is unavailable; falling back to UxPlay."));
    let c = choose_receiver(Provider::Uxplay, true, false).unwrap();
    assert_eq!(c.receiver, Provider::Shairport);
    assert_eq!(c.fallback_notice.as_deref(), Some("UxPlay is unavailable; falling back to Shairport Sync."));
    assert_eq!(
        choose_receiver(Provider::Uxplay, false, false).err().as_deref(),
        Some("Neither Shairport Sync nor UxPlay is installed.")
    );
    assert_eq!(receiver_started_message(Provider::Uxplay), "UxPlay receiver started.");
    let s = Settings::default();
    assert_eq!(s.name, "UiPlay");
    assert_eq!(s.provider, Provider::Shairport);
    assert_eq!(Provider::default(), Provider::Shairport);
}

#[test]
fn appimage_paths() {
    let paths = vec!["/tmp/.mount_x/usr/lib".to_string(), String::new(), "/usr/lib".to_string(), "/tmp/.mount_xy".to_string()];
    assert_eq!(host_paths(&paths, "/tmp/.mount_x"), vec!["/usr/lib".to_string(), "/tmp/.mount_xy".to_string()]);
    assert!(is_bundled_path("/tmp/.mount_x/usr/lib/gst-plugin-scanner", "/tmp/.mount_x"));
    assert!(!is_bundled_path("/usr/lib/gst-plugin-scanner", "/tmp/.mount_x"));
}

#[test]
fn progress_message_adds_up() {
    for value in ["1000/2647000/5293000", "4294967000/100000/9000000", "0/0/0", "5/44105/88205"] {
        let m = shairport_progress_message(value).unwrap();
        let rest = m.strip_prefix("audio progress (min:sec): ").unwrap();
        let (p, rest) = rest.split_once("; remaining: ").unwrap();
        let (r, l) = rest.split_once("; track length ").unwrap();
        let (p, r, l) = (parse_time(p).unwrap(), parse_time(r).unwrap(), parse_time(l).unwrap());
        assert_eq!(p + r, l);
    }
}

#[test]
fn progress_line_reaches_mpris() {
    for (p, l) in [(0u64, 0u64), (60, 120), (59, 3601), (754, 86399)] {
        let line = format!(
            "audio progress (min:sec): {}; remaining: {}; track length {}",
            min_sec(p),
            min_sec(l - p),
            min_sec(l)
        );
        let mut state = SessionState::new();
        listen_to_uxplay_output(&mut state, &line);
        assert_eq!(state.audio_progress, format!("{}|{}|{}", min_sec(p), min_sec(l - p), min_sec(l)));
        assert_eq!(progress_values(&state.audio_progress), (p as i64, l as i64));
    }
    let mut state = SessionState::new();
    listen_to_uxplay_output(
        &mut state,
        "raop: audio progress (min:sec):  1:02;\tremaining: 0:58; track length 2:00 (x)",
    );
    assert_eq!(state.audio_progress, "1:02|0:58|2:00");
}

#[test]
fn album_art_steps() {
    assert_eq!(album_art_step(false, ""), AlbumArtStep::Skip);
    assert_eq!(album_art_step(false, "token"), AlbumArtStep::Skip);
    assert_eq!(album_art_step(true, ""), AlbumArtStep::FetchToken);
    assert_eq!(album_art_step(true, "token"), AlbumArtStep::Upload);
}
