# uiplay

The logic of UiPlay, an AirPlay receiver front end that forwards track
metadata to Discord Rich Presence and MPRIS, as a library verified with Verus.

- `src/metadata.rs` reads Shairport Sync's metadata stream line by line.
- `src/session.rs` turns receiver output (UxPlay log lines, Shairport items)
  into session state and the actions the application performs.
- `src/dacp.rs` reads UxPlay's DACP export and `avahi-browse` output and builds
  the playback-control requests.
- `src/control.rs` decides a playback request step by step: where the DACP
  endpoint comes from, then DACP, Shairport's MPRIS interface and its own
  D-Bus interface in that order; `src/restart.rs` decides how a running
  UxPlay is stopped. The application performs each step and reports back.
- `src/progress.rs`, `src/discord.rs`, `src/mpris.rs` compute what the progress
  line, the Discord activity and the MPRIS interface show.
- `src/settings.rs`, `src/output.rs`, `src/environment.rs` cover the settings,
  the receiver choice, output line splitting and AppImage search paths.
- `src/text.rs` holds the character-level building blocks; `src/laws.rs`,
  `src/stream_laws.rs` (an item written in the stream format reads back) and
  `src/progress_laws.rs` (Shairport's progress reaches MPRIS) the properties
  that span functions.

`app/` is the Tauri application around the library: processes, pipes, HTTP,
D-Bus and Discord IPC.
