//! Where each track field goes: a line names its field, Shairport's items
//! become the line of the field they carry, and MPRIS reports each field
//! under its own key.

use vstd::prelude::*;
use crate::text::{matches_at, spec_find, find_from};
use crate::session::{
    ActionView, SessionView, spec_uxplay_output, step_title, step_artist, step_album, step_genre,
    step_progress, step_connection, step_album_art, prefix_captures, line_end, group_text,
    utf8_lossy, spec_shairport_metadata,
};
use crate::mpris::{spec_metadata, MetadataValueView};
use crate::laws::lemma_no_newline_from;

verus! {

/// A line `<prefix><value>` with the value on one line is captured with the
/// value as its group.
proof fn lemma_line_groups(prefix: Seq<char>, v: Seq<char>)
    requires
        prefix.len() > 0,
        !v.contains('\n'),
    ensures
        prefix_captures(prefix, prefix + v) == Some(seq![Some(prefix + v), Some(v)]),
        group_text(seq![Some(prefix + v), Some(v)], 1) == v,
{
    let m = prefix + v;
    let n = prefix.len();
    assert(m.subrange(0, n as int) =~= prefix);
    assert(matches_at(m, prefix, 0));
    assert(find_from(m, prefix, 0) == Some(0int));
    assert(spec_find(m, prefix) == Some(0int));
    assert forall|j: int| n <= j < m.len() implies m[j] != '\n' by {
        assert(m[j] == v[j - n]);
        if v[j - n] == '\n' {
            assert(v.contains('\n'));
        }
    }
    lemma_no_newline_from(m, n);
    assert(line_end(m, n as int) == m.len());
    assert(m.subrange(0, m.len() as int) =~= m);
    assert(m.subrange(n as int, m.len() as int) =~= v);
}

/// Law: an album line announces the album. Handling `Album: <v>` (with `v`
/// on one line) makes `v` the session's album and, where the album was
/// another, shows `v` as the album in the front end.
pub proof fn law_album_line_is_announced(s: SessionView, v: Seq<char>)
    requires
        !v.contains('\n'),
    ensures
        spec_uxplay_output(s, "Album: "@ + v).0.album == v,
        s.album != v ==> spec_uxplay_output(s, "Album: "@ + v).1.contains(ActionView::Emit("Album"@, v)),
{
    reveal_strlit("Album: ");
    let m = "Album: "@ + v;
    lemma_line_groups("Album: "@, v);
    let r1 = step_title(s, m);
    let r2 = step_artist(r1.0, m);
    let r3 = step_album(r2.0, m);
    let r4 = step_genre(r3.0, m);
    let r5 = step_progress(r4.0, m);
    assert(r2.0.album == s.album);
    assert(r3.0.album == v);
    assert(r5.0.album == v);
    assert(step_connection(r5.0, m).album == v);
    if s.album != v {
        assert(r3.1 == seq![ActionView::Emit("Album"@, v), ActionView::UpdateDiscord]);
        let a = r1.1 + r2.1;
        let all = a + r3.1 + r4.1 + r5.1 + step_album_art(m);
        assert(all[a.len() as int] == ActionView::Emit("Album"@, v));
        assert(all == spec_uxplay_output(s, m).1);
    }
}

/// Law: an artist line announces the artist. Handling `Artist: <v>` (with
/// `v` on one line) makes `v` the session's artist and, where the artist was
/// another, shows `v` as the artist in the front end.
pub proof fn law_artist_line_is_announced(s: SessionView, v: Seq<char>)
    requires
        !v.contains('\n'),
    ensures
        spec_uxplay_output(s, "Artist: "@ + v).0.artist == v,
        s.artist != v ==> spec_uxplay_output(s, "Artist: "@ + v).1.contains(ActionView::Emit("Artist"@, v)),
{
    reveal_strlit("Artist: ");
    let m = "Artist: "@ + v;
    lemma_line_groups("Artist: "@, v);
    let r1 = step_title(s, m);
    let r2 = step_artist(r1.0, m);
    let r3 = step_album(r2.0, m);
    let r4 = step_genre(r3.0, m);
    let r5 = step_progress(r4.0, m);
    assert(r1.0.artist == s.artist);
    assert(r2.0.artist == v);
    assert(r5.0.artist == v);
    assert(step_connection(r5.0, m).artist == v);
    if s.artist != v {
        assert(r2.1 == seq![ActionView::Emit("Artist"@, v), ActionView::UpdateDiscord]);
        let a = r1.1;
        let all = a + r2.1 + r3.1 + r4.1 + r5.1 + step_album_art(m);
        assert(all[a.len() as int] == ActionView::Emit("Artist"@, v));
        assert(all == spec_uxplay_output(s, m).1);
    }
}

/// Law: a genre line announces the genre. Handling `Genre: <v>` (with `v`
/// on one line) makes `v` the session's genre and, where the genre was
/// another, shows `v` as the genre in the front end.
pub proof fn law_genre_line_is_announced(s: SessionView, v: Seq<char>)
    requires
        !v.contains('\n'),
    ensures
        spec_uxplay_output(s, "Genre: "@ + v).0.genre == v,
        s.genre != v ==> spec_uxplay_output(s, "Genre: "@ + v).1.contains(ActionView::Emit("Genre"@, v)),
{
    reveal_strlit("Genre: ");
    let m = "Genre: "@ + v;
    lemma_line_groups("Genre: "@, v);
    let r1 = step_title(s, m);
    let r2 = step_artist(r1.0, m);
    let r3 = step_album(r2.0, m);
    let r4 = step_genre(r3.0, m);
    let r5 = step_progress(r4.0, m);
    assert(r3.0.genre == s.genre);
    assert(r4.0.genre == v);
    assert(r5.0.genre == v);
    assert(step_connection(r5.0, m).genre == v);
    if s.genre != v {
        assert(r4.1 == seq![ActionView::Emit("Genre"@, v)]);
        let a = r1.1 + r2.1 + r3.1;
        let all = a + r4.1 + r5.1 + step_album_art(m);
        assert(all[a.len() as int] == ActionView::Emit("Genre"@, v));
        assert(all == spec_uxplay_output(s, m).1);
    }
}

/// Law: Shairport's track items become the lines of their fields: the
/// `core` items `minm`, `asar`, `asal` and `asgn` with value `v` amount to
/// `Title: v`, `Artist: v`, `Album: v` and `Genre: v`, and leave the
/// session as it was.
pub proof fn law_shairport_track_items(s: SessionView, data: Seq<u8>)
    ensures
        spec_shairport_metadata(s, "core"@, "minm"@, data) == (s, Some("Title: "@ + utf8_lossy(data)), false),
        spec_shairport_metadata(s, "core"@, "asar"@, data) == (s, Some("Artist: "@ + utf8_lossy(data)), false),
        spec_shairport_metadata(s, "core"@, "asal"@, data) == (s, Some("Album: "@ + utf8_lossy(data)), false),
        spec_shairport_metadata(s, "core"@, "asgn"@, data) == (s, Some("Genre: "@ + utf8_lossy(data)), false),
{
    reveal_strlit("minm");
    reveal_strlit("asar");
    reveal_strlit("asal");
    reveal_strlit("asgn");
    assert("asar"@ != "minm"@) by {
        assert("asar"@[0] != "minm"@[0]);
    }
    assert("asal"@ != "minm"@ && "asal"@ != "asar"@) by {
        assert("asal"@[0] != "minm"@[0]);
        assert("asal"@[3] != "asar"@[3]);
    }
    assert("asgn"@ != "minm"@ && "asgn"@ != "asar"@ && "asgn"@ != "asal"@) by {
        assert("asgn"@[0] != "minm"@[0]);
        assert("asgn"@[2] != "asar"@[2]);
        assert("asgn"@[2] != "asal"@[2]);
    }
}

/// Law: a Shairport album item reaches the session as the album: the line
/// it amounts to, handled, makes its value the album and shows it as the
/// album, where the value is one line and a new album.
pub proof fn law_shairport_album_is_announced(shairport: SessionView, s: SessionView, data: Seq<u8>)
    requires
        !utf8_lossy(data).contains('\n'),
    ensures
        spec_shairport_metadata(shairport, "core"@, "asal"@, data).1 matches Some(line) && {
            &&& spec_uxplay_output(s, line).0.album == utf8_lossy(data)
            &&& s.album != utf8_lossy(data) ==> spec_uxplay_output(s, line).1.contains(
                ActionView::Emit("Album"@, utf8_lossy(data)),
            )
        },
{
    law_shairport_track_items(shairport, data);
    law_album_line_is_announced(s, utf8_lossy(data));
}

/// The value under `key` in MPRIS metadata: the one entry with that key.
pub open spec fn metadata_value(entries: Seq<(Seq<char>, MetadataValueView)>, key: Seq<char>, value: MetadataValueView) -> bool {
    &&& entries.contains((key, value))
    &&& forall|i: int| 0 <= i < entries.len() && #[trigger] entries[i].0 == key ==> entries[i].1 == value
}

/// Law: MPRIS reports each track field under its own key, once: the title
/// under `xesam:title`, the album under `xesam:album`, the artist (as a
/// one-element list) under `xesam:artist` and the genre under `xesam:genre`.
pub proof fn law_mpris_track_fields(s: SessionView)
    ensures
        metadata_value(spec_metadata(s), "xesam:title"@, MetadataValueView::Text(s.title)),
        metadata_value(spec_metadata(s), "xesam:album"@, MetadataValueView::Text(s.album)),
        metadata_value(spec_metadata(s), "xesam:artist"@, MetadataValueView::TextList(seq![s.artist])),
        metadata_value(spec_metadata(s), "xesam:genre"@, MetadataValueView::TextList(seq![s.genre])),
{
    reveal_strlit("mpris:trackid");
    reveal_strlit("xesam:title");
    reveal_strlit("xesam:album");
    reveal_strlit("xesam:artist");
    reveal_strlit("xesam:genre");
    reveal_strlit("mpris:length");
    reveal_strlit("mpris:artUrl");
    let e = spec_metadata(s);
    let keys = seq!["mpris:trackid"@, "xesam:title"@, "xesam:album"@, "xesam:artist"@, "xesam:genre"@];
    assert(e.len() >= 5);
    assert forall|i: int| 0 <= i < 5 implies #[trigger] e[i].0 == keys[i] by {}
    assert forall|i: int| 5 <= i < e.len() implies e[i].0[0] == 'm' by {}
    // The keys differ pairwise.
    assert(keys[0][0] == 'm' && keys[1][6] == 't' && keys[2][6] == 'a' && keys[3][6] == 'a'
        && keys[4][6] == 'g' && keys[2][7] == 'l' && keys[3][7] == 'r');
    assert(keys[1][0] == 'x' && keys[2][0] == 'x' && keys[3][0] == 'x' && keys[4][0] == 'x');
    assert(e[1] == ("xesam:title"@, MetadataValueView::Text(s.title)));
    assert(e[2] == ("xesam:album"@, MetadataValueView::Text(s.album)));
    assert(e[3] == ("xesam:artist"@, MetadataValueView::TextList(seq![s.artist])));
    assert(e[4] == ("xesam:genre"@, MetadataValueView::TextList(seq![s.genre])));
}

} // verus!
