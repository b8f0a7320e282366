//! Properties that hold across the library's functions.

use vstd::prelude::*;
use crate::text::{
    all_radix_digits, decimal_digits, digit_char, index_in_from, radix_digit, radix_value,
    spec_parse_i64, spec_split, spec_trim, split_from, trim_end, trim_start,
};
use crate::progress::{spec_min_sec, spec_parse_time, time_in_range, two_digits, spec_progress_values, time_or_zero, progress_in_range};
use crate::session::progress_key;
use crate::discord::{spec_parse_min_sec, min_sec_in_range};
use crate::dacp::{escapes_in_range, spec_unescape, starts_with_escape, spec_parse_uxplay_dacp, export_lines, labelled_values, spec_export_values};
use crate::text::{spec_lines, strip_cr, is_whitespace, spec_split_once, lemma_index_in_from};
use crate::metadata::{spec_xml_value, start_tag, end_tag, spec_hex_code, be_bytes};
use crate::text::{spec_parse_radix, spec_parse_unsigned};
use crate::progress::{spec_progress_message, progress_text, frames_between, frames_per_second};
use vstd::utf8::{valid_utf8, decode_utf8};
use crate::text::{spec_find, find_from, matches_at};
use vstd::utf8::{encode_utf8, is_ascii_chars, is_ascii_chars_encode_utf8};
use crate::session::{
    ActionView, title_prefix, prefix_captures, line_end, group_text, utf8_lossy, spec_shairport_metadata,
    SessionView, spec_uxplay_output, step_album_art, step_title, step_artist, step_album,
    step_genre, step_progress, step_connection, last_match, connection_match_at,
    first_connection_match,
};

verus! {

proof fn lemma_digit_char(n: nat)
    requires
        n < 10,
    ensures
        radix_digit(digit_char(n), 10) == Some(n),
        '0' <= digit_char(n) <= '9',
{
    assert(('0' as nat) + n < 0xD800);
}

/// The digits of `n` are decimal digits that denote `n`.
pub proof fn lemma_decimal_digits(n: nat)
    ensures
        decimal_digits(n).len() >= 1,
        all_radix_digits(decimal_digits(n), 10),
        radix_value(decimal_digits(n), 10) == n,
        forall|i: int| 0 <= i < decimal_digits(n).len() ==> '0' <= #[trigger] decimal_digits(n)[i] <= '9',
    decreases n,
{
    lemma_digit_char(n % 10);
    assert(radix_value(Seq::<char>::empty(), 10) == 0);
    if n < 10 {
        let d = decimal_digits(n);
        assert(d.drop_last() =~= Seq::<char>::empty());
        assert(radix_value(d, 10) == radix_value(d.drop_last(), 10) * 10 + radix_digit(d.last(), 10).unwrap());
    } else {
        lemma_decimal_digits(n / 10);
        let d = decimal_digits(n);
        let p = decimal_digits(n / 10);
        assert(d.drop_last() =~= p);
        assert(d.last() == digit_char(n % 10));
        assert(n == (n / 10) * 10 + n % 10);
        assert forall|i: int| 0 <= i < d.len() implies #[trigger] radix_digit(d[i], 10) is Some by {
            if i < p.len() {
                assert(d[i] == p[i]);
            }
        }
        assert forall|i: int| 0 <= i < d.len() implies '0' <= #[trigger] d[i] <= '9' by {
            if i < p.len() {
                assert(d[i] == p[i]);
            }
        }
    }
}

/// `{:02}` digits of a number below a hundred are decimal digits denoting it.
pub proof fn lemma_two_digits(n: nat)
    requires
        n < 100,
    ensures
        two_digits(n).len() >= 1,
        all_radix_digits(two_digits(n), 10),
        radix_value(two_digits(n), 10) == n,
        forall|i: int| 0 <= i < two_digits(n).len() ==> '0' <= #[trigger] two_digits(n)[i] <= '9',
{
    lemma_decimal_digits(n);
    if n < 10 {
        let t = two_digits(n);
        let d = decimal_digits(n);
        assert(t =~= seq!['0', digit_char(n)]);
        assert(t.drop_last() =~= seq!['0']);
        assert(seq!['0'].drop_last() =~= Seq::<char>::empty());
        lemma_digit_char(0);
        lemma_digit_char(n);
        assert(radix_value(Seq::<char>::empty(), 10) == 0);
        assert(radix_value(seq!['0'], 10) == 0);
        assert(radix_value(t, 10) == radix_value(t.drop_last(), 10) * 10 + radix_digit(t.last(), 10).unwrap());
    }
}

/// A non-empty run of decimal digits reads as the number it denotes.
proof fn lemma_parse_digits(d: Seq<char>, n: nat)
    requires
        d.len() >= 1,
        all_radix_digits(d, 10),
        radix_value(d, 10) == n,
        n <= i64::MAX,
        forall|i: int| 0 <= i < d.len() ==> '0' <= #[trigger] d[i] <= '9',
    ensures
        spec_parse_i64(d) == Some(n as int),
{
    assert('0' <= d[0] <= '9');
}

/// Digits hold no white space, so trimming leaves them as they are.
proof fn lemma_trim_digits(d: Seq<char>)
    requires
        d.len() >= 1,
        forall|i: int| 0 <= i < d.len() ==> '0' <= #[trigger] d[i] <= '9',
    ensures
        spec_trim(d) == d,
{
    assert('0' <= d[0] <= '9');
    assert('0' <= d[d.len() - 1] <= '9');
    assert(trim_start(d) == d);
    assert(trim_end(d) == d);
}

/// In `a + [c] + b`, where `a` holds none of `seps` and `c` is one of them,
/// the first separator after position `i` is at `a.len()`.
proof fn lemma_first_separator(a: Seq<char>, c: char, b: Seq<char>, seps: Seq<char>, i: nat)
    requires
        i <= a.len(),
        seps.contains(c),
        forall|j: int| 0 <= j < a.len() ==> !seps.contains(#[trigger] a[j]),
    ensures
        index_in_from(a + seq![c] + b, seps, i) == Some(a.len()),
    decreases a.len() - i,
{
    let s = a + seq![c] + b;
    if i < a.len() {
        assert(s[i as int] == a[i as int]);
        lemma_first_separator(a, c, b, seps, i + 1);
    } else {
        assert(s[i as int] == c);
    }
}

/// Splitting `a + [sep] + b`, where neither `a` nor `b` holds `sep`, gives `[a, b]`.
proof fn lemma_split_two(a: Seq<char>, b: Seq<char>, sep: char)
    requires
        forall|j: int| 0 <= j < a.len() ==> #[trigger] a[j] != sep,
        forall|j: int| 0 <= j < b.len() ==> #[trigger] b[j] != sep,
    ensures
        spec_split(a + seq![sep] + b, sep) == seq![a, b],
{
    let s = a + seq![sep] + b;
    lemma_split_run(s, sep, 0, a.len(), seq![]);
    assert(s.subrange(0, a.len() as int) =~= a);
    assert(s[a.len() as int] == sep);
    lemma_split_run(s, sep, a.len() + 1, s.len(), seq![]);
    assert(s.subrange(a.len() as int + 1, s.len() as int) =~= b);
    assert(Seq::<char>::empty() + b =~= b);
    assert(Seq::<char>::empty() + a =~= a);
    assert(split_from(s, sep, a.len(), a) == seq![a] + split_from(s, sep, a.len() + 1, seq![]));
    assert(seq![a] + seq![b] =~= seq![a, b]);
}

/// Reading a run without separators extends the current piece by it.
proof fn lemma_split_run(s: Seq<char>, sep: char, i: nat, k: nat, cur: Seq<char>)
    requires
        i <= k <= s.len(),
        forall|j: int| i <= j < k ==> #[trigger] s[j] != sep,
    ensures
        split_from(s, sep, i, cur) == split_from(s, sep, k, cur + s.subrange(i as int, k as int)),
    decreases k - i,
{
    if i < k {
        lemma_split_run(s, sep, i + 1, k, cur.push(s[i as int]));
        assert(cur.push(s[i as int]) + s.subrange(i as int + 1, k as int) =~= cur + s.subrange(
            i as int,
            k as int,
        ));
    } else {
        assert(cur + s.subrange(i as int, k as int) =~= cur);
    }
}

/// Law: a number of seconds written as `minutes:seconds` reads back as the
/// same number of seconds, both by the MPRIS reader (`parse_time`) and by
/// the Discord reader (`parse_min_sec`), and neither overflows.
pub proof fn law_min_sec_reads_back(seconds: nat)
    requires
        seconds <= i64::MAX,
    ensures
        time_in_range(spec_min_sec(seconds)),
        spec_parse_time(spec_min_sec(seconds)) == Some(seconds as int),
        min_sec_in_range(spec_min_sec(seconds)),
        spec_parse_min_sec(spec_min_sec(seconds)) == Some(seconds as int),
{
    let m = seconds / 60;
    let r = seconds % 60;
    let a = decimal_digits(m);
    let b = two_digits(r);
    lemma_decimal_digits(m);
    lemma_two_digits(r);
    let s = spec_min_sec(seconds);
    assert(s == a + seq![':'] + b);
    assert forall|j: int| 0 <= j < a.len() implies !seq![':'].contains(#[trigger] a[j]) by {
        assert('0' <= a[j] <= '9');
        if seq![':'].contains(a[j]) {
            let k = choose|k: int| 0 <= k < 1 && seq![':'][k] == a[j];
            assert(seq![':'][k] == ':');
        }
    }
    assert(seq![':'][0] == ':');
    lemma_first_separator(a, ':', b, seq![':'], 0);
    assert(s.take(a.len() as int) =~= a);
    assert(s.skip(a.len() as int + 1) =~= b);
    lemma_trim_digits(a);
    lemma_trim_digits(b);
    lemma_parse_digits(a, m);
    lemma_parse_digits(b, r);
    assert(m * 60 + r == seconds);
    assert forall|j: int| 0 <= j < a.len() implies #[trigger] a[j] != ':' by {
        assert('0' <= a[j] <= '9');
    }
    assert forall|j: int| 0 <= j < b.len() implies #[trigger] b[j] != ':' by {
        assert('0' <= b[j] <= '9');
    }
    lemma_split_two(a, b, ':');
}


/// Law: handling the same line of UxPlay output a second time leaves the
/// session as it is and does nothing but upload the album art again where
/// the line reports cover art: titles, artists, albums, genres and progress
/// are announced only when they change.
pub proof fn law_repeated_line_is_quiet(s: SessionView, message: Seq<char>)
    ensures
        spec_uxplay_output(spec_uxplay_output(s, message).0, message).0 == spec_uxplay_output(
            s,
            message,
        ).0,
        spec_uxplay_output(spec_uxplay_output(s, message).0, message).1 == step_album_art(message),
{
    let first = spec_uxplay_output(s, message);
    let t = first.0;
    let r1 = step_title(t, message);
    let r2 = step_artist(r1.0, message);
    let r3 = step_album(r2.0, message);
    let r4 = step_genre(r3.0, message);
    let r5 = step_progress(r4.0, message);
    assert(r1.0 == t && r1.1 =~= Seq::<crate::session::ActionView>::empty());
    assert(r2.0 == t && r2.1 =~= Seq::<crate::session::ActionView>::empty());
    assert(r3.0 == t && r3.1 =~= Seq::<crate::session::ActionView>::empty());
    assert(r4.0 == t && r4.1 =~= Seq::<crate::session::ActionView>::empty());
    assert(r5.0 == t && r5.1 =~= Seq::<crate::session::ActionView>::empty());
    assert(step_connection(t, message) == t);
    assert(r1.1 + r2.1 + r3.1 + r4.1 + r5.1 + step_album_art(message) =~= step_album_art(message));
}


proof fn lemma_unescape_plain(b: Seq<u8>, t: Seq<char>)
    requires
        b.len() == t.len(),
        forall|i: int| 0 <= i < t.len() ==> '\0' <= #[trigger] t[i] <= '\u{7f}' && t[i] != '\\',
        forall|i: int| 0 <= i < t.len() ==> #[trigger] b[i] == t[i] as u8,
    ensures
        escapes_in_range(b),
        spec_unescape(b) == t,
    decreases b.len(),
{
    if b.len() > 0 {
        assert('\0' <= t[0] <= '\u{7f}' && t[0] != '\\');
        assert(b[0] == t[0] as u8);
        assert(b[0] != 92);
        assert(!starts_with_escape(b));
        assert forall|i: int| 0 <= i < t.skip(1).len() implies '\0' <= #[trigger] t.skip(1)[i] <= '\u{7f}'
            && t.skip(1)[i] != '\\' by {
            assert(t.skip(1)[i] == t[i + 1]);
        }
        assert forall|i: int| 0 <= i < t.skip(1).len() implies #[trigger] b.skip(1)[i] == t.skip(1)[i] as u8 by {
            assert(t.skip(1)[i] == t[i + 1]);
            assert(b.skip(1)[i] == b[i + 1]);
        }
        lemma_unescape_plain(b.skip(1), t.skip(1));
        assert((b[0] as char) == t[0]);
        assert(seq![t[0]] + t.skip(1) =~= t);
    } else {
        assert(t =~= Seq::<char>::empty());
    }
}

/// Law: an ASCII field without backslashes needs no unescaping:
/// `unescape_avahi_field` gives it back unchanged.
pub proof fn law_plain_field_unchanged(s: Seq<char>)
    requires
        is_ascii_chars(s),
        !s.contains('\\'),
    ensures
        escapes_in_range(encode_utf8(s)),
        spec_unescape(encode_utf8(s)) == s,
{
    is_ascii_chars_encode_utf8(s);
    assert forall|i: int| 0 <= i < s.len() implies '\0' <= #[trigger] s[i] <= '\u{7f}' && s[i] != '\\' by {
        if s[i] == '\\' {
            assert(s.contains('\\'));
        }
    }
    lemma_unescape_plain(encode_utf8(s), s);
}

proof fn lemma_end_tag_first(v: Seq<char>, e: Seq<char>, j: int)
    requires
        0 <= j <= v.len(),
        e.len() > 0,
        e[0] == '<',
        !v.contains('<'),
    ensures
        find_from(v + e, e, j) == Some(v.len() as int),
    decreases v.len() - j,
{
    let t = v + e;
    if j < v.len() {
        assert(t.subrange(j, j + e.len())[0] == v[j]);
        if v[j] == '<' {
            assert(v.contains('<'));
        }
        assert(!matches_at(t, e, j));
        lemma_end_tag_first(v, e, j + 1);
    } else {
        assert(t.subrange(j, j + e.len()) =~= e);
    }
}

/// Law: a header field written as `<tag>value</tag>` is read back by
/// `xml_value`, for any value that holds no `<`.
pub proof fn law_xml_value_reads_back(tag: Seq<char>, value: Seq<char>)
    requires
        !value.contains('<'),
    ensures
        spec_xml_value(start_tag(tag) + value + end_tag(tag), tag) == Some(value),
{
    let open = start_tag(tag);
    let close = end_tag(tag);
    let text = open + value + close;
    assert(text.subrange(0, open.len() as int) =~= open);
    assert(matches_at(text, open, 0));
    assert(spec_find(text, open) == Some(0int));
    assert(text.skip(open.len() as int) =~= value + close);
    assert(close[0] == '<');
    lemma_end_tag_first(value, close, 0);
    assert(text.subrange(open.len() as int, open.len() as int + value.len()) =~= value);
}


/// Law: the progress that the session caches as `progress|remaining|length`
/// is read back by MPRIS as the progress and the length, where none of the
/// three parts holds a `|`.
pub proof fn law_progress_key_reads_back(progress: Seq<char>, remaining: Seq<char>, length: Seq<char>)
    requires
        !progress.contains('|'),
        !remaining.contains('|'),
        !length.contains('|'),
    ensures
        spec_progress_values(progress_key(progress, remaining, length)) == (
            time_or_zero(progress),
            time_or_zero(length),
        ),
        progress_in_range(progress_key(progress, remaining, length)) == (time_in_range(progress)
            && time_in_range(length)),
{
    let s = progress_key(progress, remaining, length);
    let a = progress.len();
    let b = a + 1 + remaining.len();
    assert forall|j: int| 0 <= j < a implies #[trigger] s[j] != '|' by {
        assert(s[j] == progress[j]);
        if progress[j] == '|' {
            assert(progress.contains('|'));
        }
    }
    assert forall|j: int| a + 1 <= j < b implies #[trigger] s[j] != '|' by {
        assert(s[j] == remaining[j - a - 1]);
        if remaining[j - a - 1] == '|' {
            assert(remaining.contains('|'));
        }
    }
    assert forall|j: int| b + 1 <= j < s.len() implies #[trigger] s[j] != '|' by {
        assert(s[j] == length[j - b - 1]);
        if length[j - b - 1] == '|' {
            assert(length.contains('|'));
        }
    }
    lemma_split_run(s, '|', 0, a, seq![]);
    assert(s.subrange(0, a as int) =~= progress);
    assert(Seq::<char>::empty() + progress =~= progress);
    assert(s[a as int] == '|');
    lemma_split_run(s, '|', a + 1, b, seq![]);
    assert(s.subrange(a as int + 1, b as int) =~= remaining);
    assert(Seq::<char>::empty() + remaining =~= remaining);
    assert(s[b as int] == '|');
    lemma_split_run(s, '|', b + 1, s.len(), seq![]);
    assert(s.subrange(b as int + 1, s.len() as int) =~= length);
    assert(Seq::<char>::empty() + length =~= length);
    let parts = spec_split(s, '|');
    assert(parts =~= seq![progress] + (seq![remaining] + seq![length]));
    assert(parts.len() == 3);
    assert(parts[0] == progress);
    assert(parts[2] == length);
}


/// A DACP value as UxPlay writes it: not empty, without white space, `:` or `=`.
pub open spec fn plain_value(s: Seq<char>) -> bool {
    &&& s.len() > 0
    &&& forall|i: int| 0 <= i < s.len() ==> !is_whitespace(#[trigger] s[i]) && s[i] != ':' && s[i] != '='
}

proof fn lemma_plain_value(s: Seq<char>)
    requires
        plain_value(s),
    ensures
        spec_trim(s) == s,
        strip_cr(s) == s,
        spec_split_once(s, seq![':', '=']) is None,
        forall|j: int| 0 <= j < s.len() ==> #[trigger] s[j] != '\n',
{
    assert(!is_whitespace(s[0]));
    assert(!is_whitespace(s[s.len() - 1]));
    assert(trim_start(s) == s);
    assert(trim_end(s) == s);
    assert(s.last() != '\r');
    lemma_index_in_from(s, seq![':', '='], 0);
    if let Some(k) = crate::text::index_in_from(s, seq![':', '='], 0) {
        let c = s[k as int];
        assert(c != ':' && c != '=');
        let w = choose|w: int| 0 <= w < 2 && seq![':', '='][w] == c;
        assert(seq![':', '='][0] == ':' && seq![':', '='][1] == '=');
    }
    assert forall|j: int| 0 <= j < s.len() implies #[trigger] s[j] != '\n' by {
        assert(!is_whitespace(s[j]));
    }
}

/// Law: UxPlay's export of two bare lines, the DACP ID and then the
/// Active-Remote token, is read as exactly those credentials.
pub proof fn law_bare_export_reads_back(dacp_id: Seq<char>, active_remote: Seq<char>)
    requires
        plain_value(dacp_id),
        plain_value(active_remote),
    ensures
        spec_parse_uxplay_dacp(dacp_id + seq!['\n'] + active_remote + seq!['\n']) == Some(
            (dacp_id, active_remote),
        ),
{
    lemma_plain_value(dacp_id);
    lemma_plain_value(active_remote);
    let s = dacp_id + seq!['\n'] + active_remote + seq!['\n'];
    let a = dacp_id.len();
    let b = a + 1 + active_remote.len();
    assert forall|j: int| 0 <= j < a implies #[trigger] s[j] != '\n' by {
        assert(s[j] == dacp_id[j]);
    }
    assert forall|j: int| a + 1 <= j < b implies #[trigger] s[j] != '\n' by {
        assert(s[j] == active_remote[j - a - 1]);
    }
    lemma_split_run(s, '\n', 0, a, seq![]);
    assert(s.subrange(0, a as int) =~= dacp_id);
    assert(Seq::<char>::empty() + dacp_id =~= dacp_id);
    assert(s[a as int] == '\n');
    lemma_split_run(s, '\n', a + 1, b, seq![]);
    assert(s.subrange(a as int + 1, b as int) =~= active_remote);
    assert(Seq::<char>::empty() + active_remote =~= active_remote);
    assert(s[b as int] == '\n');
    assert(b + 1 == s.len());
    assert(split_from(s, '\n', (b + 1) as nat, seq![]) == seq![Seq::<char>::empty()]);
    assert(split_from(s, '\n', b, active_remote) == seq![active_remote] + split_from(s, '\n', (b + 1) as nat, seq![]));
    assert(split_from(s, '\n', a, dacp_id) == seq![dacp_id] + split_from(s, '\n', (a + 1) as nat, seq![]));
    let parts = spec_split(s, '\n');
    assert(parts =~= seq![dacp_id] + (seq![active_remote] + seq![Seq::<char>::empty()]));
    let ls = spec_lines(s);
    assert(parts.take(2).map_values(|p: Seq<char>| strip_cr(p)) =~= seq![dacp_id, active_remote]);
    assert(ls =~= seq![dacp_id, active_remote]);
    let trimmed = ls.map_values(|l: Seq<char>| spec_trim(l));
    assert(trimmed =~= seq![dacp_id, active_remote]);
    reveal_with_fuel(Seq::filter, 3);
    assert(trimmed.drop_last() =~= seq![dacp_id]);
    assert(seq![dacp_id].drop_last() =~= Seq::<Seq<char>>::empty());
    let pred = |l: Seq<char>| l.len() > 0;
    assert(Seq::<Seq<char>>::empty().filter(pred) =~= Seq::<Seq<char>>::empty());
    assert(seq![dacp_id].filter(pred) =~= seq![dacp_id]);
    assert(trimmed.filter(pred) =~= seq![dacp_id, active_remote]);
    let ex = export_lines(s);
    assert(ex == seq![dacp_id, active_remote]);
    assert(ex.drop_last() =~= seq![dacp_id]);
    assert(labelled_values(Seq::<Seq<char>>::empty()) == (None::<Seq<char>>, None::<Seq<char>>));
    assert(labelled_values(seq![dacp_id]) == (None::<Seq<char>>, None::<Seq<char>>));
    assert(labelled_values(ex) == (None::<Seq<char>>, None::<Seq<char>>));
    assert(spec_export_values(s) == (Some(dacp_id), Some(active_remote)));
}


/// Law: a Shairport title item reaches the front end. The item becomes the
/// line `Title: <value>`; where the value is a single line, handling that
/// line makes the value the session's title, and a new title is announced
/// to the front end and then to Discord before anything else.
pub proof fn law_shairport_title_is_announced(
    shairport: SessionView,
    s: SessionView,
    data: Seq<u8>,
)
    requires
        !utf8_lossy(data).contains('\n'),
    ensures
        spec_shairport_metadata(shairport, "core"@, "minm"@, data).1 == Some(
            "Title: "@ + utf8_lossy(data),
        ),
        spec_uxplay_output(s, "Title: "@ + utf8_lossy(data)).0.title == utf8_lossy(data),
        s.title != utf8_lossy(data) ==> spec_uxplay_output(s, "Title: "@ + utf8_lossy(data)).1.take(2)
            == seq![ActionView::Emit("Title"@, utf8_lossy(data)), ActionView::UpdateDiscord],
{
    let v = utf8_lossy(data);
    let p = title_prefix();
    let m = p + v;
    reveal_strlit("Title: ");
    assert(p.len() == 7);
    assert(m.subrange(0, 7) =~= p);
    assert(matches_at(m, p, 0));
    assert(spec_find(m, p) == Some(0int));
    lemma_no_newline_from(m, 7);
    assert(line_end(m, 7) == m.len());
    assert(m.subrange(7, m.len() as int) =~= v);
    let g = prefix_captures(p, m).unwrap();
    assert(group_text(g, 1) == v);
    let r1 = step_title(s, m);
    let r2 = step_artist(r1.0, m);
    let r3 = step_album(r2.0, m);
    let r4 = step_genre(r3.0, m);
    let r5 = step_progress(r4.0, m);
    assert(r1.0.title == v);
    assert(r5.0.title == v);
    assert(step_connection(r5.0, m).title == v);
    if s.title != v {
        let all = r1.1 + r2.1 + r3.1 + r4.1 + r5.1 + step_album_art(m);
        assert(r1.1 == seq![ActionView::Emit("Title"@, v), ActionView::UpdateDiscord]);
        assert(all.take(2) =~= r1.1);
    }
}

/// A text with no `\n` at or after `i` has no line break there.
pub proof fn lemma_no_newline_from(text: Seq<char>, i: nat)
    requires
        forall|j: int| i <= j < text.len() ==> text[j] != '\n',
    ensures
        index_in_from(text, seq!['\n'], i) is None,
    decreases text.len() - i,
{
    if i < text.len() {
        assert(!seq!['\n'].contains(text[i as int]));
        lemma_no_newline_from(text, i + 1);
    }
}


/// The hexadecimal digit (lower case) for `d`.
pub open spec fn hex_char(d: nat) -> char {
    if d < 10 {
        (('0' as nat) + d) as char
    } else {
        (('a' as nat) + d - 10) as char
    }
}

/// `n` in `width` hexadecimal digits, lower case, with leading zeros: what
/// `format!("{:0width$x}", n)` writes for `n < 16^width`.
pub open spec fn hex_digits(n: nat, width: nat) -> Seq<char>
    decreases width,
{
    if width == 0 {
        seq![]
    } else {
        hex_digits(n / 16, (width - 1) as nat).push(hex_char(n % 16))
    }
}

pub open spec fn pow16(width: nat) -> nat
    decreases width,
{
    if width == 0 {
        1
    } else {
        16 * pow16((width - 1) as nat)
    }
}

/// The number whose four big-endian bytes are `bytes`.
pub open spec fn be_value(bytes: Seq<u8>) -> nat {
    (bytes[0] as nat) * 0x100_0000 + (bytes[1] as nat) * 0x1_0000 + (bytes[2] as nat) * 0x100
        + (bytes[3] as nat)
}

proof fn lemma_hex_char(d: nat)
    requires
        d < 16,
    ensures
        radix_digit(hex_char(d), 16) == Some(d),
        hex_char(d) != '+',
{
    assert(('a' as nat) + 6 < 0xD800);
    assert(('0' as nat) + 10 < 0xD800);
}

pub proof fn lemma_hex_digits(n: nat, width: nat)
    requires
        n < pow16(width),
    ensures
        hex_digits(n, width).len() == width,
        all_radix_digits(hex_digits(n, width), 16),
        radix_value(hex_digits(n, width), 16) == n,
        forall|i: int| 0 <= i < width ==> #[trigger] hex_digits(n, width)[i] != '+',
    decreases width,
{
    if width > 0 {
        let w = (width - 1) as nat;
        assert(n / 16 < pow16(w)) by (nonlinear_arith)
            requires
                n < 16 * pow16(w),
        ;
        lemma_hex_digits(n / 16, w);
        lemma_hex_char(n % 16);
        let d = hex_digits(n, width);
        let prev = hex_digits(n / 16, w);
        assert(d.drop_last() =~= prev);
        assert(d.last() == hex_char(n % 16));
        assert forall|i: int| 0 <= i < d.len() implies #[trigger] radix_digit(d[i], 16) is Some by {
            if i < w {
                assert(d[i] == prev[i]);
            }
        }
        assert forall|i: int| 0 <= i < width implies #[trigger] d[i] != '+' by {
            if i < w {
                assert(d[i] == prev[i]);
            }
        }
        assert(radix_value(d, 16) == radix_value(prev, 16) * 16 + n % 16);
        assert((n / 16) * 16 + n % 16 == n) by (nonlinear_arith);
    }
}

/// Law: a four-character name written as eight hexadecimal digits (the
/// header format of the metadata stream) reads back as that name: for four
/// bytes of valid UTF-8, `hex_code` of the digits of their big-endian value
/// gives the text they encode.
pub proof fn law_hex_code_reads_back(bytes: Seq<u8>)
    requires
        bytes.len() == 4,
        valid_utf8(bytes),
    ensures
        spec_hex_code(hex_digits(be_value(bytes), 8)) == Some(decode_utf8(bytes)),
{
    let n = be_value(bytes);
    let (b0, b1, b2, b3) = (bytes[0] as nat, bytes[1] as nat, bytes[2] as nat, bytes[3] as nat);
    assert(n < 0x1_0000_0000);
    assert(pow16(8) == 0x1_0000_0000) by {
        reveal_with_fuel(pow16, 9);
    }
    lemma_hex_digits(n, 8);
    let s = hex_digits(n, 8);
    assert(s[0] != '+');
    assert(spec_parse_radix(s, 16, 0xffff_ffff) == Some(n));
    assert(n / 0x100_0000 == b0);
    assert((n / 0x1_0000) % 0x100 == b1);
    assert((n / 0x100) % 0x100 == b2);
    assert(n % 0x100 == b3);
    assert(be_bytes(n) =~= bytes);
}


/// Law: the progress line made from Shairport's timestamps adds up. It is
/// `progress_text(p, r, l)` with `p + r == l` (the remaining time is never
/// negative), and each of its three times reads back as its seconds.
pub proof fn law_progress_message_adds_up(value: Seq<char>)
    requires
        spec_progress_message(value) is Some,
    ensures
        exists|p: nat, r: nat, l: nat|
            {
                &&& spec_progress_message(value) == Some(progress_text(p, r, l))
                &&& p + r == l
                &&& spec_parse_time(spec_min_sec(p)) == Some(p as int)
                &&& spec_parse_time(spec_min_sec(r)) == Some(r as int)
                &&& spec_parse_time(spec_min_sec(l)) == Some(l as int)
            },
{
    let parts = spec_split(value, '/');
    let start = spec_parse_unsigned(parts[0], 0xffff_ffff).unwrap();
    let current = spec_parse_unsigned(parts[1], 0xffff_ffff).unwrap();
    let end = spec_parse_unsigned(parts[2], 0xffff_ffff).unwrap();
    let pf = frames_between(start, current);
    let lf = frames_between(start, end);
    let p = pf / frames_per_second();
    let l = lf / frames_per_second();
    assert(p <= l) by (nonlinear_arith)
        requires
            pf <= lf,
            p == pf / 44_100,
            l == lf / 44_100,
    ;
    assert(l < 0x1_0000_0000) by (nonlinear_arith)
        requires
            lf < 0x2_0000_0000,
            l == lf / 44_100,
    ;
    let r = (l - p) as nat;
    law_min_sec_reads_back(p);
    law_min_sec_reads_back(r);
    law_min_sec_reads_back(l);
    assert(spec_progress_message(value) == Some(progress_text(p, r, l)));
}


/// `last_match` looking down from `q` finds `k` where the needle occurs at
/// `k` and nowhere above it.
proof fn lemma_last_match(text: Seq<char>, needle: Seq<char>, lo: int, q: int, k: int)
    requires
        lo <= k <= q,
        matches_at(text, needle, k),
        forall|j: int| k < j <= q ==> !matches_at(text, needle, j),
    ensures
        last_match(text, needle, lo, q) == Some(k),
    decreases q - k,
{
    if q > k {
        lemma_last_match(text, needle, lo, q - 1, k);
    }
}

/// Law: a connection line records the device's ID. Handling the line
/// `connection request from <name> with deviceID = <id>` (name and ID each
/// within the line, and ` with deviceID = ` not occurring again after the
/// separator) makes `<id>` the session's device ID.
pub proof fn law_connection_line_records_id(s: SessionView, name: Seq<char>, id: Seq<char>)
    requires
        !name.contains('\n'),
        !id.contains('\n'),
        forall|q: int| 0 < q ==> !matches_at(" with deviceID = "@ + id, " with deviceID = "@, q),
    ensures
        spec_uxplay_output(s, "connection request from "@ + name + " with deviceID = "@ + id).0.device_id
            == id,
{
    reveal_strlit("connection request from ");
    reveal_strlit(" with deviceID = ");
    let lead = "connection request from "@;
    let sep = " with deviceID = "@;
    let m = lead + name + sep + id;
    let tail = sep + id;
    assert(m.subrange(0, lead.len() as int) =~= lead);
    let start = lead.len() as int;
    assert forall|j: int| start <= j < m.len() implies m[j] != '\n' by {
        if j < start + name.len() {
            assert(m[j] == name[j - start]);
            if name[j - start] == '\n' {
                assert(name.contains('\n'));
            }
        } else if j < start + name.len() + sep.len() {
            assert(m[j] == sep[j - start - name.len()]);
        } else {
            assert(m[j] == id[j - start - name.len() - sep.len()]);
            if id[j - start - name.len() - sep.len()] == '\n' {
                assert(id.contains('\n'));
            }
        }
    }
    lemma_no_newline_from(m, start as nat);
    assert(line_end(m, start) == m.len());
    let q0 = start + name.len();
    assert(m.subrange(q0, q0 + sep.len()) =~= sep);
    assert forall|j: int| q0 < j <= m.len() - sep.len() implies !matches_at(m, sep, j) by {
        assert(m.subrange(j, j + sep.len()) =~= tail.subrange(j - q0, j - q0 + sep.len()));
        assert(!matches_at(tail, sep, j - q0));
    }
    lemma_last_match(m, sep, start, m.len() - sep.len(), q0);
    assert(connection_match_at(m, 0) is Some);
    assert(first_connection_match(m, 0) == connection_match_at(m, 0));
    assert(m.subrange(q0 + sep.len(), m.len() as int) =~= id);
    let r1 = step_title(s, m);
    let r2 = step_artist(r1.0, m);
    let r3 = step_album(r2.0, m);
    let r4 = step_genre(r3.0, m);
    let r5 = step_progress(r4.0, m);
    assert(step_connection(r5.0, m).device_id == id);
}


/// Law: a device ID from Shairport reaches the session. Once the device's
/// name is known, a `cdid` item amounts to the connection line for that
/// name and ID, and handling that line records the ID as the device ID
/// (name and ID each within one line, and the separator not occurring
/// again after it).
pub proof fn law_shairport_device_id_recorded(shairport: SessionView, s: SessionView, data: Seq<u8>)
    requires
        shairport.device_name.len() > 0,
        utf8_lossy(data).len() > 0,
        !shairport.device_name.contains('\n'),
        !utf8_lossy(data).contains('\n'),
        forall|q: int| 0 < q ==> !matches_at(" with deviceID = "@ + utf8_lossy(data), " with deviceID = "@, q),
    ensures
        spec_shairport_metadata(shairport, "ssnc"@, "cdid"@, data).1 == Some(
            "connection request from "@ + shairport.device_name + " with deviceID = "@ + utf8_lossy(data),
        ),
        spec_uxplay_output(
            s,
            "connection request from "@ + shairport.device_name + " with deviceID = "@ + utf8_lossy(data),
        ).0.device_id == utf8_lossy(data),
{
    reveal_strlit("core");
    reveal_strlit("ssnc");
    reveal_strlit("cdid");
    assert("ssnc"@ != "core"@) by {
        assert("ssnc"@[0] != "core"@[0]);
    }
    law_connection_line_records_id(s, shairport.device_name, utf8_lossy(data));
}

} // verus!
