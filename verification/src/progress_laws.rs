//! The progress line read back: what the session caches from it, and what
//! MPRIS reads from the cache.

use vstd::prelude::*;
use vstd::utf8::is_ascii_chars;
use crate::text::{decimal_digits, spec_split, spec_parse_unsigned};
use crate::progress::{
    progress_text, spec_min_sec, two_digits, spec_progress_values, progress_in_range,
    spec_progress_message, frames_between, frames_per_second, spec_parse_time,
};
use crate::session::{
    ascii_digit, ascii_space, skip_digits, skip_spaces, time_end, progress_match_at,
    first_progress_match, progress_groups, progress_key, SessionView, spec_uxplay_output,
    step_title, step_artist, step_album, step_genre, step_progress, step_connection,
    spec_shairport_metadata, utf8_lossy,
};
use crate::laws::{lemma_decimal_digits, lemma_two_digits, law_min_sec_reads_back, law_progress_key_reads_back};

verus! {

proof fn lemma_skip_digits(text: Seq<char>, i: int, j: int)
    requires
        0 <= i <= j <= text.len(),
        forall|k: int| i <= k < j ==> ascii_digit(#[trigger] text[k]),
        j == text.len() || !ascii_digit(text[j]),
    ensures
        skip_digits(text, i) == j,
    decreases j - i,
{
    if i < j {
        lemma_skip_digits(text, i + 1, j);
    }
}

proof fn lemma_skip_one_space(text: Seq<char>, i: int)
    requires
        0 <= i,
        i + 1 < text.len(),
        text[i] == ' ',
        !ascii_space(text[i + 1]),
    ensures
        skip_spaces(text, i) == i + 1,
{
    assert(skip_spaces(text, i + 1) == i + 1);
}

/// `minutes:seconds` text: digits, a colon, digits.
proof fn lemma_min_sec_shape(x: nat)
    ensures
        spec_min_sec(x) == decimal_digits(x / 60) + seq![':'] + two_digits(x % 60),
        decimal_digits(x / 60).len() >= 1,
        two_digits(x % 60).len() >= 1,
        forall|k: int| 0 <= k < decimal_digits(x / 60).len() ==> ascii_digit(#[trigger] decimal_digits(x / 60)[k]),
        forall|k: int| 0 <= k < two_digits(x % 60).len() ==> ascii_digit(#[trigger] two_digits(x % 60)[k]),
        spec_min_sec(x).len() >= 3,
        ascii_digit(spec_min_sec(x)[0]),
        is_ascii_chars(spec_min_sec(x)),
        !spec_min_sec(x).contains('|'),
{
    lemma_decimal_digits(x / 60);
    lemma_two_digits(x % 60);
    let a = decimal_digits(x / 60);
    let b = two_digits(x % 60);
    let t = spec_min_sec(x);
    assert forall|k: int| 0 <= k < t.len() implies '\0' <= #[trigger] t[k] <= '\u{7f}' && t[k] != '|' by {
        if k < a.len() {
            assert(t[k] == a[k]);
        } else if k > a.len() {
            assert(t[k] == b[k - a.len() - 1]);
        }
    }
    assert(t[0] == a[0]);
}

/// `minutes:seconds` at `i`, not followed by a digit, is matched by `\d+:\d+`.
proof fn lemma_time_at(text: Seq<char>, i: int, x: nat)
    requires
        0 <= i,
        i + spec_min_sec(x).len() <= text.len(),
        text.subrange(i, i + spec_min_sec(x).len()) == spec_min_sec(x),
        i + spec_min_sec(x).len() == text.len() || !ascii_digit(text[i + spec_min_sec(x).len()]),
    ensures
        time_end(text, i) == Some(i + spec_min_sec(x).len()),
{
    lemma_min_sec_shape(x);
    let a = decimal_digits(x / 60);
    let b = two_digits(x % 60);
    let t = spec_min_sec(x);
    let e = i + t.len();
    assert forall|k: int| i <= k < i + a.len() implies ascii_digit(#[trigger] text[k]) by {
        assert(text[k] == t[k - i]);
        assert(t[k - i] == a[k - i]);
    }
    assert(text[i + a.len()] == t[a.len() as int]);
    lemma_skip_digits(text, i, i + a.len());
    assert forall|k: int| i + a.len() + 1 <= k < e implies ascii_digit(#[trigger] text[k]) by {
        assert(text[k] == t[k - i]);
        assert(t[k - i] == b[k - i - a.len() - 1]);
    }
    lemma_skip_digits(text, i + a.len() + 1, e);
}


/// The progress line for `p`, `r` and `l` seconds is matched where it
/// starts, its groups being the three `minutes:seconds` texts.
#[verifier::rlimit(40)]
proof fn lemma_progress_match(p: nat, r: nat, l: nat)
    ensures
        progress_match_at(progress_text(p, r, l), 0) == Some(
            seq![
                Some(progress_text(p, r, l)),
                Some(spec_min_sec(p)),
                Some(spec_min_sec(r)),
                Some(spec_min_sec(l)),
            ],
        ),
{
    reveal_strlit("audio progress (min:sec): ");
    reveal_strlit("audio progress (min:sec):");
    reveal_strlit("; remaining: ");
    reveal_strlit("remaining:");
    reveal_strlit("; track length ");
    reveal_strlit("track length");
    let l1 = "audio progress (min:sec): "@;
    let l2 = "; remaining: "@;
    let l3 = "; track length "@;
    let a = spec_min_sec(p);
    let b = spec_min_sec(r);
    let c = spec_min_sec(l);
    lemma_min_sec_shape(p);
    lemma_min_sec_shape(r);
    lemma_min_sec_shape(l);
    let m = progress_text(p, r, l);
    assert(m == l1 + a + l2 + b + l3 + c);
    let i1 = l1.len() as int;
    let e1 = i1 + a.len();
    let i2 = e1 + l2.len();
    let e2 = i2 + b.len();
    let i3 = e2 + l3.len();
    let e3 = i3 + c.len();
    assert(e3 == m.len());
    // The lead.
    assert(m.subrange(0, 25) =~= "audio progress (min:sec):"@);
    assert(m[25] == ' ');
    assert(m[i1] == a[0]);
    lemma_skip_one_space(m, 25);
    assert(m.subrange(i1, e1) =~= a);
    assert(m[e1] == ';');
    lemma_time_at(m, i1, p);
    // The remaining time.
    assert(m[e1 + 1] == ' ');
    assert(m[e1 + 2] == 'r');
    lemma_skip_one_space(m, e1 + 1);
    assert(m.subrange(e1 + 2, e1 + 12) =~= "remaining:"@);
    assert(m[e1 + 12] == ' ');
    assert(m[i2] == b[0]);
    lemma_skip_one_space(m, e1 + 12);
    assert(m.subrange(i2, e2) =~= b);
    assert(m[e2] == ';');
    lemma_time_at(m, i2, r);
    // The length.
    assert(m[e2 + 1] == ' ');
    assert(m[e2 + 2] == 't');
    lemma_skip_one_space(m, e2 + 1);
    assert(m.subrange(e2 + 2, e2 + 14) =~= "track length"@);
    assert(m[e2 + 14] == ' ');
    assert(m[i3] == c[0]);
    lemma_skip_one_space(m, e2 + 14);
    assert(m.subrange(i3, e3) =~= c);
    lemma_time_at(m, i3, l);
    assert(m.subrange(0, e3) =~= m);
}


proof fn lemma_ascii_add(a: Seq<char>, b: Seq<char>)
    requires
        is_ascii_chars(a),
        is_ascii_chars(b),
    ensures
        is_ascii_chars(a + b),
{
    assert forall|k: int| 0 <= k < (a + b).len() implies '\0' <= #[trigger] (a + b)[k] <= '\u{7f}' by {
        if k < a.len() {
            assert((a + b)[k] == a[k]);
        } else {
            assert((a + b)[k] == b[k - a.len()]);
        }
    }
}

proof fn lemma_progress_text_ascii(p: nat, r: nat, l: nat)
    ensures
        is_ascii_chars(progress_text(p, r, l)),
{
    reveal_strlit("audio progress (min:sec): ");
    reveal_strlit("; remaining: ");
    reveal_strlit("; track length ");
    let l1 = "audio progress (min:sec): "@;
    let l2 = "; remaining: "@;
    let l3 = "; track length "@;
    assert(is_ascii_chars(l1));
    assert(is_ascii_chars(l2));
    assert(is_ascii_chars(l3));
    lemma_min_sec_shape(p);
    lemma_min_sec_shape(r);
    lemma_min_sec_shape(l);
    let a = spec_min_sec(p);
    let b = spec_min_sec(r);
    let c = spec_min_sec(l);
    lemma_ascii_add(l1, a);
    lemma_ascii_add(l1 + a, l2);
    lemma_ascii_add(l1 + a + l2, b);
    lemma_ascii_add(l1 + a + l2 + b, l3);
    lemma_ascii_add(l1 + a + l2 + b + l3, c);
}

/// Law: the progress line reaches MPRIS. Handling UxPlay's line for `p`
/// seconds played of `l` (with `l - p` remaining) caches the three times as
/// the session's progress, and MPRIS reads `p` and `l` back from the cache.
pub proof fn law_progress_line_reaches_mpris(s: SessionView, p: nat, l: nat)
    requires
        p <= l <= i64::MAX,
    ensures
        ({
            let after = spec_uxplay_output(s, progress_text(p, (l - p) as nat, l)).0;
            &&& after.audio_progress == progress_key(
                spec_min_sec(p),
                spec_min_sec((l - p) as nat),
                spec_min_sec(l),
            )
            &&& progress_in_range(after.audio_progress)
            &&& spec_progress_values(after.audio_progress) == (p as int, l as int)
        }),
{
    let r = (l - p) as nat;
    let m = progress_text(p, r, l);
    lemma_progress_text_ascii(p, r, l);
    lemma_progress_match(p, r, l);
    let g = seq![Some(m), Some(spec_min_sec(p)), Some(spec_min_sec(r)), Some(spec_min_sec(l))];
    assert(first_progress_match(m, 0) == Some(g));
    assert(progress_groups(m) == Some(g));
    let key = progress_key(spec_min_sec(p), spec_min_sec(r), spec_min_sec(l));
    let r1 = step_title(s, m);
    let r2 = step_artist(r1.0, m);
    let r3 = step_album(r2.0, m);
    let r4 = step_genre(r3.0, m);
    let r5 = step_progress(r4.0, m);
    assert(r5.0.audio_progress == key);
    assert(step_connection(r5.0, m).audio_progress == key);
    lemma_min_sec_shape(p);
    lemma_min_sec_shape(r);
    lemma_min_sec_shape(l);
    law_min_sec_reads_back(p);
    law_min_sec_reads_back(l);
    law_progress_key_reads_back(spec_min_sec(p), spec_min_sec(r), spec_min_sec(l));
}


/// The seconds played and the track length that a Shairport `prgr` value
/// (`start/current/end` frames) gives.
pub open spec fn prgr_seconds(value: Seq<char>) -> (nat, nat) {
    let parts = spec_split(value, '/');
    let start = spec_parse_unsigned(parts[0], 0xffff_ffff).unwrap();
    let current = spec_parse_unsigned(parts[1], 0xffff_ffff).unwrap();
    let end = spec_parse_unsigned(parts[2], 0xffff_ffff).unwrap();
    (
        frames_between(start, current) / frames_per_second(),
        frames_between(start, end) / frames_per_second(),
    )
}

/// Law: Shairport's progress reaches MPRIS. A `prgr` item whose timestamps
/// give a progress line amounts to the line for `p` seconds played of `l`
/// (with `l - p` remaining); handling that line caches the three times,
/// and MPRIS reads the position `p` and the length `l` back.
pub proof fn law_shairport_progress_reaches_mpris(shairport: SessionView, s: SessionView, data: Seq<u8>)
    requires
        spec_progress_message(utf8_lossy(data)) is Some,
    ensures
        ({
            let (p, l) = prgr_seconds(utf8_lossy(data));
            let line = progress_text(p, (l - p) as nat, l);
            &&& p <= l
            &&& spec_shairport_metadata(shairport, "ssnc"@, "prgr"@, data).1 == Some(line)
            &&& spec_progress_values(spec_uxplay_output(s, line).0.audio_progress) == (p as int, l as int)
        }),
{
    let v = utf8_lossy(data);
    let parts = spec_split(v, '/');
    let start = spec_parse_unsigned(parts[0], 0xffff_ffff).unwrap();
    let current = spec_parse_unsigned(parts[1], 0xffff_ffff).unwrap();
    let end = spec_parse_unsigned(parts[2], 0xffff_ffff).unwrap();
    let pf = frames_between(start, current);
    let lf = frames_between(start, end);
    let (p, l) = prgr_seconds(v);
    assert(p <= l) by (nonlinear_arith)
        requires
            pf <= lf,
            p == pf / 44_100,
            l == lf / 44_100,
    ;
    assert(l < 0x1_0000_0000) by (nonlinear_arith)
        requires
            lf < 0x2_0000_0000,
            l == lf / 44_100,
    ;
    assert(spec_progress_message(v) == Some(progress_text(p, (l - p) as nat, l)));
    reveal_strlit("core");
    reveal_strlit("ssnc");
    reveal_strlit("prgr");
    reveal_strlit("cdid");
    reveal_strlit("clip");
    reveal_strlit("conn");
    reveal_strlit("dapo");
    reveal_strlit("acre");
    reveal_strlit("snam");
    reveal_strlit("snua");
    assert("ssnc"@ != "core"@) by {
        assert("ssnc"@[0] != "core"@[0]);
    }
    assert("prgr"@ != "cdid"@ && "prgr"@ != "clip"@ && "prgr"@ != "conn"@ && "prgr"@ != "dapo"@
        && "prgr"@ != "acre"@ && "prgr"@ != "snam"@ && "prgr"@ != "snua"@) by {
        assert("prgr"@[0] != "cdid"@[0]);
        assert("prgr"@[0] != "clip"@[0]);
        assert("prgr"@[0] != "conn"@[0]);
        assert("prgr"@[0] != "dapo"@[0]);
        assert("prgr"@[0] != "acre"@[0]);
        assert("prgr"@[0] != "snam"@[0]);
        assert("prgr"@[0] != "snua"@[0]);
    }
    assert(spec_shairport_metadata(shairport, "ssnc"@, "prgr"@, data).1 == spec_progress_message(v));
    law_progress_line_reaches_mpris(s, p, l);
}


/// Law: the progress line made from Shairport's timestamps is matched by
/// UxPlay's progress pattern (for this ASCII line, exactly what the `regex`
/// crate gives), its three groups being the times played, remaining and in
/// total; each reads back as its seconds, and played plus remaining is the
/// total.
pub proof fn law_progress_message_matches(value: Seq<char>)
    requires
        spec_progress_message(value) is Some,
    ensures
        ({
            let (p, l) = prgr_seconds(value);
            let m = spec_progress_message(value).unwrap();
            &&& p <= l
            &&& m == progress_text(p, (l - p) as nat, l)
            &&& is_ascii_chars(m)
            &&& progress_groups(m) == Some(
                seq![
                    Some(m),
                    Some(spec_min_sec(p)),
                    Some(spec_min_sec((l - p) as nat)),
                    Some(spec_min_sec(l)),
                ],
            )
            &&& spec_parse_time(spec_min_sec(p)) == Some(p as int)
            &&& spec_parse_time(spec_min_sec((l - p) as nat)) == Some((l - p) as int)
            &&& spec_parse_time(spec_min_sec(l)) == Some(l as int)
        }),
{
    let parts = spec_split(value, '/');
    let start = spec_parse_unsigned(parts[0], 0xffff_ffff).unwrap();
    let current = spec_parse_unsigned(parts[1], 0xffff_ffff).unwrap();
    let end = spec_parse_unsigned(parts[2], 0xffff_ffff).unwrap();
    let pf = frames_between(start, current);
    let lf = frames_between(start, end);
    let (p, l) = prgr_seconds(value);
    assert(p <= l) by (nonlinear_arith)
        requires
            pf <= lf,
            p == pf / 44_100,
            l == lf / 44_100,
    ;
    assert(l < 0x1_0000_0000) by (nonlinear_arith)
        requires
            lf < 0x2_0000_0000,
            l == lf / 44_100,
    ;
    let r = (l - p) as nat;
    let m = progress_text(p, r, l);
    assert(spec_progress_message(value) == Some(m));
    lemma_progress_text_ascii(p, r, l);
    lemma_progress_match(p, r, l);
    assert(first_progress_match(m, 0) == progress_match_at(m, 0));
    law_min_sec_reads_back(p);
    law_min_sec_reads_back(r);
    law_min_sec_reads_back(l);
}

} // verus!
