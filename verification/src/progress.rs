//! Playback progress: Shairport's RTP frame timestamps turned into
//! `min:sec` text, and `min:sec` text read back into seconds.

use vstd::prelude::*;
use crate::text::{
    chars_of, decimal_digits, parse_i64, parse_unsigned, push_decimal, spec_parse_i64,
    spec_parse_unsigned, spec_split, spec_split_once, spec_trim, split, split_once, string_of,
    trim,
};

verus! {

/// `{:02}`: at least two digits, with a leading zero.
pub open spec fn two_digits(n: nat) -> Seq<char> {
    if n < 10 {
        seq!['0'] + decimal_digits(n)
    } else {
        decimal_digits(n)
    }
}

/// `minutes:seconds`, the seconds with two digits.
pub open spec fn spec_min_sec(seconds: nat) -> Seq<char> {
    decimal_digits(seconds / 60) + seq![':'] + two_digits(seconds % 60)
}

fn push_min_sec(seconds: u64, out: &mut Vec<char>)
    ensures
        final(out)@ == old(out)@ + spec_min_sec(seconds as nat),
{
    push_decimal(seconds / 60, out);
    out.push(':');
    let s = seconds % 60;
    if s < 10 {
        out.push('0');
    }
    push_decimal(s, out);
    assert(final(out)@ =~= old(out)@ + spec_min_sec(seconds as nat));
}

/// Formats a number of seconds as `minutes:seconds`.
pub fn min_sec(seconds: u64) -> (res: String)
    ensures
        res@ == spec_min_sec(seconds as nat),
{
    let mut out: Vec<char> = Vec::new();
    push_min_sec(seconds, &mut out);
    string_of(out.as_slice())
}

/// AirPlay audio timestamps count frames of a 44.1 kHz clock.
pub open spec fn frames_per_second() -> nat {
    44_100
}

/// The frames from `a` to `b` on the 32-bit RTP clock, which wraps around.
pub open spec fn frames_between(a: nat, b: nat) -> nat {
    if b >= a {
        (b - a) as nat
    } else {
        (b + 0x1_0000_0000 - a) as nat
    }
}

/// The progress line that UxPlay prints, for the given whole seconds.
pub open spec fn progress_text(progress: nat, remaining: nat, length: nat) -> Seq<char> {
    "audio progress (min:sec): "@ + spec_min_sec(progress) + "; remaining: "@ + spec_min_sec(
        remaining,
    ) + "; track length "@ + spec_min_sec(length)
}

/// A Shairport `prgr` value, `start/current/end` in frames: the progress
/// line for it, where it has exactly three 32-bit numbers and the current
/// frame lies between start and end.
pub open spec fn spec_progress_message(value: Seq<char>) -> Option<Seq<char>> {
    let parts = spec_split(value, '/');
    if parts.len() != 3 {
        None
    } else {
        match (
            spec_parse_unsigned(parts[0], 0xffff_ffff),
            spec_parse_unsigned(parts[1], 0xffff_ffff),
            spec_parse_unsigned(parts[2], 0xffff_ffff),
        ) {
            (Some(start), Some(current), Some(end)) => {
                let progress_frames = frames_between(start, current);
                let length_frames = frames_between(start, end);
                if progress_frames > length_frames {
                    None
                } else {
                    let progress = progress_frames / frames_per_second();
                    let length = length_frames / frames_per_second();
                    Some(progress_text(progress, (length - progress) as nat, length))
                }
            },
            _ => None,
        }
    }
}

/// Turns a Shairport `prgr` value into the progress line that UxPlay prints.
pub fn shairport_progress_message(value: &str) -> (res: Option<String>)
    ensures
        res matches Some(s) ==> spec_progress_message(value@) == Some(s@),
        res is None ==> spec_progress_message(value@) is None,
{
    let chars = chars_of(value);
    let parts = split(chars.as_slice(), '/');
    if parts.len() != 3 {
        return None;
    }
    let start = parse_unsigned(parts[0].as_slice(), 0xffff_ffff)?;
    let current = parse_unsigned(parts[1].as_slice(), 0xffff_ffff)?;
    let end = parse_unsigned(parts[2].as_slice(), 0xffff_ffff)?;
    let start = start as u32;
    let current = current as u32;
    let end = end as u32;
    let progress_frames = current.wrapping_sub(start);
    let length_frames = end.wrapping_sub(start);
    if progress_frames > length_frames {
        return None;
    }
    let progress = progress_frames as u64 / 44_100;
    let length = length_frames as u64 / 44_100;
    assert(progress <= length) by (nonlinear_arith)
        requires
            progress_frames <= length_frames,
            progress == progress_frames / 44_100,
            length == length_frames / 44_100,
    ;
    let remaining = length.saturating_sub(progress);
    let mut out = chars_of("audio progress (min:sec): ");
    push_min_sec(progress, &mut out);
    out.append(&mut chars_of("; remaining: "));
    push_min_sec(remaining, &mut out);
    out.append(&mut chars_of("; track length "));
    push_min_sec(length, &mut out);
    Some(string_of(out.as_slice()))
}

pub open spec fn in_i64(v: int) -> bool {
    i64::MIN <= v <= i64::MAX
}

/// `minutes:seconds` (each part trimmed) in seconds.
pub open spec fn spec_parse_time(value: Seq<char>) -> Option<int> {
    match spec_split_once(value, seq![':']) {
        Some((m, s)) => match (spec_parse_i64(spec_trim(m)), spec_parse_i64(spec_trim(s))) {
            (Some(a), Some(b)) => Some(a * 60 + b),
            _ => None,
        },
        None => None,
    }
}

/// Where reading `value` as a time stays within `i64`: the minutes times 60,
/// once the minutes are read, and that plus the seconds, once they are read.
pub open spec fn time_in_range(value: Seq<char>) -> bool {
    match spec_split_once(value, seq![':']) {
        Some((m, s)) => match spec_parse_i64(spec_trim(m)) {
            Some(a) => in_i64(a * 60) && match spec_parse_i64(spec_trim(s)) {
                Some(b) => in_i64(a * 60 + b),
                None => true,
            },
            None => true,
        },
        None => true,
    }
}

fn parse_time_chars(value: &[char]) -> (res: (bool, Option<i64>))
    ensures
        res.0 == time_in_range(value@),
        res.0 ==> (res.1 matches Some(t) ==> spec_parse_time(value@) == Some(t as int)),
        res.0 ==> (res.1 is None ==> spec_parse_time(value@) is None),
{
    let colon = [':'];
    assert(colon@ =~= seq![':']);
    match split_once(value, &colon) {
        None => (true, None),
        Some((m, s)) => {
            match parse_i64(trim(m.as_slice()).as_slice()) {
                None => (true, None),
                Some(a) => {
                    if a < -153722867280912930 || a > 153722867280912930 {
                        return (false, None);
                    }
                    let am = a * 60;
                    match parse_i64(trim(s.as_slice()).as_slice()) {
                        None => (true, None),
                        Some(b) => {
                            if (b > 0 && am > i64::MAX - b) || (b < 0 && am < i64::MIN - b) {
                                (false, None)
                            } else {
                                (true, Some(am + b))
                            }
                        },
                    }
                },
            }
        },
    }
}

/// Whether `parse_time(value)` stays within `i64`.
pub fn parse_time_in_range(value: &str) -> (res: bool)
    ensures
        res == time_in_range(value@),
{
    let v = chars_of(value);
    parse_time_chars(v.as_slice()).0
}

/// Reads `minutes:seconds` as a number of seconds.
pub fn parse_time(value: &str) -> (res: Option<i64>)
    requires
        time_in_range(value@),
    ensures
        res matches Some(t) ==> spec_parse_time(value@) == Some(t as int),
        res is None ==> spec_parse_time(value@) is None,
{
    let v = chars_of(value);
    parse_time_chars(v.as_slice()).1
}

/// A time, or zero where it cannot be read.
pub open spec fn time_or_zero(value: Seq<char>) -> int {
    match spec_parse_time(value) {
        Some(t) => t,
        None => 0,
    }
}

/// The position and length, in seconds, of a cached `position|remaining|length` value.
pub open spec fn spec_progress_values(value: Seq<char>) -> (int, int) {
    let parts = spec_split(value, '|');
    (time_or_zero(parts[0]), if parts.len() >= 3 {
        time_or_zero(parts[2])
    } else {
        0
    })
}

/// Where reading the position and length of a cached progress value stays
/// within `i64`.
pub open spec fn progress_in_range(value: Seq<char>) -> bool {
    let parts = spec_split(value, '|');
    time_in_range(parts[0]) && (parts.len() >= 3 ==> time_in_range(parts[2]))
}

/// Whether `progress_values(value)` stays within `i64`.
pub fn progress_values_in_range(value: &str) -> (res: bool)
    ensures
        res == progress_in_range(value@),
{
    let v = chars_of(value);
    let parts = split(v.as_slice(), '|');
    proof {
        crate::text::lemma_split_from_nonempty(v@, '|', 0, seq![]);
    }
    parse_time_chars(parts[0].as_slice()).0 && (parts.len() < 3 || parse_time_chars(
        parts[2].as_slice(),
    ).0)
}

/// The position and length, in seconds, of a cached `position|remaining|length`
/// value (zero where a part cannot be read).
pub fn progress_values(value: &str) -> (res: (i64, i64))
    requires
        progress_in_range(value@),
    ensures
        (res.0 as int, res.1 as int) == spec_progress_values(value@),
{
    let v = chars_of(value);
    let parts = split(v.as_slice(), '|');
    proof {
        crate::text::lemma_split_from_nonempty(v@, '|', 0, seq![]);
    }
    let position = match parse_time_chars(parts[0].as_slice()).1 {
        Some(t) => t,
        None => 0,
    };
    let length = if parts.len() >= 3 {
        match parse_time_chars(parts[2].as_slice()).1 {
            Some(t) => t,
            None => 0,
        }
    } else {
        0
    };
    (position, length)
}

} // verus!
