//! Remote control of the AirPlay source over DACP: the credentials that
//! UxPlay exports, the endpoint that `avahi-browse` resolves, and the
//! commands sent to it.

use vstd::prelude::*;
use vstd::utf8::encode_utf8;
use crate::text::{
    chars_of, lines, spec_lines, spec_trim, trim, split_once, spec_split_once, to_ascii_lowercase,
    ascii_lower, string_of, split, spec_split, parse_unsigned, spec_parse_unsigned,
};
use crate::metadata::chars_equal;
use crate::session::{SessionState, SessionView, EndpointView, CachedDacpEndpoint};
use crate::text::{push_decimal, decimal_digits};

verus! {

/// The two values that UxPlay exports for DACP control.
pub struct DacpCredentials {
    pub dacp_id: String,
    pub active_remote: String,
}

/// The non-empty, trimmed lines of an export.
pub open spec fn export_lines(contents: Seq<char>) -> Seq<Seq<char>> {
    spec_lines(contents).map_values(|l: Seq<char>| spec_trim(l)).filter(|l: Seq<char>| l.len() > 0)
}

/// The values that labelled lines (`key: value` or `key=value`) assign, the
/// last assignment of each key winning.
pub open spec fn labelled_values(ls: Seq<Seq<char>>) -> (Option<Seq<char>>, Option<Seq<char>>)
    decreases ls.len(),
{
    if ls.len() == 0 {
        (None, None)
    } else {
        let (d, a) = labelled_values(ls.drop_last());
        match spec_split_once(ls.last(), seq![':', '=']) {
            Some((key, value)) => {
                let k = spec_trim(key).map_values(|c: char| ascii_lower(c));
                if k == "dacp-id"@ {
                    (Some(spec_trim(value)), a)
                } else if k == "active-remote"@ {
                    (d, Some(spec_trim(value)))
                } else {
                    (d, a)
                }
            },
            None => (d, a),
        }
    }
}

/// What an export holds: the labelled values, or, where no line is labelled
/// and there are two lines or more, the first two lines in that order.
pub open spec fn spec_export_values(contents: Seq<char>) -> (Option<Seq<char>>, Option<Seq<char>>) {
    let ls = export_lines(contents);
    let (d, a) = labelled_values(ls);
    if d is None && a is None && ls.len() >= 2 {
        (Some(ls[0]), Some(ls[1]))
    } else {
        (d, a)
    }
}

/// The credentials of an export, where both values are present and non-empty.
pub open spec fn spec_parse_uxplay_dacp(contents: Seq<char>) -> Option<(Seq<char>, Seq<char>)> {
    match spec_export_values(contents) {
        (Some(d), Some(a)) => if d.len() > 0 && a.len() > 0 {
            Some((d, a))
        } else {
            None
        },
        _ => None,
    }
}

pub open spec fn incomplete_export_message() -> Seq<char> {
    "UxPlay's DACP export is incomplete"@
}

fn trimmed_nonempty_lines(contents: &[char]) -> (res: Vec<Vec<char>>)
    ensures
        res@.len() == export_lines(contents@).len(),
        forall|k: int| 0 <= k < res@.len() ==> #[trigger] res@[k]@ == export_lines(contents@)[k],
{
    let all = lines(contents);
    let ghost trimmed = spec_lines(contents@).map_values(|l: Seq<char>| spec_trim(l));
    let ghost pred = |l: Seq<char>| l.len() > 0;
    let mut out: Vec<Vec<char>> = Vec::new();
    let ghost views: Seq<Seq<char>> = seq![];
    let mut i: usize = 0;
    while i < all.len()
        invariant
            i <= all@.len(),
            all@.len() == spec_lines(contents@).len(),
            forall|k: int| 0 <= k < all@.len() ==> #[trigger] all@[k]@ == spec_lines(contents@)[k],
            trimmed == spec_lines(contents@).map_values(|l: Seq<char>| spec_trim(l)),
            pred == (|l: Seq<char>| l.len() > 0),
            views == trimmed.take(i as int).filter(pred),
            out@.len() == views.len(),
            forall|k: int| 0 <= k < out@.len() ==> #[trigger] out@[k]@ == views[k],
        decreases all@.len() - i,
    {
        let t = trim(all[i].as_slice());
        proof {
            assert(trimmed.take(i + 1).drop_last() =~= trimmed.take(i as int));
            assert(trimmed.take(i + 1).last() == t@);
            reveal_with_fuel(Seq::filter, 1);
        }
        if t.len() > 0 {
            proof {
                views = views.push(t@);
            }
            out.push(t);
        }
        i = i + 1;
    }
    assert(trimmed.take(all@.len() as int) =~= trimmed);
    out
}

/// Reads UxPlay's DACP export: labelled lines (`DACP-ID: ...`,
/// `Active-Remote=...`, keys in any case), or two bare lines.
pub fn parse_uxplay_dacp(contents: &str) -> (res: Result<DacpCredentials, String>)
    ensures
        res matches Ok(c) ==> spec_parse_uxplay_dacp(contents@) == Some((c.dacp_id@, c.active_remote@)),
        res matches Err(e) ==> spec_parse_uxplay_dacp(contents@) is None && e@ == incomplete_export_message(),
{
    let chars = chars_of(contents);
    let ls = trimmed_nonempty_lines(chars.as_slice());
    let ghost lv = export_lines(contents@);
    let mut dacp_id: Option<Vec<char>> = None;
    let mut active_remote: Option<Vec<char>> = None;
    let key_id = chars_of("dacp-id");
    let key_remote = chars_of("active-remote");
    let mut i: usize = 0;
    while i < ls.len()
        invariant
            i <= ls@.len(),
            ls@.len() == lv.len(),
            forall|k: int| 0 <= k < ls@.len() ==> #[trigger] ls@[k]@ == lv[k],
            key_id@ == "dacp-id"@,
            key_remote@ == "active-remote"@,
            labelled_values(lv.take(i as int)) == (
                match dacp_id {
                    Some(v) => Some(v@),
                    None => None::<Seq<char>>,
                },
                match active_remote {
                    Some(v) => Some(v@),
                    None => None::<Seq<char>>,
                },
            ),
        decreases ls@.len() - i,
    {
        assert(lv.take(i + 1).drop_last() =~= lv.take(i as int));
        assert(lv.take(i + 1).last() == ls@[i as int]@);
        match split_once(ls[i].as_slice(), &[':', '=']) {
            Some((key, value)) => {
                let k = to_ascii_lowercase(trim(key.as_slice()).as_slice());
                if chars_equal(k.as_slice(), key_id.as_slice()) {
                    dacp_id = Some(trim(value.as_slice()));
                } else if chars_equal(k.as_slice(), key_remote.as_slice()) {
                    active_remote = Some(trim(value.as_slice()));
                }
            },
            None => {},
        }
        i = i + 1;
    }
    assert(lv.take(ls@.len() as int) =~= lv);
    if dacp_id.is_none() && active_remote.is_none() && ls.len() >= 2 {
        dacp_id = Some(ls[0].clone());
        active_remote = Some(ls[1].clone());
    }
    match (dacp_id, active_remote) {
        (Some(d), Some(a)) => {
            if d.len() > 0 && a.len() > 0 {
                return Ok(DacpCredentials { dacp_id: string_of(d.as_slice()), active_remote: string_of(a.as_slice()) });
            }
        },
        _ => {},
    }
    Err("UxPlay's DACP export is incomplete".to_owned())
}


pub open spec fn is_digit_byte(b: u8) -> bool {
    48 <= b <= 57
}

/// The number that an escape `\abc` stands for, as the escape's arithmetic
/// computes it: `(a - '0') * 100 + (b - '0') * 10 + c`, before `c`'s `'0'`
/// is taken off.
pub open spec fn escape_sum(b1: u8, b2: u8, b3: u8) -> int {
    (b1 - 48) * 100 + (b2 - 48) * 10 + b3
}

/// Where `b` starts with a decimal escape `\ddd`.
pub open spec fn starts_with_escape(b: Seq<u8>) -> bool {
    b.len() > 3 && b[0] == 92 && is_digit_byte(b[1]) && is_digit_byte(b[2]) && is_digit_byte(b[3])
}

/// The characters of an Avahi field: each escape `\ddd` becomes the character
/// with that code, each other byte the character with the byte's value.
pub open spec fn spec_unescape(b: Seq<u8>) -> Seq<char>
    decreases b.len(),
{
    if b.len() == 0 {
        seq![]
    } else if starts_with_escape(b) {
        seq![((escape_sum(b[1], b[2], b[3]) - 48) as u8) as char] + spec_unescape(b.skip(4))
    } else {
        seq![(b[0] as char)] + spec_unescape(b.skip(1))
    }
}

/// Where the escape arithmetic stays within `u8` for every escape in `b`.
pub open spec fn escapes_in_range(b: Seq<u8>) -> bool
    decreases b.len(),
{
    if b.len() == 0 {
        true
    } else if starts_with_escape(b) {
        escape_sum(b[1], b[2], b[3]) <= 255 && escapes_in_range(b.skip(4))
    } else {
        escapes_in_range(b.skip(1))
    }
}

/// Turns Avahi's decimal escapes (`\032` for a space) back into characters.
pub fn unescape_avahi_field(value: &str) -> (res: String)
    requires
        escapes_in_range(encode_utf8(value@)),
    ensures
        res@ == spec_unescape(encode_utf8(value@)),
{
    let bytes = value.as_bytes();
    let n = bytes.len();
    let mut out: Vec<char> = Vec::new();
    let mut index: usize = 0;
    assert(bytes@.skip(0) =~= bytes@);
    while index < n
        invariant
            n == bytes@.len(),
            bytes@ == encode_utf8(value@),
            index <= n,
            escapes_in_range(bytes@.skip(index as int)),
            spec_unescape(bytes@) == out@ + spec_unescape(bytes@.skip(index as int)),
        decreases n - index,
    {
        let ghost rest = bytes@.skip(index as int);
        if bytes[index] == 92 && 3 < n - index && 48 <= bytes[index + 1] && bytes[index + 1] <= 57
            && 48 <= bytes[index + 2] && bytes[index + 2] <= 57 && 48 <= bytes[index + 3]
            && bytes[index + 3] <= 57 {
            assert(rest[1] == bytes@[index + 1] && rest[2] == bytes@[index + 2] && rest[3] == bytes@[index + 3]);
            assert(starts_with_escape(rest));
            assert(escape_sum(bytes@[index + 1], bytes@[index + 2], bytes@[index + 3]) <= 255);
            let b1 = bytes[index + 1];
            let b2 = bytes[index + 2];
            let b3 = bytes[index + 3];
            assert((b1 - 48) * 100 + (b2 - 48) * 10 + b3 <= 255);
            let number = (b1 - 48) * 100 + (b2 - 48) * 10 + b3 - 48;
            out.push(number as char);
            assert(rest.skip(4) =~= bytes@.skip(index + 4));
            index = index + 4;
        } else {
            assert(!starts_with_escape(rest));
            out.push(bytes[index] as char);
            assert(rest.skip(1) =~= bytes@.skip(index + 1));
            index = index + 1;
        }
        assert(out@ + spec_unescape(bytes@.skip(index as int)) =~= spec_unescape(bytes@)) by {
            assert(spec_unescape(bytes@) == out@.drop_last() + spec_unescape(rest));
        }
    }
    string_of(out.as_slice())
}


/// The character sequences that a list of character vectors holds.
pub open spec fn char_views(v: Seq<Vec<char>>) -> Seq<Seq<char>> {
    v.map_values(|x: Vec<char>| x@)
}

/// Where the `;`-separated fields of an `avahi-browse --parsable` line resolve
/// the DACP service `name` with a port number.
pub open spec fn resolves_service(fields: Seq<Seq<char>>, name: Seq<char>) -> bool {
    &&& fields.len() >= 9
    &&& fields[0] == "="@
    &&& fields[3] == name
    &&& fields[4] == "_dacp._tcp"@
    &&& spec_parse_unsigned(fields[8], 65535) is Some
}

/// The fields of the first line in `ls` that resolves `name`.
pub open spec fn first_resolving(ls: Seq<Seq<char>>, name: Seq<char>) -> Option<Seq<Seq<char>>>
    decreases ls.len(),
{
    if ls.len() == 0 {
        None
    } else if resolves_service(spec_split(ls[0], ';'), name) {
        Some(spec_split(ls[0], ';'))
    } else {
        first_resolving(ls.drop_first(), name)
    }
}

pub proof fn lemma_first_resolving(ls: Seq<Seq<char>>, name: Seq<char>)
    ensures
        first_resolving(ls, name) matches Some(f) ==> resolves_service(f, name),
    decreases ls.len(),
{
    if ls.len() > 0 && !resolves_service(spec_split(ls[0], ';'), name) {
        lemma_first_resolving(ls.drop_first(), name);
    }
}

/// The address (unescaped) and port of the service `name` in `avahi-browse`
/// output.
pub open spec fn spec_parse_avahi(output: Seq<char>, name: Seq<char>) -> Option<(Seq<char>, nat)> {
    match first_resolving(spec_lines(output), name) {
        Some(f) => Some((spec_unescape(encode_utf8(f[7])), spec_parse_unsigned(f[8], 65535).unwrap())),
        None => None,
    }
}

/// Where unescaping the address of the service found in `output` stays
/// within the escape arithmetic's range.
pub open spec fn avahi_in_range(output: Seq<char>, name: Seq<char>) -> bool {
    match first_resolving(spec_lines(output), name) {
        Some(f) => escapes_in_range(encode_utf8(f[7])),
        None => true,
    }
}

pub open spec fn not_found_message(name: Seq<char>) -> Seq<char> {
    "DACP service "@ + name + " was not found"@
}

/// The port of a line's fields, where the line resolves `name`.
fn resolving_port(fields: &Vec<Vec<char>>, name: &[char]) -> (res: Option<u16>)
    ensures
        res is Some <==> resolves_service(char_views(fields@), name@),
        res matches Some(p) ==> spec_parse_unsigned(fields@[8]@, 65535) == Some(p as nat),
{
    let ghost fv = char_views(fields@);
    assert(fv.len() == fields@.len());
    if fields.len() < 9 {
        return None;
    }
    assert(fv[0] == fields@[0]@ && fv[3] == fields@[3]@ && fv[4] == fields@[4]@ && fv[8] == fields@[8]@);
    let eq = chars_of("=");
    let service = chars_of("_dacp._tcp");
    if !chars_equal(fields[0].as_slice(), eq.as_slice()) || !chars_equal(fields[3].as_slice(), name)
        || !chars_equal(fields[4].as_slice(), service.as_slice()) {
        return None;
    }
    match parse_unsigned(fields[8].as_slice(), 65535) {
        Some(p) => Some(p as u16),
        None => None,
    }
}

/// Finds the line of `avahi-browse` output that resolves `name`, with its
/// fields.
fn find_resolving(output: &str, name: &[char]) -> (res: Option<(Vec<Vec<char>>, u16)>)
    ensures
        res matches Some((f, p)) ==> first_resolving(spec_lines(output@), name@) == Some(
            char_views(f@),
        ),
        res matches Some((f, p)) ==> spec_parse_unsigned(f@[8]@, 65535) == Some(p as nat),
        res is None ==> first_resolving(spec_lines(output@), name@) is None,
{
    let chars = chars_of(output);
    let ls = lines(chars.as_slice());
    let ghost lv = spec_lines(output@);
    let mut i: usize = 0;
    assert(lv.skip(0) =~= lv);
    while i < ls.len()
        invariant
            i <= ls@.len(),
            lv == spec_lines(output@),
            ls@.len() == lv.len(),
            forall|k: int| 0 <= k < ls@.len() ==> #[trigger] ls@[k]@ == lv[k],
            first_resolving(lv, name@) == first_resolving(lv.skip(i as int), name@),
        decreases ls@.len() - i,
    {
        let fields = split(ls[i].as_slice(), ';');
        let ghost fv = char_views(fields@);
        assert(fv =~= spec_split(lv[i as int], ';'));
        assert(lv.skip(i as int)[0] == lv[i as int]);
        assert(lv.skip(i as int).drop_first() =~= lv.skip(i + 1));
        match resolving_port(&fields, name) {
            Some(p) => {
                assert(first_resolving(lv.skip(i as int), name@) == Some(spec_split(lv[i as int], ';')));
                return Some((fields, p));
            },
            None => {},
        }
        i = i + 1;
    }
    assert(lv.skip(i as int).len() == 0);
    None
}

/// Whether unescaping the resolved address of `service_name` in `output`
/// stays within the escape arithmetic's range.
pub fn avahi_output_in_range(output: &str, service_name: &str) -> (res: bool)
    ensures
        res == avahi_in_range(output@, service_name@),
{
    let name = chars_of(service_name);
    match find_resolving(output, name.as_slice()) {
        None => true,
        Some((fields, _)) => {
            proof {
                lemma_first_resolving(spec_lines(output@), name@);
            }
            let ghost fv = char_views(fields@);
            assert(fv.len() == fields@.len());
            assert(fv[7] == fields@[7]@);
            let address = string_of(fields[7].as_slice());
            escapes_fit(address.as_str().as_bytes())
        },
    }
}

fn escapes_fit(bytes: &[u8]) -> (res: bool)
    ensures
        res == escapes_in_range(bytes@),
{
    let n = bytes.len();
    let mut index: usize = 0;
    assert(bytes@.skip(0) =~= bytes@);
    while index < n
        invariant
            n == bytes@.len(),
            index <= n,
            escapes_in_range(bytes@) == escapes_in_range(bytes@.skip(index as int)),
        decreases n - index,
    {
        let ghost rest = bytes@.skip(index as int);
        if bytes[index] == 92 && 3 < n - index && 48 <= bytes[index + 1] && bytes[index + 1] <= 57
            && 48 <= bytes[index + 2] && bytes[index + 2] <= 57 && 48 <= bytes[index + 3]
            && bytes[index + 3] <= 57 {
            assert(rest[1] == bytes@[index + 1] && rest[2] == bytes@[index + 2] && rest[3] == bytes@[index + 3]);
            assert(starts_with_escape(rest));
            let sum: u32 = (bytes[index + 1] as u32 - 48) * 100 + (bytes[index + 2] as u32 - 48) * 10
                + bytes[index + 3] as u32;
            if sum > 255 {
                return false;
            }
            assert(rest.skip(4) =~= bytes@.skip(index + 4));
            index = index + 4;
        } else {
            assert(!starts_with_escape(rest));
            assert(rest.skip(1) =~= bytes@.skip(index + 1));
            index = index + 1;
        }
    }
    true
}

/// Finds the address and port of the DACP service `service_name` in the
/// output of `avahi-browse --resolve --parsable`.
pub fn parse_avahi_dacp_output(output: &str, service_name: &str) -> (res: Result<(String, u16), String>)
    requires
        avahi_in_range(output@, service_name@),
    ensures
        res matches Ok((a, p)) ==> spec_parse_avahi(output@, service_name@) == Some((a@, p as nat)),
        res matches Err(e) ==> spec_parse_avahi(output@, service_name@) is None && e@
            == not_found_message(service_name@),
{
    let name = chars_of(service_name);
    match find_resolving(output, name.as_slice()) {
        Some((fields, port)) => {
            proof {
                lemma_first_resolving(spec_lines(output@), name@);
            }
            let ghost fv = char_views(fields@);
            assert(fv.len() == fields@.len());
            assert(fv[7] == fields@[7]@);
            let address = string_of(fields[7].as_slice());
            Ok((unescape_avahi_field(address.as_str()), port))
        },
        None => {
            let mut message = chars_of("DACP service ");
            let mut n = name.clone();
            message.append(&mut n);
            message.append(&mut chars_of(" was not found"));
            Err(string_of(message.as_slice()))
        },
    }
}


/// A playback request from the front end or from MPRIS.
#[derive(Clone, Copy, Debug, PartialEq, Eq)]
pub enum PlaybackControl {
    Previous,
    PlayPause,
    Next,
}

pub open spec fn spec_dacp_command(control: PlaybackControl) -> Seq<char> {
    match control {
        PlaybackControl::Previous => "previtem"@,
        PlaybackControl::PlayPause => "playpause"@,
        PlaybackControl::Next => "nextitem"@,
    }
}

/// The DACP command for a request.
pub fn dacp_command(control: PlaybackControl) -> (res: &'static str)
    ensures
        res@ == spec_dacp_command(control),
{
    match control {
        PlaybackControl::Previous => "previtem",
        PlaybackControl::PlayPause => "playpause",
        PlaybackControl::Next => "nextitem",
    }
}

pub open spec fn spec_dbus_method(control: PlaybackControl) -> Seq<char> {
    match control {
        PlaybackControl::Previous => "Previous"@,
        PlaybackControl::PlayPause => "PlayPause"@,
        PlaybackControl::Next => "Next"@,
    }
}

/// The D-Bus method name for a request.
pub fn dbus_method(control: PlaybackControl) -> (res: &'static str)
    ensures
        res@ == spec_dbus_method(control),
{
    match control {
        PlaybackControl::Previous => "Previous",
        PlaybackControl::PlayPause => "PlayPause",
        PlaybackControl::Next => "Next",
    }
}

/// The method to call on Shairport Sync's MPRIS interface.
pub fn mpris_control_method(control: PlaybackControl) -> (res: String)
    ensures
        res@ == "org.mpris.MediaPlayer2.Player."@ + spec_dbus_method(control),
{
    let mut out = chars_of("org.mpris.MediaPlayer2.Player.");
    out.append(&mut chars_of(dbus_method(control)));
    string_of(out.as_slice())
}

/// The method to call on Shairport Sync's own D-Bus interface.
pub fn native_control_method(control: PlaybackControl) -> (res: String)
    ensures
        res@ == "org.gnome.ShairportSync.RemoteControl."@ + spec_dbus_method(control),
{
    let mut out = chars_of("org.gnome.ShairportSync.RemoteControl.");
    out.append(&mut chars_of(dbus_method(control)));
    string_of(out.as_slice())
}

/// The URL of a DACP request: an IPv6 host (one with a `:`) in brackets.
pub open spec fn spec_dacp_url(host: Seq<char>, port: u16, command: Seq<char>) -> Seq<char> {
    let url_host = if host.contains(':') { seq!['['] + host + seq![']'] } else { host };
    "http://"@ + url_host + seq![':'] + decimal_digits(port as nat) + "/ctrl-int/1/"@ + command
}

fn has_char(s: &[char], c: char) -> (res: bool)
    ensures
        res == s@.contains(c),
{
    let mut i: usize = 0;
    while i < s.len()
        invariant
            i <= s@.len(),
            forall|j: int| 0 <= j < i ==> s@[j] != c,
        decreases s@.len() - i,
    {
        if s[i] == c {
            return true;
        }
        i = i + 1;
    }
    false
}

/// The URL of the DACP command `command` at `host:port`.
pub fn dacp_url(host: &str, port: u16, command: &str) -> (res: String)
    ensures
        res@ == spec_dacp_url(host@, port, command@),
{
    let h = chars_of(host);
    let mut out = chars_of("http://");
    if has_char(h.as_slice(), ':') {
        out.push('[');
        out.append(&mut chars_of(host));
        out.push(']');
    } else {
        out.append(&mut chars_of(host));
    }
    out.push(':');
    push_decimal(port as u64, &mut out);
    out.append(&mut chars_of("/ctrl-int/1/"));
    out.append(&mut chars_of(command));
    assert(out@ =~= spec_dacp_url(host@, port, command@));
    string_of(out.as_slice())
}

/// The endpoint that Shairport's metadata gave: the client's address, the
/// DACP port and the Active-Remote token, where all three are known.
pub open spec fn spec_shairport_endpoint(s: SessionView) -> Option<(Seq<char>, u16, Seq<char>)> {
    if s.client_ip.len() > 0 && s.active_remote.len() > 0 {
        match spec_parse_unsigned(s.dacp_port, 65535) {
            Some(p) => Some((s.client_ip, p as u16, s.active_remote)),
            None => None,
        }
    } else {
        None
    }
}

pub open spec fn endpoint_view(e: (String, u16, String)) -> (Seq<char>, u16, Seq<char>) {
    (e.0@, e.1, e.2@)
}

/// The DACP endpoint that Shairport's metadata gave, where it is complete.
pub fn shairport_endpoint(state: &SessionState) -> (res: Option<(String, u16, String)>)
    ensures
        match res {
            Some(e) => spec_shairport_endpoint(state@) == Some(endpoint_view(e)),
            None => spec_shairport_endpoint(state@) is None,
        },
{
    let port = chars_of(state.dacp_port.as_str());
    let port = parse_unsigned(port.as_slice(), 65535);
    if !state.client_ip.as_str().is_empty() && !state.active_remote.as_str().is_empty() {
        if let Some(p) = port {
            return Some((state.client_ip.clone(), p as u16, state.active_remote.clone()));
        }
    }
    None
}

/// The endpoint resolved before, where it was resolved for these credentials.
pub open spec fn spec_cached_endpoint(s: SessionView, dacp_id: Seq<char>, active_remote: Seq<char>) -> Option<(Seq<char>, u16, Seq<char>)> {
    match s.uxplay_endpoint {
        Some(e) => if e.dacp_id == dacp_id && e.active_remote == active_remote {
            Some((e.host, e.port, e.active_remote))
        } else {
            None
        },
        None => None,
    }
}

/// The endpoint resolved before for these credentials, if any.
pub fn cached_endpoint(state: &SessionState, credentials: &DacpCredentials) -> (res: Option<(String, u16, String)>)
    ensures
        match res {
            Some(e) => spec_cached_endpoint(state@, credentials.dacp_id@, credentials.active_remote@)
                == Some(endpoint_view(e)),
            None => spec_cached_endpoint(state@, credentials.dacp_id@, credentials.active_remote@) is None,
        },
{
    match &state.uxplay_endpoint {
        Some(e) => {
            if e.dacp_id == credentials.dacp_id && e.active_remote == credentials.active_remote {
                Some((e.host.clone(), e.port, e.active_remote.clone()))
            } else {
                None
            }
        },
        None => None,
    }
}

/// Remembers the endpoint resolved for these credentials, and gives it.
pub fn remember_endpoint(state: &mut SessionState, credentials: DacpCredentials, host: String, port: u16) -> (res: (String, u16, String))
    ensures
        final(state)@ == (SessionView {
            uxplay_endpoint: Some(
                EndpointView {
                    dacp_id: credentials.dacp_id@,
                    active_remote: credentials.active_remote@,
                    host: host@,
                    port,
                },
            ),
            ..old(state)@
        }),
        endpoint_view(res) == (host@, port, credentials.active_remote@),
        spec_cached_endpoint(final(state)@, credentials.dacp_id@, credentials.active_remote@) == Some(
            endpoint_view(res),
        ),
{
    let remote = credentials.active_remote.clone();
    state.uxplay_endpoint = Some(
        CachedDacpEndpoint {
            dacp_id: credentials.dacp_id,
            active_remote: credentials.active_remote,
            host: host.clone(),
            port,
        },
    );
    (host, port, remote)
}

/// The DNS-SD service name under which the AirPlay source offers DACP.
pub fn dacp_service_name(dacp_id: &str) -> (res: String)
    ensures
        res@ == "iTunes_Ctrl_"@ + dacp_id@,
{
    let mut out = chars_of("iTunes_Ctrl_");
    out.append(&mut chars_of(dacp_id));
    string_of(out.as_slice())
}

/// The error reported when no way of controlling playback worked.
pub fn control_failure_message(dacp_error: &str, mpris_error: &str, native_error: &str) -> (res: String)
    ensures
        res@ == "DACP control is unavailable: "@ + dacp_error@ + ". Shairport MPRIS control failed: "@
            + mpris_error@ + ". Native control failed: "@ + native_error@,
{
    let mut out = chars_of("DACP control is unavailable: ");
    out.append(&mut chars_of(dacp_error));
    out.append(&mut chars_of(". Shairport MPRIS control failed: "));
    out.append(&mut chars_of(mpris_error));
    out.append(&mut chars_of(". Native control failed: "));
    out.append(&mut chars_of(native_error));
    string_of(out.as_slice())
}

} // verus!
