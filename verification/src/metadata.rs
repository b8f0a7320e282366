//! Reading the Shairport Sync metadata stream: one `<item>` per header line,
//! optionally followed by Base64 data lines that end with `</data></item>`.

use vstd::prelude::*;
use base64::Engine;
use vstd::string::StrSliceExecFns;
use vstd::utf8::{decode_utf8, valid_utf8};
use crate::text::{
    chars_of, find, parse_radix, parse_unsigned, push_non_ascii_whitespace, slice_chars,
    spec_find, spec_parse_radix, spec_parse_unsigned, spec_trim, string_of, trim,
    without_ascii_whitespace, index_in_from,
};

verus! {

#[verifier::external_type_specification]
#[verifier::external_body]
pub struct ExDecodeError(base64::DecodeError);

/// The value of a character of the standard Base64 alphabet.
pub open spec fn base64_value(c: char) -> Option<nat> {
    if 'A' <= c && c <= 'Z' {
        Some((c as nat - 'A' as nat) as nat)
    } else if 'a' <= c && c <= 'z' {
        Some((c as nat - 'a' as nat + 26) as nat)
    } else if '0' <= c && c <= '9' {
        Some((c as nat - '0' as nat + 52) as nat)
    } else if c == '+' {
        Some(62)
    } else if c == '/' {
        Some(63)
    } else {
        None
    }
}

/// Canonical padded Base64 (RFC 4648): groups of four characters of the
/// alphabet, of which the last may end in `=` or `==` with its unused bits
/// zero; and the bytes it encodes. `None` for any other text.
pub open spec fn canonical_base64(s: Seq<char>) -> Option<Seq<u8>>
    decreases s.len(),
{
    if s.len() == 0 {
        Some(seq![])
    } else if s.len() < 4 {
        None
    } else {
        let last = s.len() == 4;
        match (base64_value(s[0]), base64_value(s[1]), base64_value(s[2]), base64_value(s[3])) {
            (Some(a), Some(b), Some(c), Some(d)) => match canonical_base64(s.skip(4)) {
                Some(t) => Some(
                    seq![(a * 4 + b / 16) as u8, ((b % 16) * 16 + c / 4) as u8, ((c % 4) * 64 + d) as u8]
                        + t,
                ),
                None => None,
            },
            (Some(a), Some(b), Some(c), None) => if last && s[3] == '=' && c % 4 == 0 {
                Some(seq![(a * 4 + b / 16) as u8, ((b % 16) * 16 + c / 4) as u8])
            } else {
                None
            },
            (Some(a), Some(b), None, None) => if last && s[2] == '=' && s[3] == '=' && b % 16 == 0 {
                Some(seq![(a * 4 + b / 16) as u8])
            } else {
                None
            },
            _ => None,
        }
    }
}

/// Decodes standard, padded Base64 with the `base64` crate's `STANDARD` engine.
/// That engine requires canonical padding and refuses trailing bits, so its
/// contract says: it succeeds exactly on canonical padded Base64, with the
/// bytes that text encodes, and reports a `DecodeError` on any other text.
#[verifier::external_body]
fn decode_base64(encoded: &str) -> (res: Result<Vec<u8>, base64::DecodeError>)
    ensures
        match res {
            Ok(v) => canonical_base64(encoded@) == Some(v@),
            Err(_) => canonical_base64(encoded@) is None,
        },
{
    base64::engine::general_purpose::STANDARD.decode(encoded)
}

/// `String::from_utf8`: the string whose UTF-8 encoding the bytes are, where
/// they are valid UTF-8.
#[verifier::external_body]
fn string_from_utf8(bytes: Vec<u8>) -> (res: Option<String>)
    ensures
        res is Some <==> valid_utf8(bytes@),
        res matches Some(s) ==> s@ == decode_utf8(bytes@),
{
    String::from_utf8(bytes).ok()
}

/// `<tag>`
pub open spec fn start_tag(tag: Seq<char>) -> Seq<char> {
    seq!['<'] + tag + seq!['>']
}

/// `</tag>`
pub open spec fn end_tag(tag: Seq<char>) -> Seq<char> {
    seq!['<', '/'] + tag + seq!['>']
}

/// The text between the first `<tag>` in `text` and the first `</tag>` after it.
pub open spec fn spec_xml_value(text: Seq<char>, tag: Seq<char>) -> Option<Seq<char>> {
    match spec_find(text, start_tag(tag)) {
        None => None,
        Some(a) => {
            let start = a + start_tag(tag).len();
            match spec_find(text.skip(start), end_tag(tag)) {
                None => None,
                Some(b) => Some(text.subrange(start, start + b)),
            }
        },
    }
}

fn tag_with(prefix: &[char], tag: &[char]) -> (res: Vec<char>)
    ensures
        res@ == prefix@ + tag@ + seq!['>'],
{
    let mut out = slice_chars(prefix, 0, prefix.len());
    let mut i: usize = 0;
    while i < tag.len()
        invariant
            i <= tag@.len(),
            out@ == prefix@ + tag@.take(i as int),
        decreases tag@.len() - i,
    {
        out.push(tag[i]);
        i = i + 1;
        assert(out@ =~= prefix@ + tag@.take(i as int));
    }
    out.push('>');
    assert(prefix@.subrange(0, prefix@.len() as int) =~= prefix@);
    assert(tag@.take(tag@.len() as int) =~= tag@);
    assert(out@ =~= prefix@ + tag@ + seq!['>']);
    out
}

/// The text between `<tag>` and `</tag>` in one header line.
pub fn xml_value<'a>(text: &'a str, tag: &str) -> (res: Option<&'a str>)
    ensures
        res matches Some(v) ==> spec_xml_value(text@, tag@) == Some(v@),
        res is None ==> spec_xml_value(text@, tag@) is None,
{
    let t = chars_of(text);
    let g = chars_of(tag);
    let open = tag_with(&['<'], g.as_slice());
    let close = tag_with(&['<', '/'], g.as_slice());
    assert(open@ =~= start_tag(tag@));
    assert(close@ =~= end_tag(tag@));
    match find(t.as_slice(), open.as_slice()) {
        None => None,
        Some(a) => {
            proof {
                crate::text::lemma_find_from(t@, open@, 0);
            }
            let tl = t.len();
            assert(a + open@.len() <= t@.len());
            let start = a + open.len();
            let rest = slice_chars(t.as_slice(), start, t.len());
            assert(rest@ =~= t@.skip(start as int));
            match find(rest.as_slice(), close.as_slice()) {
                None => None,
                Some(b) => {
                    proof {
                        crate::text::lemma_find_from(rest@, close@, 0);
                    }
                    Some(text.substring_char(start, start + b))
                },
            }
        },
    }
}

/// The four bytes of `n`, most significant first (`u32::to_be_bytes`).
pub open spec fn be_bytes(n: nat) -> Seq<u8> {
    seq![
        (n / 0x100_0000) as u8,
        ((n / 0x1_0000) % 0x100) as u8,
        ((n / 0x100) % 0x100) as u8,
        (n % 0x100) as u8,
    ]
}

/// A header's hexadecimal type or code, read as a 32-bit number whose four
/// big-endian bytes spell the four-character name.
pub open spec fn spec_hex_code(value: Seq<char>) -> Option<Seq<char>> {
    match spec_parse_radix(value, 16, 0xffff_ffff) {
        None => None,
        Some(n) => if valid_utf8(be_bytes(n)) {
            Some(decode_utf8(be_bytes(n)))
        } else {
            None
        },
    }
}

/// Turns a hexadecimal header value such as `636f7265` into its name (`core`).
pub fn hex_code(value: &str) -> (res: Option<String>)
    ensures
        res matches Some(s) ==> spec_hex_code(value@) == Some(s@),
        res is None ==> spec_hex_code(value@) is None,
{
    let v = chars_of(value);
    let n = parse_radix(v.as_slice(), 16, 0xffff_ffff)?;
    let bytes: Vec<u8> = vec![
        (n / 0x100_0000) as u8,
        ((n / 0x1_0000) % 0x100) as u8,
        ((n / 0x100) % 0x100) as u8,
        (n % 0x100) as u8,
    ];
    assert(bytes@ =~= be_bytes(n as nat));
    string_from_utf8(bytes)
}


/// One metadata item: its type (`core`, `ssnc`, ...), its code (`minm`,
/// `PICT`, ...) and its payload.
#[derive(Debug, PartialEq, Eq)]
pub struct MetadataItem {
    pub kind: String,
    pub code: String,
    pub data: Vec<u8>,
}

/// Why a metadata item could not be read.
#[derive(Debug, Clone, Copy, PartialEq, Eq)]
pub enum MetadataError {
    /// The line after a header with a non-zero length is not `<data encoding="base64">`.
    MissingDataTag,
    /// The stream ended before `</data></item>`.
    UnexpectedEof,
    /// The payload is not valid Base64.
    InvalidBase64,
    /// The payload's length differs from the header's `<length>`.
    InvalidLength,
}

pub struct ItemView {
    pub kind: Seq<char>,
    pub code: Seq<char>,
    pub data: Seq<u8>,
}

impl View for MetadataItem {
    type V = ItemView;

    open spec fn view(&self) -> ItemView {
        ItemView { kind: self.kind@, code: self.code@, data: self.data@ }
    }
}

/// Where a reader stands within one item.
pub enum ItemReader {
    /// Waiting for an item's header line.
    Header,
    /// After a header with a non-zero length: waiting for the opening data tag.
    Opening { kind: String, code: String, length: usize },
    /// Collecting the Base64 payload.
    Data { kind: String, code: String, length: usize, encoded: Vec<char> },
}

pub enum ReaderView {
    Header,
    Opening(Seq<char>, Seq<char>, nat),
    Data(Seq<char>, Seq<char>, nat, Seq<char>),
}

impl View for ItemReader {
    type V = ReaderView;

    open spec fn view(&self) -> ReaderView {
        match self {
            ItemReader::Header => ReaderView::Header,
            ItemReader::Opening { kind, code, length } => ReaderView::Opening(
                kind@,
                code@,
                *length as nat,
            ),
            ItemReader::Data { kind, code, length, encoded } => ReaderView::Data(
                kind@,
                code@,
                *length as nat,
                encoded@,
            ),
        }
    }
}

/// What reading one more line gives: a new position within the item, or the
/// outcome of reading the item.
pub enum ReadStep {
    More(ItemReader),
    Done(Result<Option<MetadataItem>, MetadataError>),
}

pub enum StepView {
    More(ReaderView),
    Done(Result<Option<ItemView>, MetadataError>),
}

pub open spec fn outcome_view(r: Result<Option<MetadataItem>, MetadataError>) -> Result<
    Option<ItemView>,
    MetadataError,
> {
    match r {
        Ok(Some(item)) => Ok(Some(item@)),
        Ok(None) => Ok(None),
        Err(e) => Err(e),
    }
}

impl View for ReadStep {
    type V = StepView;

    open spec fn view(&self) -> StepView {
        match self {
            ReadStep::More(r) => StepView::More(r@),
            ReadStep::Done(o) => StepView::Done(outcome_view(*o)),
        }
    }
}

/// The name that a header's `<tag>` value spells.
pub open spec fn header_name(line: Seq<char>, tag: Seq<char>) -> Option<Seq<char>> {
    match spec_xml_value(line, tag) {
        Some(v) => spec_hex_code(v),
        None => None,
    }
}

/// A header's `<length>`, where it is a number; zero otherwise.
pub open spec fn header_length(line: Seq<char>) -> nat {
    match spec_xml_value(line, "length"@) {
        Some(v) => match spec_parse_unsigned(v, usize::MAX as nat) {
            Some(n) => n,
            None => 0,
        },
        None => 0,
    }
}

/// The outcome for an item whose payload decoded to `decoded` (`None` where
/// it was not valid Base64).
pub open spec fn spec_finish(kind: Seq<char>, code: Seq<char>, length: nat, decoded: Option<Seq<u8>>) -> Result<
    Option<ItemView>,
    MetadataError,
> {
    match decoded {
        None => Err(MetadataError::InvalidBase64),
        Some(data) => if data.len() == length {
            Ok(Some(ItemView { kind, code, data }))
        } else {
            Err(MetadataError::InvalidLength)
        },
    }
}

/// What reading `line` gives in state `state`.
pub open spec fn spec_step(state: ReaderView, line: Seq<char>) -> StepView {
    match state {
        ReaderView::Header => match (header_name(line, "type"@), header_name(line, "code"@)) {
            (Some(kind), Some(code)) => if header_length(line) == 0 {
                StepView::Done(Ok(Some(ItemView { kind, code, data: seq![] })))
            } else {
                StepView::More(ReaderView::Opening(kind, code, header_length(line)))
            },
            _ => StepView::Done(Ok(None)),
        },
        ReaderView::Opening(kind, code, length) => if spec_trim(line)
            == "<data encoding=\"base64\">"@ {
            StepView::More(ReaderView::Data(kind, code, length, seq![]))
        } else {
            StepView::Done(Err(MetadataError::MissingDataTag))
        },
        ReaderView::Data(kind, code, length, encoded) => match spec_find(line, "</data></item>"@) {
            Some(p) => StepView::Done(
                spec_finish(
                    kind,
                    code,
                    length,
                    canonical_base64(encoded + without_ascii_whitespace(line.take(p))),
                ),
            ),
            None => StepView::More(
                ReaderView::Data(kind, code, length, encoded + without_ascii_whitespace(line)),
            ),
        },
    }
}

/// What the end of the stream gives in state `state`.
pub open spec fn spec_end(state: ReaderView) -> Result<Option<ItemView>, MetadataError> {
    match state {
        ReaderView::Header => Ok(None),
        ReaderView::Opening(..) => Err(MetadataError::MissingDataTag),
        ReaderView::Data(..) => Err(MetadataError::UnexpectedEof),
    }
}

/// Checks a decoded payload against the header's length.
pub fn finish_item(kind: String, code: String, length: usize, decoded: Option<Vec<u8>>) -> (res: Result<
    Option<MetadataItem>,
    MetadataError,
>)
    ensures
        outcome_view(res) == spec_finish(
            kind@,
            code@,
            length as nat,
            match decoded {
                Some(d) => Some(d@),
                None => None,
            },
        ),
{
    match decoded {
        None => Err(MetadataError::InvalidBase64),
        Some(data) => if data.len() == length {
            Ok(Some(MetadataItem { kind, code, data }))
        } else {
            Err(MetadataError::InvalidLength)
        },
    }
}

fn header_name_of(line: &str, tag: &str) -> (res: Option<String>)
    ensures
        res matches Some(s) ==> header_name(line@, tag@) == Some(s@),
        res is None ==> header_name(line@, tag@) is None,
{
    match xml_value(line, tag) {
        Some(v) => hex_code(v),
        None => None,
    }
}

impl ItemReader {
    /// A reader waiting for a header line.
    pub fn new() -> (res: ItemReader)
        ensures
            res@ == ReaderView::Header,
    {
        ItemReader::Header
    }

    /// Reads one line of the stream (with its line ending, if any).
    pub fn step(self, line: &str) -> (res: ReadStep)
        ensures
            res@ == spec_step(self@, line@),
    {
        match self {
            ItemReader::Header => {
                let kind = match header_name_of(line, "type") {
                    Some(k) => k,
                    None => return ReadStep::Done(Ok(None)),
                };
                let code = match header_name_of(line, "code") {
                    Some(c) => c,
                    None => return ReadStep::Done(Ok(None)),
                };
                let length: usize = match xml_value(line, "length") {
                    Some(v) => {
                        let vc = chars_of(v);
                        match parse_unsigned(vc.as_slice(), usize::MAX as u64) {
                            Some(n) => n as usize,
                            None => 0,
                        }
                    },
                    None => 0,
                };
                assert(length == header_length(line@));
                if length == 0 {
                    let item = MetadataItem { kind, code, data: Vec::new() };
                    assert(item@.data =~= seq![]);
                    ReadStep::Done(Ok(Some(item)))
                } else {
                    ReadStep::More(ItemReader::Opening { kind, code, length })
                }
            },
            ItemReader::Opening { kind, code, length } => {
                let l = chars_of(line);
                let t = trim(l.as_slice());
                let tag = chars_of("<data encoding=\"base64\">");
                if chars_equal(t.as_slice(), tag.as_slice()) {
                    let ghost e: Seq<char> = seq![];
                    let r = ItemReader::Data { kind, code, length, encoded: Vec::new() };
                    assert(r@ == ReaderView::Data(kind@, code@, length as nat, e));
                    ReadStep::More(r)
                } else {
                    ReadStep::Done(Err(MetadataError::MissingDataTag))
                }
            },
            ItemReader::Data { kind, code, length, encoded } => {
                let l = chars_of(line);
                let close = chars_of("</data></item>");
                let mut encoded = encoded;
                match find(l.as_slice(), close.as_slice()) {
                    Some(p) => {
                        proof {
                            crate::text::lemma_find_from(l@, close@, 0);
                        }
                        let head = slice_chars(l.as_slice(), 0, p);
                        assert(head@ =~= l@.take(p as int));
                        push_non_ascii_whitespace(head.as_slice(), &mut encoded);
                        let text = string_of(encoded.as_slice());
                        let decoded = match decode_base64(text.as_str()) {
                            Ok(v) => Some(v),
                            Err(_) => None,
                        };
                        ReadStep::Done(finish_item(kind, code, length, decoded))
                    },
                    None => {
                        push_non_ascii_whitespace(l.as_slice(), &mut encoded);
                        ReadStep::More(ItemReader::Data { kind, code, length, encoded })
                    },
                }
            },
        }
    }

    /// The outcome when the stream ends in this state.
    pub fn end(self) -> (res: Result<Option<MetadataItem>, MetadataError>)
        ensures
            outcome_view(res) == spec_end(self@),
    {
        match self {
            ItemReader::Header => Ok(None),
            ItemReader::Opening { .. } => Err(MetadataError::MissingDataTag),
            ItemReader::Data { .. } => Err(MetadataError::UnexpectedEof),
        }
    }
}

/// Whether two character slices are equal.
pub fn chars_equal(a: &[char], b: &[char]) -> (res: bool)
    ensures
        res == (a@ == b@),
{
    if a.len() != b.len() {
        return false;
    }
    let mut i: usize = 0;
    while i < a.len()
        invariant
            a@.len() == b@.len(),
            i <= a@.len(),
            forall|j: int| 0 <= j < i ==> a@[j] == b@[j],
        decreases a@.len() - i,
    {
        if a[i] != b[i] {
            return false;
        }
        i = i + 1;
    }
    assert(a@ =~= b@);
    true
}


/// The next line of `input` as `BufRead::read_line` reads it (up to and
/// including the first `\n`, or the rest), and what remains after it.
pub open spec fn spec_read_line(input: Seq<char>) -> (Seq<char>, Seq<char>) {
    match index_in_from(input, seq!['\n'], 0) {
        Some(i) => (input.take(i as int + 1), input.skip(i as int + 1)),
        None => (input, seq![]),
    }
}

/// The outcome of reading one item from `input` in state `state`.
pub open spec fn spec_read_from(state: ReaderView, input: Seq<char>) -> Result<
    Option<ItemView>,
    MetadataError,
>
    decreases input.len(),
{
    if input.len() == 0 {
        spec_end(state)
    } else {
        proof {
            crate::text::lemma_index_in_from(input, seq!['\n'], 0);
        }
        match spec_step(state, spec_read_line(input).0) {
            StepView::Done(r) => r,
            StepView::More(next) => spec_read_from(next, spec_read_line(input).1),
        }
    }
}

/// Reads the first metadata item of `input`, a stream read line by line.
pub fn read_metadata_item(input: &str) -> (res: Result<Option<MetadataItem>, MetadataError>)
    ensures
        outcome_view(res) == spec_read_from(ReaderView::Header, input@),
{
    let chars = chars_of(input);
    let n = chars.len();
    let mut reader = ItemReader::new();
    let mut pos: usize = 0;
    assert(chars@.skip(0) =~= chars@);
    while pos < n
        invariant
            n == chars@.len(),
            chars@ == input@,
            pos <= n,
            spec_read_from(ReaderView::Header, input@) == spec_read_from(reader@, chars@.skip(pos as int)),
        decreases n - pos,
    {
        let ghost rest = chars@.skip(pos as int);
        let mut end = pos;
        while end < n && chars[end] != '\n'
            invariant
                pos <= end <= n,
                n == chars@.len(),
                rest == chars@.skip(pos as int),
                index_in_from(rest, seq!['\n'], 0) == index_in_from(rest, seq!['\n'], (end - pos) as nat),
            decreases n - end,
        {
            assert(rest[end - pos] == chars@[end as int]);
            assert(!seq!['\n'].contains(rest[end - pos])) by {
                if seq!['\n'].contains(rest[end - pos]) {
                    let k = choose|k: int| 0 <= k < 1 && seq!['\n'][k] == rest[end - pos];
                    assert(seq!['\n'][k] == '\n');
                }
            }
            end = end + 1;
        }
        let stop = if end < n {
            assert(seq!['\n'][0] == '\n');
            assert(rest[end - pos] == '\n');
            end + 1
        } else {
            n
        };
        let line = slice_chars(chars.as_slice(), pos, stop);
        assert(line@ =~= spec_read_line(rest).0);
        assert(chars@.skip(stop as int) =~= spec_read_line(rest).1);
        let text = string_of(line.as_slice());
        match reader.step(text.as_str()) {
            ReadStep::Done(r) => return r,
            ReadStep::More(next) => {
                reader = next;
            },
        }
        pos = stop;
    }
    reader.end()
}

} // verus!
