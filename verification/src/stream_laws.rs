//! The metadata stream read back: an item written in Shairport Sync's
//! format is read as the item that was written.

use vstd::prelude::*;
use crate::text::{
    matches_at, find_from, spec_find, index_in_from, without_ascii_whitespace,
    is_ascii_whitespace, lemma_index_in_from,
};
use crate::metadata::{
    ReaderView, StepView, spec_step, spec_read_from, spec_read_line, spec_finish,
    spec_xml_value, start_tag, end_tag, header_name, header_length,
    canonical_base64, ItemView,
};
use crate::text::{spec_trim, trim_start, trim_end, is_whitespace};
use crate::text::{radix_digit, decimal_digits, spec_parse_unsigned};
use crate::laws::{hex_digits, be_value, pow16, lemma_hex_digits, law_hex_code_reads_back, lemma_decimal_digits};
use vstd::utf8::{valid_utf8, decode_utf8};

verus! {

/// `find_from` from `j` gives `i` where `needle` occurs at `i` and nowhere
/// from `j` to `i`.
pub proof fn lemma_find_first(hay: Seq<char>, needle: Seq<char>, j: int, i: int)
    requires
        0 <= j <= i,
        matches_at(hay, needle, i),
        forall|k: int| j <= k < i ==> !matches_at(hay, needle, k),
    ensures
        find_from(hay, needle, j) == Some(i),
    decreases i - j,
{
    if j < i {
        lemma_find_first(hay, needle, j + 1, i);
    }
}

/// A needle that starts with `c` is not found from `j` in a text without `c`.
pub proof fn lemma_find_none(hay: Seq<char>, needle: Seq<char>, c: char, j: int)
    requires
        0 <= j,
        needle.len() > 0,
        needle[0] == c,
        !hay.contains(c),
    ensures
        find_from(hay, needle, j) is None,
    decreases hay.len() + 1 - j,
{
    if j + needle.len() <= hay.len() {
        if matches_at(hay, needle, j) {
            assert(hay.subrange(j, j + needle.len())[0] == hay[j]);
            assert(hay.contains(c));
        }
        lemma_find_none(hay, needle, c, j + 1);
    }
}

/// The first of `seps` in `s` from `i` is at `k` where none comes before.
pub proof fn lemma_index_first(s: Seq<char>, seps: Seq<char>, i: nat, k: nat)
    requires
        i <= k < s.len(),
        seps.contains(s[k as int]),
        forall|j: int| i <= j < k ==> !seps.contains(#[trigger] s[j]),
    ensures
        index_in_from(s, seps, i) == Some(k),
    decreases k - i,
{
    if i < k {
        lemma_index_first(s, seps, i + 1, k);
    }
}

/// Removing white space distributes over concatenation.
pub proof fn lemma_without_whitespace_add(a: Seq<char>, b: Seq<char>)
    ensures
        without_ascii_whitespace(a + b) == without_ascii_whitespace(a) + without_ascii_whitespace(b),
{
    let f = |c: char| !is_ascii_whitespace(c);
    Seq::filter_distributes_over_add(a, b, f);
}

/// A text without `c` concatenated with another without `c` has none.
pub proof fn lemma_lacks_add(a: Seq<char>, b: Seq<char>, c: char)
    requires
        !a.contains(c),
        !b.contains(c),
    ensures
        !(a + b).contains(c),
{
    if (a + b).contains(c) {
        let k = choose|k: int| 0 <= k < (a + b).len() && (a + b)[k] == c;
        if k < a.len() {
            assert(a[k] == c);
        } else {
            assert(b[k - a.len()] == c);
        }
    }
}


/// The line that closes an item.
pub open spec fn closing_line() -> Seq<char> {
    "</data></item>\n"@
}

/// Payload lines, and then the closing line, read from the data state: the
/// payload without its white space is decoded and checked.
proof fn lemma_data_lines(kind: Seq<char>, code: Seq<char>, length: nat, acc: Seq<char>, payload: Seq<char>)
    requires
        !payload.contains('<'),
    ensures
        spec_read_from(ReaderView::Data(kind, code, length, acc), payload + closing_line())
            == spec_finish(kind, code, length, canonical_base64(acc + without_ascii_whitespace(payload))),
    decreases payload.len(),
{
    reveal_strlit("</data></item>\n");
    reveal_strlit("</data></item>");
    let close = "</data></item>"@;
    let nl = seq!['\n'];
    let input = payload + closing_line();
    assert(closing_line() =~= close + nl);
    assert(input.len() > 0);
    lemma_index_in_from(payload, nl, 0);
    match index_in_from(payload, nl, 0) {
        Some(i) => {
            assert forall|j: int| 0 <= j < i implies !nl.contains(#[trigger] input[j]) by {
                assert(input[j] == payload[j]);
            }
            assert(input[i as int] == payload[i as int]);
            lemma_index_first(input, nl, 0, i);
            let line = input.take(i as int + 1);
            let rest = input.skip(i as int + 1);
            assert(line =~= payload.take(i as int + 1));
            assert(rest =~= payload.skip(i as int + 1) + closing_line());
            assert(spec_read_line(input) == (line, rest));
            assert(!line.contains('<')) by {
                if line.contains('<') {
                    let k = choose|k: int| 0 <= k < line.len() && line[k] == '<';
                    assert(payload[k] == '<');
                    assert(payload.contains('<'));
                }
            }
            lemma_find_none(line, close, '<', 0);
            assert(spec_find(line, close) is None);
            let acc2 = acc + without_ascii_whitespace(line);
            assert(spec_step(ReaderView::Data(kind, code, length, acc), line) == StepView::More(
                ReaderView::Data(kind, code, length, acc2),
            ));
            let tail = payload.skip(i as int + 1);
            assert(!tail.contains('<')) by {
                if tail.contains('<') {
                    let k = choose|k: int| 0 <= k < tail.len() && tail[k] == '<';
                    assert(payload[k + i + 1] == '<');
                    assert(payload.contains('<'));
                }
            }
            lemma_data_lines(kind, code, length, acc2, tail);
            assert(payload =~= line + tail);
            lemma_without_whitespace_add(line, tail);
            assert(acc2 + without_ascii_whitespace(tail) =~= acc + without_ascii_whitespace(payload));
        },
        None => {
            let k = payload.len() + close.len();
            assert forall|j: int| 0 <= j < k implies !nl.contains(#[trigger] input[j]) by {
                if j < payload.len() {
                    assert(input[j] == payload[j]);
                } else {
                    assert(input[j] == close[j - payload.len()]);
                }
            }
            assert(input[k as int] == '\n');
            lemma_index_first(input, nl, 0, k as nat);
            assert(input.take(k as int + 1) =~= input);
            assert(input.skip(k as int + 1) =~= Seq::<char>::empty());
            assert(spec_read_line(input) == (input, Seq::<char>::empty()));
            let p = payload.len() as int;
            assert(input.subrange(p, p + close.len()) =~= close);
            assert forall|j: int| 0 <= j < p implies !matches_at(input, close, j) by {
                if matches_at(input, close, j) {
                    assert(input.subrange(j, j + close.len())[0] == input[j]);
                    assert(input[j] == payload[j]);
                    assert(payload.contains('<'));
                }
            }
            lemma_find_first(input, close, 0, p);
            assert(input.take(p) =~= payload);
        },
    }
}


/// In `s`, every `<` is followed, within `s`, by a character other than `second`.
pub open spec fn lt_not_before(s: Seq<char>, second: char) -> bool {
    forall|k: int| 0 <= k < s.len() && #[trigger] s[k] == '<' ==> k + 1 < s.len() && s[k + 1] != second
}

proof fn lemma_lt_not_before_add(a: Seq<char>, b: Seq<char>, second: char)
    requires
        lt_not_before(a, second),
        lt_not_before(b, second),
    ensures
        lt_not_before(a + b, second),
{
    let t = a + b;
    assert forall|k: int| 0 <= k < t.len() && #[trigger] t[k] == '<' implies k + 1 < t.len() && t[k + 1] != second by {
        if k < a.len() {
            assert(a[k] == '<');
            assert(t[k + 1] == a[k + 1]);
        } else {
            assert(b[k - a.len()] == '<');
            assert(t[k + 1] == b[k + 1 - a.len()]);
        }
    }
}

proof fn lemma_lt_free(s: Seq<char>, second: char)
    requires
        !s.contains('<'),
    ensures
        lt_not_before(s, second),
{
    assert forall|k: int| 0 <= k < s.len() && #[trigger] s[k] == '<' implies k + 1 < s.len() && s[k + 1] != second by {
        assert(s.contains('<'));
    }
}

/// `<tag>value</tag>` within a text is read back where no `<tag>` comes before it.
proof fn lemma_xml_field(pre: Seq<char>, tag: Seq<char>, value: Seq<char>, post: Seq<char>)
    requires
        tag.len() > 0,
        !value.contains('<'),
        lt_not_before(pre, tag[0]),
    ensures
        spec_xml_value(pre + start_tag(tag) + value + end_tag(tag) + post, tag) == Some(value),
{
    let open = start_tag(tag);
    let close = end_tag(tag);
    let text = pre + open + value + close + post;
    let a = pre.len() as int;
    assert(text.subrange(a, a + open.len()) =~= open);
    assert forall|k: int| 0 <= k < a implies !matches_at(text, open, k) by {
        if matches_at(text, open, k) {
            let w = text.subrange(k, k + open.len());
            assert(w[0] == text[k]);
            assert(w[1] == text[k + 1]);
            assert(text[k] == pre[k]);
            assert(open[0] == '<');
            assert(open[1] == tag[0]);
            if k + 1 < a {
                assert(text[k + 1] == pre[k + 1]);
            }
        }
    }
    lemma_find_first(text, open, 0, a);
    let start = a + open.len();
    let rest = text.skip(start);
    assert(rest =~= value + close + post);
    let v = value.len() as int;
    assert(rest.subrange(v, v + close.len()) =~= close);
    assert forall|k: int| 0 <= k < v implies !matches_at(rest, close, k) by {
        if matches_at(rest, close, k) {
            assert(rest.subrange(k, k + close.len())[0] == rest[k]);
            assert(rest[k] == value[k]);
            assert(value.contains('<'));
        }
    }
    lemma_find_first(rest, close, 0, v);
    assert(text.subrange(start, start + v) =~= value);
}


/// The header line of an item, as Shairport Sync writes it: its type and
/// code in hexadecimal, then the length of its payload in decimal.
pub open spec fn item_header(kind: Seq<char>, code: Seq<char>, length: Seq<char>) -> Seq<char> {
    "<item><type>"@ + kind + "</type><code>"@ + code + "</code><length>"@ + length + "</length>\n"@
}

/// A four-byte name in eight hexadecimal digits holds no `<` and no line break.
proof fn lemma_hex_name(bytes: Seq<u8>)
    requires
        bytes.len() == 4,
    ensures
        hex_digits(be_value(bytes), 8).len() == 8,
        !hex_digits(be_value(bytes), 8).contains('<'),
        !hex_digits(be_value(bytes), 8).contains('\n'),
{
    assert(pow16(8) == 0x1_0000_0000) by {
        reveal_with_fuel(pow16, 9);
    }
    lemma_hex_digits(be_value(bytes), 8);
    let t = hex_digits(be_value(bytes), 8);
    if t.contains('<') {
        let k = choose|k: int| 0 <= k < t.len() && t[k] == '<';
        assert(radix_digit(t[k], 16) is Some);
    }
    if t.contains('\n') {
        let k = choose|k: int| 0 <= k < t.len() && t[k] == '\n';
        assert(radix_digit(t[k], 16) is Some);
    }
}

/// The decimal digits of a number hold no `<` and no line break.
proof fn lemma_digits_plain(n: nat)
    ensures
        !decimal_digits(n).contains('<'),
        !decimal_digits(n).contains('\n'),
        decimal_digits(n)[0] != '+',
{
    lemma_decimal_digits(n);
    let d = decimal_digits(n);
    if d.contains('<') {
        let k = choose|k: int| 0 <= k < d.len() && d[k] == '<';
        assert('0' <= d[k] <= '9');
    }
    if d.contains('\n') {
        let k = choose|k: int| 0 <= k < d.len() && d[k] == '\n';
        assert('0' <= d[k] <= '9');
    }
    assert('0' <= d[0] <= '9');
}

/// What a header line holds: fields free of `<` and of line breaks.
pub open spec fn plain_field(s: Seq<char>) -> bool {
    !s.contains('<') && !s.contains('\n')
}

proof fn lemma_type_field(t: Seq<char>, c: Seq<char>, d: Seq<char>)
    requires
        plain_field(t),
    ensures
        spec_xml_value(item_header(t, c, d), "type"@) == Some(t),
{
    reveal_strlit("<item><type>");
    reveal_strlit("</type><code>");
    reveal_strlit("type");
    let pre = seq!['<', 'i', 't', 'e', 'm', '>'];
    let post = seq!['<', 'c', 'o', 'd', 'e', '>'] + c + "</code><length>"@ + d + "</length>\n"@;
    assert(item_header(t, c, d) =~= pre + start_tag("type"@) + t + end_tag("type"@) + post);
    assert(lt_not_before(pre, 't'));
    lemma_xml_field(pre, "type"@, t, post);
}

proof fn lemma_code_field(t: Seq<char>, c: Seq<char>, d: Seq<char>)
    requires
        plain_field(t),
        plain_field(c),
    ensures
        spec_xml_value(item_header(t, c, d), "code"@) == Some(c),
{
    reveal_strlit("<item><type>");
    reveal_strlit("</type><code>");
    reveal_strlit("</code><length>");
    reveal_strlit("code");
    let head = "<item><type>"@;
    let close_t = seq!['<', '/', 't', 'y', 'p', 'e', '>'];
    let pre = head + t + close_t;
    let post = seq!['<', 'l', 'e', 'n', 'g', 't', 'h', '>'] + d + "</length>\n"@;
    assert(item_header(t, c, d) =~= pre + start_tag("code"@) + c + end_tag("code"@) + post);
    assert(lt_not_before(head, 'c'));
    lemma_lt_free(t, 'c');
    assert(lt_not_before(close_t, 'c'));
    lemma_lt_not_before_add(head, t, 'c');
    lemma_lt_not_before_add(head + t, close_t, 'c');
    lemma_xml_field(pre, "code"@, c, post);
}

proof fn lemma_length_field(t: Seq<char>, c: Seq<char>, d: Seq<char>)
    requires
        plain_field(t),
        plain_field(c),
        plain_field(d),
    ensures
        spec_xml_value(item_header(t, c, d), "length"@) == Some(d),
{
    reveal_strlit("<item><type>");
    reveal_strlit("</type><code>");
    reveal_strlit("</code><length>");
    reveal_strlit("</length>\n");
    reveal_strlit("length");
    let head = "<item><type>"@;
    let mid = "</type><code>"@;
    let close_c = seq!['<', '/', 'c', 'o', 'd', 'e', '>'];
    let pre = head + t + mid + c + close_c;
    let post = seq!['\n'];
    assert(item_header(t, c, d) =~= pre + start_tag("length"@) + d + end_tag("length"@) + post);
    assert(lt_not_before(head, 'l'));
    assert(lt_not_before(mid, 'l'));
    assert(lt_not_before(close_c, 'l'));
    lemma_lt_free(t, 'l');
    lemma_lt_free(c, 'l');
    lemma_lt_not_before_add(head, t, 'l');
    lemma_lt_not_before_add(head + t, mid, 'l');
    lemma_lt_not_before_add(head + t + mid, c, 'l');
    lemma_lt_not_before_add(head + t + mid + c, close_c, 'l');
    lemma_xml_field(pre, "length"@, d, post);
}

/// The first line of a header followed by more is the header line itself.
proof fn lemma_header_break(t: Seq<char>, c: Seq<char>, d: Seq<char>, rest: Seq<char>)
    requires
        plain_field(t),
        plain_field(c),
        plain_field(d),
    ensures
        spec_read_line(item_header(t, c, d) + rest) == (item_header(t, c, d), rest),
{
    reveal_strlit("<item><type>");
    reveal_strlit("</type><code>");
    reveal_strlit("</code><length>");
    reveal_strlit("</length>\n");
    let head = "<item><type>"@;
    let mid = "</type><code>"@;
    let mid2 = "</code><length>"@;
    let tail = seq!['<', '/', 'l', 'e', 'n', 'g', 't', 'h', '>'];
    let h = item_header(t, c, d);
    let body = head + t + mid + c + mid2 + d + tail;
    assert(h =~= body + seq!['\n']);
    assert(!head.contains('\n'));
    assert(!mid.contains('\n'));
    assert(!mid2.contains('\n'));
    assert(!tail.contains('\n'));
    lemma_lacks_add(head, t, '\n');
    lemma_lacks_add(head + t, mid, '\n');
    lemma_lacks_add(head + t + mid, c, '\n');
    lemma_lacks_add(head + t + mid + c, mid2, '\n');
    lemma_lacks_add(head + t + mid + c + mid2, d, '\n');
    lemma_lacks_add(head + t + mid + c + mid2 + d, tail, '\n');
    let input = h + rest;
    let nl = seq!['\n'];
    let k = body.len();
    assert forall|j: int| 0 <= j < k implies !nl.contains(#[trigger] input[j]) by {
        assert(input[j] == body[j]);
        if input[j] == '\n' {
            assert(body.contains('\n'));
        }
    }
    assert(input[k as int] == '\n');
    lemma_index_first(input, nl, 0, k);
    assert(input.take(k as int + 1) =~= h);
    assert(input.skip(k as int + 1) =~= rest);
}

/// The header line is read as the item's name, code and length.
proof fn lemma_header_line(kind: Seq<u8>, code: Seq<u8>, length: nat, rest: Seq<char>)
    requires
        kind.len() == 4,
        valid_utf8(kind),
        code.len() == 4,
        valid_utf8(code),
        0 < length <= usize::MAX,
    ensures
        spec_read_from(
            ReaderView::Header,
            item_header(hex_digits(be_value(kind), 8), hex_digits(be_value(code), 8), decimal_digits(length))
                + rest,
        ) == spec_read_from(ReaderView::Opening(decode_utf8(kind), decode_utf8(code), length), rest),
{
    let t = hex_digits(be_value(kind), 8);
    let c = hex_digits(be_value(code), 8);
    let d = decimal_digits(length);
    lemma_hex_name(kind);
    lemma_hex_name(code);
    lemma_digits_plain(length);
    lemma_decimal_digits(length);
    law_hex_code_reads_back(kind);
    law_hex_code_reads_back(code);
    let h = item_header(t, c, d);
    lemma_type_field(t, c, d);
    lemma_code_field(t, c, d);
    lemma_length_field(t, c, d);
    lemma_header_break(t, c, d, rest);
    assert(header_name(h, "type"@) == Some(decode_utf8(kind)));
    assert(header_name(h, "code"@) == Some(decode_utf8(code)));
    assert(spec_parse_unsigned(d, usize::MAX as nat) == Some(length));
    assert(header_length(h) == length);
    assert((h + rest).len() > 0);
    assert(spec_step(ReaderView::Header, h) == StepView::More(
        ReaderView::Opening(decode_utf8(kind), decode_utf8(code), length),
    ));
}


/// The line that opens an item's payload.
pub open spec fn opening_line() -> Seq<char> {
    "<data encoding=\"base64\">\n"@
}

/// The opening line starts the payload.
proof fn lemma_opening_line(kind: Seq<char>, code: Seq<char>, length: nat, rest: Seq<char>)
    ensures
        spec_read_from(ReaderView::Opening(kind, code, length), opening_line() + rest)
            == spec_read_from(ReaderView::Data(kind, code, length, seq![]), rest),
{
    reveal_strlit("<data encoding=\"base64\">\n");
    reveal_strlit("<data encoding=\"base64\">");
    let o = opening_line();
    let tag = "<data encoding=\"base64\">"@;
    assert(o =~= tag + seq!['\n']);
    let input = o + rest;
    let nl = seq!['\n'];
    let k = tag.len();
    assert forall|j: int| 0 <= j < k implies !nl.contains(#[trigger] input[j]) by {
        assert(input[j] == tag[j]);
    }
    assert(input[k as int] == '\n');
    lemma_index_first(input, nl, 0, k);
    assert(input.take(k as int + 1) =~= o);
    assert(input.skip(k as int + 1) =~= rest);
    assert(spec_read_line(input) == (o, rest));
    assert(!is_whitespace(o[0]));
    assert(trim_start(o) == o);
    assert(o.drop_last() =~= tag);
    assert(is_whitespace(o.last()));
    assert(!is_whitespace(tag.last()));
    assert(trim_end(tag) == tag);
    assert(trim_end(o) == trim_end(tag));
    assert(spec_trim(o) == tag);
    assert(input.len() > 0);
}

/// An item as Shairport Sync writes it: the header line, the opening line,
/// the payload (Base64 over any number of lines) and the closing line.
pub open spec fn item_text(kind: Seq<u8>, code: Seq<u8>, length: nat, payload: Seq<char>) -> Seq<char> {
    item_header(hex_digits(be_value(kind), 8), hex_digits(be_value(code), 8), decimal_digits(length))
        + opening_line() + payload + closing_line()
}

/// Law: an item written in the stream's format is read as what was written.
/// Its four-byte type and code come back as the names they spell; the
/// payload, with its white space (line breaks among it) removed, is decoded
/// and checked against the length; and where it is the canonical Base64 of
/// bytes of that length, the item read holds exactly those bytes.
pub proof fn law_metadata_item_reads_back(kind: Seq<u8>, code: Seq<u8>, length: nat, payload: Seq<char>)
    requires
        kind.len() == 4,
        valid_utf8(kind),
        code.len() == 4,
        valid_utf8(code),
        0 < length <= usize::MAX,
        !payload.contains('<'),
    ensures
        spec_read_from(ReaderView::Header, item_text(kind, code, length, payload)) == spec_finish(
            decode_utf8(kind),
            decode_utf8(code),
            length,
            canonical_base64(without_ascii_whitespace(payload)),
        ),
        canonical_base64(without_ascii_whitespace(payload)) matches Some(data) ==> (data.len() == length
            ==> spec_read_from(ReaderView::Header, item_text(kind, code, length, payload)) == Ok::<
            Option<ItemView>,
            crate::metadata::MetadataError,
        >(Some(ItemView { kind: decode_utf8(kind), code: decode_utf8(code), data }))),
{
    let h = item_header(hex_digits(be_value(kind), 8), hex_digits(be_value(code), 8), decimal_digits(length));
    let after_header = opening_line() + payload + closing_line();
    assert(item_text(kind, code, length, payload) =~= h + after_header);
    lemma_header_line(kind, code, length, after_header);
    assert(after_header =~= opening_line() + (payload + closing_line()));
    lemma_opening_line(decode_utf8(kind), decode_utf8(code), length, payload + closing_line());
    lemma_data_lines(decode_utf8(kind), decode_utf8(code), length, seq![], payload);
    assert(Seq::<char>::empty() + without_ascii_whitespace(payload) =~= without_ascii_whitespace(payload));
}

} // verus!
