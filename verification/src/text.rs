//! Character-level building blocks: decimal numbers, searching, trimming and
//! line splitting, each specified over `Seq<char>`.

use vstd::prelude::*;
use vstd::std_specs::iter::IteratorSpec;

verus! {

/// Copies the characters of a string slice into a vector.
pub fn chars_of(s: &str) -> (res: Vec<char>)
    ensures
        res@ == s@,
{
    broadcast use vstd::string::axiom_spec_iter, vstd::string::next_postcondition;
    let mut out: Vec<char> = Vec::new();
    let mut it = s.chars();
    assert(it.remaining() == s@);
    loop
        invariant
            out@ + it.remaining() == s@,
            it.decrease() is Some,
        decreases it.decrease()->0,
    {
        match it.next() {
            Some(c) => {
                out.push(c);
                assert(out@ + it.remaining() =~= s@);
            },
            None => {
                assert(out@ =~= s@);
                return out;
            },
        }
    }
}

/// `String::from_iter`: the string of the given characters.
#[verifier::external_body]
pub fn string_of(chars: &[char]) -> (res: String)
    ensures
        res@ == chars@,
{
    String::from_iter(chars.iter())
}

/// `char::to_digit`: the value of `c` as a digit in base `radix` (at most 36).
pub open spec fn radix_digit(c: char, radix: nat) -> Option<nat> {
    let v: int = if '0' <= c <= '9' {
        (c as int) - ('0' as int)
    } else if 'a' <= c <= 'z' {
        (c as int) - ('a' as int) + 10
    } else if 'A' <= c <= 'Z' {
        (c as int) - ('A' as int) + 10
    } else {
        36
    };
    if v < radix {
        Some(v as nat)
    } else {
        None
    }
}

pub open spec fn all_radix_digits(s: Seq<char>, radix: nat) -> bool {
    forall|i: int| 0 <= i < s.len() ==> #[trigger] radix_digit(s[i], radix) is Some
}

/// The number that a string of digits denotes in base `radix`.
pub open spec fn radix_value(s: Seq<char>, radix: nat) -> nat
    decreases s.len(),
{
    if s.len() == 0 {
        0
    } else {
        radix_value(s.drop_last(), radix) * radix + radix_digit(s.last(), radix).unwrap()
    }
}

/// What `from_str_radix` (and so `str::parse` in base ten) gives for an
/// unsigned integer type whose largest value is `max`: an optional `+`, then at
/// least one digit, denoting at most `max`.
pub open spec fn spec_parse_radix(s: Seq<char>, radix: nat, max: nat) -> Option<nat> {
    let digits = if s.len() > 0 && s[0] == '+' { s.drop_first() } else { s };
    if digits.len() > 0 && all_radix_digits(digits, radix) && radix_value(digits, radix) <= max {
        Some(radix_value(digits, radix))
    } else {
        None
    }
}

/// What `str::parse` gives for an unsigned integer type whose largest value is `max`.
pub open spec fn spec_parse_unsigned(s: Seq<char>, max: nat) -> Option<nat> {
    spec_parse_radix(s, 10, max)
}

fn char_digit(c: char, radix: u32) -> (res: Option<u32>)
    requires
        2 <= radix <= 36,
    ensures
        res matches Some(v) ==> radix_digit(c, radix as nat) == Some(v as nat),
        res is None ==> radix_digit(c, radix as nat) is None,
{
    let v: u32 = if '0' <= c && c <= '9' {
        (c as u32) - ('0' as u32)
    } else if 'a' <= c && c <= 'z' {
        (c as u32) - ('a' as u32) + 10
    } else if 'A' <= c && c <= 'Z' {
        (c as u32) - ('A' as u32) + 10
    } else {
        36
    };
    if v < radix {
        Some(v)
    } else {
        None
    }
}

/// The value of the digits `s[start..]` in base `radix`, where they are all
/// digits and denote at most `max`.
fn digits_at_most(s: &[char], start: usize, radix: u32, max: u64) -> (res: Option<u64>)
    requires
        start <= s@.len(),
        2 <= radix <= 36,
    ensures
        res == (if all_radix_digits(s@.subrange(start as int, s@.len() as int), radix as nat)
            && radix_value(s@.subrange(start as int, s@.len() as int), radix as nat) <= max {
            Some(radix_value(s@.subrange(start as int, s@.len() as int), radix as nat) as u64)
        } else {
            None::<u64>
        }),
{
    let mut acc: u128 = 0;
    let mut i = start;
    let bound: u128 = max as u128 + 1;
    while i < s.len()
        invariant
            start <= i <= s@.len(),
            2 <= radix <= 36,
            bound == max + 1,
            all_radix_digits(s@.subrange(start as int, i as int), radix as nat),
            acc == if radix_value(s@.subrange(start as int, i as int), radix as nat) <= max {
                radix_value(s@.subrange(start as int, i as int), radix as nat) as int
            } else {
                bound as int
            },
        decreases s@.len() - i,
    {
        let c = s[i];
        let ghost prev = s@.subrange(start as int, i as int);
        let ghost next = s@.subrange(start as int, i + 1);
        match char_digit(c, radix) {
            None => {
                assert(radix_digit(s@.subrange(start as int, s@.len() as int)[i - start], radix as nat) is None);
                return None;
            },
            Some(d) => {
                assert(next.drop_last() =~= prev);
                assert(next.last() == c);
                let ghost pv = radix_value(prev, radix as nat);
                assert(radix_value(next, radix as nat) == pv * radix + d);
                proof {
                    if pv > max {
                        assert(pv * radix >= pv) by (nonlinear_arith)
                            requires radix >= 2, pv >= 0;
                    }
                    assert(acc * (radix as u128) <= bound * 36) by (nonlinear_arith)
                        requires acc <= bound, radix <= 36, acc >= 0;
                }
                let v = acc * (radix as u128) + (d as u128);
                assert(acc <= max ==> v == pv * radix + d);
                proof {
                    if acc > max {
                        assert(acc == bound);
                        let a: int = acc as int;
                        let r: int = radix as int;
                        assert(a * r >= a) by (nonlinear_arith)
                            requires a >= 0, r >= 2;
                        assert(v >= bound);
                    }
                }
                acc = if v > bound { bound } else { v };
                i = i + 1;
                assert(all_radix_digits(next, radix as nat)) by {
                    assert forall|j: int| 0 <= j < next.len() implies #[trigger] radix_digit(next[j], radix as nat) is Some by {
                        if j < prev.len() {
                            assert(next[j] == prev[j]);
                        }
                    }
                }
            },
        }
    }
    assert(s@.subrange(start as int, i as int) =~= s@.subrange(start as int, s@.len() as int));
    if acc > max as u128 {
        None
    } else {
        Some(acc as u64)
    }
}

/// Parses an unsigned number in base `radix` as `from_str_radix` does for an
/// integer type whose largest value is `max`.
pub fn parse_radix(s: &[char], radix: u32, max: u64) -> (res: Option<u64>)
    requires
        2 <= radix <= 36,
    ensures
        res matches Some(v) ==> spec_parse_radix(s@, radix as nat, max as nat) == Some(v as nat),
        res is None ==> spec_parse_radix(s@, radix as nat, max as nat) is None,
{
    let start: usize = if s.len() > 0 && s[0] == '+' { 1 } else { 0 };
    let ghost digits = if s@.len() > 0 && s@[0] == '+' { s@.drop_first() } else { s@ };
    assert(digits =~= s@.subrange(start as int, s@.len() as int));
    if start >= s.len() {
        return None;
    }
    digits_at_most(s, start, radix, max)
}

/// Parses an unsigned decimal number as `str::parse` does for an integer type
/// whose largest value is `max`.
pub fn parse_unsigned(s: &[char], max: u64) -> (res: Option<u64>)
    ensures
        res matches Some(v) ==> spec_parse_unsigned(s@, max as nat) == Some(v as nat),
        res is None ==> spec_parse_unsigned(s@, max as nat) is None,
{
    parse_radix(s, 10, max)
}

/// What `str::parse::<i64>` gives: an optional sign, then at least one ASCII
/// digit, denoting a value in the range of `i64`.
pub open spec fn spec_parse_i64(s: Seq<char>) -> Option<int> {
    if s.len() > 0 && s[0] == '-' {
        let digits = s.drop_first();
        if digits.len() > 0 && all_radix_digits(digits, 10) && radix_value(digits, 10)
            <= 0x8000_0000_0000_0000 {
            Some(-radix_value(digits, 10))
        } else {
            None
        }
    } else {
        match spec_parse_unsigned(s, 0x7fff_ffff_ffff_ffff) {
            Some(v) => Some(v as int),
            None => None,
        }
    }
}

/// Parses a signed decimal number as `str::parse::<i64>` does.
pub fn parse_i64(s: &[char]) -> (res: Option<i64>)
    ensures
        res matches Some(v) ==> spec_parse_i64(s@) == Some(v as int),
        res is None ==> spec_parse_i64(s@) is None,
{
    if s.len() > 0 && s[0] == '-' {
        assert(s@.drop_first() =~= s@.subrange(1, s@.len() as int));
        if s.len() == 1 {
            return None;
        }
        match digits_at_most(s, 1, 10, 0x8000_0000_0000_0000) {
            Some(m) => {
                if m == 0x8000_0000_0000_0000 {
                    Some(i64::MIN)
                } else {
                    Some(-(m as i64))
                }
            },
            None => None,
        }
    } else {
        match parse_unsigned(s, 0x7fff_ffff_ffff_ffff) {
            Some(v) => Some(v as i64),
            None => None,
        }
    }
}

pub open spec fn digit_char(d: nat) -> char {
    (('0' as nat) + d) as char
}

/// The decimal representation of `n`, as `format!("{}", n)` writes it.
pub open spec fn decimal_digits(n: nat) -> Seq<char>
    decreases n,
{
    if n < 10 {
        seq![digit_char(n)]
    } else {
        decimal_digits(n / 10).push(digit_char(n % 10))
    }
}

/// Appends the decimal representation of `n` to `out`.
pub fn push_decimal(n: u64, out: &mut Vec<char>)
    ensures
        final(out)@ == old(out)@ + decimal_digits(n as nat),
    decreases n,
{
    if n >= 10 {
        push_decimal(n / 10, out);
    }
    let d = (n % 10) as u8;
    let c = (48u8 + d) as char;
    assert(c == digit_char((n % 10) as nat));
    out.push(c);
    assert(out@ =~= old(out)@ + decimal_digits(n as nat));
}

/// Where `needle` occurs in `hay` starting at position `i`.
pub open spec fn matches_at(hay: Seq<char>, needle: Seq<char>, i: int) -> bool {
    0 <= i && i + needle.len() <= hay.len() && hay.subrange(i, i + needle.len()) == needle
}

/// The first position at or after `i` where `needle` occurs in `hay`.
pub open spec fn find_from(hay: Seq<char>, needle: Seq<char>, i: int) -> Option<int>
    decreases hay.len() + 1 - i,
{
    if i < 0 || i + needle.len() > hay.len() {
        None
    } else if matches_at(hay, needle, i) {
        Some(i)
    } else {
        find_from(hay, needle, i + 1)
    }
}

/// The first position where `needle` occurs in `hay`, as `str::find` gives it
/// (counted in characters).
pub open spec fn spec_find(hay: Seq<char>, needle: Seq<char>) -> Option<int> {
    find_from(hay, needle, 0)
}

/// `find_from` gives the first occurrence at or after `i`.
pub proof fn lemma_find_from(hay: Seq<char>, needle: Seq<char>, i: int)
    requires
        0 <= i,
    ensures
        find_from(hay, needle, i) matches Some(k) ==> i <= k && matches_at(hay, needle, k)
            && forall|j: int| i <= j < k ==> !matches_at(hay, needle, j),
        find_from(hay, needle, i) is None ==> forall|j: int| i <= j ==> !matches_at(hay, needle, j),
    decreases hay.len() + 1 - i,
{
    if i + needle.len() > hay.len() {
    } else if matches_at(hay, needle, i) {
    } else {
        lemma_find_from(hay, needle, i + 1);
    }
}

fn matches_here(hay: &[char], needle: &[char], i: usize) -> (res: bool)
    requires
        i + needle@.len() <= hay@.len(),
    ensures
        res == matches_at(hay@, needle@, i as int),
{
    let n = hay.len();
    let mut k: usize = 0;
    while k < needle.len()
        invariant
            n == hay@.len(),
            i + needle@.len() <= hay@.len(),
            k <= needle@.len(),
            forall|j: int| 0 <= j < k ==> hay@[i + j] == needle@[j],
        decreases needle@.len() - k,
    {
        if hay[i + k] != needle[k] {
            assert(hay@.subrange(i as int, i + needle@.len())[k as int] != needle@[k as int]);
            return false;
        }
        k = k + 1;
    }
    assert(hay@.subrange(i as int, i + needle@.len()) =~= needle@);
    true
}

/// The first position where `needle` occurs in `hay`.
pub fn find(hay: &[char], needle: &[char]) -> (res: Option<usize>)
    ensures
        res matches Some(k) ==> spec_find(hay@, needle@) == Some(k as int),
        res is None ==> spec_find(hay@, needle@) is None,
{
    if needle.len() > hay.len() {
        return None;
    }
    let last = hay.len() - needle.len();
    let mut i: usize = 0;
    loop
        invariant
            last == hay@.len() - needle@.len(),
            i <= last,
            find_from(hay@, needle@, 0) == find_from(hay@, needle@, i as int),
        decreases last - i,
    {
        if matches_here(hay, needle, i) {
            return Some(i);
        }
        if i == last {
            assert(find_from(hay@, needle@, i + 1) is None);
            return None;
        }
        i = i + 1;
    }
}

/// The characters `s[from..to]`.
pub fn slice_chars(s: &[char], from: usize, to: usize) -> (res: Vec<char>)
    requires
        from <= to <= s@.len(),
    ensures
        res@ == s@.subrange(from as int, to as int),
{
    let mut out: Vec<char> = Vec::new();
    let mut i = from;
    while i < to
        invariant
            from <= i <= to <= s@.len(),
            out@ == s@.subrange(from as int, i as int),
        decreases to - i,
    {
        out.push(s[i]);
        i = i + 1;
        assert(out@ =~= s@.subrange(from as int, i as int));
    }
    out
}


/// `char::is_whitespace`: the Unicode `White_Space` property.
pub open spec fn is_whitespace(c: char) -> bool {
    ||| '\u{9}' <= c <= '\u{d}'
    ||| c == ' '
    ||| c == '\u{85}'
    ||| c == '\u{a0}'
    ||| c == '\u{1680}'
    ||| '\u{2000}' <= c <= '\u{200a}'
    ||| c == '\u{2028}'
    ||| c == '\u{2029}'
    ||| c == '\u{202f}'
    ||| c == '\u{205f}'
    ||| c == '\u{3000}'
}

pub fn char_is_whitespace(c: char) -> (res: bool)
    ensures
        res == is_whitespace(c),
{
    ('\u{9}' <= c && c <= '\u{d}') || c == ' ' || c == '\u{85}' || c == '\u{a0}' || c == '\u{1680}'
        || ('\u{2000}' <= c && c <= '\u{200a}') || c == '\u{2028}' || c == '\u{2029}' || c
        == '\u{202f}' || c == '\u{205f}' || c == '\u{3000}'
}

/// `char::is_ascii_whitespace`: space, tab, line feed, form feed, carriage return.
pub open spec fn is_ascii_whitespace(c: char) -> bool {
    c == ' ' || c == '\t' || c == '\n' || c == '\u{c}' || c == '\r'
}

pub open spec fn trim_start(s: Seq<char>) -> Seq<char>
    decreases s.len(),
{
    if s.len() > 0 && is_whitespace(s[0]) {
        trim_start(s.drop_first())
    } else {
        s
    }
}

pub open spec fn trim_end(s: Seq<char>) -> Seq<char>
    decreases s.len(),
{
    if s.len() > 0 && is_whitespace(s.last()) {
        trim_end(s.drop_last())
    } else {
        s
    }
}

/// `str::trim`: the string without leading and trailing white space.
pub open spec fn spec_trim(s: Seq<char>) -> Seq<char> {
    trim_end(trim_start(s))
}

/// Removes leading and trailing white space, as `str::trim` does.
pub fn trim(s: &[char]) -> (res: Vec<char>)
    ensures
        res@ == spec_trim(s@),
{
    let n = s.len();
    let mut a: usize = 0;
    assert(s@.subrange(0, n as int) =~= s@);
    while a < n && char_is_whitespace(s[a])
        invariant
            n == s@.len(),
            a <= n,
            trim_start(s@) == trim_start(s@.subrange(a as int, n as int)),
        decreases n - a,
    {
        assert(s@.subrange(a as int, n as int).drop_first() =~= s@.subrange(a + 1, n as int));
        a = a + 1;
    }
    assert(trim_start(s@) == s@.subrange(a as int, n as int));
    let mut b: usize = n;
    while b > a && char_is_whitespace(s[b - 1])
        invariant
            n == s@.len(),
            a <= b <= n,
            trim_start(s@) == s@.subrange(a as int, n as int),
            spec_trim(s@) == trim_end(s@.subrange(a as int, b as int)),
        decreases b - a,
    {
        assert(s@.subrange(a as int, b as int).drop_last() =~= s@.subrange(a as int, b - 1));
        b = b - 1;
    }
    slice_chars(s, a, b)
}

/// The pieces of `s[i..]` between occurrences of `sep`, where `cur` is the
/// piece read so far.
pub open spec fn split_from(s: Seq<char>, sep: char, i: nat, cur: Seq<char>) -> Seq<Seq<char>>
    decreases s.len() - i,
{
    if i >= s.len() {
        seq![cur]
    } else if s[i as int] == sep {
        seq![cur] + split_from(s, sep, i + 1, seq![])
    } else {
        split_from(s, sep, i + 1, cur.push(s[i as int]))
    }
}

/// `str::split` with a single character: the pieces between occurrences of
/// `sep`; there is always at least one.
pub open spec fn spec_split(s: Seq<char>, sep: char) -> Seq<Seq<char>> {
    split_from(s, sep, 0, seq![])
}

/// Splits `s` at each occurrence of `sep`.
pub fn split(s: &[char], sep: char) -> (res: Vec<Vec<char>>)
    ensures
        res@.len() == spec_split(s@, sep).len(),
        forall|k: int| 0 <= k < res@.len() ==> #[trigger] res@[k]@ == spec_split(s@, sep)[k],
{
    let n = s.len();
    let mut pieces: Vec<Vec<char>> = Vec::new();
    let mut cur: Vec<char> = Vec::new();
    let mut i: usize = 0;
    let ghost views: Seq<Seq<char>> = seq![];
    while i < n
        invariant
            n == s@.len(),
            i <= n,
            views.len() == pieces@.len(),
            forall|k: int| 0 <= k < pieces@.len() ==> #[trigger] pieces@[k]@ == views[k],
            spec_split(s@, sep) == views + split_from(s@, sep, i as nat, cur@),
        decreases n - i,
    {
        if s[i] == sep {
            let done = cur;
            cur = Vec::new();
            proof {
                assert(split_from(s@, sep, i as nat, done@) == seq![done@] + split_from(
                    s@,
                    sep,
                    (i + 1) as nat,
                    seq![],
                ));
                assert(views + split_from(s@, sep, i as nat, done@) =~= views.push(done@)
                    + split_from(s@, sep, (i + 1) as nat, cur@));
                views = views.push(done@);
            }
            pieces.push(done);
        } else {
            cur.push(s[i]);
        }
        i = i + 1;
    }
    proof {
        assert(views + split_from(s@, sep, i as nat, cur@) =~= views.push(cur@));
        views = views.push(cur@);
    }
    pieces.push(cur);
    pieces
}


pub open spec fn strip_cr(p: Seq<char>) -> Seq<char> {
    if p.len() > 0 && p.last() == '\r' {
        p.drop_last()
    } else {
        p
    }
}

/// `str::lines`: the lines of `s`, split at `\n` with a `\r` just before it
/// removed; a final line ending adds no empty line.
pub open spec fn spec_lines(s: Seq<char>) -> Seq<Seq<char>> {
    let parts = spec_split(s, '\n');
    let ended = parts.take(parts.len() - 1).map_values(|p: Seq<char>| strip_cr(p));
    if parts.last().len() == 0 {
        ended
    } else {
        ended.push(parts.last())
    }
}

pub proof fn lemma_split_from_nonempty(s: Seq<char>, sep: char, i: nat, cur: Seq<char>)
    ensures
        split_from(s, sep, i, cur).len() >= 1,
    decreases s.len() - i,
{
    if i >= s.len() {
    } else if s[i as int] == sep {
        lemma_split_from_nonempty(s, sep, i + 1, seq![]);
    } else {
        lemma_split_from_nonempty(s, sep, i + 1, cur.push(s[i as int]));
    }
}

/// Splits `s` into lines, as `str::lines` does.
pub fn lines(s: &[char]) -> (res: Vec<Vec<char>>)
    ensures
        res@.len() == spec_lines(s@).len(),
        forall|k: int| 0 <= k < res@.len() ==> #[trigger] res@[k]@ == spec_lines(s@)[k],
{
    let parts = split(s, '\n');
    let ghost pv = spec_split(s@, '\n');
    proof {
        lemma_split_from_nonempty(s@, '\n', 0, seq![]);
    }
    let count = parts.len() - 1;
    let mut out: Vec<Vec<char>> = Vec::new();
    let mut i: usize = 0;
    while i < count
        invariant
            count == parts@.len() - 1,
            parts@.len() == pv.len(),
            pv == spec_split(s@, '\n'),
            forall|k: int| 0 <= k < parts@.len() ==> #[trigger] parts@[k]@ == pv[k],
            i <= count,
            out@.len() == i,
            forall|k: int| 0 <= k < i ==> #[trigger] out@[k]@ == strip_cr(pv[k]),
        decreases count - i,
    {
        let p = &parts[i];
        let m = p.len();
        if m > 0 && p[m - 1] == '\r' {
            out.push(slice_chars(p.as_slice(), 0, m - 1));
        } else {
            out.push(slice_chars(p.as_slice(), 0, m));
        }
        assert(parts@[i as int]@ == pv[i as int]);
        assert(p@.subrange(0, m as int) =~= p@);
        i = i + 1;
    }
    let last = &parts[count];
    if last.len() > 0 {
        out.push(slice_chars(last.as_slice(), 0, last.len()));
        assert(last@.subrange(0, last@.len() as int) =~= last@);
    }
    proof {
        let ended = pv.take(pv.len() - 1).map_values(|p: Seq<char>| strip_cr(p));
        assert forall|k: int| 0 <= k < count implies #[trigger] out@[k]@ == ended[k] by {}
    }
    out
}

/// The first position in `s[i..]` of a character that `seps` holds.
pub open spec fn index_in_from(s: Seq<char>, seps: Seq<char>, i: nat) -> Option<nat>
    decreases s.len() - i,
{
    if i >= s.len() {
        None
    } else if seps.contains(s[i as int]) {
        Some(i)
    } else {
        index_in_from(s, seps, i + 1)
    }
}

/// `str::split_once` with a set of separator characters: the text before and
/// after the first separator.
pub open spec fn spec_split_once(s: Seq<char>, seps: Seq<char>) -> Option<(Seq<char>, Seq<char>)> {
    match index_in_from(s, seps, 0) {
        Some(i) => Some((s.take(i as int), s.skip(i as int + 1))),
        None => None,
    }
}

pub proof fn lemma_index_in_from(s: Seq<char>, seps: Seq<char>, i: nat)
    ensures
        index_in_from(s, seps, i) matches Some(k) ==> i <= k < s.len() && seps.contains(s[k as int])
            && forall|j: int| i <= j < k ==> !seps.contains(#[trigger] s[j]),
        index_in_from(s, seps, i) is None ==> forall|j: int| i <= j < s.len() ==> !seps.contains(
            #[trigger] s[j],
        ),
    decreases s.len() - i,
{
    if i < s.len() && !seps.contains(s[i as int]) {
        lemma_index_in_from(s, seps, i + 1);
    }
}

fn contains_char(seps: &[char], c: char) -> (res: bool)
    ensures
        res == seps@.contains(c),
{
    let mut i: usize = 0;
    while i < seps.len()
        invariant
            i <= seps@.len(),
            forall|j: int| 0 <= j < i ==> seps@[j] != c,
        decreases seps@.len() - i,
    {
        if seps[i] == c {
            return true;
        }
        i = i + 1;
    }
    false
}

/// Splits `s` at the first character that `seps` holds.
pub fn split_once(s: &[char], seps: &[char]) -> (res: Option<(Vec<char>, Vec<char>)>)
    ensures
        res matches Some(p) ==> spec_split_once(s@, seps@) == Some((p.0@, p.1@)),
        res is None ==> spec_split_once(s@, seps@) is None,
{
    let n = s.len();
    let mut i: usize = 0;
    while i < n
        invariant
            n == s@.len(),
            i <= n,
            index_in_from(s@, seps@, 0) == index_in_from(s@, seps@, i as nat),
        decreases n - i,
    {
        if contains_char(seps, s[i]) {
            let before = slice_chars(s, 0, i);
            let after = slice_chars(s, i + 1, n);
            assert(s@.skip(i + 1) =~= s@.subrange(i + 1, n as int));
            return Some((before, after));
        }
        i = i + 1;
    }
    None
}

/// `char::to_ascii_lowercase`.
pub open spec fn ascii_lower(c: char) -> char {
    if 'A' <= c <= 'Z' {
        ((c as u32) + 32) as char
    } else {
        c
    }
}

/// `str::to_ascii_lowercase`.
pub fn to_ascii_lowercase(s: &[char]) -> (res: Vec<char>)
    ensures
        res@ == s@.map_values(|c: char| ascii_lower(c)),
{
    let mut out: Vec<char> = Vec::new();
    let mut i: usize = 0;
    while i < s.len()
        invariant
            i <= s@.len(),
            out@ == s@.take(i as int).map_values(|c: char| ascii_lower(c)),
        decreases s@.len() - i,
    {
        let c = s[i];
        let l = if 'A' <= c && c <= 'Z' {
            ((c as u32) + 32) as u8 as char
        } else {
            c
        };
        out.push(l);
        i = i + 1;
        assert(out@ =~= s@.take(i as int).map_values(|c: char| ascii_lower(c)));
    }
    assert(s@.take(s@.len() as int) =~= s@);
    out
}

/// The characters of `s` that are not ASCII white space, in order.
pub open spec fn without_ascii_whitespace(s: Seq<char>) -> Seq<char> {
    s.filter(|c: char| !is_ascii_whitespace(c))
}

/// Appends the characters of `s` that are not ASCII white space to `out`.
pub fn push_non_ascii_whitespace(s: &[char], out: &mut Vec<char>)
    ensures
        final(out)@ == old(out)@ + without_ascii_whitespace(s@),
{
    let mut i: usize = 0;
    while i < s.len()
        invariant
            i <= s@.len(),
            out@ == old(out)@ + without_ascii_whitespace(s@.take(i as int)),
        decreases s@.len() - i,
    {
        let c = s[i];
        proof {
            reveal_with_fuel(Seq::filter, 1);
            assert(s@.take(i + 1).drop_last() =~= s@.take(i as int));
        }
        if !(c == ' ' || c == '\t' || c == '\n' || c == '\u{c}' || c == '\r') {
            out.push(c);
        }
        i = i + 1;
    }
    assert(s@.take(s@.len() as int) =~= s@);
}

} // verus!
