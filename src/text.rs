//! Character-level grammar shared by the counter parsers: lines, words
//! separated by Unicode white space, and unsigned decimal numbers.

use vstd::prelude::*;

verus! {

/// Why a counter source could not be read as one.
#[derive(Debug, Clone, Copy, PartialEq, Eq)]
pub enum ParseError {
    /// The source holds no line at all.
    Empty,
    /// The first line is not a `cpu` line with at least eight counters.
    InvalidFormat,
    /// A counter is not an unsigned decimal number that fits in 64 bits.
    InvalidField,
    /// A required key is absent.
    MissingKey,
}

/// Unicode `White_Space`, the set that `char::is_whitespace` tests.
pub open spec fn is_space(c: char) -> bool {
    ('\t' <= c && c <= '\r') || c == ' ' || c == '\u{85}' || c == '\u{a0}' || c == '\u{1680}'
        || ('\u{2000}' <= c && c <= '\u{200a}') || c == '\u{2028}' || c == '\u{2029}'
        || c == '\u{202f}' || c == '\u{205f}' || c == '\u{3000}'
}

pub fn is_space_char(c: char) -> (r: bool)
    ensures
        r == is_space(c),
{
    ('\t' <= c && c <= '\r') || c == ' ' || c == '\u{85}' || c == '\u{a0}' || c == '\u{1680}'
        || ('\u{2000}' <= c && c <= '\u{200a}') || c == '\u{2028}' || c == '\u{2029}'
        || c == '\u{202f}' || c == '\u{205f}' || c == '\u{3000}'
}

/// The words of `s`: its maximal runs of characters that are not white
/// space, in order. A character that is not white space either extends the
/// word before it (when it directly follows one) or starts a new word.
pub open spec fn words(s: Seq<char>) -> Seq<Seq<char>>
    decreases s.len(),
{
    if s.len() == 0 {
        Seq::empty()
    } else {
        let prev = words(s.drop_last());
        let c = s.last();
        if is_space(c) {
            prev
        } else if s.len() >= 2 && !is_space(s[s.len() - 2]) {
            prev.drop_last().push(prev.last().push(c))
        } else {
            prev.push(seq![c])
        }
    }
}

pub open spec fn views_of(v: Seq<Vec<char>>) -> Seq<Seq<char>> {
    v.map_values(|w: Vec<char>| w@)
}

/// Splits a line into its words.
pub fn split_words(line: &Vec<char>) -> (r: Vec<Vec<char>>)
    ensures
        views_of(r@) == words(line@),
{
    let mut out: Vec<Vec<char>> = Vec::new();
    let mut cur: Vec<char> = Vec::new();
    let mut i: usize = 0;
    while i < line.len()
        invariant
            i <= line.len(),
            cur@.len() == 0 ==> words(line@.take(i as int)) == views_of(out@),
            cur@.len() > 0 ==> words(line@.take(i as int)) == views_of(out@).push(cur@),
            cur@.len() > 0 <==> (i > 0 && !is_space(line@[i - 1])),
        decreases line.len() - i,
    {
        let c = line[i];
        let ghost prefix = line@.take(i + 1);
        assert(prefix.drop_last() == line@.take(i as int));
        assert(prefix.last() == c);
        if is_space_char(c) {
            if cur.len() > 0 {
                let ghost before = views_of(out@);
                out.push(cur);
                assert(views_of(out@) == before.push(cur@));
                cur = Vec::new();
            }
        } else {
            let ghost before = views_of(out@);
            let ghost old_cur = cur@;
            cur.push(c);
            proof {
                if old_cur.len() > 0 {
                    assert(prefix[prefix.len() - 2] == line@[i - 1]);
                    assert(before.push(old_cur).drop_last() == before);
                    assert(words(prefix) == before.push(cur@));
                } else {
                    if i > 0 {
                        assert(prefix[prefix.len() - 2] == line@[i - 1]);
                    }
                    assert(cur@ == seq![c]);
                    assert(words(prefix) == before.push(cur@));
                }
            }
        }
        i += 1;
    }
    if cur.len() > 0 {
        let ghost before = views_of(out@);
        out.push(cur);
        assert(views_of(out@) == before.push(cur@));
    }
    assert(line@.take(i as int) == line@);
    out
}

pub open spec fn is_digit(c: char) -> bool {
    '0' <= c && c <= '9'
}

pub open spec fn digit_value(c: char) -> int {
    (c as u32) - ('0' as u32)
}

pub open spec fn all_digits(s: Seq<char>) -> bool {
    forall|i: int| 0 <= i < s.len() ==> is_digit(#[trigger] s[i])
}

/// The number that a string of decimal digits denotes.
pub open spec fn digits_value(s: Seq<char>) -> int
    decreases s.len(),
{
    if s.len() == 0 {
        0
    } else {
        digits_value(s.drop_last()) * 10 + digit_value(s.last())
    }
}

/// A word without the one `+` sign that may lead it.
pub open spec fn unsigned_digits(w: Seq<char>) -> Seq<char> {
    if w.len() > 0 && w[0] == '+' {
        w.drop_first()
    } else {
        w
    }
}

/// The value of a word read as an unsigned 64-bit decimal number: an
/// optional `+`, then at least one digit, with a value that fits in `u64`.
pub open spec fn decimal_u64(w: Seq<char>) -> Option<u64> {
    let d = unsigned_digits(w);
    if d.len() > 0 && all_digits(d) && digits_value(d) <= u64::MAX {
        Some(digits_value(d) as u64)
    } else {
        None
    }
}

proof fn lemma_digits_value_nonneg(s: Seq<char>)
    requires
        all_digits(s),
    ensures
        digits_value(s) >= 0,
    decreases s.len(),
{
    if s.len() > 0 {
        assert(all_digits(s.drop_last()));
        lemma_digits_value_nonneg(s.drop_last());
        assert(is_digit(s[s.len() - 1]));
    }
}

/// A prefix of a digit string denotes no more than the whole string.
proof fn lemma_digits_prefix_le(s: Seq<char>, k: int)
    requires
        all_digits(s),
        0 <= k <= s.len(),
    ensures
        digits_value(s.take(k)) <= digits_value(s),
    decreases s.len(),
{
    if k < s.len() {
        assert(all_digits(s.drop_last()));
        assert(s.drop_last().take(k) == s.take(k));
        lemma_digits_prefix_le(s.drop_last(), k);
        lemma_digits_value_nonneg(s.drop_last());
        assert(is_digit(s[s.len() - 1]));
    } else {
        assert(s.take(k) == s);
    }
}

/// Reads a word as an unsigned 64-bit decimal number.
pub fn parse_decimal_u64(w: &Vec<char>) -> (r: Option<u64>)
    ensures
        r == decimal_u64(w@),
{
    let ghost d = unsigned_digits(w@);
    let mut start: usize = 0;
    if w.len() > 0 && w[0] == '+' {
        start = 1;
    }
    assert(d == w@.skip(start as int));
    if start >= w.len() {
        return None;
    }
    let mut acc: u64 = 0;
    let mut i: usize = start;
    while i < w.len()
        invariant
            start <= i <= w.len(),
            d == w@.skip(start as int),
            d == unsigned_digits(w@),
            all_digits(d.take(i - start)),
            acc as int == digits_value(d.take(i - start)),
        decreases w.len() - i,
    {
        let c = w[i];
        assert(d[i - start] == c);
        if !('0' <= c && c <= '9') {
            assert(!all_digits(d));
            return None;
        }
        let dv: u64 = (c as u32 - '0' as u32) as u64;
        let ghost next = d.take(i - start + 1);
        assert(next.drop_last() == d.take(i - start));
        assert(all_digits(next));
        if acc > (u64::MAX - dv) / 10 {
            assert(digits_value(next) > u64::MAX);
            proof {
                if all_digits(d) {
                    lemma_digits_prefix_le(d, i - start + 1);
                }
            }
            return None;
        }
        acc = acc * 10 + dv;
        i += 1;
    }
    assert(d.take(i - start) == d);
    Some(acc)
}

/// The characters of `s` before its first line feed (all of `s` if it has
/// none). A carriage return before the line feed stays in the line; it is
/// white space, so the words of the line are those of the line without it.
pub open spec fn first_line(s: Seq<char>) -> Seq<char>
    decreases s.len(),
{
    if s.len() == 0 || s[0] == '\n' {
        Seq::empty()
    } else {
        seq![s[0]] + first_line(s.drop_first())
    }
}

/// The lines of `s`, split at line feeds; a final line feed ends the last
/// line and starts no new one.
pub open spec fn lines(s: Seq<char>) -> Seq<Seq<char>>
    decreases s.len(),
{
    if s.len() == 0 {
        Seq::empty()
    } else {
        let l = first_line(s);
        if l.len() < s.len() {
            seq![l] + lines(s.skip(l.len() + 1 as int))
        } else {
            seq![l]
        }
    }
}

pub proof fn lemma_first_line_len(s: Seq<char>)
    ensures
        first_line(s).len() <= s.len(),
        first_line(s).len() < s.len() ==> s[first_line(s).len() as int] == '\n',
        forall|j: int| 0 <= j < first_line(s).len() ==> s[j] == #[trigger] first_line(s)[j],
    decreases s.len(),
{
    if s.len() > 0 && s[0] != '\n' {
        lemma_first_line_len(s.drop_first());
        let l = first_line(s);
        assert forall|j: int| 0 <= j < l.len() implies s[j] == #[trigger] l[j] by {
            if j > 0 {
                assert(l[j] == first_line(s.drop_first())[j - 1]);
            }
        }
    }
}

/// The first line of `s`, as characters.
pub fn first_line_of(s: &str) -> (r: Vec<char>)
    ensures
        r@ == first_line(s@),
{
    let n = s.unicode_len();
    let mut out: Vec<char> = Vec::new();
    let mut i: usize = 0;
    assert(s@.skip(0) == s@);
    assert(out@ + first_line(s@) == first_line(s@));
    while i < n
        invariant
            n == s@.len(),
            i <= n,
            first_line(s@) == out@ + first_line(s@.skip(i as int)),
        decreases n - i,
    {
        let c = s.get_char(i);
        let ghost rest = s@.skip(i as int);
        assert(rest[0] == c);
        if c == '\n' {
            assert(out@ + first_line(rest) == out@);
            return out;
        }
        assert(rest.drop_first() == s@.skip(i + 1));
        let ghost before = out@;
        let ghost tail = first_line(s@.skip(i + 1));
        out.push(c);
        assert(before + (seq![c] + tail) == out@ + tail);
        i += 1;
    }
    assert(first_line(s@.skip(i as int)) == Seq::<char>::empty());
    assert(out@ + Seq::<char>::empty() == out@);
    out
}

/// The characters of `s`.
pub fn chars_of(s: &str) -> (r: Vec<char>)
    ensures
        r@ == s@,
{
    let n = s.unicode_len();
    let mut out: Vec<char> = Vec::new();
    let mut i: usize = 0;
    while i < n
        invariant
            n == s@.len(),
            i <= n,
            out@ == s@.take(i as int),
        decreases n - i,
    {
        out.push(s.get_char(i));
        assert(out@ == s@.take(i + 1));
        i += 1;
    }
    assert(s@.take(n as int) == s@);
    out
}

/// The line of `chars` that starts at `start`.
pub fn line_at(chars: &Vec<char>, start: usize) -> (r: Vec<char>)
    requires
        start <= chars@.len(),
    ensures
        r@ == first_line(chars@.skip(start as int)),
{
    let mut out: Vec<char> = Vec::new();
    let mut i: usize = start;
    assert(out@ + first_line(chars@.skip(start as int)) == first_line(chars@.skip(start as int)));
    while i < chars.len()
        invariant
            start <= i <= chars@.len(),
            first_line(chars@.skip(start as int)) == out@ + first_line(chars@.skip(i as int)),
        decreases chars.len() - i,
    {
        let c = chars[i];
        let ghost rest = chars@.skip(i as int);
        assert(rest[0] == c);
        if c == '\n' {
            assert(out@ + first_line(rest) == out@);
            return out;
        }
        assert(rest.drop_first() == chars@.skip(i + 1));
        let ghost before = out@;
        let ghost tail = first_line(chars@.skip(i + 1));
        out.push(c);
        assert(before + (seq![c] + tail) == out@ + tail);
        i += 1;
    }
    assert(first_line(chars@.skip(i as int)) == Seq::<char>::empty());
    assert(out@ + Seq::<char>::empty() == out@);
    out
}

/// Whether `line` starts with `key`.
pub fn has_prefix(line: &Vec<char>, key: &Vec<char>) -> (r: bool)
    ensures
        r == key@.is_prefix_of(line@),
{
    if key.len() > line.len() {
        return false;
    }
    let mut i: usize = 0;
    while i < key.len()
        invariant
            key@.len() <= line@.len(),
            i <= key@.len(),
            forall|j: int| 0 <= j < i ==> key@[j] == line@[j],
        decreases key.len() - i,
    {
        if key[i] != line[i] {
            assert(key@[i as int] != line@.subrange(0, key@.len() as int)[i as int]);
            return false;
        }
        i += 1;
    }
    assert(key@ == line@.subrange(0, key@.len() as int));
    true
}

/// The characters of `line` from `start` on.
pub fn suffix_from(line: &Vec<char>, start: usize) -> (r: Vec<char>)
    requires
        start <= line@.len(),
    ensures
        r@ == line@.skip(start as int),
{
    let mut out: Vec<char> = Vec::new();
    let mut i: usize = start;
    while i < line.len()
        invariant
            start <= i <= line@.len(),
            out@ == line@.subrange(start as int, i as int),
        decreases line.len() - i,
    {
        out.push(line[i]);
        assert(out@ == line@.subrange(start as int, i + 1));
        i += 1;
    }
    out
}

} // verus!
