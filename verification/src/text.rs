//! Character-level helpers shared by the identifier parser and the importers.
//!
//! Text is handled as sequences of `char`: every function here is specified
//! over `Seq<char>`, the view of `str` and `String`.

use vstd::prelude::*;
use vstd::string::StringExecFns;

verus! {

/// `String::push` appends exactly one character to the end of the string.
pub assume_specification[ String::push ](s: &mut String, c: char)
    ensures
        final(s)@ == old(s)@.push(c),
;

/// Collects the characters of `s` into a vector.
pub fn to_chars(s: &str) -> (out: Vec<char>)
    ensures
        out@ == s@,
{
    let mut out: Vec<char> = Vec::new();
    for c in it: s.chars()
        invariant
            it.seq() == s@,
            out@ == it.seq().take(it.index() as int),
    {
        out.push(c);
    }
    out
}

/// Builds a string holding exactly the characters `chars[from..to]`.
pub fn from_chars(chars: &Vec<char>, from: usize, to: usize) -> (out: String)
    requires
        from <= to <= chars.len(),
    ensures
        out@ == chars@.subrange(from as int, to as int),
{
    let mut out = String::new();
    let mut i: usize = from;
    while i < to
        invariant
            from <= i <= to <= chars.len(),
            out@ == chars@.subrange(from as int, i as int),
        decreases to - i,
    {
        out.push(chars[i]);
        i += 1;
    }
    out
}

/// Builds a string holding all of `chars`.
pub fn string_of(chars: &Vec<char>) -> (out: String)
    ensures
        out@ == chars@,
{
    let out = from_chars(chars, 0, chars.len());
    assert(chars@.subrange(0, chars@.len() as int) == chars@);
    out
}

/// The pieces of `s` that lie between occurrences of `sep`, in order.
/// A sequence with `n` separators has `n + 1` pieces; pieces may be empty.
pub open spec fn split_on(s: Seq<char>, sep: char) -> Seq<Seq<char>>
    decreases s.len(),
{
    if s.len() == 0 {
        seq![Seq::<char>::empty()]
    } else {
        let before = split_on(s.drop_last(), sep);
        if s.last() == sep {
            before.push(Seq::<char>::empty())
        } else {
            before.drop_last().push(before.last().push(s.last()))
        }
    }
}

/// Splitting always yields at least one piece.
pub proof fn lemma_split_on_nonempty(s: Seq<char>, sep: char)
    ensures
        split_on(s, sep).len() >= 1,
    decreases s.len(),
{
    if s.len() > 0 {
        lemma_split_on_nonempty(s.drop_last(), sep);
    }
}

/// Appending text without a separator only extends the last piece.
pub proof fn lemma_split_on_append_plain(s: Seq<char>, t: Seq<char>, sep: char)
    requires
        !t.contains(sep),
    ensures
        split_on(s + t, sep) == split_on(s, sep).drop_last().push(split_on(s, sep).last() + t),
    decreases t.len(),
{
    lemma_split_on_nonempty(s, sep);
    if t.len() == 0 {
        assert(s + t == s);
        assert(split_on(s, sep).last() + t == split_on(s, sep).last());
        assert(split_on(s, sep).drop_last().push(split_on(s, sep).last()) == split_on(s, sep));
    } else {
        let t0 = t.drop_last();
        assert(t.last() == t[t.len() - 1]);
        assert(t.last() != sep);
        assert forall|i: int| 0 <= i < t0.len() implies t0[i] != sep by {
            assert(t0[i] == t[i]);
        }
        lemma_split_on_append_plain(s, t0, sep);
        assert((s + t).drop_last() == s + t0);
        assert((s + t).last() == t.last());
        let base = split_on(s, sep);
        let mid = split_on(s + t0, sep);
        assert(mid.last() == base.last() + t0);
        assert(mid.drop_last() == base.drop_last());
        assert((base.last() + t0).push(t.last()) == base.last() + t);
    }
}

/// Appending a separator opens a new, empty piece.
pub proof fn lemma_split_on_push_sep(s: Seq<char>, sep: char)
    ensures
        split_on(s.push(sep), sep) == split_on(s, sep).push(Seq::<char>::empty()),
{
    assert(s.push(sep).drop_last() == s);
}

/// Splits `chars` at every occurrence of `sep`.
pub fn split_chars(chars: &Vec<char>, sep: char) -> (parts: Vec<Vec<char>>)
    ensures
        parts.deep_view() =~~= split_on(chars@, sep),
{
    let mut parts: Vec<Vec<char>> = Vec::new();
    let mut current: Vec<char> = Vec::new();
    let mut i: usize = 0;
    assert(chars@.take(0) == Seq::<char>::empty());
    assert(parts.deep_view().push(current@) =~~= split_on(chars@.take(0), sep));
    while i < chars.len()
        invariant
            i <= chars.len(),
            parts.deep_view().push(current@) == split_on(chars@.take(i as int), sep),
        decreases chars.len() - i,
    {
        let c = chars[i];
        let ghost before = parts.deep_view().push(current@);
        assert(chars@.take(i + 1).drop_last() == chars@.take(i as int));
        assert(chars@.take(i + 1).last() == c);
        if c == sep {
            parts.push(current);
            current = Vec::new();
            assert(parts.deep_view() =~~= before);
        } else {
            current.push(c);
            assert(before.drop_last() =~~= parts.deep_view());
        }
        i += 1;
    }
    assert(chars@.take(chars.len() as int) == chars@);
    let ghost all = parts.deep_view().push(current@);
    parts.push(current);
    assert(parts.deep_view() =~~= all);
    parts
}

/// Whether `c` is one of the ASCII digits `0` to `9`.
pub open spec fn is_digit(c: char) -> bool {
    '0' <= c <= '9'
}

/// The value of the ASCII digit `c`.
pub open spec fn digit_value(c: char) -> nat {
    (c as u32 - '0' as u32) as nat
}

/// The ASCII digit that stands for `d`, for `d < 10`.
pub open spec fn digit_char(d: nat) -> char {
    if d == 0 {
        '0'
    } else if d == 1 {
        '1'
    } else if d == 2 {
        '2'
    } else if d == 3 {
        '3'
    } else if d == 4 {
        '4'
    } else if d == 5 {
        '5'
    } else if d == 6 {
        '6'
    } else if d == 7 {
        '7'
    } else if d == 8 {
        '8'
    } else {
        '9'
    }
}

/// Whether every character of `s` is an ASCII digit.
pub open spec fn all_digits(s: Seq<char>) -> bool {
    forall|i: int| 0 <= i < s.len() ==> is_digit(#[trigger] s[i])
}

/// The number that the digit string `s` denotes in base ten.
pub open spec fn digits_value(s: Seq<char>) -> nat
    decreases s.len(),
{
    if s.len() == 0 {
        0
    } else {
        digits_value(s.drop_last()) * 10 + digit_value(s.last())
    }
}

/// The shortest base-ten digit string that denotes `n`.
pub open spec fn decimal_digits(n: nat) -> Seq<char>
    decreases n,
{
    if n < 10 {
        seq![digit_char(n)]
    } else {
        decimal_digits(n / 10).push(digit_char(n % 10))
    }
}

/// What a revision number written as `s` parses to: an optional `+`, then
/// one or more ASCII digits whose value fits in 32 bits. Anything else is
/// no number.
pub open spec fn parse_u32_spec(s: Seq<char>) -> Option<u32> {
    let body = if s.len() > 0 && s[0] == '+' {
        s.skip(1)
    } else {
        s
    };
    if body.len() > 0 && all_digits(body) && digits_value(body) <= u32::MAX {
        Some(digits_value(body) as u32)
    } else {
        None
    }
}

/// A digit string keeps growing in value as digits are appended.
pub proof fn lemma_digits_value_prefix(s: Seq<char>, k: int)
    requires
        0 <= k <= s.len(),
    ensures
        digits_value(s.take(k)) <= digits_value(s),
    decreases s.len() - k,
{
    if k < s.len() {
        lemma_digits_value_prefix(s, k + 1);
        assert(s.take(k + 1).drop_last() == s.take(k));
    } else {
        assert(s.take(k) == s);
    }
}

/// The digits of `n` are digits, and denote `n`.
pub proof fn lemma_decimal_digits(n: nat)
    ensures
        decimal_digits(n).len() >= 1,
        all_digits(decimal_digits(n)),
        digits_value(decimal_digits(n)) == n,
        !decimal_digits(n).contains('~'),
        decimal_digits(n)[0] != '+',
    decreases n,
{
    let d = decimal_digits(n);
    if n < 10 {
        assert(d.drop_last() == Seq::<char>::empty());
        assert(digits_value(d.drop_last()) == 0);
        assert(d.last() == digit_char(n));
    } else {
        lemma_decimal_digits(n / 10);
        let head = decimal_digits(n / 10);
        assert(d.drop_last() == head);
        assert(d.last() == digit_char(n % 10));
        assert(d[0] == head[0]);
        assert forall|i: int| 0 <= i < d.len() implies is_digit(#[trigger] d[i]) by {
            if i < head.len() {
                assert(d[i] == head[i]);
            }
        }
        assert forall|i: int| 0 <= i < d.len() implies d[i] != '~' by {
            if i < head.len() {
                assert(d[i] == head[i]);
            }
        }
    }
}

/// Reading back the digits of a 32-bit number gives that number.
pub proof fn lemma_parse_decimal_digits(n: u32)
    ensures
        parse_u32_spec(decimal_digits(n as nat)) == Some(n),
{
    lemma_decimal_digits(n as nat);
}

/// Parses a decimal number that fits in 32 bits.
pub fn parse_u32(chars: &Vec<char>) -> (r: Option<u32>)
    ensures
        r == parse_u32_spec(chars@),
{
    let start: usize = if chars.len() > 0 && chars[0] == '+' {
        1
    } else {
        0
    };
    let ghost body = chars@.skip(start as int);
    assert(chars@.skip(0) == chars@);
    assert(body == if chars@.len() > 0 && chars@[0] == '+' {
        chars@.skip(1)
    } else {
        chars@
    });
    if start >= chars.len() {
        return None;
    }
    let mut acc: u64 = 0;
    let mut i: usize = start;
    assert(body.take(0) == Seq::<char>::empty());
    while i < chars.len()
        invariant
            start <= i <= chars.len(),
            body == chars@.skip(start as int),
            body == if chars@.len() > 0 && chars@[0] == '+' {
                chars@.skip(1)
            } else {
                chars@
            },
            body.len() > 0,
            all_digits(body.take(i - start)),
            acc == digits_value(body.take(i - start)),
            acc <= u32::MAX,
        decreases chars.len() - i,
    {
        let c = chars[i];
        let ghost k = i - start;
        assert(body[k] == c);
        assert(body.take(k + 1).drop_last() == body.take(k));
        assert(body.take(k + 1).last() == c);
        if !(c >= '0' && c <= '9') {
            assert(!all_digits(body));
            return None;
        }
        let d: u64 = (c as u32 - '0' as u32) as u64;
        acc = acc * 10 + d;
        assert forall|j: int| 0 <= j < k + 1 implies is_digit(#[trigger] body.take(k + 1)[j]) by {
            if j < k {
                assert(body.take(k + 1)[j] == body.take(k)[j]);
            }
        }
        if acc > 0xffff_ffff {
            proof {
                lemma_digits_value_prefix(body, k + 1);
            }
            return None;
        }
        i += 1;
    }
    assert(body.take(i - start) == body);
    Some(acc as u32)
}

/// Writes `n` in base ten.
pub fn u64_to_chars(n: u64) -> (out: Vec<char>)
    ensures
        out@ == decimal_digits(n as nat),
    decreases n,
{
    if n < 10 {
        let mut out: Vec<char> = Vec::new();
        out.push(digit_to_char(n));
        assert(out@ == seq![digit_char(n as nat)]);
        out
    } else {
        let mut out = u64_to_chars(n / 10);
        out.push(digit_to_char(n % 10));
        out
    }
}

/// Writes `n` in base ten.
pub fn u32_to_chars(n: u32) -> (out: Vec<char>)
    ensures
        out@ == decimal_digits(n as nat),
{
    u64_to_chars(n as u64)
}

/// The character for a single decimal digit.
fn digit_to_char(d: u64) -> (c: char)
    requires
        d < 10,
    ensures
        c == digit_char(d as nat),
{
    if d == 0 {
        '0'
    } else if d == 1 {
        '1'
    } else if d == 2 {
        '2'
    } else if d == 3 {
        '3'
    } else if d == 4 {
        '4'
    } else if d == 5 {
        '5'
    } else if d == 6 {
        '6'
    } else if d == 7 {
        '7'
    } else if d == 8 {
        '8'
    } else {
        '9'
    }
}

/// `s` with every `-` and `_` replaced by a space.
pub open spec fn spaced(s: Seq<char>) -> Seq<char> {
    Seq::new(
        s.len(),
        |i: int|
            if s[i] == '-' || s[i] == '_' {
                ' '
            } else {
                s[i]
            },
    )
}

/// Replaces every `-` and `_` of `s` by a space.
pub fn with_spaces(s: &str) -> (out: String)
    ensures
        out@ == spaced(s@),
{
    let chars = to_chars(s);
    let mut out = String::new();
    let mut i: usize = 0;
    while i < chars.len()
        invariant
            i <= chars.len(),
            chars@ == s@,
            out@ == spaced(s@).take(i as int),
        decreases chars.len() - i,
    {
        let c = chars[i];
        if c == '-' || c == '_' {
            out.push(' ');
        } else {
            out.push(c);
        }
        i += 1;
        assert(out@ == spaced(s@).take(i as int));
    }
    assert(spaced(s@).take(chars.len() as int) == spaced(s@));
    out
}

/// Copies a list of strings.
pub fn clone_strings(v: &Vec<String>) -> (out: Vec<String>)
    ensures
        out.deep_view() == v.deep_view(),
{
    let mut out: Vec<String> = Vec::new();
    let mut i: usize = 0;
    while i < v.len()
        invariant
            i <= v.len(),
            out.len() == i,
            forall|j: int| 0 <= j < i ==> out[j]@ == v[j]@,
        decreases v.len() - i,
    {
        out.push(v[i].clone());
        i += 1;
    }
    assert(out.deep_view() =~~= v.deep_view());
    out
}

/// Copies an optional string.
pub fn clone_opt_string(v: &Option<String>) -> (out: Option<String>)
    ensures
        out.deep_view() == v.deep_view(),
{
    match v {
        Some(s) => Some(s.clone()),
        None => None,
    }
}

/// The texts of `parts` written one after another with `sep` between them.
pub open spec fn join_spec(parts: Seq<Seq<char>>, sep: Seq<char>) -> Seq<char>
    decreases parts.len(),
{
    if parts.len() == 0 {
        Seq::empty()
    } else if parts.len() == 1 {
        parts[0]
    } else {
        join_spec(parts.drop_last(), sep) + sep + parts.last()
    }
}

/// Joins `parts` with `sep` between them.
pub fn join_strings(parts: &Vec<String>, sep: &str) -> (out: String)
    ensures
        out@ == join_spec(parts.deep_view(), sep@),
{
    let ghost views = parts.deep_view();
    let mut out = String::new();
    let mut i: usize = 0;
    assert(views.take(0) =~= Seq::<Seq<char>>::empty());
    while i < parts.len()
        invariant
            i <= parts.len(),
            views == parts.deep_view(),
            out@ == join_spec(views.take(i as int), sep@),
        decreases parts.len() - i,
    {
        let ghost next = views.take(i + 1);
        assert(next.drop_last() =~= views.take(i as int));
        assert(next.last() == parts[i as int]@);
        if i > 0 {
            out.append(sep);
        } else {
            assert(out@ =~= Seq::<char>::empty());
            assert(next[0] == parts[i as int]@);
            assert(Seq::<char>::empty() + parts[i as int]@ =~= parts[i as int]@);
        }
        out.append(parts[i].as_str());
        i += 1;
    }
    assert(views.take(parts.len() as int) =~= views);
    out
}

/// Whether `c` is white space: a character with the Unicode property
/// `White_Space`.
pub open spec fn is_whitespace(c: char) -> bool {
    let n = c as u32;
    (0x09 <= n <= 0x0d) || n == 0x20 || n == 0x85 || n == 0xa0 || n == 0x1680 || (0x2000 <= n
        <= 0x200a) || n == 0x2028 || n == 0x2029 || n == 0x202f || n == 0x205f || n == 0x3000
}

/// Whether `c` is white space.
pub fn char_is_whitespace(c: char) -> (r: bool)
    ensures
        r == is_whitespace(c),
{
    let n = c as u32;
    (0x09 <= n && n <= 0x0d) || n == 0x20 || n == 0x85 || n == 0xa0 || n == 0x1680 || (0x2000 <= n
        && n <= 0x200a) || n == 0x2028 || n == 0x2029 || n == 0x202f || n == 0x205f || n
        == 0x3000
}

/// `s` without its leading white space.
pub open spec fn trim_start_spec(s: Seq<char>) -> Seq<char>
    decreases s.len(),
{
    if s.len() > 0 && is_whitespace(s[0]) {
        trim_start_spec(s.drop_first())
    } else {
        s
    }
}

/// `s` without its trailing white space.
pub open spec fn trim_end_spec(s: Seq<char>) -> Seq<char>
    decreases s.len(),
{
    if s.len() > 0 && is_whitespace(s.last()) {
        trim_end_spec(s.drop_last())
    } else {
        s
    }
}

/// `s` without leading and trailing white space.
pub open spec fn trim_spec(s: Seq<char>) -> Seq<char> {
    trim_end_spec(trim_start_spec(s))
}

/// The position at which `chars[from..to]` stops beginning with white space.
pub fn trim_start_index(chars: &Vec<char>, from: usize, to: usize) -> (start: usize)
    requires
        from <= to <= chars.len(),
    ensures
        from <= start <= to,
        chars@.subrange(start as int, to as int) == trim_start_spec(
            chars@.subrange(from as int, to as int),
        ),
{
    let mut start = from;
    while start < to && char_is_whitespace(chars[start])
        invariant
            from <= start <= to <= chars.len(),
            trim_start_spec(chars@.subrange(start as int, to as int)) == trim_start_spec(
                chars@.subrange(from as int, to as int),
            ),
        decreases to - start,
    {
        assert(chars@.subrange(start as int, to as int).drop_first() =~= chars@.subrange(
            start + 1,
            to as int,
        ));
        start += 1;
    }
    start
}

/// The position at which `chars[from..to]` starts ending in white space.
pub fn trim_end_index(chars: &Vec<char>, from: usize, to: usize) -> (end: usize)
    requires
        from <= to <= chars.len(),
    ensures
        from <= end <= to,
        chars@.subrange(from as int, end as int) == trim_end_spec(
            chars@.subrange(from as int, to as int),
        ),
{
    let mut end = to;
    while end > from && char_is_whitespace(chars[end - 1])
        invariant
            from <= end <= to <= chars.len(),
            trim_end_spec(chars@.subrange(from as int, end as int)) == trim_end_spec(
                chars@.subrange(from as int, to as int),
            ),
        decreases end - from,
    {
        assert(chars@.subrange(from as int, end as int).drop_last() =~= chars@.subrange(
            from as int,
            end - 1,
        ));
        end -= 1;
    }
    end
}

/// `chars` without leading and trailing white space.
pub fn trim_chars(chars: &Vec<char>) -> (out: Vec<char>)
    ensures
        out@ == trim_spec(chars@),
{
    let start = trim_start_index(chars, 0, chars.len());
    let end = trim_end_index(chars, start, chars.len());
    assert(chars@.subrange(0, chars.len() as int) =~= chars@);
    copy_range(chars, start, end)
}

/// A copy of `chars[from..to]`.
pub fn copy_range(chars: &Vec<char>, from: usize, to: usize) -> (out: Vec<char>)
    requires
        from <= to <= chars.len(),
    ensures
        out@ == chars@.subrange(from as int, to as int),
{
    let mut out: Vec<char> = Vec::new();
    let mut i: usize = from;
    while i < to
        invariant
            from <= i <= to <= chars.len(),
            out@ == chars@.subrange(from as int, i as int),
        decreases to - i,
    {
        out.push(chars[i]);
        i += 1;
    }
    out
}

/// `s` without leading and trailing white space.
pub fn trim(s: &str) -> (out: String)
    ensures
        out@ == trim_spec(s@),
{
    let chars = to_chars(s);
    let trimmed = trim_chars(&chars);
    string_of(&trimmed)
}

/// The trimmed, non-empty entries among the first `n` of `parts`, in order.
pub open spec fn trimmed_entries(parts: Seq<Seq<char>>, n: int) -> Seq<Seq<char>>
    decreases n,
{
    if n <= 0 {
        Seq::empty()
    } else {
        let before = trimmed_entries(parts, n - 1);
        let entry = trim_spec(parts[n - 1]);
        if entry.len() > 0 {
            before.push(entry)
        } else {
            before
        }
    }
}

/// The entries of a comma-separated list: each trimmed, empty ones dropped.
pub open spec fn comma_list_spec(s: Seq<char>) -> Seq<Seq<char>> {
    trimmed_entries(split_on(s, ','), split_on(s, ',').len() as int)
}

/// Reads a comma-separated list: trims each entry and drops the empty ones.
pub fn parse_comma_list(s: &str) -> (entries: Vec<String>)
    ensures
        entries.deep_view() == comma_list_spec(s@),
{
    let chars = to_chars(s);
    let parts = split_chars(&chars, ',');
    let ghost pieces = split_on(s@, ',');
    let mut entries: Vec<String> = Vec::new();
    let mut i: usize = 0;
    assert(entries.deep_view() =~= trimmed_entries(pieces, 0));
    while i < parts.len()
        invariant
            i <= parts.len(),
            pieces == split_on(s@, ','),
            parts.deep_view() == pieces,
            entries.deep_view() == trimmed_entries(pieces, i as int),
        decreases parts.len() - i,
    {
        assert(parts.deep_view()[i as int] == parts[i as int]@);
        let entry = trim_chars(&parts[i]);
        let ghost before = entries.deep_view();
        if entry.len() > 0 {
            let text = string_of(&entry);
            entries.push(text);
            assert(entries.deep_view() =~~= before.push(entry@));
        }
        i += 1;
    }
    entries
}

/// `s` without one trailing carriage return.
pub open spec fn strip_cr(s: Seq<char>) -> Seq<char> {
    if s.len() > 0 && s.last() == '\r' {
        s.drop_last()
    } else {
        s
    }
}

/// The lines of `s`. A line ends at a line feed, or at a carriage return
/// directly followed by a line feed; neither belongs to the line. What
/// follows the last line feed is a line of its own unless it is empty.
pub open spec fn lines_spec(s: Seq<char>) -> Seq<Seq<char>> {
    let pieces = split_on(s, '\n');
    let ended = Seq::new((pieces.len() - 1) as nat, |i: int| strip_cr(pieces[i]));
    if pieces.last().len() > 0 {
        ended.push(pieces.last())
    } else {
        ended
    }
}

/// Splits `s` into its lines.
pub fn split_lines(s: &str) -> (lines: Vec<String>)
    ensures
        lines.deep_view() == lines_spec(s@),
{
    let chars = to_chars(s);
    let parts = split_chars(&chars, '\n');
    let ghost pieces = split_on(s@, '\n');
    proof {
        lemma_split_on_nonempty(s@, '\n');
    }
    let ended = parts.len() - 1;
    let mut lines: Vec<String> = Vec::new();
    let mut i: usize = 0;
    while i < ended
        invariant
            i <= ended,
            ended == parts.len() - 1,
            parts.deep_view() == pieces,
            lines.len() == i,
            forall|k: int| 0 <= k < i ==> (#[trigger] lines[k])@ == strip_cr(pieces[k]),
        decreases ended - i,
    {
        assert(parts.deep_view()[i as int] == parts[i as int]@);
        let part = &parts[i];
        let end = if part.len() > 0 && part[part.len() - 1] == '\r' {
            part.len() - 1
        } else {
            part.len()
        };
        assert(part@.subrange(0, end as int) =~= strip_cr(part@));
        lines.push(from_chars(part, 0, end));
        i += 1;
    }
    assert(parts.deep_view()[ended as int] == parts[ended as int]@);
    assert(pieces.last() == parts[ended as int]@);
    let ghost before = lines.deep_view();
    if parts[ended].len() > 0 {
        lines.push(string_of(&parts[ended]));
        assert(lines.deep_view() =~~= before.push(pieces.last()));
    }
    assert(lines.deep_view() =~~= lines_spec(s@));
    lines
}

/// The first position at or after `from` at which `needle` occurs in `hay`.
pub open spec fn find_from(hay: Seq<char>, needle: Seq<char>, from: int) -> Option<int>
    decreases hay.len() - from + 1,
{
    if from < 0 || from + needle.len() > hay.len() {
        None
    } else if hay.subrange(from, from + needle.len()) == needle {
        Some(from)
    } else {
        find_from(hay, needle, from + 1)
    }
}

/// The first position at which `needle` occurs in `hay`.
pub open spec fn find_spec(hay: Seq<char>, needle: Seq<char>) -> Option<int> {
    find_from(hay, needle, 0)
}

/// Whether `needle` stands in `hay` at position `at`.
fn occurs_at(hay: &Vec<char>, needle: &Vec<char>, at: usize) -> (r: bool)
    requires
        at + needle.len() <= hay.len(),
    ensures
        r == (hay@.subrange(at as int, at + needle.len()) == needle@),
{
    let mut k: usize = 0;
    while k < needle.len()
        invariant
            k <= needle.len(),
            at + needle.len() <= hay.len(),
            forall|j: int| 0 <= j < k ==> hay@[at + j] == needle@[j],
        decreases needle.len() - k,
    {
        if hay[at + k] != needle[k] {
            assert(hay@.subrange(at as int, at + needle.len())[k as int] != needle@[k as int]);
            return false;
        }
        k += 1;
    }
    assert(hay@.subrange(at as int, at + needle.len()) =~= needle@);
    true
}

/// Finds the first position at which `needle` occurs in `hay`.
pub fn find_chars(hay: &Vec<char>, needle: &Vec<char>) -> (r: Option<usize>)
    ensures
        match r {
            Some(at) => find_spec(hay@, needle@) == Some(at as int) && at + needle.len()
                <= hay.len(),
            None => find_spec(hay@, needle@) is None,
        },
{
    if needle.len() > hay.len() {
        return None;
    }
    if needle.len() == 0 {
        assert(hay@.subrange(0, 0) =~= needle@);
        return Some(0);
    }
    let last = hay.len() - needle.len();
    let mut at: usize = 0;
    while at <= last
        invariant
            at <= last + 1,
            last == hay.len() - needle.len(),
            0 < needle.len() <= hay.len(),
            find_spec(hay@, needle@) == find_from(hay@, needle@, at as int),
        decreases last + 1 - at,
    {
        if occurs_at(hay, needle, at) {
            return Some(at);
        }
        at += 1;
    }
    None
}

/// `hay` with every occurrence of `from` replaced by `to`, found from left
/// to right without overlap. An empty `from` replaces nothing.
pub open spec fn replace_spec(hay: Seq<char>, from: Seq<char>, to: Seq<char>) -> Seq<char>
    decreases hay.len(),
{
    if from.len() == 0 || hay.len() < from.len() {
        hay
    } else if hay.take(from.len() as int) == from {
        to + replace_spec(hay.skip(from.len() as int), from, to)
    } else {
        seq![hay[0]] + replace_spec(hay.skip(1), from, to)
    }
}

/// Replaces every occurrence of `from` in `hay` by `to`.
pub fn replace_all(hay: &str, from: &str, to: &str) -> (out: String)
    ensures
        out@ == replace_spec(hay@, from@, to@),
{
    let text = to_chars(hay);
    let pattern = to_chars(from);
    if pattern.len() == 0 {
        return string_of(&text);
    }
    let mut out = String::new();
    let mut i: usize = 0;
    assert(text@.skip(0) =~= text@);
    assert(Seq::<char>::empty() + replace_spec(text@, from@, to@) =~= replace_spec(
        text@,
        from@,
        to@,
    ));
    while i < text.len()
        invariant
            i <= text.len(),
            text@ == hay@,
            pattern@ == from@,
            pattern.len() > 0,
            replace_spec(hay@, from@, to@) == out@ + replace_spec(
                text@.skip(i as int),
                from@,
                to@,
            ),
        decreases text.len() - i,
    {
        let ghost rest = text@.skip(i as int);
        let ghost done = out@;
        if text.len() - i >= pattern.len() && occurs_at(&text, &pattern, i) {
            assert(rest.take(pattern.len() as int) =~= text@.subrange(
                i as int,
                i + pattern.len(),
            ));
            assert(rest.skip(pattern.len() as int) =~= text@.skip(i + pattern.len()));
            out.append(to);
            assert(out@ + replace_spec(text@.skip(i + pattern.len()), from@, to@) =~= done + (to@
                + replace_spec(rest.skip(pattern.len() as int), from@, to@)));
            i += pattern.len();
        } else {
            if text.len() - i >= pattern.len() {
                assert(rest.take(pattern.len() as int) =~= text@.subrange(
                    i as int,
                    i + pattern.len(),
                ));
                assert(rest.skip(1) =~= text@.skip(i + 1));
                out.push(text[i]);
                assert(out@ + replace_spec(text@.skip(i + 1), from@, to@) =~= done + (seq![rest[0]]
                    + replace_spec(rest.skip(1), from@, to@)));
                i += 1;
            } else {
                let tail = from_chars(&text, i, text.len());
                assert(tail@ =~= rest);
                out.append(tail.as_str());
                assert(text@.skip(text.len() as int) =~= Seq::<char>::empty());
                assert(out@ + replace_spec(text@.skip(text.len() as int), from@, to@) =~= done
                    + rest);
                i = text.len();
            }
        }
    }
    assert(text@.skip(text.len() as int) =~= Seq::<char>::empty());
    assert(out@ + Seq::<char>::empty() =~= out@);
    out
}

/// Whether `a` comes before `b` in the order of strings: at the first
/// position where they differ `a` has the smaller character, or `a` ends
/// there and `b` goes on.
pub open spec fn text_less(a: Seq<char>, b: Seq<char>) -> bool
    decreases a.len(),
{
    if b.len() == 0 {
        false
    } else if a.len() == 0 {
        true
    } else if a[0] != b[0] {
        (a[0] as u32) < (b[0] as u32)
    } else {
        text_less(a.skip(1), b.skip(1))
    }
}

/// Whether `a` comes before `b` in the order of strings.
pub fn is_text_less(a: &String, b: &String) -> (r: bool)
    ensures
        r == text_less(a@, b@),
{
    let left = to_chars(a.as_str());
    let right = to_chars(b.as_str());
    let mut i: usize = 0;
    assert(left@.skip(0) =~= left@);
    assert(right@.skip(0) =~= right@);
    while i < left.len() && i < right.len()
        invariant
            i <= left.len(),
            i <= right.len(),
            left@ == a@,
            right@ == b@,
            text_less(a@, b@) == text_less(left@.skip(i as int), right@.skip(i as int)),
        decreases left.len() - i,
    {
        assert(left@.skip(i as int)[0] == left@[i as int]);
        assert(right@.skip(i as int)[0] == right@[i as int]);
        if left[i] != right[i] {
            return (left[i] as u32) < (right[i] as u32);
        }
        assert(left@.skip(i as int).skip(1) =~= left@.skip(i + 1));
        assert(right@.skip(i as int).skip(1) =~= right@.skip(i + 1));
        i += 1;
    }
    i < right.len()
}

/// Of two strings at most one comes before the other.
pub proof fn lemma_text_less_asymmetric(a: Seq<char>, b: Seq<char>)
    ensures
        !(text_less(a, b) && text_less(b, a)),
    decreases a.len(),
{
    if a.len() > 0 && b.len() > 0 && a[0] == b[0] {
        lemma_text_less_asymmetric(a.skip(1), b.skip(1));
    }
}

/// The order of strings is transitive.
pub proof fn lemma_text_less_transitive(a: Seq<char>, b: Seq<char>, c: Seq<char>)
    requires
        text_less(a, b),
        text_less(b, c),
    ensures
        text_less(a, c),
    decreases a.len(),
{
    if a.len() > 0 && b.len() > 0 && c.len() > 0 && a[0] == b[0] && b[0] == c[0] {
        lemma_text_less_transitive(a.skip(1), b.skip(1), c.skip(1));
    }
}

} // verus!
