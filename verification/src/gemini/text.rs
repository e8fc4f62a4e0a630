//! Character-level scanning shared by the header and document parsers.
//!
//! Text is modelled as `Seq<char>`. Executable code works on `Vec<char>` so
//! that every position can be reached in constant time.

use vstd::prelude::*;

verus! {

/// What `String::push` does: the character is appended, nothing else changes.
pub assume_specification[ String::push ](s: &mut String, ch: char)
    ensures
        final(s)@ == old(s)@.push(ch),
;

/// The characters that carry the Unicode `White_Space` property.
pub open spec fn is_whitespace(c: char) -> bool {
    let v = c as u32;
    ||| 0x09 <= v <= 0x0D
    ||| v == 0x20
    ||| v == 0x85
    ||| v == 0xA0
    ||| v == 0x1680
    ||| 0x2000 <= v <= 0x200A
    ||| v == 0x2028
    ||| v == 0x2029
    ||| v == 0x202F
    ||| v == 0x205F
    ||| v == 0x3000
}

/// Index of the first character at or after `from` that is not whitespace,
/// or `s.len()` if only whitespace follows.
pub open spec fn skip_whitespace(s: Seq<char>, from: int) -> int
    decreases s.len() - from,
{
    if 0 <= from < s.len() && is_whitespace(s[from]) {
        skip_whitespace(s, from + 1)
    } else {
        from
    }
}

/// Index of the first whitespace character at or after `from`, or `s.len()`
/// if there is none.
pub open spec fn find_whitespace(s: Seq<char>, from: int) -> int
    decreases s.len() - from,
{
    if 0 <= from < s.len() && !is_whitespace(s[from]) {
        find_whitespace(s, from + 1)
    } else {
        from
    }
}

/// Index of the first line feed at or after `from`, or `s.len()` if there is
/// none.
pub open spec fn find_newline(s: Seq<char>, from: int) -> int
    decreases s.len() - from,
{
    if 0 <= from < s.len() && s[from] != '\n' {
        find_newline(s, from + 1)
    } else {
        from
    }
}

/// `skip_whitespace` stops at the first character that is not whitespace and
/// passes over whitespace only.
pub proof fn lemma_skip_whitespace(s: Seq<char>, from: int)
    requires
        0 <= from <= s.len(),
    ensures
        from <= skip_whitespace(s, from) <= s.len(),
        forall|k: int| from <= k < skip_whitespace(s, from) ==> is_whitespace(#[trigger] s[k]),
        skip_whitespace(s, from) < s.len() ==> !is_whitespace(s[skip_whitespace(s, from)]),
    decreases s.len() - from,
{
    if from < s.len() && is_whitespace(s[from]) {
        lemma_skip_whitespace(s, from + 1);
    }
}

/// `find_whitespace` stops at the first whitespace character and passes over
/// none.
pub proof fn lemma_find_whitespace(s: Seq<char>, from: int)
    requires
        0 <= from <= s.len(),
    ensures
        from <= find_whitespace(s, from) <= s.len(),
        forall|k: int| from <= k < find_whitespace(s, from) ==> !is_whitespace(#[trigger] s[k]),
        find_whitespace(s, from) < s.len() ==> is_whitespace(s[find_whitespace(s, from)]),
    decreases s.len() - from,
{
    if from < s.len() && !is_whitespace(s[from]) {
        lemma_find_whitespace(s, from + 1);
    }
}

/// `find_newline` stops at the first line feed and passes over none.
pub proof fn lemma_find_newline(s: Seq<char>, from: int)
    requires
        0 <= from <= s.len(),
    ensures
        from <= find_newline(s, from) <= s.len(),
        forall|k: int| from <= k < find_newline(s, from) ==> #[trigger] s[k] != '\n',
        find_newline(s, from) < s.len() ==> s[find_newline(s, from)] == '\n',
    decreases s.len() - from,
{
    if from < s.len() && s[from] != '\n' {
        lemma_find_newline(s, from + 1);
    }
}

/// A line without the carriage return that may end it.
pub open spec fn without_cr(line: Seq<char>) -> Seq<char> {
    if line.len() > 0 && line.last() == '\r' {
        line.drop_last()
    } else {
        line
    }
}

/// The lines of `s` that begin at or after `from`, where `from` is the start
/// of a line.
pub open spec fn lines_from(s: Seq<char>, from: int) -> Seq<Seq<char>>
    decreases s.len() - from,
    via lines_from_terminates
{
    if 0 <= from < s.len() {
        let end = find_newline(s, from);
        let line = without_cr(s.subrange(from, end));
        if end < s.len() {
            seq![line] + lines_from(s, end + 1)
        } else {
            seq![line]
        }
    } else {
        Seq::empty()
    }
}

#[via_fn]
proof fn lines_from_terminates(s: Seq<char>, from: int) {
    if 0 <= from < s.len() {
        lemma_find_newline(s, from);
    }
}

/// The lines of a text. A line ends at a line feed or at the end of the
/// text; the line feed is not part of it, and neither is one carriage return
/// directly before the line's end. A text that ends in a line feed has no
/// empty line after it.
pub open spec fn lines(s: Seq<char>) -> Seq<Seq<char>> {
    lines_from(s, 0)
}

/// The text made of `lines`, each followed by a line feed.
pub open spec fn terminated(lines: Seq<Seq<char>>) -> Seq<char>
    decreases lines.len(),
{
    if lines.len() == 0 {
        Seq::empty()
    } else {
        terminated(lines.drop_last()) + lines.last() + seq!['\n']
    }
}

/// The text made of `lines` with one line feed between neighbours, and none
/// after the last.
pub open spec fn joined(lines: Seq<Seq<char>>) -> Seq<char>
    decreases lines.len(),
{
    if lines.len() == 0 {
        Seq::empty()
    } else if lines.len() == 1 {
        lines[0]
    } else {
        joined(lines.drop_last()) + seq!['\n'] + lines.last()
    }
}

/// The pieces of `s` between its line feeds, from the piece that begins at
/// `from` on.
pub open spec fn pieces_from(s: Seq<char>, from: int) -> Seq<Seq<char>>
    decreases s.len() - from,
    via pieces_from_terminates
{
    if 0 <= from <= s.len() {
        let end = find_newline(s, from);
        if end < s.len() {
            seq![s.subrange(from, end)] + pieces_from(s, end + 1)
        } else {
            seq![s.subrange(from, end)]
        }
    } else {
        Seq::empty()
    }
}

#[via_fn]
proof fn pieces_from_terminates(s: Seq<char>, from: int) {
    if 0 <= from <= s.len() {
        lemma_find_newline(s, from);
    }
}

/// A text split at every line feed: the pieces between the line feeds, with
/// one more piece than the text has line feeds. Nothing is dropped: a text
/// that ends in a line feed has an empty last piece.
pub open spec fn pieces(s: Seq<char>) -> Seq<Seq<char>> {
    pieces_from(s, 0)
}

/// A line that survives being written out and split again: it holds no line
/// feed and does not end in a carriage return.
pub open spec fn is_plain_line(line: Seq<char>) -> bool {
    &&& forall|k: int| 0 <= k < line.len() ==> line[k] != '\n'
    &&& !(line.len() > 0 && line.last() == '\r')
}

/// The first line feed at or after `from` is found by `find_newline`.
pub proof fn lemma_find_newline_is(s: Seq<char>, from: int, end: int)
    requires
        0 <= from <= end <= s.len(),
        forall|k: int| from <= k < end ==> #[trigger] s[k] != '\n',
        end == s.len() || s[end] == '\n',
    ensures
        find_newline(s, from) == end,
    decreases end - from,
{
    if from < end {
        lemma_find_newline_is(s, from + 1, end);
    }
}

/// What stands before a position does not change where the next line feed
/// is found.
pub proof fn lemma_find_newline_after_prefix(prefix: Seq<char>, s: Seq<char>, from: int)
    requires
        0 <= from <= s.len(),
    ensures
        find_newline(prefix + s, prefix.len() + from) == prefix.len() + find_newline(s, from),
    decreases s.len() - from,
{
    if from < s.len() && s[from] != '\n' {
        lemma_find_newline_after_prefix(prefix, s, from + 1);
    }
}

/// What stands before the start of a line does not change the lines from
/// there on.
pub proof fn lemma_lines_after_prefix(prefix: Seq<char>, s: Seq<char>, from: int)
    requires
        0 <= from <= s.len(),
    ensures
        lines_from(prefix + s, prefix.len() + from) == lines_from(s, from),
    decreases s.len() - from,
{
    if from < s.len() {
        let end = find_newline(s, from);
        lemma_find_newline(s, from);
        lemma_find_newline_after_prefix(prefix, s, from);
        assert((prefix + s).subrange(prefix.len() + from, prefix.len() + end) == s.subrange(
            from,
            end,
        ));
        if end < s.len() {
            lemma_lines_after_prefix(prefix, s, end + 1);
        }
    }
}

/// A text that begins with a line and its line feed goes on with the text
/// of the other lines.
pub proof fn lemma_terminated_front(first: Seq<char>, others: Seq<Seq<char>>)
    ensures
        terminated(seq![first] + others) == first + seq!['\n'] + terminated(others),
    decreases others.len(),
{
    let all = seq![first] + others;
    if others.len() == 0 {
        assert(terminated(all.drop_last()) == Seq::<char>::empty());
    } else {
        lemma_terminated_front(first, others.drop_last());
        assert(all.drop_last() == seq![first] + others.drop_last());
    }
}

/// Writing lines out and splitting the text gives the lines back, provided
/// that each of them is plain.
pub proof fn lemma_lines_of_terminated(all: Seq<Seq<char>>)
    requires
        forall|k: int| 0 <= k < all.len() ==> is_plain_line(#[trigger] all[k]),
    ensures
        lines(terminated(all)) == all,
    decreases all.len(),
{
    if all.len() > 0 {
        let first = all[0];
        let others = all.drop_first();
        let head = first + seq!['\n'];
        let text = terminated(all);
        assert(all == seq![first] + others);
        lemma_terminated_front(first, others);
        assert forall|k: int| 0 <= k < first.len() implies #[trigger] text[k] != '\n' by {}
        lemma_find_newline_is(text, 0, first.len() as int);
        assert(text.subrange(0, first.len() as int) == first);
        assert forall|k: int| 0 <= k < others.len() implies is_plain_line(#[trigger] others[k]) by {}
        lemma_lines_of_terminated(others);
        lemma_lines_after_prefix(head, terminated(others), 0);
    }
}

/// No line of a text holds a line feed.
pub proof fn lemma_lines_hold_no_newline(s: Seq<char>, from: int)
    requires
        0 <= from,
    ensures
        forall|k: int, j: int|
            0 <= k < lines_from(s, from).len() && 0 <= j < lines_from(s, from)[k].len()
                ==> #[trigger] lines_from(s, from)[k][j] != '\n',
    decreases s.len() - from,
{
    if from < s.len() {
        let end = find_newline(s, from);
        lemma_find_newline(s, from);
        let line = without_cr(s.subrange(from, end));
        assert forall|j: int| 0 <= j < line.len() implies #[trigger] line[j] != '\n' by {
            assert(line[j] == s[from + j]);
        }
        if end < s.len() {
            lemma_lines_hold_no_newline(s, end + 1);
            let others = lines_from(s, end + 1);
            let all = lines_from(s, from);
            assert(all == seq![line] + others);
            assert forall|k: int, j: int|
                0 <= k < all.len() && 0 <= j < all[k].len() implies #[trigger] all[k][j]
                != '\n' by {
                if k > 0 {
                    assert(all[k] == others[k - 1]);
                }
            }
        }
    }
}

/// What stands before the start of a piece does not change the pieces from
/// there on.
pub proof fn lemma_pieces_after_prefix(prefix: Seq<char>, s: Seq<char>, from: int)
    requires
        0 <= from <= s.len(),
    ensures
        pieces_from(prefix + s, prefix.len() + from) == pieces_from(s, from),
    decreases s.len() - from,
{
    let end = find_newline(s, from);
    lemma_find_newline(s, from);
    lemma_find_newline_after_prefix(prefix, s, from);
    assert((prefix + s).subrange(prefix.len() + from, prefix.len() + end) == s.subrange(from, end));
    if end < s.len() {
        lemma_pieces_after_prefix(prefix, s, end + 1);
    }
}

/// A joined text that begins with a line goes on with a line feed and the
/// joined text of the other lines, where there are any.
pub proof fn lemma_joined_front(first: Seq<char>, others: Seq<Seq<char>>)
    requires
        others.len() >= 1,
    ensures
        joined(seq![first] + others) == first + seq!['\n'] + joined(others),
    decreases others.len(),
{
    let all = seq![first] + others;
    assert(all.drop_last() == seq![first] + others.drop_last());
    assert(all.last() == others.last());
    if others.len() == 1 {
        assert(joined(all.drop_last()) == first);
        assert(joined(others) == others[0]);
    } else {
        lemma_joined_front(first, others.drop_last());
        assert(joined(all) == first + seq!['\n'] + joined(others.drop_last()) + seq!['\n']
            + others.last());
        assert(first + seq!['\n'] + joined(others) == first + seq!['\n'] + joined(
            others.drop_last(),
        ) + seq!['\n'] + others.last());
    }
}

/// Joining lines and splitting the text at its line feeds gives the lines
/// back, empty ones too, and nothing after the last, provided that there is
/// at least one line and that none holds a line feed.
pub proof fn lemma_pieces_of_joined(all: Seq<Seq<char>>)
    requires
        all.len() >= 1,
        forall|k: int, j: int|
            0 <= k < all.len() && 0 <= j < all[k].len() ==> #[trigger] all[k][j] != '\n',
    ensures
        pieces(joined(all)) == all,
    decreases all.len(),
{
    let first = all[0];
    let text = joined(all);
    if all.len() == 1 {
        assert(text == first);
        lemma_find_newline_is(text, 0, text.len() as int);
        assert(text.subrange(0, text.len() as int) == first);
        assert(pieces(text) == seq![first]);
    } else {
        let others = all.drop_first();
        let head = first + seq!['\n'];
        assert(all == seq![first] + others);
        lemma_joined_front(first, others);
        assert(text == head + joined(others));
        assert forall|j: int| 0 <= j < first.len() implies #[trigger] text[j] != '\n' by {
            assert(text[j] == all[0][j]);
        }
        assert(text[first.len() as int] == '\n');
        lemma_find_newline_is(text, 0, first.len() as int);
        assert(text.subrange(0, first.len() as int) == first);
        assert forall|k: int, j: int|
            0 <= k < others.len() && 0 <= j < others[k].len() implies #[trigger] others[k][j]
            != '\n' by {
            assert(others[k][j] == all[k + 1][j]);
        }
        lemma_pieces_of_joined(others);
        lemma_pieces_after_prefix(head, joined(others), 0);
        assert(pieces_from(text, head.len() as int) == others);
        assert(pieces(text) == seq![first] + others);
    }
}

/// Joining lines and splitting the text into its lines gives the lines
/// back, provided that each of them is plain and the last one is not empty.
pub proof fn lemma_lines_of_joined(all: Seq<Seq<char>>)
    requires
        all.len() >= 1,
        forall|k: int| 0 <= k < all.len() ==> is_plain_line(#[trigger] all[k]),
        all.last().len() > 0,
    ensures
        lines(joined(all)) == all,
    decreases all.len(),
{
    let first = all[0];
    let text = joined(all);
    assert(is_plain_line(first));
    if all.len() == 1 {
        assert(text == first);
        lemma_find_newline_is(text, 0, text.len() as int);
        assert(text.subrange(0, text.len() as int) == first);
        assert(lines(text) == seq![first]);
    } else {
        let others = all.drop_first();
        let head = first + seq!['\n'];
        assert(all == seq![first] + others);
        lemma_joined_front(first, others);
        assert(text == head + joined(others));
        assert forall|j: int| 0 <= j < first.len() implies #[trigger] text[j] != '\n' by {
            assert(text[j] == first[j]);
        }
        assert(text[first.len() as int] == '\n');
        lemma_find_newline_is(text, 0, first.len() as int);
        assert(text.subrange(0, first.len() as int) == first);
        assert forall|k: int| 0 <= k < others.len() implies is_plain_line(#[trigger] others[k]) by {
            assert(others[k] == all[k + 1]);
        }
        assert(others.last() == all.last());
        lemma_lines_of_joined(others);
        lemma_lines_after_prefix(head, joined(others), 0);
        assert(lines_from(text, head.len() as int) == others);
        assert(lines(text) == seq![first] + others);
    }
}

/// The views of a vector of lines.
pub open spec fn lines_view(v: Seq<Vec<char>>) -> Seq<Seq<char>> {
    v.map_values(|line: Vec<char>| line@)
}

/// The character for a decimal digit `0 <= d < 10`.
pub open spec fn digit_char(d: int) -> char {
    (d + 48) as char
}

/// A natural number in decimal, without leading zeros.
pub open spec fn decimal(n: nat) -> Seq<char>
    decreases n,
{
    if n < 10 {
        seq![digit_char(n as int)]
    } else {
        decimal(n / 10) + seq![digit_char((n % 10) as int)]
    }
}

/// Whether `c` has the Unicode `White_Space` property.
pub fn whitespace(c: char) -> (b: bool)
    ensures
        b == is_whitespace(c),
{
    let v: u32 = c as u32;
    (0x09 <= v && v <= 0x0D) || v == 0x20 || v == 0x85 || v == 0xA0 || v == 0x1680 || (0x2000 <= v
        && v <= 0x200A) || v == 0x2028 || v == 0x2029 || v == 0x202F || v == 0x205F || v == 0x3000
}

/// The characters of a string, in order.
pub fn chars_of(s: &str) -> (v: Vec<char>)
    ensures
        v@ == s@,
{
    let mut v: Vec<char> = Vec::new();
    for c in it: s.chars()
        invariant
            v@ == it.seq().take(it.index() as int),
    {
        v.push(c);
    }
    v
}

/// Position of the first character at or after `from` that is not
/// whitespace.
pub fn skip_whitespace_at(line: &Vec<char>, from: usize) -> (at: usize)
    ensures
        at == skip_whitespace(line@, from as int),
{
    let mut at: usize = from;
    while at < line.len() && whitespace(line[at])
        invariant
            skip_whitespace(line@, from as int) == skip_whitespace(line@, at as int),
        decreases line.len() - at,
    {
        at += 1;
    }
    at
}

/// Position of the first whitespace character at or after `from`.
pub fn find_whitespace_at(line: &Vec<char>, from: usize) -> (at: usize)
    ensures
        at == find_whitespace(line@, from as int),
{
    let mut at: usize = from;
    while at < line.len() && !whitespace(line[at])
        invariant
            find_whitespace(line@, from as int) == find_whitespace(line@, at as int),
        decreases line.len() - at,
    {
        at += 1;
    }
    at
}

/// Position of the first line feed at or after `from`.
pub fn find_newline_at(text: &Vec<char>, from: usize) -> (at: usize)
    ensures
        at == find_newline(text@, from as int),
{
    let mut at: usize = from;
    while at < text.len() && text[at] != '\n'
        invariant
            find_newline(text@, from as int) == find_newline(text@, at as int),
        decreases text.len() - at,
    {
        at += 1;
    }
    at
}

/// Appends the characters `chars[from..to]` to `s`.
pub(crate) fn push_chars(s: &mut String, chars: &Vec<char>, from: usize, to: usize)
    requires
        from <= to <= chars.len(),
    ensures
        final(s)@ == old(s)@ + chars@.subrange(from as int, to as int),
{
    let mut at: usize = from;
    while at < to
        invariant
            from <= at <= to <= chars.len(),
            s@ == old(s)@ + chars@.subrange(from as int, at as int),
        decreases to - at,
    {
        s.push(chars[at]);
        at += 1;
    }
}

/// The string made of the characters `chars[from..to]`.
pub(crate) fn string_of(chars: &Vec<char>, from: usize, to: usize) -> (s: String)
    requires
        from <= to <= chars.len(),
    ensures
        s@ == chars@.subrange(from as int, to as int),
{
    let mut s = String::new();
    push_chars(&mut s, chars, from, to);
    s
}

/// A number in decimal, without leading zeros.
pub fn decimal_string(n: u64) -> (s: String)
    ensures
        s@ == decimal(n as nat),
{
    // The digits below `rest`, least significant first.
    let mut low: Vec<char> = Vec::new();
    let mut rest: u64 = n;
    while rest >= 10
        invariant
            decimal(n as nat) == decimal(rest as nat) + low@.reverse(),
        decreases rest,
    {
        let d: u8 = (rest % 10) as u8;
        low.push((48u8 + d) as char);
        rest = rest / 10;
    }
    let mut s = String::new();
    s.push((48u8 + rest as u8) as char);
    let mut k: usize = low.len();
    while k > 0
        invariant
            k <= low.len(),
            s@ == decimal(rest as nat) + low@.reverse().take(low.len() - k),
        decreases k,
    {
        k -= 1;
        s.push(low[k]);
    }
    s
}

/// Splits a text into its lines.
pub fn split_lines(text: &Vec<char>) -> (out: Vec<Vec<char>>)
    ensures
        lines_view(out@) == lines(text@),
{
    let n = text.len();
    let mut out: Vec<Vec<char>> = Vec::new();
    let mut start: usize = 0;
    while start < n
        invariant
            n == text.len(),
            start <= n,
            lines(text@) == lines_view(out@) + lines_from(text@, start as int),
        decreases n - start,
    {
        let end = find_newline_at(text, start);
        proof {
            lemma_find_newline(text@, start as int);
        }
        let stop = if end > start && text[end - 1] == '\r' {
            end - 1
        } else {
            end
        };
        let mut line: Vec<char> = Vec::new();
        let mut at: usize = start;
        while at < stop
            invariant
                start <= at <= stop <= text.len(),
                line@ == text@.subrange(start as int, at as int),
            decreases stop - at,
        {
            line.push(text[at]);
            at += 1;
        }
        assert(line@ == without_cr(text@.subrange(start as int, end as int)));
        out.push(line);
        start = if end == n {
            n
        } else {
            end + 1
        };
    }
    out
}

} // verus!
