//! Source locations for error reports: from a byte offset to a line and
//! column, and to the text of the line.
use vstd::prelude::*;

use crate::chars::len_utf8;
use crate::lexer::{
    byte_len, byte_offset, lemma_byte_len_is_utf8_len, lemma_byte_offset_full,
    lemma_byte_offset_mono, lemma_byte_offset_step,
};

verus! {

/// The 1-based line and column just after the characters `t`: each newline
/// starts a new line at column 1; every other character moves one column on.
pub open spec fn location(t: Seq<char>) -> (int, int)
    decreases t.len(),
{
    if t.len() == 0 {
        (1, 1)
    } else {
        let (l, c) = location(t.drop_last());
        if t.last() == '\n' {
            (l + 1, 1)
        } else {
            (l, c + 1)
        }
    }
}

/// The number of newlines in `t`.
pub open spec fn newlines(t: Seq<char>) -> nat {
    t.filter(|c: char| c == '\n').len()
}

proof fn lemma_newlines_step(t: Seq<char>)
    requires
        t.len() > 0,
    ensures
        newlines(t) == newlines(t.drop_last()) + if t.last() == '\n' { 1nat } else { 0nat },
{
    reveal(Seq::filter);
}

/// Lines and columns are counted: the line just after `t` is one more than
/// the number of newlines in `t`, and the column is one more than the number
/// of characters after the last newline, or after the start if there is none.
pub proof fn lemma_location_counts(t: Seq<char>)
    ensures
        location(t).0 == 1 + newlines(t),
        (forall|k: int| 0 <= k < t.len() ==> t[k] != '\n') ==> location(t).1 == t.len() + 1,
        forall|j: int|
            0 <= j < t.len() && t[j] == '\n' && (forall|k: int| j < k < t.len() ==> t[k] != '\n')
                ==> location(t).1 == t.len() - j,
    decreases t.len(),
{
    if t.len() > 0 {
        let p = t.drop_last();
        lemma_location_counts(p);
        lemma_newlines_step(t);
        if t.last() == '\n' {
            assert forall|j: int|
                0 <= j < t.len() && t[j] == '\n' && (forall|k: int| j < k < t.len() ==> t[k] != '\n') implies
                location(t).1 == t.len() - j by {
                if j < t.len() - 1 {
                    assert(t[t.len() - 1] != '\n');
                }
            }
        } else {
            if forall|k: int| 0 <= k < t.len() ==> t[k] != '\n' {
                assert forall|k: int| 0 <= k < p.len() implies p[k] != '\n' by {
                    assert(p[k] == t[k]);
                }
            }
            assert forall|j: int|
                0 <= j < t.len() && t[j] == '\n' && (forall|k: int| j < k < t.len() ==> t[k] != '\n') implies
                location(t).1 == t.len() - j by {
                assert(j < p.len());
                assert(p[j] == t[j]);
                assert forall|k: int| j < k < p.len() implies p[k] != '\n' by {
                    assert(p[k] == t[k]);
                }
            }
        }
    }
}

/// The number of characters of `s` that start before byte `offset`.
pub open spec fn chars_before(s: Seq<char>, offset: int) -> int {
    chars_before_from(s, 0, offset)
}

pub open spec fn chars_before_from(s: Seq<char>, i: int, offset: int) -> int
    decreases s.len() - i,
{
    if !(0 <= i < s.len()) || byte_offset(s, i) >= offset {
        i
    } else {
        chars_before_from(s, i + 1, offset)
    }
}

/// The position where the line containing position `k` starts.
pub open spec fn line_start(s: Seq<char>, k: int) -> int
    decreases k,
{
    if k <= 0 {
        0
    } else if s[k - 1] == '\n' {
        k
    } else {
        line_start(s, k - 1)
    }
}

/// The position of the newline ending the line containing position `k`, or
/// the end of `s`.
pub open spec fn line_end(s: Seq<char>, k: int) -> int
    decreases s.len() - k,
{
    if !(0 <= k < s.len()) {
        s.len() as int
    } else if s[k] == '\n' {
        k
    } else {
        line_end(s, k + 1)
    }
}

/// Whether `offset` is the byte offset of a character position of `s`.
pub open spec fn is_char_offset(s: Seq<char>, offset: int) -> bool {
    exists|k: int| 0 <= k <= s.len() && byte_offset(s, k) == offset
}

proof fn lemma_line_start(s: Seq<char>, k: int)
    requires
        0 <= k <= s.len(),
    ensures
        0 <= line_start(s, k) <= k,
        line_start(s, k) == 0 || s[line_start(s, k) - 1] == '\n',
        forall|i: int| line_start(s, k) <= i < k ==> s[i] != '\n',
        location(s.take(k)).0 == location(s.take(line_start(s, k))).0,
        location(s.take(k)).1 == k - line_start(s, k) + 1,
    decreases k,
{
    if k > 0 {
        assert(s.take(k).drop_last() =~= s.take(k - 1));
        assert(s.take(k).last() == s[k - 1]);
        if s[k - 1] != '\n' {
            lemma_line_start(s, k - 1);
        }
    } else {
        assert(s.take(0) =~= Seq::<char>::empty());
    }
}

proof fn lemma_line_end(s: Seq<char>, k: int)
    requires
        0 <= k <= s.len(),
    ensures
        k <= line_end(s, k) <= s.len(),
        line_end(s, k) == s.len() || s[line_end(s, k)] == '\n',
        forall|i: int| k <= i < line_end(s, k) ==> s[i] != '\n',
    decreases s.len() - k,
{
    if k < s.len() && s[k] != '\n' {
        lemma_line_end(s, k + 1);
    }
}

/// The line around position `k` is the longest stretch without a newline
/// that holds `k`; as many newlines come before it as the line number of `k`
/// less one, and `k` is as far into it as its column less one.
pub proof fn lemma_line_around(s: Seq<char>, k: int)
    requires
        0 <= k <= s.len(),
    ensures
        0 <= line_start(s, k) <= k <= line_end(s, k) <= s.len(),
        line_start(s, k) == 0 || s[line_start(s, k) - 1] == '\n',
        line_end(s, k) == s.len() || s[line_end(s, k)] == '\n',
        forall|i: int| line_start(s, k) <= i < line_end(s, k) ==> s[i] != '\n',
        newlines(s.take(line_start(s, k))) + 1 == location(s.take(k)).0,
        location(s.take(k)).1 == k - line_start(s, k) + 1,
{
    lemma_line_start(s, k);
    lemma_line_end(s, k);
    lemma_location_counts(s.take(line_start(s, k)));
}

fn chars_of(source: &str) -> (r: Vec<char>)
    ensures
        r@ == source@,
        byte_len(source@) <= usize::MAX,
{
    let n = source.unicode_len();
    let mut chars: Vec<char> = Vec::new();
    let mut i: usize = 0;
    while i < n
        invariant
            n == source@.len(),
            0 <= i <= n,
            chars@ == source@.take(i as int),
        decreases n - i,
    {
        chars.push(source.get_char(i));
        i = i + 1;
        assert(chars@ =~= source@.take(i as int));
    }
    assert(chars@ =~= source@);
    let bytes = source.as_bytes();
    let _ = bytes.len();
    proof {
        lemma_byte_len_is_utf8_len(source@);
    }
    chars
}

proof fn lemma_byte_offset_zero(s: Seq<char>)
    ensures
        byte_offset(s, 0) == 0,
{
    assert(s.take(0) =~= Seq::<char>::empty());
}

/// Converts a byte offset to a 1-indexed (line, column) pair.
pub fn offset_to_location(source: &str, offset: usize) -> (r: (usize, usize))
    requires
        source@.len() < usize::MAX,
    ensures
        r.0 == location(source@.take(chars_before(source@, offset as int))).0,
        r.1 == location(source@.take(chars_before(source@, offset as int))).1,
{
    let chars = chars_of(source);
    let ghost s = chars@;
    let mut line: usize = 1;
    let mut col: usize = 1;
    let mut i: usize = 0;
    let mut at: usize = 0;
    proof {
        lemma_byte_offset_zero(s);
        assert(s.take(0) =~= Seq::<char>::empty());
    }
    while i < chars.len() && at < offset
        invariant
            s == chars@,
            s == source@,
            s.len() < usize::MAX,
            byte_len(s) <= usize::MAX,
            0 <= i <= s.len(),
            at == byte_offset(s, i as int),
            chars_before(s, offset as int) == chars_before_from(s, i as int, offset as int),
            (line as int, col as int) == location(s.take(i as int)),
            line <= i + 1,
            col <= i + 1,
        decreases s.len() - i,
    {
        let ch = chars[i];
        proof {
            lemma_byte_offset_step(s, i as int);
            lemma_byte_offset_mono(s, i + 1, s.len() as int);
            lemma_byte_offset_full(s);
            assert(s.take(i + 1).drop_last() =~= s.take(i as int));
        }
        if ch == '\n' {
            line = line + 1;
            col = 1;
        } else {
            col = col + 1;
        }
        at = at + len_utf8(ch);
        i = i + 1;
    }
    (line, col)
}

/// The text of the source line containing byte `offset`, without its
/// newline.
pub fn source_line_at(source: &str, offset: usize) -> (r: &str)
    requires
        is_char_offset(source@, offset as int),
    ensures
        r@ == source@.subrange(
            line_start(source@, chars_before(source@, offset as int)),
            line_end(source@, chars_before(source@, offset as int)),
        ),
{
    let chars = chars_of(source);
    let ghost s = chars@;
    let mut i: usize = 0;
    let mut at: usize = 0;
    proof {
        lemma_byte_offset_zero(s);
    }
    while i < chars.len() && at < offset
        invariant
            s == chars@,
            s == source@,
            byte_len(s) <= usize::MAX,
            0 <= i <= s.len(),
            at == byte_offset(s, i as int),
            chars_before(s, offset as int) == chars_before_from(s, i as int, offset as int),
        decreases s.len() - i,
    {
        proof {
            lemma_byte_offset_step(s, i as int);
            lemma_byte_offset_mono(s, i + 1, s.len() as int);
            lemma_byte_offset_full(s);
        }
        at = at + len_utf8(chars[i]);
        i = i + 1;
    }
    let k = i;
    let mut start = k;
    while start > 0 && chars[start - 1] != '\n'
        invariant
            s == chars@,
            0 <= start <= k <= s.len(),
            line_start(s, start as int) == line_start(s, k as int),
        decreases start,
    {
        start = start - 1;
    }
    let mut end = k;
    while end < chars.len() && chars[end] != '\n'
        invariant
            s == chars@,
            0 <= k <= end <= s.len(),
            line_end(s, end as int) == line_end(s, k as int),
        decreases s.len() - end,
    {
        end = end + 1;
    }
    source.substring_char(start, end)
}

} // verus!
