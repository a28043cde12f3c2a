//! Stripping surrounding whitespace from an input line before its length is
//! classified. Covers the ASCII whitespace characters, which includes every
//! line terminator an input file may carry.

use vstd::prelude::*;

verus! {

/// ASCII whitespace: space, tab, line feed, vertical tab, form feed,
/// carriage return.
pub open spec fn is_space(c: char) -> bool {
    c == ' ' || c == '\t' || c == '\n' || c == '\u{b}' || c == '\u{c}' || c == '\r'
}

/// A line with its leading and trailing whitespace removed.
pub open spec fn trim_spec(s: Seq<char>) -> Seq<char>
    decreases s.len(),
{
    if s.len() > 0 && is_space(s[0]) {
        trim_spec(s.drop_first())
    } else if s.len() > 0 && is_space(s.last()) {
        trim_spec(s.drop_last())
    } else {
        s
    }
}

/// The trimmed line is the slice between the first and last non-whitespace
/// characters (empty when the line is all whitespace).
proof fn lemma_trim_is_subrange(s: Seq<char>, i: int, j: int)
    requires
        0 <= i <= j <= s.len(),
        forall|m: int| 0 <= m < i ==> is_space(s[m]),
        forall|m: int| j <= m < s.len() ==> is_space(s[m]),
        i < j ==> !is_space(s[i]) && !is_space(s[j - 1]),
        i == j ==> i == s.len(),
    ensures
        trim_spec(s) == s.subrange(i, j),
    decreases s.len(),
{
    if s.len() == 0 {
        assert(s.subrange(i, j) =~= s);
    } else if is_space(s[0]) {
        assert(i >= 1);
        let t = s.drop_first();
        assert(forall|m: int| 0 <= m < i - 1 ==> is_space(#[trigger] t[m]));
        assert(forall|m: int| j - 1 <= m < t.len() ==> is_space(#[trigger] t[m]));
        lemma_trim_is_subrange(t, i - 1, j - 1);
        assert(s.subrange(i, j) =~= t.subrange(i - 1, j - 1));
    } else if is_space(s.last()) {
        assert(i == 0);
        assert(j < s.len());
        let t = s.drop_last();
        assert(forall|m: int| j <= m < t.len() ==> is_space(#[trigger] t[m]));
        lemma_trim_is_subrange(t, i, j);
        assert(s.subrange(i, j) =~= t.subrange(i, j));
    } else {
        assert(i == 0);
        assert(j == s.len());
        assert(s.subrange(0, s.len() as int) =~= s);
    }
}

/// Copies a line without its leading and trailing whitespace.
pub fn trim_line(line: &Vec<char>) -> (r: Vec<char>)
    ensures
        r@ == trim_spec(line@),
{
    let mut start: usize = 0;
    while start < line.len() && (line[start] == ' ' || line[start] == '\t' || line[start]
        == '\n' || line[start] == '\u{b}' || line[start] == '\u{c}' || line[start] == '\r')
        invariant
            0 <= start <= line@.len(),
            forall|m: int| 0 <= m < start ==> is_space(line@[m]),
        decreases line@.len() - start,
    {
        start = start + 1;
    }
    let mut end: usize = line.len();
    while end > start && (line[end - 1] == ' ' || line[end - 1] == '\t' || line[end - 1]
        == '\n' || line[end - 1] == '\u{b}' || line[end - 1] == '\u{c}' || line[end - 1] == '\r')
        invariant
            start <= end <= line@.len(),
            forall|m: int| end <= m < line@.len() ==> is_space(line@[m]),
        decreases end,
    {
        end = end - 1;
    }
    let mut out: Vec<char> = Vec::new();
    let mut i: usize = start;
    while i < end
        invariant
            start <= i <= end <= line@.len(),
            out@ =~= line@.subrange(start as int, i as int),
        decreases end - i,
    {
        out.push(line[i]);
        assert(out@ =~= line@.subrange(start as int, i + 1));
        i = i + 1;
    }
    proof {
        // the backward scan stops at `start` only when everything from
        // `start` on is whitespace, which the forward scan rules out unless
        // `start` already reached the end of the line
        if start == end && start < line@.len() {
            assert(!is_space(line@[start as int]));
            assert(is_space(line@[start as int]));
        }
        lemma_trim_is_subrange(line@, start as int, end as int);
    }
    out
}

} // verus!
