//! The two accumulator tables for one input file: per-length record counts
//! and per-(length, position, symbol) occurrence counts. A [`FreqTable`]
//! holds both; its counters are verified against a mathematical model of the
//! sequence of trimmed lines recorded so far.

use vstd::prelude::*;

use crate::symbols::{aa_index, aa_index_spec, AMINO_ACIDS};
use crate::trim::{trim_line, trim_spec};

verus! {

/// Longest sequence length that is tabulated; longer lines (and empty ones)
/// are discarded.
pub const MAX_LENGTH: usize = 70;

/// How many of the recorded lines have exactly the given length.
pub open spec fn count_len(lines: Seq<Seq<char>>, len: int) -> int
    decreases lines.len(),
{
    if lines.len() == 0 {
        0
    } else {
        count_len(lines.drop_last(), len) + if lines.last().len() == len {
            1int
        } else {
            0int
        }
    }
}

/// How many of the recorded lines have exactly the given length and carry
/// the alphabet symbol of index `k` at position `pos`.
pub open spec fn count_sym(lines: Seq<Seq<char>>, len: int, pos: int, k: int) -> int
    decreases lines.len(),
{
    if lines.len() == 0 {
        0
    } else {
        count_sym(lines.drop_last(), len, pos, k) + if lines.last().len() == len && 0 <= pos < len
            && aa_index_spec(lines.last()[pos]) == Some(k) {
            1int
        } else {
            0int
        }
    }
}

/// A length's count never exceeds the number of recorded lines.
pub proof fn lemma_count_len_le(lines: Seq<Seq<char>>, len: int)
    ensures
        0 <= count_len(lines, len) <= lines.len(),
    decreases lines.len(),
{
    if lines.len() > 0 {
        lemma_count_len_le(lines.drop_last(), len);
    }
}

/// A symbol's count at a position never exceeds the count of lines of that
/// length.
pub proof fn lemma_count_sym_le(lines: Seq<Seq<char>>, len: int, pos: int, k: int)
    ensures
        0 <= count_sym(lines, len, pos, k) <= count_len(lines, len),
    decreases lines.len(),
{
    if lines.len() > 0 {
        lemma_count_sym_le(lines.drop_last(), len, pos, k);
    }
}

/// Recording one more line raises exactly the count of its length.
pub proof fn lemma_count_len_push(lines: Seq<Seq<char>>, l: Seq<char>, len: int)
    ensures
        count_len(lines.push(l), len) == count_len(lines, len) + if l.len() == len {
            1int
        } else {
            0int
        },
{
    assert(lines.push(l).drop_last() =~= lines);
}

/// Recording one more line raises exactly the symbol counts of its length
/// and positions.
pub proof fn lemma_count_sym_push(lines: Seq<Seq<char>>, l: Seq<char>, len: int, pos: int, k: int)
    ensures
        count_sym(lines.push(l), len, pos, k) == count_sym(lines, len, pos, k) + if l.len() == len
            && 0 <= pos < len && aa_index_spec(l[pos]) == Some(k) {
            1int
        } else {
            0int
        },
{
    assert(lines.push(l).drop_last() =~= lines);
}

/// Sum of the symbol counts at one position over the alphabet indices below
/// `k`.
pub open spec fn sum_sym_upto(lines: Seq<Seq<char>>, len: int, pos: int, k: int) -> int
    decreases k,
{
    if k <= 0 {
        0
    } else {
        sum_sym_upto(lines, len, pos, k - 1) + count_sym(lines, len, pos, k - 1)
    }
}

/// Sum of the symbol counts at one position over the whole alphabet.
pub open spec fn recognized_count(lines: Seq<Seq<char>>, len: int, pos: int) -> int {
    sum_sym_upto(lines, len, pos, AMINO_ACIDS as int)
}

/// How many of the recorded lines have exactly the given length and carry a
/// character outside the alphabet at position `pos`.
pub open spec fn unrecognized_count(lines: Seq<Seq<char>>, len: int, pos: int) -> int
    decreases lines.len(),
{
    if lines.len() == 0 {
        0
    } else {
        unrecognized_count(lines.drop_last(), len, pos) + if lines.last().len() == len && 0 <= pos
            < len && aa_index_spec(lines.last()[pos]) is None {
            1int
        } else {
            0int
        }
    }
}

/// Recording one more line adds its one recognised symbol, if any, to the
/// partial symbol sum at a position.
proof fn lemma_sum_sym_upto_push(lines: Seq<Seq<char>>, l: Seq<char>, len: int, pos: int, k: int)
    requires
        0 <= k <= AMINO_ACIDS,
    ensures
        sum_sym_upto(lines.push(l), len, pos, k) == sum_sym_upto(lines, len, pos, k) + if l.len()
            == len && 0 <= pos < len && (match aa_index_spec(l[pos]) {
            Some(j) => 0 <= j < k,
            None => false,
        }) {
            1int
        } else {
            0int
        },
    decreases k,
{
    if k > 0 {
        lemma_sum_sym_upto_push(lines, l, len, pos, k - 1);
        lemma_count_sym_push(lines, l, len, pos, k - 1);
    }
}

/// Every line of a length is counted at each of its positions exactly once:
/// either under its recognised symbol or as unrecognised. The sum of the
/// printed symbol counts plus the unrecognised remainder is the length's
/// record count.
pub proof fn lemma_position_partition(lines: Seq<Seq<char>>, len: int, pos: int)
    requires
        0 <= pos < len,
    ensures
        recognized_count(lines, len, pos) + unrecognized_count(lines, len, pos) == count_len(
            lines,
            len,
        ),
    decreases lines.len(),
{
    if lines.len() == 0 {
        lemma_sum_sym_upto_empty(lines, len, pos, AMINO_ACIDS as int);
    } else {
        let prefix = lines.drop_last();
        let l = lines.last();
        lemma_position_partition(prefix, len, pos);
        lemma_sum_sym_upto_push(prefix, l, len, pos, AMINO_ACIDS as int);
        assert(prefix.push(l) =~= lines);
        if l.len() == len {
            crate::symbols::lemma_aa_index_in_range(l[pos]);
        }
    }
}

/// The partial symbol sums of an empty record are zero.
proof fn lemma_sum_sym_upto_empty(lines: Seq<Seq<char>>, len: int, pos: int, k: int)
    requires
        lines.len() == 0,
        0 <= k,
    ensures
        sum_sym_upto(lines, len, pos, k) == 0,
    decreases k,
{
    if k > 0 {
        lemma_sum_sym_upto_empty(lines, len, pos, k - 1);
    }
}

/// The unrecognised remainder at a position is never negative.
proof fn lemma_unrecognized_nonneg(lines: Seq<Seq<char>>, len: int, pos: int)
    ensures
        0 <= unrecognized_count(lines, len, pos),
    decreases lines.len(),
{
    if lines.len() > 0 {
        lemma_unrecognized_nonneg(lines.drop_last(), len, pos);
    }
}

/// Partial symbol sums are never negative.
proof fn lemma_sum_sym_upto_nonneg(lines: Seq<Seq<char>>, len: int, pos: int, k: int)
    ensures
        0 <= sum_sym_upto(lines, len, pos, k),
    decreases k,
{
    if k > 0 {
        lemma_sum_sym_upto_nonneg(lines, len, pos, k - 1);
        lemma_count_sym_le(lines, len, pos, k - 1);
    }
}

/// The symbol counts at any position of a length sum to at most that
/// length's record count.
pub proof fn lemma_position_sum_bounded(lines: Seq<Seq<char>>, len: int, pos: int)
    requires
        0 <= pos < len,
    ensures
        0 <= recognized_count(lines, len, pos) <= count_len(lines, len),
{
    lemma_position_partition(lines, len, pos);
    lemma_unrecognized_nonneg(lines, len, pos);
    lemma_sum_sym_upto_nonneg(lines, len, pos, AMINO_ACIDS as int);
}

/// The accumulator tables for one input file. The view of a table is the
/// sequence of trimmed lines recorded into it so far; every counter is tied
/// to that sequence by [`FreqTable::wf`].
pub struct FreqTable {
    seen: u64,
    length_counts: Vec<u64>,
    distributions: Vec<Vec<Vec<u64>>>,
    lines: Ghost<Seq<Seq<char>>>,
}

impl View for FreqTable {
    type V = Seq<Seq<char>>;

    closed spec fn view(&self) -> Seq<Seq<char>> {
        self.lines@
    }
}

impl FreqTable {
    /// Well-formedness: the tables have their fixed shape and every counter
    /// equals the corresponding count over the recorded lines.
    pub closed spec fn wf(&self) -> bool {
        &&& self.seen as int == self.lines@.len()
        &&& self.length_counts@.len() == MAX_LENGTH + 1
        &&& self.distributions@.len() == MAX_LENGTH + 1
        &&& forall|l: int|
            0 <= l <= MAX_LENGTH ==> (#[trigger] self.distributions@[l])@.len() == MAX_LENGTH
        &&& forall|l: int, p: int|
            0 <= l <= MAX_LENGTH && 0 <= p < MAX_LENGTH ==> (#[trigger] self.distributions@[l]@[
                p
            ])@.len() == AMINO_ACIDS
        &&& self.length_counts@[0] == 0
        &&& forall|l: int|
            1 <= l <= MAX_LENGTH ==> (#[trigger] self.length_counts@[l]) as int == count_len(
                self.lines@,
                l,
            )
        &&& forall|l: int, p: int, k: int|
            1 <= l <= MAX_LENGTH && 0 <= p < MAX_LENGTH && 0 <= k < AMINO_ACIDS ==> (
            #[trigger] self.distributions@[l]@[p]@[k]) as int == count_sym(self.lines@, l, p, k)
    }

    /// The count of lines recorded with exactly the given length.
    pub closed spec fn spec_length_count(&self, len: int) -> int {
        self.length_counts@[len] as int
    }

    /// The count of lines of the given length carrying symbol `k` at `pos`.
    pub closed spec fn spec_symbol_count(&self, len: int, pos: int, k: int) -> int {
        self.distributions@[len]@[pos]@[k] as int
    }

    /// Fresh, empty tables: no line recorded, every counter zero.
    pub fn new() -> (t: FreqTable)
        ensures
            t.wf(),
            t@ == Seq::<Seq<char>>::empty(),
    {
        let mut length_counts: Vec<u64> = Vec::new();
        while length_counts.len() < MAX_LENGTH + 1
            invariant
                length_counts@.len() <= MAX_LENGTH + 1,
                forall|l: int| 0 <= l < length_counts@.len() ==> length_counts@[l] == 0,
            decreases MAX_LENGTH + 1 - length_counts@.len(),
        {
            length_counts.push(0);
        }
        let mut distributions: Vec<Vec<Vec<u64>>> = Vec::new();
        while distributions.len() < MAX_LENGTH + 1
            invariant
                distributions@.len() <= MAX_LENGTH + 1,
                forall|l: int|
                    0 <= l < distributions@.len() ==> (#[trigger] distributions@[l])@.len()
                        == MAX_LENGTH,
                forall|l: int, p: int|
                    0 <= l < distributions@.len() && 0 <= p < MAX_LENGTH ==> (
                    #[trigger] distributions@[l]@[p])@.len() == AMINO_ACIDS,
                forall|l: int, p: int, k: int|
                    0 <= l < distributions@.len() && 0 <= p < MAX_LENGTH && 0 <= k < AMINO_ACIDS
                        ==> (#[trigger] distributions@[l]@[p]@[k]) == 0,
            decreases MAX_LENGTH + 1 - distributions@.len(),
        {
            let mut row: Vec<Vec<u64>> = Vec::new();
            while row.len() < MAX_LENGTH
                invariant
                    row@.len() <= MAX_LENGTH,
                    forall|p: int| 0 <= p < row@.len() ==> (#[trigger] row@[p])@.len()
                        == AMINO_ACIDS,
                    forall|p: int, k: int|
                        0 <= p < row@.len() && 0 <= k < AMINO_ACIDS ==> (#[trigger] row@[p]@[k])
                            == 0,
                decreases MAX_LENGTH - row@.len(),
            {
                let mut cell: Vec<u64> = Vec::new();
                while cell.len() < AMINO_ACIDS
                    invariant
                        cell@.len() <= AMINO_ACIDS,
                        forall|k: int| 0 <= k < cell@.len() ==> cell@[k] == 0,
                    decreases AMINO_ACIDS - cell@.len(),
                {
                    cell.push(0);
                }
                row.push(cell);
            }
            distributions.push(row);
        }
        let t = FreqTable { seen: 0, length_counts, distributions, lines: Ghost(Seq::empty()) };
        t
    }

    /// Records one input line: trims it, and when the trimmed length lies in
    /// `1..=MAX_LENGTH`, counts the line under that length and counts each
    /// recognised symbol at its position. A line of any other length, and any
    /// unrecognised character, changes no counter; the line is still
    /// recorded in the view.
    pub fn add_line(&mut self, line: &Vec<char>)
        requires
            old(self).wf(),
            old(self)@.len() < u64::MAX,
        ensures
            final(self).wf(),
            final(self)@ == old(self)@.push(trim_spec(line@)),
    {
        let ghost prev = self.lines@;
        let trimmed = trim_line(line);
        let ghost l = trimmed@;
        let length = trimmed.len();
        self.seen = self.seen + 1;
        if 1 <= length && length <= MAX_LENGTH {
            let c = self.length_counts[length];
            proof {
                lemma_count_len_le(prev, length as int);
            }
            self.length_counts[length] = c + 1;
            let mut i: usize = 0;
            while i < length
                invariant
                    i <= length,
                    trimmed@ == l,
                    l.len() == length,
                    1 <= length <= MAX_LENGTH,
                    self.lines@ == prev,
                    self.seen as int == prev.len() + 1,
                    self.length_counts@.len() == MAX_LENGTH + 1,
                    self.distributions@.len() == MAX_LENGTH + 1,
                    forall|l2: int|
                        0 <= l2 <= MAX_LENGTH ==> (#[trigger] self.distributions@[l2])@.len()
                            == MAX_LENGTH,
                    forall|l2: int, p: int|
                        0 <= l2 <= MAX_LENGTH && 0 <= p < MAX_LENGTH ==> (
                        #[trigger] self.distributions@[l2]@[p])@.len() == AMINO_ACIDS,
                    self.length_counts@[0] == 0,
                    self.length_counts@[length as int] as int == count_len(prev, length as int) + 1,
                    forall|l2: int|
                        1 <= l2 <= MAX_LENGTH && l2 != length ==> (
                        #[trigger] self.length_counts@[l2]) as int == count_len(prev, l2),
                    forall|p: int, k: int|
                        0 <= p < i && 0 <= k < AMINO_ACIDS ==> (
                        #[trigger] self.distributions@[length as int]@[p]@[k]) as int == count_sym(
                            prev,
                            length as int,
                            p,
                            k,
                        ) + if aa_index_spec(l[p]) == Some(k) {
                            1int
                        } else {
                            0int
                        },
                    forall|l2: int, p: int, k: int|
                        1 <= l2 <= MAX_LENGTH && 0 <= p < MAX_LENGTH && 0 <= k < AMINO_ACIDS && (l2
                            != length || p >= i) ==> (
                        #[trigger] self.distributions@[l2]@[p]@[k]) as int == count_sym(
                            prev,
                            l2,
                            p,
                            k,
                        ),
                decreases length - i,
            {
                match aa_index(trimmed[i]) {
                    Some(k) => {
                        let cur = self.distributions[length][i][k];
                        proof {
                            lemma_count_sym_le(prev, length as int, i as int, k as int);
                            lemma_count_len_le(prev, length as int);
                        }
                        self.distributions[length][i][k] = cur + 1;
                    },
                    None => {},
                }
                i = i + 1;
            }
            proof {
                self.lines@ = prev.push(l);
                assert forall|l2: int| 1 <= l2 <= MAX_LENGTH implies (
                #[trigger] self.length_counts@[l2]) as int == count_len(self.lines@, l2) by {
                    lemma_count_len_push(prev, l, l2);
                }
                assert forall|l2: int, p: int, k: int|
                    1 <= l2 <= MAX_LENGTH && 0 <= p < MAX_LENGTH && 0 <= k
                        < AMINO_ACIDS implies (#[trigger] self.distributions@[l2]@[p]@[k]) as int
                    == count_sym(self.lines@, l2, p, k) by {
                    lemma_count_sym_push(prev, l, l2, p, k);
                }
            }
        } else {
            proof {
                self.lines@ = prev.push(l);
                assert forall|l2: int| 1 <= l2 <= MAX_LENGTH implies (
                #[trigger] self.length_counts@[l2]) as int == count_len(self.lines@, l2) by {
                    lemma_count_len_push(prev, l, l2);
                }
                assert forall|l2: int, p: int, k: int|
                    1 <= l2 <= MAX_LENGTH && 0 <= p < MAX_LENGTH && 0 <= k
                        < AMINO_ACIDS implies (#[trigger] self.distributions@[l2]@[p]@[k]) as int
                    == count_sym(self.lines@, l2, p, k) by {
                    lemma_count_sym_push(prev, l, l2, p, k);
                }
            }
        }
    }

    /// The count of lines recorded with exactly the given length.
    pub fn length_count(&self, len: usize) -> (c: u64)
        requires
            self.wf(),
            1 <= len <= MAX_LENGTH,
        ensures
            c as int == count_len(self@, len as int),
            c as int == self.spec_length_count(len as int),
    {
        self.length_counts[len]
    }

    /// The count of lines of the given length that carry the alphabet symbol
    /// of index `k` at position `pos`.
    pub fn symbol_count(&self, len: usize, pos: usize, k: usize) -> (c: u64)
        requires
            self.wf(),
            1 <= len <= MAX_LENGTH,
            pos < MAX_LENGTH,
            k < AMINO_ACIDS,
        ensures
            c as int == count_sym(self@, len as int, pos as int, k as int),
            c as int == self.spec_symbol_count(len as int, pos as int, k as int),
    {
        self.distributions[len][pos][k]
    }

    /// The number of lines recorded so far (qualifying or not).
    pub fn lines_seen(&self) -> (n: u64)
        requires
            self.wf(),
        ensures
            n as int == self@.len(),
    {
        self.seen
    }
}

/// A well-formed table has recorded at most `u64::MAX` lines, so every sum
/// of per-length counts fits its counter type.
pub proof fn lemma_wf_lines_bounded(t: &FreqTable)
    requires
        t.wf(),
    ensures
        t@.len() <= u64::MAX,
{
}

/// Tables that recorded the same lines hold the same counts: what a table
/// reports is a function of its own file's lines alone, untouched by any
/// file processed before or after into another table.
pub proof fn lemma_counts_determined_by_lines(a: &FreqTable, b: &FreqTable)
    requires
        a.wf(),
        b.wf(),
        a@ == b@,
    ensures
        forall|len: int|
            1 <= len <= MAX_LENGTH ==> a.spec_length_count(len) == b.spec_length_count(len),
        forall|len: int, pos: int, k: int|
            1 <= len <= MAX_LENGTH && 0 <= pos < MAX_LENGTH && 0 <= k < AMINO_ACIDS
                ==> a.spec_symbol_count(len, pos, k) == b.spec_symbol_count(len, pos, k),
{
}

} // verus!
