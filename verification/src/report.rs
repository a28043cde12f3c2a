//! The report over one file's tables: the total record count and, for every
//! length with at least one record, its count and the non-zero symbol counts
//! at each position, in printing order. Percentages are quotients of the
//! counts listed here; formatting them is left to the caller.

use vstd::prelude::*;

use crate::symbols::{aa_index_spec, symbol_char, AMINO_ACIDS};
use crate::tables::{count_len, count_sym, FreqTable, MAX_LENGTH};

verus! {

/// One symbol's occurrence count at one position: the symbol's character,
/// its alphabet index, and how many records of the length carry it there.
#[derive(Debug, PartialEq)]
pub struct SymbolCount {
    pub symbol: char,
    pub index: usize,
    pub count: u64,
}

/// The non-zero symbol counts at one position of a length, in alphabet
/// order. `position` is the 1-indexed label under which the position is
/// printed.
#[derive(Debug, PartialEq)]
pub struct PositionReport {
    pub position: usize,
    pub entries: Vec<SymbolCount>,
}

/// One reported length: its record count and one entry per position.
#[derive(Debug, PartialEq)]
pub struct LengthReport {
    pub length: usize,
    pub count: u64,
    pub positions: Vec<PositionReport>,
}

/// The full report for one file: the total record count and the lengths
/// with at least one record, in increasing order.
#[derive(Debug, PartialEq)]
pub struct Report {
    pub total_records: u64,
    pub lengths: Vec<LengthReport>,
}

/// Sum of the record counts of the lengths `1..=len`.
pub open spec fn total_upto(lines: Seq<Seq<char>>, len: int) -> int
    decreases len,
{
    if len <= 0 {
        0
    } else {
        total_upto(lines, len - 1) + count_len(lines, len)
    }
}

/// The total record count: qualifying lines of any length.
pub open spec fn total_records_spec(lines: Seq<Seq<char>>) -> int {
    total_upto(lines, MAX_LENGTH as int)
}

/// The entries list, in strictly increasing alphabet order, exactly the
/// symbols with a non-zero count at the position, each with its count.
pub open spec fn entries_match(
    lines: Seq<Seq<char>>,
    len: int,
    pos: int,
    entries: Seq<SymbolCount>,
) -> bool {
    &&& forall|a: int, b: int|
        0 <= a < b < entries.len() ==> (#[trigger] entries[a].index) < (#[trigger] entries[b].index)
    &&& forall|e: int|
        0 <= e < entries.len() ==> {
            let sc = #[trigger] entries[e];
            &&& sc.index < AMINO_ACIDS
            &&& aa_index_spec(sc.symbol) == Some(sc.index as int)
            &&& sc.count as int == count_sym(lines, len, pos, sc.index as int)
            &&& sc.count > 0
        }
    &&& forall|k: int|
        0 <= k < AMINO_ACIDS && count_sym(lines, len, pos, k) > 0 ==> exists|e: int|
            0 <= e < entries.len() && (#[trigger] entries[e].index) as int == k
}

/// One position's report: the printed 1-indexed label and its entries.
pub open spec fn position_matches(
    lines: Seq<Seq<char>>,
    len: int,
    pos: int,
    pr: PositionReport,
) -> bool {
    &&& pr.position as int == pos + 1
    &&& entries_match(lines, len, pos, pr.entries@)
}

/// One length's report: a non-zero record count and one entry per position.
pub open spec fn length_matches(lines: Seq<Seq<char>>, lr: LengthReport) -> bool {
    &&& 1 <= lr.length <= MAX_LENGTH
    &&& lr.count as int == count_len(lines, lr.length as int)
    &&& lr.count > 0
    &&& lr.positions@.len() == lr.length
    &&& forall|p: int|
        0 <= p < lr.length ==> position_matches(lines, lr.length as int, p, #[trigger] lr.positions@[p])
}

/// The whole report: the exact total, and, in increasing order, exactly the
/// lengths with at least one record.
pub open spec fn report_matches(lines: Seq<Seq<char>>, r: Report) -> bool {
    &&& r.total_records as int == total_records_spec(lines)
    &&& forall|a: int, b: int|
        0 <= a < b < r.lengths@.len() ==> (#[trigger] r.lengths@[a].length) < (
        #[trigger] r.lengths@[b].length)
    &&& forall|i: int| 0 <= i < r.lengths@.len() ==> length_matches(lines, #[trigger] r.lengths@[i])
    &&& forall|l: int|
        1 <= l <= MAX_LENGTH && count_len(lines, l) > 0 ==> exists|i: int|
            0 <= i < r.lengths@.len() && (#[trigger] r.lengths@[i].length) as int == l
}

/// Sum of the record counts a report lists.
pub open spec fn sum_counts(s: Seq<LengthReport>) -> int
    decreases s.len(),
{
    if s.len() == 0 {
        0
    } else {
        sum_counts(s.drop_last()) + s.last().count
    }
}

/// No length's partial total exceeds the number of recorded lines.
proof fn lemma_total_upto_le(lines: Seq<Seq<char>>, len: int)
    ensures
        0 <= total_upto(lines, len) <= lines.len(),
    decreases lines.len(), len,
{
    if len <= 0 {
    } else if lines.len() == 0 {
        lemma_total_upto_empty(lines, len);
    } else {
        let prefix = lines.drop_last();
        let l = lines.last();
        lemma_total_upto_le(prefix, len);
        lemma_total_upto_push(prefix, l, len);
        assert(prefix.push(l) =~= lines);
    }
}

/// The partial totals of an empty record are zero.
proof fn lemma_total_upto_empty(lines: Seq<Seq<char>>, len: int)
    requires
        lines.len() == 0,
    ensures
        total_upto(lines, len) == 0,
    decreases len,
{
    if len > 0 {
        lemma_total_upto_empty(lines, len - 1);
    }
}

/// Recording one more line raises a partial total by one exactly when the
/// line's length lies in `1..=len`.
proof fn lemma_total_upto_push(lines: Seq<Seq<char>>, l: Seq<char>, len: int)
    ensures
        total_upto(lines.push(l), len) == total_upto(lines, len) + if 1 <= l.len() <= len {
            1int
        } else {
            0int
        },
    decreases len,
{
    if len > 0 {
        lemma_total_upto_push(lines, l, len - 1);
        crate::tables::lemma_count_len_push(lines, l, len);
    }
}

/// Builds the report over a table: the total record count, and the lengths
/// with records, in increasing order, each with its per-position non-zero
/// symbol counts. The sum of the listed counts equals the reported total.
pub fn build_report(t: &FreqTable) -> (r: Report)
    requires
        t.wf(),
    ensures
        report_matches(t@, r),
        sum_counts(r.lengths@) == r.total_records as int,
{
    proof {
        crate::tables::lemma_wf_lines_bounded(t);
    }
    let mut total: u64 = 0;
    let mut len: usize = 1;
    while len <= MAX_LENGTH
        invariant
            t.wf(),
            t@.len() <= u64::MAX,
            1 <= len <= MAX_LENGTH + 1,
            total as int == total_upto(t@, len as int - 1),
        decreases MAX_LENGTH + 1 - len,
    {
        let c = t.length_count(len);
        proof {
            lemma_total_upto_le(t@, len as int);
        }
        total = total + c;
        len = len + 1;
    }
    let mut lengths: Vec<LengthReport> = Vec::new();
    let mut len: usize = 1;
    while len <= MAX_LENGTH
        invariant
            t.wf(),
            1 <= len <= MAX_LENGTH + 1,
            forall|a: int, b: int|
                0 <= a < b < lengths@.len() ==> (#[trigger] lengths@[a].length) < (
                #[trigger] lengths@[b].length),
            forall|i: int|
                0 <= i < lengths@.len() ==> length_matches(t@, #[trigger] lengths@[i])
                    && lengths@[i].length < len,
            forall|l: int|
                1 <= l < len && count_len(t@, l) > 0 ==> exists|i: int|
                    0 <= i < lengths@.len() && (#[trigger] lengths@[i].length) as int == l,
            sum_counts(lengths@) == total_upto(t@, len as int - 1),
        decreases MAX_LENGTH + 1 - len,
    {
        let c = t.length_count(len);
        let ghost prev_lengths = lengths@;
        if c > 0 {
            let mut positions: Vec<PositionReport> = Vec::new();
            let mut pos: usize = 0;
            while pos < len
                invariant
                    t.wf(),
                    1 <= len <= MAX_LENGTH,
                    pos <= len,
                    positions@.len() == pos as int,
                    forall|p: int|
                        0 <= p < pos ==> position_matches(
                            t@,
                            len as int,
                            p,
                            #[trigger] positions@[p],
                        ),
                decreases len - pos,
            {
                let mut entries: Vec<SymbolCount> = Vec::new();
                let mut k: usize = 0;
                while k < AMINO_ACIDS
                    invariant
                        t.wf(),
                        1 <= len <= MAX_LENGTH,
                        pos < len,
                        k <= AMINO_ACIDS,
                        forall|a: int, b: int|
                            0 <= a < b < entries@.len() ==> (#[trigger] entries@[a].index) < (
                            #[trigger] entries@[b].index),
                        forall|e: int|
                            0 <= e < entries@.len() ==> {
                                let sc = #[trigger] entries@[e];
                                &&& sc.index < k
                                &&& aa_index_spec(sc.symbol) == Some(sc.index as int)
                                &&& sc.count as int == count_sym(
                                    t@,
                                    len as int,
                                    pos as int,
                                    sc.index as int,
                                )
                                &&& sc.count > 0
                            },
                        forall|j: int|
                            0 <= j < k && count_sym(t@, len as int, pos as int, j) > 0
                                ==> exists|e: int|
                                0 <= e < entries@.len() && (#[trigger] entries@[e].index) as int
                                    == j,
                    decreases AMINO_ACIDS - k,
                {
                    let sc = t.symbol_count(len, pos, k);
                    let ghost prev_entries = entries@;
                    if sc > 0 {
                        let sym = symbol_char(k);
                        entries.push(SymbolCount { symbol: sym, index: k, count: sc });
                    }
                    proof {
                        assert forall|j: int|
                            0 <= j < k + 1 && count_sym(t@, len as int, pos as int, j)
                                > 0 implies exists|e: int|
                            0 <= e < entries@.len() && (#[trigger] entries@[e].index) as int
                                == j by {
                            if j == k {
                                assert(entries@[entries@.len() - 1].index as int == j);
                            } else {
                                let e = choose|e: int|
                                    0 <= e < prev_entries.len() && (
                                    #[trigger] prev_entries[e].index) as int == j;
                                assert(entries@[e].index as int == j);
                            }
                        }
                    }
                    k = k + 1;
                }
                assert(entries_match(t@, len as int, pos as int, entries@));
                positions.push(PositionReport { position: pos + 1, entries });
                pos = pos + 1;
            }
            lengths.push(LengthReport { length: len, count: c, positions });
            proof {
                assert(lengths@.drop_last() =~= prev_lengths);
            }
        }
        proof {
            assert forall|l: int| 1 <= l < len + 1 && count_len(t@, l) > 0 implies exists|i: int|
                0 <= i < lengths@.len() && (#[trigger] lengths@[i].length) as int == l by {
                if l == len {
                    assert(lengths@[lengths@.len() - 1].length as int == l);
                } else {
                    let i = choose|i: int|
                        0 <= i < prev_lengths.len() && (#[trigger] prev_lengths[i].length) as int
                            == l;
                    assert(lengths@[i].length as int == l);
                }
            }
        }
        len = len + 1;
    }
    let ghost listed = lengths@;
    let r = Report { total_records: total, lengths };
    proof {
        assert forall|l: int| 1 <= l <= MAX_LENGTH && count_len(t@, l) > 0 implies exists|i: int|
            0 <= i < r.lengths@.len() && (#[trigger] r.lengths@[i].length) as int == l by {
            let i = choose|i: int| 0 <= i < listed.len() && (#[trigger] listed[i].length) as int == l;
            assert(r.lengths@[i].length as int == l);
        }
    }
    r
}

} // verus!
