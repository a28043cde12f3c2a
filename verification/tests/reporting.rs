use antibody::report::{build_report, LengthReport, Report};
use antibody::symbols::AMINO_ACIDS;
use antibody::tables::FreqTable;

fn report_of(lines: &[&str]) -> Report {
    let mut t = FreqTable::new();
    for line in lines {
        let chars: Vec<char> = line.chars().collect();
        t.add_line(&chars);
    }
    build_report(&t)
}

fn length_entry<'a>(r: &'a Report, len: usize) -> &'a LengthReport {
    r.lengths.iter().find(|lr| lr.length == len).expect("length not reported")
}

fn percent(count: u64, total: u64) -> String {
    format!("{:.4}", 100.0 * count as f64 / total as f64)
}

#[test]
fn three_records_report() {
    let r = report_of(&["AC", "AC", "AG"]);
    assert_eq!(r.total_records, 3);
    assert_eq!(r.lengths.len(), 1);
    let lr = length_entry(&r, 2);
    assert_eq!(lr.count, 3);
    assert_eq!(percent(lr.count, r.total_records), "100.0000");
    assert_eq!(lr.positions.len(), 2);
    let p1 = &lr.positions[0];
    assert_eq!(p1.position, 1);
    assert_eq!(p1.entries.len(), 1);
    assert_eq!(p1.entries[0].symbol, 'A');
    assert_eq!(p1.entries[0].count, 3);
    assert_eq!(percent(p1.entries[0].count, lr.count), "100.0000");
    let p2 = &lr.positions[1];
    assert_eq!(p2.position, 2);
    assert_eq!(p2.entries.len(), 2);
    assert_eq!(p2.entries[0].symbol, 'C');
    assert_eq!(p2.entries[0].count, 2);
    assert_eq!(percent(p2.entries[0].count, lr.count), "66.6667");
    assert_eq!(p2.entries[1].symbol, 'G');
    assert_eq!(p2.entries[1].count, 1);
    assert_eq!(percent(p2.entries[1].count, lr.count), "33.3333");
}

#[test]
fn empty_input_reports_zero_total_and_no_lengths() {
    let r = report_of(&[]);
    assert_eq!(r.total_records, 0);
    assert!(r.lengths.is_empty());
    let blank_only = report_of(&["", "  "]);
    assert_eq!(blank_only.total_records, 0);
    assert!(blank_only.lengths.is_empty());
}

#[test]
fn total_equals_sum_of_reported_length_counts() {
    let r = report_of(&["A", "AC", "ACD", "AC", "ACDEF", "", "A"]);
    let sum: u64 = r.lengths.iter().map(|lr| lr.count).sum();
    assert_eq!(r.total_records, sum);
    assert_eq!(r.total_records, 6);
}

#[test]
fn reported_lengths_are_sorted_and_non_zero() {
    let r = report_of(&["ACD", "A", "ACDEF", "A"]);
    let lengths: Vec<usize> = r.lengths.iter().map(|lr| lr.length).collect();
    assert_eq!(lengths, vec![1, 3, 5]);
    for lr in &r.lengths {
        assert!(lr.count > 0);
        assert_eq!(lr.positions.len(), lr.length);
    }
}

#[test]
fn zero_count_symbols_are_omitted() {
    let r = report_of(&["AA", "AC"]);
    let lr = length_entry(&r, 2);
    let p2 = &lr.positions[1];
    let symbols: Vec<char> = p2.entries.iter().map(|e| e.symbol).collect();
    assert_eq!(symbols, vec!['A', 'C']);
    for e in &p2.entries {
        assert!(e.count > 0);
        assert!(e.index < AMINO_ACIDS);
    }
}

#[test]
fn position_sums_are_bounded_by_length_count() {
    let r = report_of(&["AzC", "AAC", "QQ", "A*"]);
    for lr in &r.lengths {
        for pr in &lr.positions {
            let sum: u64 = pr.entries.iter().map(|e| e.count).sum();
            assert!(sum <= lr.count);
        }
    }
}

#[test]
fn position_percentages_with_remainder_total_one_hundred() {
    let r = report_of(&["AC", "zC", "GC", "*C", "MC"]);
    let lr = length_entry(&r, 2);
    let recognized: u64 = lr.positions[0].entries.iter().map(|e| e.count).sum();
    let remainder = lr.count - recognized;
    let mut sum: f64 = 100.0 * remainder as f64 / lr.count as f64;
    for e in &lr.positions[0].entries {
        sum += 100.0 * e.count as f64 / lr.count as f64;
    }
    assert!((sum - 100.0).abs() < 0.0001);
}

#[test]
fn usage_accepts_one_to_five_files() {
    assert!(!antibody::cli::valid_file_count(0));
    for n in 1..=5 {
        assert!(antibody::cli::valid_file_count(n));
    }
    assert!(!antibody::cli::valid_file_count(6));
    assert!(!antibody::cli::valid_file_count(100));
}
