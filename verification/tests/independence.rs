use antibody::report::{build_report, Report};
use antibody::tables::FreqTable;

fn process(lines: &[&str]) -> FreqTable {
    let mut t = FreqTable::new();
    for line in lines {
        let chars: Vec<char> = line.chars().collect();
        t.add_line(&chars);
    }
    t
}

#[test]
fn second_file_is_unaffected_by_first() {
    let first = ["AC", "AC", "AG", "MNPQ"];
    let second = ["WY", "W", "WYX"];

    // second processed after first, each file into its own fresh table
    let _earlier = process(&first);
    let after: Report = build_report(&process(&second));

    // second processed alone
    let alone: Report = build_report(&process(&second));

    assert_eq!(after, alone);
    assert_eq!(after.total_records, 3);
}

#[test]
fn tables_of_different_files_do_not_share_counts() {
    let a = process(&["AC", "AC"]);
    let b = process(&["G"]);
    assert_eq!(a.length_count(2), 2);
    assert_eq!(a.length_count(1), 0);
    assert_eq!(b.length_count(1), 1);
    assert_eq!(b.length_count(2), 0);
}
