use antibody::symbols::{aa_index, symbol_char, AMINO_ACIDS};
use antibody::tables::{FreqTable, MAX_LENGTH};
use antibody::trim::trim_line;

fn table_of(lines: &[&str]) -> FreqTable {
    let mut t = FreqTable::new();
    for line in lines {
        let chars: Vec<char> = line.chars().collect();
        t.add_line(&chars);
    }
    t
}

#[test]
fn alphabet_assigns_indices_in_order() {
    let alphabet = "ACDEFGHIKLMNPQRSTVWYX";
    assert_eq!(alphabet.chars().count(), AMINO_ACIDS);
    for (k, c) in alphabet.chars().enumerate() {
        assert_eq!(aa_index(c), Some(k));
    }
}

#[test]
fn alphabet_rejects_other_characters() {
    for c in ['a', 'c', 'x', 'B', 'J', 'O', 'U', 'Z', '0', '1', '9', ' ', '*', '-'] {
        assert_eq!(aa_index(c), None);
    }
}

#[test]
fn symbol_char_inverts_aa_index() {
    for k in 0..AMINO_ACIDS {
        assert_eq!(aa_index(symbol_char(k)), Some(k));
    }
}

#[test]
fn trim_strips_surrounding_whitespace() {
    let line: Vec<char> = "  AC \r\n".chars().collect();
    assert_eq!(trim_line(&line), vec!['A', 'C']);
    let blank: Vec<char> = " \t\r\n".chars().collect();
    assert_eq!(trim_line(&blank), Vec::<char>::new());
    let bare: Vec<char> = "AC".chars().collect();
    assert_eq!(trim_line(&bare), vec!['A', 'C']);
    let inner: Vec<char> = "A C".chars().collect();
    assert_eq!(trim_line(&inner), vec!['A', ' ', 'C']);
}

#[test]
fn three_records_of_length_two() {
    let t = table_of(&["AC", "AC", "AG"]);
    assert_eq!(t.lines_seen(), 3);
    assert_eq!(t.length_count(2), 3);
    assert_eq!(t.symbol_count(2, 0, 0), 3); // A at position 0
    assert_eq!(t.symbol_count(2, 1, 1), 2); // C at position 1
    assert_eq!(t.symbol_count(2, 1, 5), 1); // G at position 1
    assert_eq!(t.symbol_count(2, 0, 1), 0);
    assert_eq!(t.length_count(1), 0);
    assert_eq!(t.length_count(3), 0);
}

#[test]
fn blank_and_overlong_lines_are_discarded() {
    let long = "A".repeat(MAX_LENGTH + 1);
    let t = table_of(&["", "AC", &long, "   "]);
    assert_eq!(t.lines_seen(), 4);
    assert_eq!(t.length_count(2), 1);
    for len in 1..=MAX_LENGTH {
        if len != 2 {
            assert_eq!(t.length_count(len), 0);
        }
    }
}

#[test]
fn max_length_line_is_counted() {
    let edge = "C".repeat(MAX_LENGTH);
    let t = table_of(&[&edge]);
    assert_eq!(t.length_count(MAX_LENGTH), 1);
    for pos in 0..MAX_LENGTH {
        assert_eq!(t.symbol_count(MAX_LENGTH, pos, 1), 1);
    }
}

#[test]
fn line_is_trimmed_before_classification() {
    let t = table_of(&["  ACD  "]);
    assert_eq!(t.length_count(3), 1);
    assert_eq!(t.length_count(7), 0);
    assert_eq!(t.symbol_count(3, 0, 0), 1);
    assert_eq!(t.symbol_count(3, 2, 2), 1);
}

#[test]
fn unrecognized_character_skips_symbol_but_counts_line() {
    let t = table_of(&["AzC", "A1C"]);
    assert_eq!(t.length_count(3), 2);
    for k in 0..AMINO_ACIDS {
        assert_eq!(t.symbol_count(3, 1, k), 0);
    }
    assert_eq!(t.symbol_count(3, 0, 0), 2);
    assert_eq!(t.symbol_count(3, 2, 1), 2);
}

#[test]
fn length_counts_are_conserved() {
    let lines = ["A", "AC", "AC", "ACD", "", "ACDE", "AC", "A"];
    let t = table_of(&lines);
    for len in 1..=MAX_LENGTH {
        let expected = lines.iter().filter(|l| l.len() == len).count() as u64;
        assert_eq!(t.length_count(len), expected);
    }
}
