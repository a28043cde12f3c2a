//! The fixed alphabet of 21 one-character amino-acid codes: the 20 standard
//! amino acids plus the wildcard/unknown symbol `X`. The order is fixed and
//! used only for stable iteration and printing.

use vstd::prelude::*;

verus! {

/// Number of recognised amino-acid codes.
pub const AMINO_ACIDS: usize = 21;

/// Index of a character in the fixed, ordered alphabet
/// `A C D E F G H I K L M N P Q R S T V W Y X`; `None` for any other
/// character (matching is case-sensitive and exact).
pub open spec fn aa_index_spec(c: char) -> Option<int> {
    if c == 'A' {
        Some(0int)
    } else if c == 'C' {
        Some(1int)
    } else if c == 'D' {
        Some(2int)
    } else if c == 'E' {
        Some(3int)
    } else if c == 'F' {
        Some(4int)
    } else if c == 'G' {
        Some(5int)
    } else if c == 'H' {
        Some(6int)
    } else if c == 'I' {
        Some(7int)
    } else if c == 'K' {
        Some(8int)
    } else if c == 'L' {
        Some(9int)
    } else if c == 'M' {
        Some(10int)
    } else if c == 'N' {
        Some(11int)
    } else if c == 'P' {
        Some(12int)
    } else if c == 'Q' {
        Some(13int)
    } else if c == 'R' {
        Some(14int)
    } else if c == 'S' {
        Some(15int)
    } else if c == 'T' {
        Some(16int)
    } else if c == 'V' {
        Some(17int)
    } else if c == 'W' {
        Some(18int)
    } else if c == 'Y' {
        Some(19int)
    } else if c == 'X' {
        Some(20int)
    } else {
        None
    }
}

/// Every index the alphabet assigns lies below [`AMINO_ACIDS`].
pub proof fn lemma_aa_index_in_range(c: char)
    ensures
        match aa_index_spec(c) {
            Some(k) => 0 <= k < AMINO_ACIDS,
            None => true,
        },
{
}

/// Looks a character up in the alphabet: its index, or `None` when the
/// character is not a recognised code.
pub fn aa_index(aa: char) -> (r: Option<usize>)
    ensures
        match r {
            Some(k) => k < AMINO_ACIDS && aa_index_spec(aa) == Some(k as int),
            None => aa_index_spec(aa) is None,
        },
{
    match aa {
        'A' => Some(0),
        'C' => Some(1),
        'D' => Some(2),
        'E' => Some(3),
        'F' => Some(4),
        'G' => Some(5),
        'H' => Some(6),
        'I' => Some(7),
        'K' => Some(8),
        'L' => Some(9),
        'M' => Some(10),
        'N' => Some(11),
        'P' => Some(12),
        'Q' => Some(13),
        'R' => Some(14),
        'S' => Some(15),
        'T' => Some(16),
        'V' => Some(17),
        'W' => Some(18),
        'Y' => Some(19),
        'X' => Some(20),
        _ => None,
    }
}

/// The character standing at a given alphabet index: the inverse of
/// [`aa_index`] on indices below [`AMINO_ACIDS`].
pub fn symbol_char(k: usize) -> (c: char)
    requires
        k < AMINO_ACIDS,
    ensures
        aa_index_spec(c) == Some(k as int),
{
    match k {
        0 => 'A',
        1 => 'C',
        2 => 'D',
        3 => 'E',
        4 => 'F',
        5 => 'G',
        6 => 'H',
        7 => 'I',
        8 => 'K',
        9 => 'L',
        10 => 'M',
        11 => 'N',
        12 => 'P',
        13 => 'Q',
        14 => 'R',
        15 => 'S',
        16 => 'T',
        17 => 'V',
        18 => 'W',
        19 => 'Y',
        _ => 'X',
    }
}

} // verus!
