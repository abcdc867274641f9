use club_ledger::sheet::{
    audit_row, balance_formula, closing_formula, is_shaded, transaction_row,
};
use club_ledger::surplus_sale::lots::lot_number_text;
use club_ledger::text::{decimal_text, kept_range};

#[test]
fn decimal_text_of_single_digits() {
    assert_eq!(decimal_text(0), "0");
    assert_eq!(decimal_text(7), "7");
    assert_eq!(decimal_text(9), "9");
}

#[test]
fn decimal_text_of_longer_numbers() {
    assert_eq!(decimal_text(10), "10");
    assert_eq!(decimal_text(1234567890), "1234567890");
    assert_eq!(decimal_text(100), "100");
    assert_eq!(decimal_text(u128::MAX), u128::MAX.to_string());
}

#[test]
fn lot_number_text_joins_with_a_hyphen() {
    assert_eq!(lot_number_text("M0ABC", 1), "M0ABC-1");
    assert_eq!(lot_number_text("M0ABC", 42), "M0ABC-42");
    assert_eq!(lot_number_text("", 3), "-3");
}

#[test]
fn balance_formula_counts_sheet_rows_from_one() {
    assert_eq!(balance_formula(5), "=H5-F6+G6");
    assert_eq!(balance_formula(9), "=H9-F10+G10");
    assert_eq!(balance_formula(u32::MAX), "=H4294967295-F4294967296+G4294967296");
}

#[test]
fn closing_formula_points_at_the_row_above() {
    assert_eq!(closing_formula(5), "=H5");
    assert_eq!(closing_formula(120), "=H120");
}

#[test]
fn every_other_row_is_shaded() {
    assert!(!is_shaded(4));
    assert!(is_shaded(5));
    assert!(!is_shaded(6));
    assert!(is_shaded(u32::MAX));
}

#[test]
fn rows_start_below_the_heading() {
    assert_eq!(transaction_row(0), Some(5));
    assert_eq!(transaction_row(10), Some(15));
    assert_eq!(audit_row(0), Some(4));
    assert_eq!(audit_row(10), Some(14));
}

#[test]
fn rows_beyond_the_sheet_are_refused() {
    assert_eq!(transaction_row(u32::MAX as usize - 5), Some(u32::MAX));
    assert_eq!(transaction_row(u32::MAX as usize - 4), None);
    assert_eq!(audit_row(u32::MAX as usize - 4), Some(u32::MAX));
    assert_eq!(audit_row(u32::MAX as usize - 3), None);
}

#[test]
fn hexadecimal_is_read_as_the_standard_library_reads_it() {
    let samples = [
        "23af", "+23af", "", "+", "-1", "ffff", "FFFF", "10000", "0000ffff", "00000000000000001",
        "12 ", " 12", "0x12", "1_2", "g", "fffg", "fffff", "++1", "+-1", "\u{ff11}\u{ff12}",
        "0", "+0", "aBcD", "1+",
    ];
    for text in samples {
        assert_eq!(
            club_ledger::text::parse_hex_u16(text),
            u16::from_str_radix(text, 16).ok(),
            "reading {text:?}"
        );
    }
    assert_eq!(club_ledger::text::parse_hex_u16("23af"), Some(0x23af));
    assert_eq!(club_ledger::text::parse_hex_u16("10000"), None);
}

#[test]
fn typed_text_is_trimmed_as_the_standard_library_trims_it() {
    let samples = [
        "", " ", "   ", "m0abc", "  m0abc", "m0abc  ", " \t m0abc \r\n", "m0 abc", " m0 abc ",
        "\u{a0}m0abc\u{2003}", "\u{3000}\u{3000}", "\u{200b}m0abc", "x", " x", "x ", "\u{e9} ",
        "\n\u{e9}t\u{e9}\n", "a\u{85}", "\u{1680}z\u{1680}\u{1680}",
    ];
    for text in samples {
        assert_eq!(club_ledger::text::trimmed(text), text.trim(), "trimming {text:?}");
        assert_eq!(
            club_ledger::text::tidied(text),
            text.trim().to_ascii_uppercase(),
            "tidying {text:?}"
        );
    }
}

#[test]
fn a_typed_callsign_is_tidied() {
    assert_eq!(club_ledger::text::tidied("  m0abc "), "M0ABC");
    assert_eq!(club_ledger::text::tidied("g4xyz/p"), "G4XYZ/P");
    assert_eq!(club_ledger::text::tidied("M0ABC"), "M0ABC");
    assert_eq!(club_ledger::text::tidied("\u{e9}t\u{e9} 1"), "\u{e9}T\u{e9} 1");
    assert_eq!(club_ledger::text::tidied(" \t "), "");
    assert_eq!(club_ledger::text::trimmed("  m0 abc "), "m0 abc");
}

#[test]
fn kept_range_skips_the_marks_at_both_ends() {
    assert_eq!(kept_range(&vec![]), (0, 0));
    assert_eq!(kept_range(&vec![false]), (0, 1));
    assert_eq!(kept_range(&vec![true]), (1, 1));
    assert_eq!(kept_range(&vec![true, true, true]), (3, 3));
    assert_eq!(kept_range(&vec![true, false, true, false, true]), (1, 4));
    assert_eq!(kept_range(&vec![false, true, true]), (0, 1));
    assert_eq!(kept_range(&vec![true, true, false]), (2, 3));
    assert_eq!(kept_range(&vec![false, true, false]), (0, 3));
}
