use lambda_calculus::padding::Content::{Bytes, Chars};
use lambda_calculus::padding::PadSide::{Left, Right};
use lambda_calculus::padding::Padded;

#[test]
fn byte_padding_ansi_r() {
    assert_eq!("derp   ", "derp".pad(' ', 7, Right, Bytes))
}

#[test]
fn byte_padding_ansi_l() {
    assert_eq!("   derp", "derp".pad(' ', 7, Left, Bytes))
}

#[test]
fn char_padding_ansi_r() {
    assert_eq!("derp ", "derp".pad(' ', 5, Right, Chars))
}

#[test]
fn char_padding_ansi_l() {
    assert_eq!(" derp", "derp".pad(' ', 5, Left, Chars))
}

#[test]
fn byte_padding_wide_r() {
    assert_eq!("pâté  ", "pâté".pad(' ', 8, Right, Bytes))
}

#[test]
fn byte_padding_wide_l() {
    assert_eq!("  pâté", "pâté".pad(' ', 8, Left, Bytes))
}

#[test]
fn char_padding_wide_r() {
    assert_eq!("pâté  ", "pâté".pad(' ', 8, Right, Chars))
}

#[test]
fn char_padding_wide_l() {
    assert_eq!("  pâté", "pâté".pad(' ', 8, Left, Chars))
}

#[test]
fn padding_to_the_exact_width_adds_nothing() {
    assert_eq!("derp", "derp".pad('-', 4, Left, Bytes));
    assert_eq!("", "".pad('-', 0, Right, Chars));
}

#[test]
fn padding_with_other_characters() {
    assert_eq!("--", "".pad('-', 2, Right, Chars));
    assert_eq!("x€€", "x".pad('€', 3, Right, Bytes));
    assert_eq!("€..", "€".pad('.', 5, Right, Chars));
}
