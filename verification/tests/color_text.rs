use memview::color::{green, plain, red};
use memview::text::{digit_str, push_decimal, push_hex_pair, push_padded};

#[test]
fn plain_puts_a_space_on_each_side() {
    assert_eq!(plain(0x0a), " 0a ");
    assert_eq!(plain(0x00), " 00 ");
    assert_eq!(plain(0xff), " ff ");
}

#[test]
fn red_uses_square_brackets_without_a_terminal() {
    assert_eq!(red(0xbe, false), "[be]");
    assert_eq!(red(0x05, false), "[05]");
}

#[test]
fn red_uses_the_bright_red_escape_on_a_terminal() {
    assert_eq!(red(0xbe, true), "\x1b[91mbe\x1b[0m");
}

#[test]
fn green_uses_round_brackets_without_a_terminal() {
    assert_eq!(green(0xef, false), "(ef)");
    assert_eq!(green(0x40, false), "(40)");
}

#[test]
fn green_uses_the_bright_green_escape_on_a_terminal() {
    assert_eq!(green(0x9c, true), "\x1b[92m9c\x1b[0m");
}

#[test]
fn every_byte_is_two_lowercase_hex_digits() {
    for value in 0..=255u8 {
        assert_eq!(plain(value), format!(" {value:02x} "));
        assert_eq!(red(value, false), format!("[{value:02x}]"));
        assert_eq!(green(value, false), format!("({value:02x})"));
        assert_eq!(red(value, true), format!("\x1b[91m{value:02x}\x1b[0m"));
        assert_eq!(green(value, true), format!("\x1b[92m{value:02x}\x1b[0m"));
    }
}

#[test]
fn digit_str_gives_each_digit() {
    let expected = "0123456789abcdef";
    for value in 0..16u8 {
        let at = value as usize;
        assert_eq!(digit_str(value), &expected[at..at + 1]);
    }
}

#[test]
fn push_hex_pair_appends_to_what_is_there() {
    let mut out = String::from("x=");
    push_hex_pair(&mut out, 0x3c);
    assert_eq!(out, "x=3c");
}

#[test]
fn push_decimal_writes_digits_most_significant_first() {
    for n in [0usize, 7, 9, 10, 11, 99, 100, 255, 256, 12345, 4294967295, usize::MAX] {
        let mut out = String::new();
        push_decimal(&mut out, n);
        assert_eq!(out, n.to_string());
    }
}

#[test]
fn push_decimal_keeps_the_prefix() {
    let mut out = String::from("i=");
    push_decimal(&mut out, 120);
    assert_eq!(out, "i=120");
}

#[test]
fn push_padded_fills_up_to_the_width() {
    let mut out = String::new();
    push_padded(&mut out, "init", 6);
    assert_eq!(out, "init  ");
}

#[test]
fn push_padded_leaves_a_full_or_longer_text_alone() {
    let mut exact = String::new();
    push_padded(&mut exact, "i=1234", 6);
    assert_eq!(exact, "i=1234");
    let mut longer = String::new();
    push_padded(&mut longer, "i=12345", 6);
    assert_eq!(longer, "i=12345");
}

#[test]
fn push_padded_counts_characters_not_bytes() {
    let mut out = String::from(">");
    push_padded(&mut out, "\u{e9}t\u{e9}", 6);
    assert_eq!(out, format!(">{:<6}", "\u{e9}t\u{e9}"));
    assert_eq!(out.chars().count(), 7);
}

#[test]
fn push_padded_of_an_empty_text_is_all_spaces() {
    let mut out = String::new();
    push_padded(&mut out, "", 3);
    assert_eq!(out, "   ");
}
