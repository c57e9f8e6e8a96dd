use herdr_system_notify_bridge::text::{
    chars_of, parse_number, push_number, same_text, tail_after, trim,
};

#[test]
fn trim_agrees_with_std() {
    for text in ["", " ", "a", " a ", "\t{}\r\n", "a b", "\u{a0}x\u{3000}", "→ ", "\u{200b}x"] {
        assert_eq!(trim(text), text.trim());
    }
}

#[test]
fn trim_knows_every_white_space_character() {
    for n in 0u32..0x11_0000 {
        if let Some(c) = char::from_u32(n) {
            if n < 0x3100 || n % 257 == 0 {
                let text = format!("{}x{}", c, c);
                assert_eq!(trim(&text), text.trim(), "U+{:04X}", n);
            }
        }
    }
}

#[test]
fn same_text_compares_characters() {
    assert!(same_text("", ""));
    assert!(same_text("w1:p4", "w1:p4"));
    assert!(!same_text("w1:p4", "w1:p5"));
    assert!(!same_text("w1", "w1:p4"));
    assert!(same_text("⛔", "⛔"));
    assert!(!same_text("⛔", "✅"));
}

#[test]
fn chars_are_in_order() {
    assert_eq!(chars_of("a→b"), vec!['a', '→', 'b']);
}

#[test]
fn parse_number_agrees_with_std() {
    for text in [
        "", "+", "-", "0", "7", "+7", "++7", "-7", " 7", "7 ", "007", "1_000", "12x", "x12", "٣",
        "18446744073709551615", "18446744073709551616", "99999999999999999999999",
        "00000000000000000000000000000000042",
    ] {
        assert_eq!(parse_number(text), text.parse::<usize>().ok(), "{:?}", text);
    }
}

#[test]
fn numbers_are_read_back_from_their_digits() {
    for n in [0usize, 1, 9, 10, 19, 20, 99, 100, 12345, usize::MAX] {
        let mut text = "n=".to_string();
        push_number(&mut text, n);
        assert_eq!(text, format!("n={}", n));
        assert_eq!(parse_number(&text[2..]), Some(n));
    }
}

#[test]
fn tail_after_takes_the_last_part() {
    for text in ["", ":", "a", "a:", ":b", "a:b", "a:b:c", "→:✅"] {
        assert_eq!(Some(tail_after(text, ':')), text.rsplit(':').next());
    }
}
