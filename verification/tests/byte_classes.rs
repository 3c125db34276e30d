use minilang::numeral::reads_as_number;
use minilang::text::{
    byte_is_alphabetic, byte_is_digit, byte_is_name_byte, byte_is_name_start, byte_is_numeral_byte,
    byte_is_numeric, render_decimal, text_of,
};

#[test]
fn letters_are_the_letters_of_the_first_256_code_points() {
    for b in 0..=255u8 {
        assert_eq!(byte_is_alphabetic(b), (b as char).is_alphabetic(), "byte {:#x}", b);
    }
}

#[test]
fn numeric_bytes_are_the_numeric_characters_of_the_first_256_code_points() {
    for b in 0..=255u8 {
        assert_eq!(byte_is_numeric(b), (b as char).is_numeric(), "byte {:#x}", b);
    }
}

#[test]
fn name_bytes_are_letters_digits_and_the_underscore() {
    for b in 0..=255u8 {
        let c = b as char;
        assert_eq!(byte_is_name_start(b), c == '_' || c.is_alphabetic(), "byte {:#x}", b);
        assert_eq!(byte_is_name_byte(b), c == '_' || c.is_alphanumeric(), "byte {:#x}", b);
    }
}

#[test]
fn digits_are_told_in_every_radix() {
    for radix in 2..=36u32 {
        for b in 0..=255u8 {
            assert_eq!(byte_is_digit(b, radix), (b as char).is_digit(radix), "byte {:#x} radix {}", b, radix);
            assert_eq!(
                byte_is_numeral_byte(b, radix),
                (b as char).is_digit(radix) || b == b'.',
                "byte {:#x} radix {}",
                b,
                radix
            );
        }
    }
}

#[test]
fn digits_in_odd_radixes() {
    assert!(!byte_is_digit(b'0', 0));
    assert!(byte_is_digit(b'0', 1));
    assert!(!byte_is_digit(b'1', 1));
    assert!(byte_is_digit(b'z', 36));
    assert!(byte_is_digit(b'Z', 1000));
    assert!(!byte_is_digit(b'z', 35));
    assert!(!byte_is_digit(b'_', 1000));
    assert!(byte_is_digit(b'a', 11));
    assert!(!byte_is_digit(b'a', 10));
    assert!(byte_is_numeral_byte(b'.', 0));
}

#[test]
fn numerals_are_the_texts_that_read_as_a_double() {
    let samples = [
        "", "0", "1", "12", "1.5", ".5", "5.", ".", "..", "1.2.3", "1..2", "1e5", "1E5", "1e", "e5",
        "1e+5", "1e-5", "1e+", "1e-", "1.e5", ".5e3", ".e3", "1e5e", "1e5.0", "1e.5", "inf", "INF",
        "Inf", "infinity", "INFINITY", "InFiNiTy", "infinit", "infinityy", "nan", "NaN", "NAN",
        "nana", "na", "in", "+1", "-1", "+", "-", "+-1", "-+1", "+inf", "-inf", "+nan", "-nan",
        "+.5", "-.", "1_000", "0x10", "1f", "ff", " 1", "1 ", "1e 5", "١", "1.5.", "00.00", "1e0005",
        "9999999999999999999999999999999", "1e999", "0.0000000000000000000000000001", "--1",
        "1+1", "e", "E", ".e", "5.e", "5.E+1", "i", "n", "infnan", "1inf",
    ];
    for s in samples {
        assert_eq!(
            reads_as_number(s.as_bytes()),
            s.parse::<f64>().is_ok(),
            "numeral {:?}",
            s
        );
    }
}

#[test]
fn numerals_of_three_characters() {
    let alphabet = [b'0', b'7', b'.', b'e', b'E', b'+', b'-', b'x'];
    for a in alphabet {
        for b in alphabet {
            for c in alphabet {
                let bytes = [a, b, c];
                let text = std::str::from_utf8(&bytes).unwrap();
                assert_eq!(
                    reads_as_number(&bytes),
                    text.parse::<f64>().is_ok(),
                    "numeral {:?}",
                    text
                );
            }
            let bytes = [a, b];
            let text = std::str::from_utf8(&bytes).unwrap();
            assert_eq!(reads_as_number(&bytes), text.parse::<f64>().is_ok(), "numeral {:?}", text);
        }
    }
}

#[test]
fn text_of_reads_each_byte_as_a_character() {
    let bytes = b"hello, world".to_vec();
    assert_eq!(text_of(&bytes, 0, 5), "hello");
    assert_eq!(text_of(&bytes, 7, 12), "world");
    assert_eq!(text_of(&bytes, 3, 3), "");
    let high = vec![0x41u8, 0xe9, 0xff];
    let text = text_of(&high, 0, 3);
    assert_eq!(text.chars().collect::<Vec<char>>(), vec!['A', '\u{e9}', '\u{ff}']);
}

#[test]
fn offsets_are_written_in_decimal() {
    assert_eq!(render_decimal(0), "0");
    assert_eq!(render_decimal(7), "7");
    assert_eq!(render_decimal(10), "10");
    assert_eq!(render_decimal(905), "905");
    assert_eq!(render_decimal(1234567890), "1234567890");
    assert_eq!(render_decimal(usize::MAX), usize::MAX.to_string());
}
