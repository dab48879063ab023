use gear_program::cmd::program::Program;
use gear_program::hexadecimal::{decode_prefixed, HexError};

fn value(c: u8) -> Option<u8> {
    match c {
        b'0'..=b'9' => Some(c - b'0'),
        b'a'..=b'f' => Some(c - b'a' + 10),
        b'A'..=b'F' => Some(c - b'A' + 10),
        _ => None,
    }
}

fn expected(text: &str) -> Result<Vec<u8>, HexError> {
    let mut digits = text.as_bytes();
    while digits.starts_with(b"0x") {
        digits = &digits[2..];
    }
    if digits.len() % 2 == 1 {
        return Err(HexError::OddLength);
    }
    if let Some(index) = digits.iter().position(|c| value(*c).is_none()) {
        return Err(HexError::InvalidHexCharacter { c: digits[index] as char, index });
    }
    Ok(digits.chunks(2).map(|pair| 16 * value(pair[0]).unwrap() + value(pair[1]).unwrap()).collect())
}

const ALPHABET: [char; 18] =
    ['0', '1', '9', 'a', 'f', 'A', 'F', 'g', 'G', 'x', 'X', '/', ':', '@', '`', ' ', 'é', '7'];

fn texts(length: usize) -> Vec<String> {
    let mut all = vec![String::new()];
    for _ in 0..length {
        let mut longer = vec![];
        for text in &all {
            for c in ALPHABET {
                let mut next = text.clone();
                next.push(c);
                longer.push(next);
            }
        }
        all = longer;
    }
    all
}

#[test]
fn every_short_text_reads_as_its_digits_say() {
    for length in 0..4 {
        for text in texts(length) {
            assert_eq!(decode_prefixed(&text), expected(&text), "{text:?}");
        }
    }
}

#[test]
fn every_short_text_reads_the_same_behind_a_prefix() {
    for length in 0..3 {
        for text in texts(length) {
            let prefixed = format!("0x{text}");
            assert_eq!(decode_prefixed(&prefixed), expected(&prefixed), "{prefixed:?}");
        }
    }
}

#[test]
fn every_byte_is_written_as_two_lower_case_digits() {
    let all: Vec<u8> = (0..=255).collect();
    let mut expected = String::from("state: 0x");
    for byte in &all {
        expected.push_str(&format!("{byte:02x}"));
    }
    assert_eq!(Program::state_line(&all), expected);
    for byte in all {
        assert_eq!(Program::state_line(&[byte]), format!("state: 0x{byte:02x}"));
    }
}

#[test]
fn what_is_written_is_read_back() {
    let bytes: Vec<u8> = (0..=255).rev().collect();
    let line = Program::state_line(&bytes);
    assert_eq!(decode_prefixed(&line["state: ".len()..]), Ok(bytes));
}
