use deet::farm::{is_prime, take_number};
use deet::numeral::{parse_address, parse_decimal, BreakpointSpec};
use deet::word::{align_addr_to_word, extract_byte, offset_in_word, replace_byte};
use std::collections::VecDeque;

#[test]
fn address_with_and_without_prefix() {
    assert_eq!(parse_address("0x401136"), Some(0x401136));
    assert_eq!(parse_address("0X401136"), Some(0x401136));
    assert_eq!(parse_address("401136"), Some(0x401136));
    assert_eq!(parse_address("DeadBeef"), Some(0xdead_beef));
    assert_eq!(parse_address("0"), Some(0));
    assert_eq!(parse_address("+ff"), Some(255));
    assert_eq!(parse_address("0x+ff"), Some(255));
}

#[test]
fn address_rejects_what_is_no_hexadecimal_number() {
    assert_eq!(parse_address(""), None);
    assert_eq!(parse_address("0x"), None);
    assert_eq!(parse_address("+"), None);
    assert_eq!(parse_address("-1"), None);
    assert_eq!(parse_address("12g4"), None);
    assert_eq!(parse_address(" 12"), None);
    assert_eq!(parse_address("12 "), None);
    assert_eq!(parse_address("1_000"), None);
    assert_eq!(parse_address("+0x10"), None);
    assert_eq!(parse_address("0x0x10"), None);
}

#[test]
fn address_agrees_with_std_at_the_limits() {
    let max = format!("{:x}", usize::MAX);
    assert_eq!(parse_address(&max), Some(usize::MAX));
    assert_eq!(parse_address(&format!("0x{}", max)), Some(usize::MAX));
    assert_eq!(parse_address(&format!("000{}", max)), Some(usize::MAX));
    assert_eq!(parse_address(&format!("1{}", max)), None);
    assert_eq!(parse_address(&format!("{}0", max)), None);
    for text in ["7f", "+7F", "", "zz", "ffffffffffffffff", "10000000000000000", "é1"] {
        assert_eq!(parse_address(text), usize::from_str_radix(text, 16).ok());
    }
}

#[test]
fn decimal_numbers() {
    assert_eq!(parse_decimal("20"), Some(20));
    assert_eq!(parse_decimal("+7"), Some(7));
    assert_eq!(parse_decimal("007"), Some(7));
    assert_eq!(parse_decimal("1a"), None);
    assert_eq!(parse_decimal("main"), None);
    assert_eq!(parse_decimal(""), None);
    assert_eq!(parse_decimal(&usize::MAX.to_string()), Some(usize::MAX));
    assert_eq!(parse_decimal(&format!("{}0", usize::MAX)), None);
    for text in ["18446744073709551615", "18446744073709551616", "+", "-3", "12"] {
        assert_eq!(parse_decimal(text), usize::from_str_radix(text, 10).ok());
    }
}

#[test]
fn addresses_are_aligned_down_to_words() {
    assert_eq!(align_addr_to_word(0), 0);
    assert_eq!(align_addr_to_word(7), 0);
    assert_eq!(align_addr_to_word(8), 8);
    assert_eq!(align_addr_to_word(0x401136), 0x401130);
    assert_eq!(align_addr_to_word(usize::MAX), usize::MAX - 7);
    assert_eq!(offset_in_word(0x401136), 6);
    assert_eq!(offset_in_word(0x401130), 0);
    for addr in [0usize, 1, 9, 0x7fff_ffff_f123, usize::MAX] {
        assert_eq!(align_addr_to_word(addr) + offset_in_word(addr), addr);
        assert_eq!(align_addr_to_word(addr) % 8, 0);
    }
}

#[test]
fn bytes_are_counted_from_the_low_end() {
    let word: u64 = 0x8877_6655_4433_2211;
    assert_eq!(extract_byte(word, 0), 0x11);
    assert_eq!(extract_byte(word, 3), 0x44);
    assert_eq!(extract_byte(word, 7), 0x88);
    assert_eq!(replace_byte(word, 0, 0xcc), 0x8877_6655_4433_22cc);
    assert_eq!(replace_byte(word, 6, 0xcc), 0x88cc_6655_4433_2211);
    assert_eq!(replace_byte(word, 7, 0x00), 0x0077_6655_4433_2211);
}

#[test]
fn a_replaced_byte_reads_back_and_spares_the_others() {
    let word: u64 = 0x0123_4567_89ab_cdef;
    for offset in 0..8usize {
        let patched = replace_byte(word, offset, 0xcc);
        assert_eq!(extract_byte(patched, offset), 0xcc);
        for other in 0..8usize {
            if other != offset {
                assert_eq!(extract_byte(patched, other), extract_byte(word, other));
            }
        }
        assert_eq!(replace_byte(patched, offset, extract_byte(word, offset)), word);
    }
}

#[test]
fn trial_division_stops_short_of_the_square_root() {
    assert!(!is_prime(0));
    assert!(!is_prime(1));
    assert!(is_prime(2));
    assert!(is_prime(3));
    assert!(is_prime(7));
    assert!(is_prime(97));
    assert!(!is_prime(12));
    assert!(!is_prime(100));
    assert!(!is_prime(4_294_967_295));
    assert!(is_prime(4_294_967_291));
    // the square root itself is never tried
    assert!(is_prime(4));
    assert!(is_prime(9));
    assert!(is_prime(15));
    assert!(!is_prime(16));
}

#[test]
fn numbers_are_taken_from_the_front() {
    let mut queue: VecDeque<u32> = VecDeque::new();
    assert_eq!(take_number(&mut queue), None);
    queue.push_back(12);
    queue.push_back(7);
    assert_eq!(take_number(&mut queue), Some(12));
    assert_eq!(queue.len(), 1);
    assert_eq!(take_number(&mut queue), Some(7));
    assert_eq!(take_number(&mut queue), None);
}

#[test]
fn a_break_argument_is_an_address_a_line_or_a_function() {
    let parse = |arg: &str| BreakpointSpec::parse(String::from(arg));
    assert_eq!(parse("*0x401136"), Some(BreakpointSpec::ByAddress(0x401136)));
    assert_eq!(parse("*401136"), Some(BreakpointSpec::ByAddress(0x401136)));
    assert_eq!(parse("*10"), Some(BreakpointSpec::ByAddress(16)));
    assert_eq!(parse("10"), Some(BreakpointSpec::ByLine(10)));
    assert_eq!(parse("+10"), Some(BreakpointSpec::ByLine(10)));
    assert_eq!(parse("0x10"), Some(BreakpointSpec::ByFunction(String::from("0x10"))));
    assert_eq!(parse("main"), Some(BreakpointSpec::ByFunction(String::from("main"))));
    assert_eq!(parse("ten*"), Some(BreakpointSpec::ByFunction(String::from("ten*"))));
    assert_eq!(parse(""), Some(BreakpointSpec::ByFunction(String::new())));
    assert_eq!(
        parse("99999999999999999999999"),
        Some(BreakpointSpec::ByFunction(String::from("99999999999999999999999")))
    );
    assert_eq!(parse("*"), None);
    assert_eq!(parse("*main"), None);
    assert_eq!(parse("**10"), None);
    assert_eq!(parse("* 10"), None);
}
