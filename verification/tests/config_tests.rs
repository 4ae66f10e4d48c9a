use waterfall::config::{
    int_error_message, method_of, offset_number_of, NetworkProtocol, Strategies, Strategy,
    WeakRange,
};
use waterfall::help::{get_help_text, HELP_TEXT};
use waterfall::text::{
    char_is_space, chars_contain, chars_of, find_char, parse_i64, parse_u16, trim_chars, IntError,
};

fn chars(text: &str) -> Vec<char> {
    text.chars().collect()
}

fn std_error(text: &str) -> String {
    text.parse::<u16>().unwrap_err().to_string()
}

#[test]
fn range_with_both_ends() {
    assert_eq!(WeakRange::from("80-443"), Ok(WeakRange { start: 80, end: Some(443) }));
    assert_eq!(WeakRange::from(" 80 - 443 "), Ok(WeakRange { start: 80, end: Some(443) }));
    assert_eq!(WeakRange::from("0-65535"), Ok(WeakRange { start: 0, end: Some(65535) }));
}

#[test]
fn range_without_an_upper_end() {
    assert_eq!(WeakRange::from("80-"), Ok(WeakRange { start: 80, end: None }));
    assert_eq!(WeakRange::from("80-  "), Ok(WeakRange { start: 80, end: None }));
    assert_eq!(WeakRange::from("443"), Ok(WeakRange { start: 443, end: None }));
    assert_eq!(WeakRange::from("+443"), Ok(WeakRange { start: 443, end: None }));
}

#[test]
fn range_reads_nothing_after_a_second_dash() {
    assert_eq!(WeakRange::from("1-2-x"), Ok(WeakRange { start: 1, end: Some(2) }));
    assert_eq!(WeakRange::from("1--2"), Ok(WeakRange { start: 1, end: None }));
}

#[test]
fn range_can_run_backwards() {
    assert_eq!(WeakRange::from("443-80"), Ok(WeakRange { start: 443, end: Some(80) }));
}

#[test]
fn range_errors_carry_the_message_of_the_number() {
    assert_eq!(WeakRange::from(""), Err(std_error("")));
    assert_eq!(WeakRange::from("-5"), Err(std_error("")));
    assert_eq!(WeakRange::from("abc"), Err(std_error("abc")));
    assert_eq!(WeakRange::from("1 2-3"), Err(std_error("1 2")));
    assert_eq!(WeakRange::from("70000"), Err(std_error("70000")));
    assert_eq!(WeakRange::from("80-x"), Err(std_error("x")));
    assert_eq!(WeakRange::from("80-65536"), Err(std_error("65536")));
    assert_eq!(WeakRange::from("+"), Err(std_error("+")));
}

#[test]
fn range_holds_its_ports() {
    let range = WeakRange { start: 80, end: Some(443) };
    assert!(range.contains_port(80));
    assert!(range.contains_port(443));
    assert!(!range.contains_port(79));
    assert!(!range.contains_port(444));
    let open = WeakRange { start: 80, end: None };
    assert!(open.contains_port(65535));
    assert!(!open.contains_port(0));
}

#[test]
fn messages_are_those_of_std() {
    assert_eq!(int_error_message(IntError::Empty), std_error(""));
    assert_eq!(int_error_message(IntError::InvalidDigit), std_error("x"));
    assert_eq!(int_error_message(IntError::PosOverflow), std_error("65536"));
    assert_eq!(
        int_error_message(IntError::NegOverflow),
        "-129".parse::<i8>().unwrap_err().to_string()
    );
}

#[test]
fn each_number_error_has_its_input() {
    assert_eq!(parse_u16(&chars("")), Err(IntError::Empty));
    assert_eq!(parse_u16(&chars("1x")), Err(IntError::InvalidDigit));
    assert_eq!(parse_u16(&chars("-1")), Err(IntError::InvalidDigit));
    assert_eq!(parse_u16(&chars("65536")), Err(IntError::PosOverflow));
    assert_eq!(parse_i64(&chars("-")), Err(IntError::InvalidDigit));
    assert_eq!(parse_i64(&chars("9223372036854775808")), Err(IntError::PosOverflow));
    assert_eq!(parse_i64(&chars("-9223372036854775809")), Err(IntError::NegOverflow));
    assert_eq!(parse_i64(&chars("-9223372036854775808")), Ok(i64::MIN));
    assert_eq!(parse_i64(&chars("9223372036854775807")), Ok(i64::MAX));
    assert_eq!(parse_u16(&chars("65535")), Ok(65535));
    assert_eq!(parse_u16(&chars("000000000000000000000000012")), Ok(12));
}

#[test]
fn numbers_are_read_as_std_reads_them() {
    let samples = [
        "", "0", "7", "42", "+42", "-42", "++1", "--1", "+-1", "-+1", "+", "-", " 1", "1 ", "1_0",
        "0x10", "65535", "65536", "99999", "999999x", "9999x", "x99999", "00001", "-0", "+0",
        "9223372036854775807", "9223372036854775808", "-9223372036854775808",
        "-9223372036854775809", "18446744073709551616", "1e3", "١٢٣", "12a", "a12", "1-2", "१",
        "65535x", "6553x9",
    ];
    for text in samples {
        let ours = parse_u16(&chars(text));
        match text.parse::<u16>() {
            Ok(v) => assert_eq!(ours, Ok(v), "{:?}", text),
            Err(e) => assert_eq!(
                int_error_message(ours.unwrap_err()),
                e.to_string(),
                "{:?}",
                text
            ),
        }
        let ours = parse_i64(&chars(text));
        match text.parse::<i64>() {
            Ok(v) => assert_eq!(ours, Ok(v), "{:?}", text),
            Err(e) => assert_eq!(
                int_error_message(ours.unwrap_err()),
                e.to_string(),
                "{:?}",
                text
            ),
        }
    }
}

#[test]
fn white_space_is_that_of_std() {
    for code in 0..=0x10FFFFu32 {
        if let Some(c) = char::from_u32(code) {
            assert_eq!(char_is_space(c), c.is_whitespace(), "{:x}", code);
        }
    }
}

#[test]
fn trimming_is_that_of_std() {
    let samples =
        ["", " ", "  a  ", "a", "\t\n a b \r\n", "\u{3000}x\u{2003}", "a  ", "  a", "\u{85}\u{a0}"];
    for text in samples {
        let expected: Vec<char> = text.trim().chars().collect();
        assert_eq!(trim_chars(&chars(text)), expected, "{:?}", text);
    }
}

#[test]
fn text_helpers_find_what_std_finds() {
    assert_eq!(chars_of("héllo"), chars("héllo"));
    assert_eq!(find_char(&chars("a-b-c"), 0, '-'), 1);
    assert_eq!(find_char(&chars("a-b-c"), 2, '-'), 3);
    assert_eq!(find_char(&chars("abc"), 0, '-'), 3);
    assert_eq!(find_char(&chars("abc"), 3, '-'), 3);
    assert!(chars_contain(&chars("www.example.com"), &chars("example")));
    assert!(chars_contain(&chars("www.example.com"), &chars("")));
    assert!(chars_contain(&chars(""), &chars("")));
    assert!(!chars_contain(&chars("www.example.com"), &chars("examplf")));
    assert!(!chars_contain(&chars("ab"), &chars("abc")));
    assert!(chars_contain(&chars("xxab"), &chars("ab")));
}

#[test]
fn method_names_select_their_technique() {
    let table = [
        ("--tcp_split", Strategies::SPLIT),
        ("--tcp_disorder", Strategies::DISORDER),
        ("--tcp_disorder2", Strategies::DISORDER2),
        ("--tcp_fake_disordered", Strategies::FAKE),
        ("--tcp_fake_insert", Strategies::FAKEMD),
        ("--tcp_fake_surround", Strategies::FAKESURROUND),
        ("--tcp_fake2_disordered", Strategies::FAKE2DISORDER),
        ("--tcp_fake2_insert", Strategies::FAKE2INSERT),
        ("--tcp_out_of_band", Strategies::OOB),
        ("--tcp_out_of_band_disorder", Strategies::DISOOB),
        ("--tcp_out_of_band_disorder2", Strategies::OOB2),
        ("--tcp_meltdown", Strategies::MELTDOWN),
        ("--tcp_out_of_band_hell", Strategies::OOBSTREAMHELL),
        ("--tls_record_frag", Strategies::FRAGTLS),
        ("--udp_0trail", Strategies::TRAIL),
        ("--udp_meltdown", Strategies::MELTDOWNUDP),
        ("--tcp_splits", Strategies::NONE),
        ("tcp_split", Strategies::NONE),
        ("--TCP_SPLIT", Strategies::NONE),
        ("", Strategies::NONE),
    ];
    for (name, method) in table {
        assert_eq!(method_of(name), method, "{}", name);
    }
}

#[test]
fn offset_numbers_stand_before_the_separator() {
    assert_eq!(offset_number_of("5+s"), Some(5));
    assert_eq!(offset_number_of("5+"), Some(5));
    assert_eq!(offset_number_of("5"), Some(5));
    assert_eq!(offset_number_of("5-s"), Some(5));
    assert_eq!(offset_number_of("-5+s"), Some(-5));
    assert_eq!(offset_number_of("-5"), None);
    assert_eq!(offset_number_of("-5-s"), None);
    assert_eq!(offset_number_of("5s"), None);
    assert_eq!(offset_number_of(""), None);
    assert_eq!(offset_number_of("+5"), None);
    assert_eq!(offset_number_of("1+2+3"), Some(1));
    assert_eq!(offset_number_of("1-2+3"), None);
}

#[test]
fn strategy_is_built_from_its_parts() {
    let list = Some(vec![String::from("example.com")]);
    let strategy = Strategy::from(
        String::from("--tcp_disorder"),
        String::from("13+s"),
        false,
        "tcp",
        "443-",
        list.clone(),
    );
    assert_eq!(
        strategy,
        Strategy {
            method: Strategies::DISORDER,
            base_index: 13,
            add_sni: true,
            add_host: false,
            subtract: false,
            filter_protocol: Some(NetworkProtocol::TCP),
            filter_port: Some(WeakRange { start: 443, end: None }),
            filter_sni: list,
        }
    );
}

#[test]
fn strategy_subtracts_one_from_a_number_only() {
    let built = |offset: &str, subtract: bool| {
        Strategy::from(String::from("--tcp_split"), String::from(offset), subtract, "udp", "", None)
    };
    assert_eq!(built("5+", true).base_index, 4);
    assert_eq!(built("5+", false).base_index, 5);
    assert_eq!(built("x+", true).base_index, 0);
    assert_eq!(built("0+h", true).base_index, -1);
    assert!(built("0+h", true).add_host);
    assert!(!built("0+h", true).add_sni);
    assert!(built("0+hs", true).add_sni);
    assert!(built("5+", true).subtract);
    assert_eq!(built("5+", false).filter_protocol, Some(NetworkProtocol::UDP));
    assert_eq!(built("5+", false).filter_port, None);
    assert_eq!(built("5+", false).filter_sni, None);
}

#[test]
fn strategy_protocol_is_tcp_for_that_word_alone() {
    let built = |protocol: &str| {
        Strategy::from(String::from("--tcp_split"), String::from("1+"), false, protocol, "", None)
            .filter_protocol
    };
    assert_eq!(built("tcp"), Some(NetworkProtocol::TCP));
    assert_eq!(built("TCP"), Some(NetworkProtocol::UDP));
    assert_eq!(built(""), Some(NetworkProtocol::UDP));
    assert_eq!(built("udp"), Some(NetworkProtocol::UDP));
}

#[test]
fn checked_build_refuses_what_does_not_fit() {
    let built = Strategy::checked_from(
        String::from("--tcp_split"),
        String::from("-9223372036854775808+"),
        true,
        "tcp",
        "",
        None,
    );
    assert_eq!(built, None);
    let built = Strategy::checked_from(
        String::from("--tcp_split"),
        String::from("-9223372036854775808+"),
        false,
        "tcp",
        "",
        None,
    );
    assert_eq!(built.map(|s| s.base_index), Some(i64::MIN));
    let built = Strategy::checked_from(
        String::from("--tcp_split"),
        String::from("7+"),
        true,
        "tcp",
        "",
        None,
    );
    assert_eq!(built.map(|s| s.base_index), Some(6));
}

#[test]
fn help_text_is_handed_out_whole() {
    let text = get_help_text();
    assert_eq!(text, HELP_TEXT);
    assert!(text.starts_with("./waterfall [OPTION] [VALUE]\n"));
    assert!(text.contains("--fake [Offset] - Applies TCP stream segmentation, corrupts first part and sends a duplicate of it with \"yandex.ru\" SNI"));
    assert!(text.ends_with("between these segments."));
}
