use opc_da::hresult::{is_connection_code, E_FAIL, RPC_S_CALL_FAILED, RPC_S_SERVER_UNAVAILABLE, S_OK};
use opc_da::server::registry::{push_guid, push_hex, Guid};
use opc_da::sim::runtime::{eq_ignore_ascii_case, parse_count_line};
use opc_da::text::{
    is_white_space_char, parse_u32, parse_u64, parse_usize, push_decimal, push_decimal_u64, split_by, str_eq,
    str_lt, trim, trim_end, trim_start, usize_to_decimal,
};

#[test]
fn unsigned_parsing_agrees_with_std() {
    let cases = [
        "0", "7", "+42", "007", "", "+", "-1", " 1", "1 ", "12a", "4294967295", "4294967296",
        "18446744073709551615", "18446744073709551616", "99999999999999999999999",
    ];
    for s in cases {
        assert_eq!(parse_u32(s), s.parse::<u32>().ok(), "u32 of {s:?}");
        assert_eq!(parse_u64(s), s.parse::<u64>().ok(), "u64 of {s:?}");
        assert_eq!(parse_usize(s), s.parse::<usize>().ok(), "usize of {s:?}");
    }
    assert_eq!(parse_u32("+42"), Some(42));
    assert_eq!(parse_u32("4294967296"), None);
    assert_eq!(parse_u64("18446744073709551615"), Some(u64::MAX));
}

#[test]
fn decimal_formatting_agrees_with_std() {
    for n in [0usize, 5, 10, 99, 100, 1234, 1_000_000, usize::MAX] {
        assert_eq!(usize_to_decimal(n), n.to_string());
    }
    let mut s = String::from("n=");
    push_decimal(&mut s, 305);
    assert_eq!(s, "n=305");
    let mut t = String::from("x");
    push_decimal_u64(&mut t, u64::MAX);
    assert_eq!(t, format!("x{}", u64::MAX));
}

#[test]
fn string_equality_and_order_agree_with_std() {
    let words = ["", "a", "ab", "abc", "b", "B", "Random.Int4", "Random.Real8", "\u{e9}", "z"];
    for a in words {
        for b in words {
            assert_eq!(str_eq(a, b), a == b, "{a:?} == {b:?}");
            assert_eq!(str_lt(a, b), a < b, "{a:?} < {b:?}");
        }
    }
}

#[test]
fn split_agrees_with_std() {
    for s in ["", "a", "a\nb", "\n", "a\n\nb\n", "count = 3\r\nother"] {
        let expected: Vec<String> = s.split('\n').map(str::to_string).collect();
        assert_eq!(split_by(s, '\n'), expected, "split of {s:?}");
    }
}

#[test]
fn trim_agrees_with_std() {
    for s in ["", "  ", " a ", "\t\r\nx y\u{3000}", "\u{a0}z", "no_space", "\u{2028}in\u{85}"] {
        assert_eq!(trim(s), s.trim(), "trim of {s:?}");
        assert_eq!(trim_start(s), s.trim_start(), "trim_start of {s:?}");
        assert_eq!(trim_end(s), s.trim_end(), "trim_end of {s:?}");
    }
    for c in ['a', ' ', '\t', '\n', '\u{85}', '\u{a0}', '\u{1680}', '\u{2000}', '\u{200b}', '\u{3000}', '_'] {
        assert_eq!(is_white_space_char(c), c.is_whitespace(), "{c:?}");
    }
}

#[test]
fn ascii_case_comparison_agrees_with_std() {
    for (a, b) in [("/RegServer", "/regserver"), ("/REGSERVER", "/RegServer"), ("/Reg", "/RegServer"), ("x", "y"), ("\u{c9}", "\u{e9}")] {
        assert_eq!(eq_ignore_ascii_case(a, b), a.eq_ignore_ascii_case(b), "{a:?} ~ {b:?}");
    }
}

#[test]
fn count_line_forms() {
    assert_eq!(parse_count_line("count = 5"), Some(5));
    assert_eq!(parse_count_line("  count=12  "), Some(12));
    assert_eq!(parse_count_line("count= +3"), Some(3));
    assert_eq!(parse_count_line("count 5"), None);
    assert_eq!(parse_count_line("count = x"), None);
    assert_eq!(parse_count_line("# count = 5"), None);
    assert_eq!(parse_count_line("counter = 5"), None);
}

#[test]
fn hex_and_guid_text() {
    let mut s = String::new();
    push_hex(&mut s, 0xBEEF, 6, true);
    assert_eq!(s, "00BEEF");
    let mut t = String::new();
    push_hex(&mut t, 0x1234_5678, 4, false);
    assert_eq!(t, "5678");
    let g = Guid { data1: 0x0123_ABCD, data2: 0x45EF, data3: 0x0A0B, data4: [0xDE, 0xAD, 0xBE, 0xEF, 0x00, 0x01, 0x02, 0x0F] };
    let mut lower = String::new();
    push_guid(&mut lower, &g, false);
    assert_eq!(lower, "0123abcd-45ef-0a0b-dead-beef0001020f");
    let mut upper = String::from("{");
    push_guid(&mut upper, &g, true);
    assert_eq!(upper, "{0123ABCD-45EF-0A0B-DEAD-BEEF0001020F");
}

#[test]
fn connection_codes() {
    assert!(is_connection_code(RPC_S_SERVER_UNAVAILABLE));
    assert!(is_connection_code(RPC_S_CALL_FAILED));
    assert!(is_connection_code(0x800706BFu32 as i32));
    assert!(is_connection_code(0x80080005u32 as i32));
    assert!(!is_connection_code(E_FAIL));
    assert!(!is_connection_code(S_OK));
}
