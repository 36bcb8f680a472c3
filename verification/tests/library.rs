//! Tests of decoding, error messages, the text helpers, the runner's
//! decisions and the perturbation of inputs.

use hex::etna::{
    property_from_hex_rejects_whitespace, property_invalid_char_error_display_escaped, to_opt,
    PropertyResult,
};
use hex::inputs::{ByteInput, WhitespaceInput};
use hex::runner::{
    json_line, json_str, read_hegel_panic, replay_witnesses, status_outcome, strip_prefix,
    unknown_property_message, unknown_tool_message, AllRun, HegelPanic, Metrics, RunStatus, Tool,
};
use hex::text::{push_bytes_debug, push_char_debug, push_decimal, str_eq};
use hex::{decode, FromHexError};

#[test]
fn decode_lower_and_upper_case() {
    assert_eq!(decode(b"666f6f626172"), Ok(b"foobar".to_vec()));
    assert_eq!(decode(b"48656C6C6F"), Ok(b"Hello".to_vec()));
    assert_eq!(decode(b"0aFf"), Ok(vec![0x0a, 0xff]));
}

#[test]
fn decode_empty_is_empty() {
    assert_eq!(decode(b""), Ok(vec![]));
}

#[test]
fn decode_odd_length() {
    assert_eq!(decode(b"123"), Err(FromHexError::OddLength));
    assert_eq!(decode(b"1"), Err(FromHexError::OddLength));
    // An odd length is reported before any invalid character.
    assert_eq!(decode(b"zz1"), Err(FromHexError::OddLength));
}

#[test]
fn decode_invalid_character() {
    assert_eq!(
        decode(b"123g"),
        Err(FromHexError::InvalidHexCharacter { c: 'g', index: 3 })
    );
    // The first invalid byte is the one reported.
    assert_eq!(
        decode(b"1x2y"),
        Err(FromHexError::InvalidHexCharacter { c: 'x', index: 1 })
    );
}

#[test]
fn decode_rejects_whitespace() {
    assert_eq!(
        decode(b" 0ab1"),
        Err(FromHexError::OddLength)
    );
    assert_eq!(
        decode(b" 0ab"),
        Err(FromHexError::InvalidHexCharacter { c: ' ', index: 0 })
    );
    assert_eq!(
        decode(b"12\t4"),
        Err(FromHexError::InvalidHexCharacter { c: '\t', index: 2 })
    );
    assert_eq!(
        decode(b"1\n"),
        Err(FromHexError::InvalidHexCharacter { c: '\n', index: 1 })
    );
    assert_eq!(
        decode(b"\r0"),
        Err(FromHexError::InvalidHexCharacter { c: '\r', index: 0 })
    );
}

#[test]
fn decode_every_byte_value() {
    for b in 0u16..=255 {
        let text = format!("{:02x}", b);
        assert_eq!(decode(text.as_bytes()), Ok(vec![b as u8]));
        let text = format!("{:02X}", b);
        assert_eq!(decode(text.as_bytes()), Ok(vec![b as u8]));
    }
}

#[test]
fn error_messages() {
    assert_eq!(FromHexError::OddLength.to_string(), "Odd number of digits");
    assert_eq!(FromHexError::InvalidStringLength.to_string(), "Invalid string length");
    assert_eq!(
        FromHexError::InvalidHexCharacter { c: 'g', index: 3 }.to_string(),
        "Invalid character 'g' at position 3"
    );
    assert_eq!(
        FromHexError::InvalidHexCharacter { c: '\n', index: 0 }.to_string(),
        "Invalid character '\\n' at position 0"
    );
    assert_eq!(
        FromHexError::InvalidHexCharacter { c: '\u{0}', index: 12 }.to_string(),
        "Invalid character '\\0' at position 12"
    );
    assert_eq!(
        FromHexError::InvalidHexCharacter { c: '\u{1b}', index: 7 }.to_string(),
        "Invalid character '\\u{1b}' at position 7"
    );
}

#[test]
fn error_message_matches_std_debug_for_every_byte() {
    for b in 0u16..=255 {
        let c = b as u8 as char;
        let e = FromHexError::InvalidHexCharacter { c, index: b as usize };
        assert_eq!(e.to_string(), format!("Invalid character {:?} at position {}", c, b));
        assert_eq!(e.debug_string(), format!("{:?}", e));
    }
}

#[test]
fn error_message_beyond_latin1_uses_std() {
    for c in ['é', '\u{300}', '\u{2028}', 'λ', '\u{10ffff}', '😀'] {
        let e = FromHexError::InvalidHexCharacter { c, index: 1 };
        assert_eq!(e.to_string(), format!("Invalid character {:?} at position 1", c));
    }
}

#[test]
fn error_message_holds_no_control_character() {
    for b in 0u16..=255 {
        let e = FromHexError::InvalidHexCharacter { c: b as u8 as char, index: 99 };
        let s = e.to_string();
        assert!(s.chars().all(|c| !((c as u32) < 0x20 || (0x7f..0xa0).contains(&(c as u32)))));
    }
}

#[test]
fn debug_strings() {
    assert_eq!(FromHexError::OddLength.debug_string(), "OddLength");
    assert_eq!(FromHexError::InvalidStringLength.debug_string(), "InvalidStringLength");
    assert_eq!(
        FromHexError::InvalidHexCharacter { c: 'z', index: 4 }.debug_string(),
        "InvalidHexCharacter { c: 'z', index: 4 }"
    );
}

#[test]
fn text_helpers_match_std() {
    for n in [0u128, 1, 9, 10, 99, 100, 12345, u64::MAX as u128, u128::MAX] {
        let mut s = String::new();
        push_decimal(&mut s, n);
        assert_eq!(s, n.to_string());
    }
    for v in [vec![], vec![0u8], vec![0, 171, 16], vec![255; 5]] {
        let mut s = String::from(">");
        push_bytes_debug(&mut s, &v);
        assert_eq!(s, format!(">{:?}", v));
    }
    let mut s = String::new();
    push_char_debug(&mut s, '\'');
    assert_eq!(s, "'\\''");
    assert!(str_eq("abc", "abc"));
    assert!(!str_eq("abc", "abd"));
    assert!(!str_eq("abc", "ab"));
}

#[test]
fn whitespace_property_passes_or_discards() {
    assert!(matches!(
        property_from_hex_rejects_whitespace(vec![], 5, 5),
        PropertyResult::Discard
    ));
    for len in 1usize..=300 {
        let data: Vec<u8> = (0..len).map(|i| (i * 37 + 11) as u8).collect();
        for (ws_at, ws_kind) in [(0u32, 0u8), (1, 1), (77, 2), (u32::MAX, 3), (5, 255)] {
            assert!(matches!(
                property_from_hex_rejects_whitespace(data.clone(), ws_at, ws_kind),
                PropertyResult::Pass
            ));
        }
    }
}

#[test]
fn display_property_on_every_byte() {
    for b in 0u16..=255 {
        let b = b as u8;
        let r = property_invalid_char_error_display_escaped(b);
        if b < 0x20 || b == 0x7f {
            assert!(matches!(r, PropertyResult::Pass), "byte {b}");
        } else {
            assert!(matches!(r, PropertyResult::Discard), "byte {b}");
        }
    }
}

#[test]
fn to_opt_maps_outcomes() {
    assert_eq!(to_opt(PropertyResult::Pass), Some(true));
    assert_eq!(to_opt(PropertyResult::Fail("x".to_string())), Some(false));
    assert_eq!(to_opt(PropertyResult::Discard), None);
}

#[test]
fn json_strings() {
    assert_eq!(json_str("abc"), "\"abc\"");
    assert_eq!(json_str("a\"b\\c"), "\"a\\\"b\\\\c\"");
    assert_eq!(json_str("\n\r\t"), "\"\\n\\r\\t\"");
    assert_eq!(json_str("\u{1}\u{1f}é"), "\"\\u0001\\u001fé\"");
    assert_eq!(json_str(""), "\"\"");
}

#[test]
fn json_report_line() {
    let m = Metrics { inputs: 40, elapsed_us: 1234 };
    assert_eq!(
        json_line("etna", "All", "passed", m, None, None),
        "{\"status\":\"passed\",\"tests\":40,\"discards\":0,\"time\":\"1234us\",\"counterexample\":null,\"error\":null,\"tool\":\"etna\",\"property\":\"All\"}"
    );
    assert_eq!(
        json_line("hegel", "P", "failed", Metrics::default(), Some("(0x1b)"), Some("e\"")),
        "{\"status\":\"failed\",\"tests\":0,\"discards\":0,\"time\":\"0us\",\"counterexample\":\"(0x1b)\",\"error\":\"e\\\"\",\"tool\":\"hegel\",\"property\":\"P\"}"
    );
}

#[test]
fn metrics_combine_adds() {
    let a = Metrics { inputs: 3, elapsed_us: 10 };
    let b = Metrics { inputs: 4, elapsed_us: 5 };
    let c = a.combine(b);
    assert_eq!((c.inputs, c.elapsed_us), (7, 15));
    let d = Metrics::default();
    assert_eq!((d.inputs, d.elapsed_us), (0, 0));
}

#[test]
fn all_run_visits_properties_in_order() {
    let mut all = AllRun::new();
    assert_eq!(all.next_property(), Some("FromHexRejectsWhitespace"));
    assert!(all.record(Ok(()), Metrics { inputs: 1, elapsed_us: 2 }).is_ok());
    assert_eq!(all.next_property(), Some("InvalidCharErrorDisplayEscaped"));
    assert!(all.record(Ok(()), Metrics { inputs: 1, elapsed_us: 3 }).is_ok());
    assert_eq!(all.next_property(), None);
    assert_eq!((all.total().inputs, all.total().elapsed_us), (2, 5));
}

#[test]
fn all_run_stops_at_first_failure() {
    let mut all = AllRun::new();
    assert_eq!(all.next_property(), Some("FromHexRejectsWhitespace"));
    let r = all.record(Err("boom".to_string()), Metrics { inputs: 9, elapsed_us: 1 });
    assert_eq!(r, Err("boom".to_string()));
    assert_eq!(all.next_property(), None);
    assert_eq!(all.total().inputs, 9);
}

#[test]
fn replaying_witnesses() {
    assert_eq!(replay_witnesses("FromHexRejectsWhitespace"), Some(Ok(())));
    assert_eq!(replay_witnesses("InvalidCharErrorDisplayEscaped"), Some(Ok(())));
    assert_eq!(replay_witnesses("All"), None);
    assert_eq!(replay_witnesses("Other"), None);
}

#[test]
fn tool_names() {
    assert!(matches!(Tool::from_name("etna"), Some(Tool::Etna)));
    assert!(matches!(Tool::from_name("proptest"), Some(Tool::Proptest)));
    assert!(matches!(Tool::from_name("quickcheck"), Some(Tool::Quickcheck)));
    assert!(matches!(Tool::from_name("crabcheck"), Some(Tool::Crabcheck)));
    assert!(matches!(Tool::from_name("hegel"), Some(Tool::Hegel)));
    assert!(Tool::from_name("nope").is_none());
    assert!(Tool::from_name("").is_none());
}

#[test]
fn whitespace_input_text_and_mutation() {
    let w = WhitespaceInput { data: vec![1, 200], ws_at: 5, ws_kind: 3 };
    assert_eq!(w.describe(), "data=[1, 200] ws_at=5 ws_kind=3");
    let m = w.mutated(0, 1, 7, 0);
    assert_eq!((m.data.clone(), m.ws_at, m.ws_kind), (vec![1, 7], 5, 3));
    let m = w.mutated(1, 0, 0, 31);
    assert_eq!((m.data.clone(), m.ws_at, m.ws_kind), (vec![1, 200], 5 ^ (1 << 31), 3));
    let m = w.mutated(2, 0, 0, 7);
    assert_eq!((m.data.clone(), m.ws_at, m.ws_kind), (vec![1, 200], 5, 3 ^ 128));
    let e = WhitespaceInput { data: vec![], ws_at: 0, ws_kind: 0 };
    let m = e.mutated(0, 0, 42, 0);
    assert_eq!(m.data, vec![42]);
}

#[test]
fn byte_input_text_and_mutation() {
    assert_eq!(ByteInput(0x1b).describe(), "0x1b");
    assert_eq!(ByteInput(0).describe(), "0x00");
    assert_eq!(ByteInput(0x1b).mutated(0).0, 0x1a);
    assert_eq!(ByteInput(0x00).mutated(7).0, 0x80);
}


#[test]
fn json_str_uses_standard_escapes() {
    // The escapes that json_str writes are the standard JSON ones.
    assert_eq!(json_str("\u{8}\u{c}/"), "\"\\u0008\\u000c/\"");
    assert_eq!(json_str("tab\there"), "\"tab\\there\"");
}

#[test]
fn run_status_messages() {
    assert_eq!(status_outcome("crabcheck", RunStatus::Finished), Ok(()));
    assert_eq!(
        status_outcome(
            "crabcheck",
            RunStatus::Failed { arguments: vec!["[1, 2]".to_string(), "7".to_string()] }
        ),
        Err("([1, 2] 7)".to_string())
    );
    assert_eq!(
        status_outcome("crabcheck", RunStatus::Failed { arguments: vec![] }),
        Err("()".to_string())
    );
    assert_eq!(status_outcome("crabcheck", RunStatus::TimedOut), Err("crabcheck timed out".to_string()));
    assert_eq!(
        status_outcome("quickcheck", RunStatus::Aborted { error: "boom".to_string() }),
        Err("quickcheck aborted: boom".to_string())
    );
    assert_eq!(
        status_outcome("crabcheck", RunStatus::GaveUp { passed: 3, discarded: 400 }),
        Err("crabcheck gave up: passed=3, discarded=400".to_string())
    );
}

#[test]
fn unknown_names() {
    assert_eq!(unknown_property_message(None, "X"), "Unknown property: X");
    assert_eq!(unknown_property_message(Some("proptest"), "X"), "Unknown property for proptest: X");
    assert_eq!(unknown_tool_message("foo"), "Unknown tool: foo");
}

#[test]
fn hegel_panic_texts() {
    match read_hegel_panic("__unknown_property:Nope") {
        HegelPanic::UnknownProperty(m) => assert_eq!(m, "Unknown property for hegel: Nope"),
        HegelPanic::Failed(_) => panic!("expected an unknown property"),
    }
    match read_hegel_panic("Property test failed: (0x1b)") {
        HegelPanic::Failed(m) => assert_eq!(m, "(0x1b)"),
        HegelPanic::UnknownProperty(_) => panic!("expected a failure"),
    }
    match read_hegel_panic("other") {
        HegelPanic::Failed(m) => assert_eq!(m, "other"),
        HegelPanic::UnknownProperty(_) => panic!("expected a failure"),
    }
    assert_eq!(strip_prefix("abcdé", "ab"), Some("cdé"));
    assert_eq!(strip_prefix("ab", "abc"), None);
    assert_eq!(strip_prefix("xbc", "ab"), None);
    assert_eq!(strip_prefix("ab", ""), Some("ab"));
}
