//! Fixed witness inputs of the two properties: each one must pass.

use hex::etna::{
    property_from_hex_rejects_whitespace, property_invalid_char_error_display_escaped,
    PropertyResult,
};

fn expect_pass(r: PropertyResult, what: &str) {
    match r {
        PropertyResult::Pass => {}
        PropertyResult::Fail(m) => panic!("{}: property failed: {}", what, m),
        PropertyResult::Discard => panic!("{}: unexpected discard", what),
    }
}

// A space injected at the first pair must be rejected at index 0.
#[test]
fn witness_from_hex_rejects_whitespace_case_space_at_start() {
    expect_pass(
        property_from_hex_rejects_whitespace(vec![0xff, 0xaa, 0xbb, 0xcc, 0xdd, 0xee], 0, 0),
        "from_hex_rejects_whitespace / space_at_start",
    );
}

// A tab injected at pair offset 2 (byte index 4) must be rejected there.
#[test]
fn witness_from_hex_rejects_whitespace_case_tab_mid_string() {
    expect_pass(
        property_from_hex_rejects_whitespace(
            vec![0x12, 0x34, 0x56, 0x78, 0x9a, 0xbc, 0xde, 0xf0],
            2,
            1,
        ),
        "from_hex_rejects_whitespace / tab_mid_string",
    );
}

// NUL must be shown escaped in the error message.
#[test]
fn witness_invalid_char_error_display_escaped_case_nul() {
    expect_pass(
        property_invalid_char_error_display_escaped(0x00),
        "invalid_char_error_display_escaped / nul",
    );
}

// ESC must be shown escaped in the error message.
#[test]
fn witness_invalid_char_error_display_escaped_case_esc() {
    expect_pass(
        property_invalid_char_error_display_escaped(0x1b),
        "invalid_char_error_display_escaped / esc",
    );
}
