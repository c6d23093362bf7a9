use icarus::diagnostics::{Diagnostic, DiagnosticLevel};
use icarus::tagged::{decode_int, encode_int, is_int, render_encoded};

#[test]
fn tagged_integers_round_trip() {
    for v in [0i64, 1, -1, 42, -42, (1i64 << 62) - 1, -(1i64 << 62)] {
        let w = encode_int(v);
        assert!(is_int(w));
        assert_eq!(decode_int(w), v);
    }
    assert_eq!(encode_int(20), 41);
    assert!(!is_int(0x1000));
}

#[test]
fn rendering_of_value_words() {
    assert_eq!(render_encoded(0), "null");
    assert_eq!(render_encoded(85), "42");
    assert_eq!(render_encoded(encode_int(-7)), "-7");
    assert_eq!(render_encoded(0x10), "0x10");
    assert_eq!(render_encoded(0xdeadbeef0), "0xdeadbeef0");
    assert_eq!(render_encoded(u64::MAX), "-1");
}

#[test]
fn diagnostics_carry_level_message_and_position() {
    let d = Diagnostic::error("bad token");
    assert_eq!(d.level, DiagnosticLevel::Error);
    assert_eq!(d.message, "bad token");
    assert_eq!(d.location_suffix(), "");
    let d = d.at(3, 14);
    assert_eq!((d.line, d.column), (Some(3), Some(14)));
    assert_eq!(d.location_suffix(), " at line 3, column 14");
    let w = Diagnostic::warning("unused");
    assert_eq!(w.level, DiagnosticLevel::Warning);
    assert!(w.suggestion.is_none());
    let s = Diagnostic::suggestion("missing colon", "add ':'");
    assert_eq!(s.level, DiagnosticLevel::Suggestion);
    assert_eq!(s.suggestion, Some("add ':'".to_string()));
}
