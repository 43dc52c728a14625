use sound_engine::text::{bpm_text_forms, is_blank, is_bpm_alias};

#[test]
fn forms_of_a_decorated_tempo() {
    let f = bpm_text_forms("  128,5 BPM \t").unwrap();
    assert_eq!(f.exact, b"128,5 BPM".to_vec());
    assert_eq!(f.comma_decimal, b"128.5 BPM".to_vec());
    assert_eq!(f.digits_only, Some(b"128.5".to_vec()));
}

#[test]
fn forms_of_a_plain_tempo() {
    let f = bpm_text_forms("128.00").unwrap();
    assert_eq!(f.exact, b"128.00".to_vec());
    assert_eq!(f.comma_decimal, b"128.00".to_vec());
    assert_eq!(f.digits_only, Some(b"128.00".to_vec()));
}

#[test]
fn forms_without_digits() {
    let f = bpm_text_forms("\u{a0}fast\u{3000}").unwrap();
    assert_eq!(f.exact, "fast".as_bytes().to_vec());
    assert_eq!(f.digits_only, None);
}

#[test]
fn blank_text_has_no_forms() {
    assert!(bpm_text_forms("").is_none());
    assert!(bpm_text_forms(" \n\t\u{2003}").is_none());
}

#[test]
fn blank_detection() {
    assert!(is_blank(""));
    assert!(is_blank("   "));
    assert!(!is_blank(" a "));
}

#[test]
fn tempo_key_aliases() {
    for key in ["BPM", "bpm", "TBPM", "Tempo", "tmpo", "TMP0"] {
        assert!(is_bpm_alias(key), "{key}");
    }
    for key in ["", "BP", "BPMX", "TEMP0", "TMPO ", "BPM\u{0}"] {
        assert!(!is_bpm_alias(key), "{key}");
    }
}
