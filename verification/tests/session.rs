use script_reloader::models::SavedConnectionDto;
use script_reloader::session::{
    dpapi_unavailable, loaded_session, password_to_save, protected_to_text, saved_record,
    text_to_protected, unprotected_to_text,
};

#[test]
fn protected_text_roundtrip() {
    let protected = protected_to_text(b"secret-pass");
    let bytes = text_to_protected(&protected).unwrap();
    let plain = unprotected_to_text(bytes).unwrap();
    assert_eq!(plain, "secret-pass");
}

#[test]
fn protected_text_is_standard_base64() {
    assert_eq!(protected_to_text(b"secret-pass"), "c2VjcmV0LXBhc3M=");
    assert_eq!(protected_to_text(b""), "");
    assert_eq!(protected_to_text(b"ab"), "YWI=");
    assert_eq!(protected_to_text(&[0xfb, 0xff]), "+/8=");
    assert_eq!(text_to_protected("YWJj").unwrap(), b"abc".to_vec());
}

#[test]
fn protected_text_errors() {
    assert!(text_to_protected("not base64!").unwrap_err().starts_with("base64 decode failed: "));
    assert!(unprotected_to_text(vec![0xff, 0xfe]).unwrap_err().starts_with("utf8 decode failed: "));
    assert_eq!(dpapi_unavailable(), "DPAPI is only available on Windows");
}

#[test]
fn session_record_and_load() {
    let dto = saved_record("192.168.1.50", 0, "deploy", Some("abc123".into()));
    assert_eq!(dto.password_protected.as_deref(), Some("abc123"));
    let s = loaded_session(dto, Some("pw".into()));
    assert_eq!((s.host.as_str(), s.port, s.username.as_str(), s.password.as_deref()), ("192.168.1.50", 22, "deploy", Some("pw")));
    let s = loaded_session(
        SavedConnectionDto { host: "h".into(), port: 2222, username: "u".into(), password_protected: None },
        None,
    );
    assert_eq!(s.port, 2222);
    assert!(s.password.is_none());
    assert_eq!(password_to_save(Some("")), None);
    assert_eq!(password_to_save(Some("x")), Some("x"));
    assert_eq!(password_to_save(None), None);
}
