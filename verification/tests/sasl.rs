//! SASL payloads.

use base64::Engine;
use shade::ircd::sasl::{authenticate_start, sasl_authenticate_lines, SaslMechanism};

#[test]
fn plain_mechanism_name() {
    let m = SaslMechanism::Plain {
        authzid: String::new(),
        username: "shade".into(),
        password: "hunter2".into(),
    };
    assert_eq!(m.name(), "PLAIN");
}

#[test]
fn plain_payload_layout() {
    let m = SaslMechanism::Plain {
        authzid: String::new(),
        username: "shade".into(),
        password: "hunter2".into(),
    };
    let raw = m.raw_payload();
    // empty + NUL + "shade" + NUL + "hunter2"
    assert_eq!(raw, b"\0shade\0hunter2");
}

#[test]
fn plain_authenticate_lines_round_trip() {
    let m = SaslMechanism::Plain {
        authzid: String::new(),
        username: "shade".into(),
        password: "hunter2".into(),
    };
    let start = authenticate_start(&m);
    let body = sasl_authenticate_lines(&m);
    assert_eq!(start, "AUTHENTICATE PLAIN");
    assert_eq!(body.len(), 1);
    assert!(body[0].starts_with("AUTHENTICATE "));

    let encoded = body[0].trim_start_matches("AUTHENTICATE ");
    let decoded = base64::engine::general_purpose::STANDARD.decode(encoded).unwrap();
    assert_eq!(decoded, b"\0shade\0hunter2");
}

#[test]
fn external_with_no_authzid_is_plus() {
    let m = SaslMechanism::External {
        authzid: String::new(),
    };
    assert_eq!(authenticate_start(&m), "AUTHENTICATE EXTERNAL");
    assert_eq!(sasl_authenticate_lines(&m), vec!["AUTHENTICATE +"]);
}

#[test]
fn external_with_authzid_is_encoded() {
    let m = SaslMechanism::External {
        authzid: "shadeops".into(),
    };
    let lines = sasl_authenticate_lines(&m);
    assert_eq!(lines.len(), 1);
    let encoded = lines[0].trim_start_matches("AUTHENTICATE ");
    assert_eq!(base64::engine::general_purpose::STANDARD.decode(encoded).unwrap(), b"shadeops");
}

#[test]
fn long_plain_payload_chunks_correctly() {
    // Pick a username that, with NULs and a short password, makes the
    // raw payload larger than 400 bytes.
    let username = "u".repeat(450);
    let m = SaslMechanism::Plain {
        authzid: String::new(),
        username: username.clone(),
        password: "p".into(),
    };
    let lines = sasl_authenticate_lines(&m);
    // Payload: 1 (authzid+NUL) + 450 (username) + 1 (NUL) + 1 (password) = 453 bytes
    // → two chunks: 400 + 53.
    assert_eq!(lines.len(), 2);
    assert!(lines[0].starts_with("AUTHENTICATE "));
    assert!(lines[1].starts_with("AUTHENTICATE "));
}

#[test]
fn payload_exactly_chunk_boundary_emits_terminator() {
    // 400-byte raw payload → one full chunk + AUTHENTICATE + terminator.
    let username = "u".repeat(398); // 0 + NUL + 398 + NUL = 400
    let m = SaslMechanism::Plain {
        authzid: String::new(),
        username,
        password: String::new(),
    };
    let lines = sasl_authenticate_lines(&m);
    assert_eq!(lines.len(), 2);
    assert_eq!(lines[1], "AUTHENTICATE +");
}
