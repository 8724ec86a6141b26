use rddns::executor::{basic_auth_header_value, classify_response, u16_to_string, UpdateOutcome};

#[test]
fn basic_auth_header_decodes_to_the_credential_pair() {
    let value = basic_auth_header_value("user", "pass");
    assert!(value.starts_with("Basic "));
    let encoded = &value["Basic ".len()..];
    assert_eq!(encoded, "dXNlcjpwYXNz");
    let decoded = base64::Engine::decode(&base64::engine::general_purpose::STANDARD, encoded)
        .unwrap();
    assert_eq!(decoded, b"user:pass".to_vec());
}

#[test]
fn basic_auth_keeps_colons_in_credentials_verbatim() {
    let value = basic_auth_header_value("us:er", "pa:ss");
    let encoded = &value["Basic ".len()..];
    let decoded = base64::Engine::decode(&base64::engine::general_purpose::STANDARD, encoded)
        .unwrap();
    assert_eq!(decoded, b"us:er:pa:ss".to_vec());
}

#[test]
fn every_2xx_status_is_success() {
    for status in [200u16, 204, 299] {
        let r = classify_response("http://a.example".to_string(), Some(status), String::new());
        match r {
            UpdateOutcome::Succeeded { url, status: s } => {
                assert_eq!(url, "http://a.example".to_string());
                assert_eq!(s, status);
            },
            other => panic!("expected success, got {:?}", other),
        }
    }
}

#[test]
fn non_2xx_statuses_fail_with_the_status_in_the_message() {
    for (status, text) in [(199u16, "unexpected HTTP status 199"), (300, "unexpected HTTP status 300"), (404, "unexpected HTTP status 404"), (500, "unexpected HTTP status 500")] {
        let r = classify_response("http://a.example".to_string(), Some(status), String::new());
        match r {
            UpdateOutcome::Failed { url, message } => {
                assert_eq!(url, "http://a.example".to_string());
                assert_eq!(message, text.to_string());
            },
            other => panic!("expected failure, got {:?}", other),
        }
    }
}

#[test]
fn transport_failures_keep_their_description() {
    let r = classify_response(
        "http://a.example".to_string(),
        None,
        "connection refused".to_string(),
    );
    match r {
        UpdateOutcome::Failed { url, message } => {
            assert_eq!(url, "http://a.example".to_string());
            assert_eq!(message, "connection refused".to_string());
        },
        other => panic!("expected failure, got {:?}", other),
    }
}

#[test]
fn decimal_rendering_is_exact() {
    assert_eq!(u16_to_string(0), "0".to_string());
    assert_eq!(u16_to_string(7), "7".to_string());
    assert_eq!(u16_to_string(404), "404".to_string());
    assert_eq!(u16_to_string(65535), "65535".to_string());
}
