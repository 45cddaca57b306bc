use pumpfeed::cid::extract_cid_from_url;
use pumpfeed::config::{RawValidateEnv, ValidateConfig};
use pumpfeed::dispatch::{
    classify_payload, message_records, plan_fetch, unwrap_quoted, FetchDecision,
};
use pumpfeed::records::{JsonField, LogRecord, PayloadJson};

fn b(s: &str) -> Vec<u8> {
    s.as_bytes().to_vec()
}

fn vcfg_off() -> ValidateConfig {
    ValidateConfig::from_env(&RawValidateEnv {
        enabled: None,
        allowed_subjects: None,
        require_mint: None,
        require_image: None,
        info_keys: None,
    })
}

#[test]
fn quoted_payload_unwrap_and_cid() {
    let body = b("\"{\\\"mint\\\":\\\"X\\\",\\\"image\\\":\\\"ipfs://bafy/\\\"}\"");
    let text = unwrap_quoted(&body);
    assert_eq!(text, b("{\"mint\":\"X\",\"image\":\"ipfs://bafy/\"}"));
    let payload = classify_payload(&text);
    let subject = b("coinImageUpdated.X");
    let records = message_records(&subject, &payload, &text, &vcfg_off());
    assert_eq!(records.len(), 1);
    match &records[0] {
        LogRecord::Parsed { subject: s, mint, image } => {
            assert_eq!(s, &subject);
            assert!(matches!(mint, JsonField::Text(t) if t == &b("X")));
            assert!(matches!(image, JsonField::Text(t) if t == &b("ipfs://bafy/")));
        }
        _ => panic!("expected the parsed record"),
    }
    assert_eq!(extract_cid_from_url(&b("ipfs://bafy/")).unwrap(), b("bafy"));
    match plan_fetch(&subject, &payload, true) {
        FetchDecision::Launch { subject: s, mint, cid } => {
            assert_eq!(s, subject);
            assert_eq!(mint, b("X"));
            assert_eq!(cid, b("bafy"));
        }
        _ => panic!("expected a launch"),
    }
}

#[test]
fn unquoted_body_passes_through() {
    let body = b("{\"a\":1}");
    assert_eq!(unwrap_quoted(&body), body);
}

#[test]
fn quote_delimited_but_undecodable_body_is_kept() {
    let body = b("\"");
    assert_eq!(unwrap_quoted(&body), body);
}

#[test]
fn non_object_payload_record() {
    let text = b("[1,2,3]");
    let payload = classify_payload(&text);
    let records = message_records(&b("s"), &payload, &text, &vcfg_off());
    assert_eq!(records.len(), 1);
    assert!(matches!(&records[0], LogRecord::NonObject { subject } if subject == &b("s")));
}

#[test]
fn parse_error_record_has_preview() {
    let text = b("not json at all");
    let payload = classify_payload(&text);
    assert!(matches!(payload, PayloadJson::Invalid { .. }));
    let records = message_records(&b("s"), &payload, &text, &vcfg_off());
    assert_eq!(records.len(), 1);
    match &records[0] {
        LogRecord::ParseError { subject, error, payload_preview } => {
            assert_eq!(subject, &b("s"));
            assert!(!error.is_empty());
            assert_eq!(payload_preview, &text);
        }
        _ => panic!("expected the parse-error record"),
    }
}

#[test]
fn preview_caps_at_two_hundred_characters() {
    let long = "x".repeat(300);
    let text = b(&long);
    let payload = classify_payload(&text);
    let records = message_records(&b("s"), &payload, &text, &vcfg_off());
    match &records[0] {
        LogRecord::ParseError { payload_preview, .. } => {
            assert_eq!(payload_preview.len(), 200);
        }
        _ => panic!("expected the parse-error record"),
    }
}

#[test]
fn null_and_absent_fields_become_null() {
    let text = b("{\"mint\":null}");
    let payload = classify_payload(&text);
    match &payload {
        PayloadJson::Object { mint, image } => {
            assert!(matches!(mint, JsonField::Null));
            assert!(matches!(image, JsonField::Absent));
        }
        _ => panic!("expected an object"),
    }
}

#[test]
fn non_string_field_keeps_its_json_text() {
    let text = b("{\"mint\":42}");
    let payload = classify_payload(&text);
    match &payload {
        PayloadJson::Object { mint, .. } => {
            assert!(matches!(mint, JsonField::Other(t) if t == &b("42")));
        }
        _ => panic!("expected an object"),
    }
}

#[test]
fn validation_records_for_broken_rules() {
    let vcfg = ValidateConfig::from_env(&RawValidateEnv {
        enabled: Some(b("1")),
        allowed_subjects: Some(b("allowed.")),
        require_mint: Some(b("yes")),
        require_image: Some(b("on")),
        info_keys: None,
    });
    let text = b("{\"mint\":\"\",\"image\":null}");
    let payload = classify_payload(&text);
    let records = message_records(&b("other.subject"), &payload, &text, &vcfg);
    assert_eq!(records.len(), 4);
    assert!(matches!(&records[0], LogRecord::Parsed { .. }));
    assert!(matches!(&records[1], LogRecord::ValidationSubjectDisallowed { .. }));
    assert!(matches!(&records[2], LogRecord::ValidationMissingMint { .. }));
    assert!(matches!(&records[3], LogRecord::ValidationMissingImage { .. }));
}

#[test]
fn validation_passes_for_allowed_subject_and_fields() {
    let vcfg = ValidateConfig::from_env(&RawValidateEnv {
        enabled: Some(b("1")),
        allowed_subjects: Some(b("allowed.")),
        require_mint: Some(b("1")),
        require_image: Some(b("1")),
        info_keys: None,
    });
    let text = b("{\"mint\":\"m\",\"image\":\"i\"}");
    let payload = classify_payload(&text);
    let records = message_records(&b("allowed.subject"), &payload, &text, &vcfg);
    assert_eq!(records.len(), 1);
}

#[test]
fn validation_treats_non_string_as_missing() {
    let vcfg = ValidateConfig::from_env(&RawValidateEnv {
        enabled: Some(b("1")),
        allowed_subjects: None,
        require_mint: Some(b("1")),
        require_image: None,
        info_keys: None,
    });
    let text = b("{\"mint\":7}");
    let payload = classify_payload(&text);
    let records = message_records(&b("s"), &payload, &text, &vcfg);
    assert_eq!(records.len(), 2);
    assert!(matches!(&records[1], LogRecord::ValidationMissingMint { .. }));
}

#[test]
fn plan_fetch_ignores_other_subjects() {
    let text = b("{\"image\":\"ipfs://bafy\"}");
    let payload = classify_payload(&text);
    assert!(matches!(
        plan_fetch(&b("advancedNewCoinCreated"), &payload, true),
        FetchDecision::NotApplicable
    ));
    assert!(matches!(
        plan_fetch(&b("coinImageUpdated.X"), &payload, false),
        FetchDecision::NotApplicable
    ));
}

#[test]
fn plan_fetch_skip_reasons() {
    let subject = b("coinImageUpdated.X");
    let bad = classify_payload(&b("nope"));
    match plan_fetch(&subject, &bad, true) {
        FetchDecision::Skip(LogRecord::SkipParseError { .. }) => {}
        _ => panic!("expected json_parse_error skip"),
    }
    let arr = classify_payload(&b("[]"));
    match plan_fetch(&subject, &arr, true) {
        FetchDecision::Skip(LogRecord::SkipNonObject { .. }) => {}
        _ => panic!("expected json_not_object skip"),
    }
    let noimg = classify_payload(&b("{\"mint\":\"m\"}"));
    match plan_fetch(&subject, &noimg, true) {
        FetchDecision::Skip(LogRecord::SkipNoImage { mint, .. }) => assert_eq!(mint, b("m")),
        _ => panic!("expected no_image skip"),
    }
    let noquery = classify_payload(&b("{\"image\":\"   \"}"));
    match plan_fetch(&subject, &noquery, true) {
        FetchDecision::Skip(LogRecord::SkipNoCid { image_preview, .. }) => {
            assert_eq!(image_preview, b("   "))
        }
        _ => panic!("expected no_cid skip"),
    }
}
