use bmos_client::{extract_intent, parse_intent, IntentError};
use json_minimal::Json;

fn parsed(line: &str) -> (String, f64) {
    let record = parse_intent(line.as_bytes()).unwrap();
    (record.name, f64::from_bits(record.confidence_bits))
}

#[test]
fn voice2json_record_yields_name_and_confidence() {
    let line = r#"{"text": "hi beemo", "likelihood": 1.0, "transcribe_seconds": 5.955755680000948, "wav_seconds": 7.136, "tokens": ["hi", "beemo"], "timeout": false, "intent": {"name": "hi_bmo", "confidence": 1.0}, "entities": [], "raw_text": "hi beemo", "recognize_seconds": 0.00013091099935991224, "raw_tokens": ["hi", "beemo"], "speech_confidence": null, "wav_name": null, "slots": {}}"#;
    assert_eq!(parsed(line), ("hi_bmo".to_string(), 1.0));
}

#[test]
fn compact_record_yields_name_and_confidence() {
    assert_eq!(
        parsed(r#"{"intent":{"name":"hi_bmo","confidence":1.0}}"#),
        ("hi_bmo".to_string(), 1.0)
    );
}

#[test]
fn confidence_is_reproduced_bit_for_bit() {
    let record = parse_intent(br#"{"intent":{"name":"song","confidence":0.6000001}}"#).unwrap();
    assert_eq!(record.confidence_bits, 0.6000001f64.to_bits());
    let record = parse_intent(br#"{"intent":{"name":"song","confidence":2.5}}"#).unwrap();
    assert_eq!(record.confidence_bits, 2.5f64.to_bits());
}

#[test]
fn empty_name_is_accepted() {
    assert_eq!(
        parsed(r#"{"intent":{"name":"","confidence":0.3}}"#),
        (String::new(), 0.3)
    );
}

#[test]
fn intent_after_other_members_is_found() {
    assert_eq!(
        parsed(r#"{"text":"play a song","intent":{"name":"song","confidence":0.75},"slots":{}}"#),
        ("song".to_string(), 0.75)
    );
}

#[test]
fn nested_members_are_read_by_position() {
    assert_eq!(
        parsed(r#"{"intent":{"label":"sad","score":0.8}}"#),
        ("sad".to_string(), 0.8)
    );
}

#[test]
fn truncated_record_is_malformed() {
    assert_eq!(
        parse_intent(br#"{"intent":"#).unwrap_err(),
        IntentError::MalformedInput
    );
}

#[test]
fn unclosed_record_is_malformed() {
    assert_eq!(
        parse_intent(br#"{"intent":{"name":"a","confidence":0.9}"#).unwrap_err(),
        IntentError::MalformedInput
    );
}

#[test]
fn empty_line_is_malformed() {
    assert_eq!(parse_intent(b"").unwrap_err(), IntentError::MalformedInput);
}

#[test]
fn missing_intent_is_reported() {
    assert_eq!(
        parse_intent(br#"{"text":"hi beemo","slots":{}}"#).unwrap_err(),
        IntentError::MissingIntentField
    );
}

#[test]
fn top_level_array_has_no_intent() {
    assert_eq!(
        parse_intent(br#"[{"intent":{"name":"a","confidence":0.9}}]"#).unwrap_err(),
        IntentError::MissingIntentField
    );
}

#[test]
fn three_member_intent_is_shape_mismatch() {
    assert_eq!(
        parse_intent(br#"{"intent":{"name":"a","confidence":0.9,"extra":true}}"#).unwrap_err(),
        IntentError::SchemaShapeMismatch
    );
}

#[test]
fn one_member_intent_is_shape_mismatch() {
    assert_eq!(
        parse_intent(br#"{"intent":{"name":"a"}}"#).unwrap_err(),
        IntentError::SchemaShapeMismatch
    );
}

#[test]
fn intent_that_is_not_an_object_is_shape_mismatch() {
    assert_eq!(
        parse_intent(br#"{"intent":"hi_bmo"}"#).unwrap_err(),
        IntentError::SchemaShapeMismatch
    );
}

#[test]
fn numeric_name_is_type_mismatch() {
    assert_eq!(
        parse_intent(br#"{"intent":{"name":7,"confidence":0.9}}"#).unwrap_err(),
        IntentError::TypeMismatch
    );
}

#[test]
fn textual_confidence_is_type_mismatch() {
    assert_eq!(
        parse_intent(br#"{"intent":{"name":"a","confidence":"high"}}"#).unwrap_err(),
        IntentError::TypeMismatch
    );
}

#[test]
fn swapped_members_are_type_mismatch() {
    assert_eq!(
        parse_intent(br#"{"intent":{"confidence":0.9,"name":"a"}}"#).unwrap_err(),
        IntentError::TypeMismatch
    );
}

#[test]
fn extract_from_built_document() {
    let mut intent = Json::new();
    intent.add(Json::OBJECT {
        name: "name".to_string(),
        value: Box::new(Json::STRING("angry".to_string())),
    });
    intent.add(Json::OBJECT {
        name: "confidence".to_string(),
        value: Box::new(Json::NUMBER(0.61)),
    });
    let mut doc = Json::new();
    doc.add(Json::OBJECT {
        name: "intent".to_string(),
        value: Box::new(intent),
    });
    let record = extract_intent(&doc).unwrap();
    assert_eq!(record.name, "angry");
    assert_eq!(record.confidence_bits, 0.61f64.to_bits());
}

#[test]
fn extract_from_scalar_document_has_no_intent() {
    assert_eq!(
        extract_intent(&Json::NUMBER(1.0)).unwrap_err(),
        IntentError::MissingIntentField
    );
}

#[test]
fn bare_member_line_is_malformed() {
    assert_eq!(
        parse_intent(br#""x":{"intent":{"name":"a","confidence":0.9}}"#).unwrap_err(),
        IntentError::MalformedInput
    );
}

#[test]
fn bare_intent_member_line_is_malformed() {
    assert_eq!(
        parse_intent(br#""intent":{"name":"a","confidence":0.9}"#).unwrap_err(),
        IntentError::MalformedInput
    );
}

#[test]
fn extract_from_bare_member_is_malformed() {
    let mut inner = Json::new();
    inner.add(Json::OBJECT {
        name: "intent".to_string(),
        value: Box::new(Json::STRING("a".to_string())),
    });
    let member = Json::OBJECT {
        name: "x".to_string(),
        value: Box::new(inner),
    };
    assert_eq!(
        extract_intent(&member).unwrap_err(),
        IntentError::MalformedInput
    );
}

#[test]
fn negative_confidence_is_not_read() {
    assert_eq!(
        parse_intent(br#"{"intent":{"name":"a","confidence":-0.5}}"#).unwrap_err(),
        IntentError::MalformedInput
    );
}

#[test]
fn space_before_colon_is_not_read() {
    assert_eq!(
        parse_intent(br#"{"intent" : {"name":"a","confidence":0.9}}"#).unwrap_err(),
        IntentError::MalformedInput
    );
}
