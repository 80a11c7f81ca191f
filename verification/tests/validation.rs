use tstit::engine::TestEngine;
use tstit::errors::EngineError;
use tstit::json::JsonValue;
use tstit::plan::{Input, Output, Plan, TestPlan};

fn plan_expecting(expect: Vec<(&str, &str)>) -> TestPlan {
    TestPlan {
        input: Input { method: None, json: None, url: "/".to_string() },
        plan: Plan { executor: "curl".to_string() },
        output: Output {
            expect: expect
                .into_iter()
                .map(|(k, v)| (k.to_string(), v.to_string()))
                .collect(),
            assign: None,
        },
    }
}

fn envelope(fields: Vec<(&str, JsonValue)>) -> JsonValue {
    JsonValue::Object(fields.into_iter().map(|(k, v)| (k.to_string(), v)).collect())
}

#[test]
fn missing_code_field_is_an_envelope_error() {
    let engine = TestEngine::new(plan_expecting(vec![("code", "0")]));
    let json = envelope(vec![("data", JsonValue::Int(1))]);
    match engine.validate_output(&json) {
        Err(EngineError::MissingEnvelopeField(f)) => assert_eq!(f, "code"),
        other => panic!("expected a missing envelope field, got {:?}", other.is_ok()),
    }
}

#[test]
fn non_integer_code_is_an_envelope_error() {
    let engine = TestEngine::new(plan_expecting(vec![("code", "0")]));
    let json = envelope(vec![("code", JsonValue::Str("0".to_string()))]);
    assert!(matches!(
        engine.validate_output(&json),
        Err(EngineError::MissingEnvelopeField(_))
    ));
}

#[test]
fn application_error_uses_fallback_message_without_data() {
    let engine = TestEngine::new(plan_expecting(vec![("code", "0")]));
    let json = envelope(vec![("code", JsonValue::Int(3))]);
    match engine.validate_output(&json) {
        Err(EngineError::ApplicationError(code, msg)) => {
            assert_eq!(code, 3);
            assert_eq!(msg, "unknown error");
        },
        other => panic!("expected an application error, got {:?}", other.is_ok()),
    }
}

#[test]
fn application_error_renders_object_data() {
    let engine = TestEngine::new(plan_expecting(vec![("code", "0")]));
    let detail = envelope(vec![("reason", JsonValue::Str("denied".to_string()))]);
    let json = envelope(vec![("code", JsonValue::Int(4)), ("data", detail)]);
    match engine.validate_output(&json) {
        Err(EngineError::ApplicationError(code, msg)) => {
            assert_eq!(code, 4);
            assert_eq!(msg, "{reason:denied}");
        },
        other => panic!("expected an application error, got {:?}", other.is_ok()),
    }
}

#[test]
fn expectations_never_run_when_code_is_nonzero() {
    let engine = TestEngine::new(plan_expecting(vec![("missing_everywhere", "1")]));
    let json = envelope(vec![("code", JsonValue::Int(9))]);
    assert!(matches!(
        engine.validate_output(&json),
        Err(EngineError::ApplicationError(9, _))
    ));
}

#[test]
fn fields_are_checked_inside_a_data_object() {
    let engine = TestEngine::new(plan_expecting(vec![("name", "box"), ("count", ">2")]));
    let data = envelope(vec![
        ("name", JsonValue::Str("box".to_string())),
        ("count", JsonValue::Int(3)),
    ]);
    let json = envelope(vec![("code", JsonValue::Int(0)), ("data", data)]);
    assert!(engine.validate_output(&json).is_ok());
}

#[test]
fn fields_fall_back_to_the_top_level_without_a_data_object() {
    let engine = TestEngine::new(plan_expecting(vec![("status", "ready")]));
    let json = envelope(vec![
        ("code", JsonValue::Int(0)),
        ("status", JsonValue::Str("ready".to_string())),
    ]);
    assert!(engine.validate_output(&json).is_ok());
}

#[test]
fn missing_expected_field_names_the_key() {
    let engine = TestEngine::new(plan_expecting(vec![("absent", "1")]));
    let json = envelope(vec![("code", JsonValue::Int(0))]);
    match engine.validate_output(&json) {
        Err(EngineError::MissingExpectedField(k)) => assert_eq!(k, "absent"),
        other => panic!("expected a missing field error, got {:?}", other.is_ok()),
    }
}

#[test]
fn whole_payload_check_alone_suffices() {
    let engine = TestEngine::new(plan_expecting(vec![("data", "done")]));
    let json = envelope(vec![
        ("code", JsonValue::Int(0)),
        ("data", JsonValue::Str("done".to_string())),
        ("extra", JsonValue::Int(5)),
    ]);
    assert!(engine.validate_output(&json).is_ok());
}

#[test]
fn whole_payload_check_missing_data_fails() {
    let engine = TestEngine::new(plan_expecting(vec![("data", "done")]));
    let json = envelope(vec![("code", JsonValue::Int(0))]);
    assert!(matches!(
        engine.validate_output(&json),
        Err(EngineError::MissingExpectedField(_))
    ));
}

#[test]
fn boolean_actual_matches_only_exact_literals() {
    let make = |expected: &str| {
        let engine = TestEngine::new(plan_expecting(vec![("flag", expected)]));
        let json = envelope(vec![("code", JsonValue::Int(0)), ("flag", JsonValue::Bool(true))]);
        engine.validate_output(&json)
    };
    assert!(make("true").is_ok());
    assert!(matches!(make("false"), Err(EngineError::FieldMismatch(_, _, _))));
    assert!(matches!(make("yes"), Err(EngineError::FieldMismatch(_, _, _))));
}

#[test]
fn null_actual_never_matches() {
    let engine = TestEngine::new(plan_expecting(vec![("gone", "null")]));
    let json = envelope(vec![("code", JsonValue::Int(0)), ("gone", JsonValue::Null)]);
    assert!(matches!(
        engine.validate_output(&json),
        Err(EngineError::FieldMismatch(_, _, _))
    ));
}

#[test]
fn malformed_comparison_literal_is_an_error_not_a_mismatch() {
    let engine = TestEngine::new(plan_expecting(vec![("n", ">abc")]));
    let json = envelope(vec![("code", JsonValue::Int(0)), ("n", JsonValue::Int(5))]);
    match engine.validate_output(&json) {
        Err(EngineError::MalformedComparisonLiteral(lit)) => assert_eq!(lit, ">abc"),
        other => panic!("expected a malformed literal error, got {:?}", other.is_ok()),
    }
}

#[test]
fn non_integer_number_in_response_is_malformed() {
    let engine = TestEngine::new(plan_expecting(vec![("n", "1")]));
    let json = envelope(vec![
        ("code", JsonValue::Int(0)),
        ("n", JsonValue::BigNum("1.5".to_string())),
    ]);
    assert!(matches!(
        engine.validate_output(&json),
        Err(EngineError::MalformedResponse(_))
    ));
}

#[test]
fn unresolved_variable_in_expected_value_fails_validation() {
    let engine = TestEngine::new(plan_expecting(vec![("n", "$LIMIT")]));
    let json = envelope(vec![("code", JsonValue::Int(0)), ("n", JsonValue::Int(5))]);
    match engine.validate_output(&json) {
        Err(EngineError::UnresolvedVariable(tok)) => assert_eq!(tok, "$LIMIT"),
        other => panic!("expected an unresolved variable error, got {:?}", other.is_ok()),
    }
}

#[test]
fn expected_value_goes_through_substitution() {
    let mut engine = TestEngine::new(plan_expecting(vec![("n", "$LIMIT")]));
    engine.vars.seed("LIMIT", "5");
    let json = envelope(vec![("code", JsonValue::Int(0)), ("n", JsonValue::Int(5))]);
    assert!(engine.validate_output(&json).is_ok());
}

#[test]
fn float_data_from_real_parser_is_malformed() {
    let mut engine = TestEngine::new(plan_expecting(vec![("data", "1")]));
    let r = engine.process_response(true, b"{\"code\":0,\"data\":1.5}", "");
    assert!(matches!(r, Err(EngineError::MalformedResponse(_))));
}

#[test]
fn assignments_read_the_top_level_not_the_data_object() {
    let plan = TestPlan {
        input: Input { method: None, json: None, url: "/".to_string() },
        plan: Plan { executor: "curl".to_string() },
        output: Output {
            expect: vec![("code".to_string(), "0".to_string())],
            assign: Some(vec![
                ("token".to_string(), "$TOK".to_string()),
                ("inner".to_string(), "$INNER".to_string()),
            ]),
        },
    };
    let mut engine = TestEngine::new(plan);
    let r = engine.process_response(
        true,
        b"{\"code\":0,\"data\":{\"inner\":1},\"token\":\"abc\"}",
        "",
    );
    assert!(r.is_ok());
    assert_eq!(engine.vars.resolve("$TOK"), Some("abc".to_string()));
    assert_eq!(engine.vars.resolve("$INNER"), None);
}

#[test]
fn assignment_of_an_object_field_strips_quotes() {
    let plan = TestPlan {
        input: Input { method: None, json: None, url: "/".to_string() },
        plan: Plan { executor: "curl".to_string() },
        output: Output {
            expect: vec![("code".to_string(), "0".to_string())],
            assign: Some(vec![("obj".to_string(), "$O".to_string())]),
        },
    };
    let mut engine = TestEngine::new(plan);
    let r = engine.process_response(true, b"{\"code\":0,\"obj\":{\"a\":1,\"b\":\"x\"}}", "");
    assert!(r.is_ok());
    assert_eq!(engine.vars.resolve("$O"), Some("{a:1,b:x}".to_string()));
}

#[test]
fn array_data_never_matches_and_renders_in_the_mismatch() {
    let mut engine = TestEngine::new(plan_expecting(vec![("data", "x")]));
    let r = engine.process_response(true, b"{\"code\":0,\"data\":[1,\"a\",true]}", "");
    match r {
        Err(EngineError::FieldMismatch(field, expected, actual)) => {
            assert_eq!(field, "data");
            assert_eq!(expected, "x");
            assert_eq!(actual, "[1,a,true]");
        },
        other => panic!("expected a field mismatch, got {:?}", other.is_ok()),
    }
}
