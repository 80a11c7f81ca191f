use tstit::engine::TestEngine;
use tstit::errors::EngineError;
use tstit::plan::{Input, Output, Plan, TestPlan};
use tstit::vars::VariableStore;

fn post_plan() -> TestPlan {
    TestPlan {
        input: Input {
            method: Some("POST".to_string()),
            json: Some("{\"name\":\"$USER\"}".to_string()),
            url: "/users".to_string(),
        },
        plan: Plan { executor: "curl".to_string() },
        output: Output {
            expect: vec![
                ("code".to_string(), "0".to_string()),
                ("data".to_string(), ">0".to_string()),
            ],
            assign: None,
        },
    }
}

#[test]
fn post_plan_substitutes_body_and_url() {
    let mut engine = TestEngine::new(post_plan());
    engine.vars.seed("USER", "alice");
    let cmd = engine.prepare_request("http://host", None).unwrap();
    assert_eq!(cmd.program, "curl");
    assert_eq!(
        cmd.args,
        vec![
            "-sS".to_string(),
            "-X".to_string(),
            "POST".to_string(),
            "-d".to_string(),
            "{\"name\":\"alice\"}".to_string(),
            "-H".to_string(),
            "Content-Type:application/json".to_string(),
            "http://host/users".to_string(),
        ]
    );
}

#[test]
fn post_plan_token_adds_authorization_header() {
    let mut engine = TestEngine::new(post_plan());
    engine.vars.seed("USER", "alice");
    let cmd = engine.prepare_request("http://host", Some("Bearer xyz")).unwrap();
    assert_eq!(cmd.args[7], "-H".to_string());
    assert_eq!(cmd.args[8], "Authorization:Bearer xyz".to_string());
    assert_eq!(cmd.args[9], "http://host/users".to_string());
}

#[test]
fn post_plan_positive_data_succeeds() {
    let mut engine = TestEngine::new(post_plan());
    engine.vars.seed("USER", "alice");
    let r = engine.process_response(true, b"{\"code\":0,\"data\":5}", "");
    assert!(r.is_ok());
}

#[test]
fn post_plan_zero_data_is_field_mismatch() {
    let mut engine = TestEngine::new(post_plan());
    engine.vars.seed("USER", "alice");
    let r = engine.process_response(true, b"{\"code\":0,\"data\":0}", "");
    match r {
        Err(EngineError::FieldMismatch(field, expected, actual)) => {
            assert_eq!(field, "data");
            assert_eq!(expected, ">0");
            assert_eq!(actual, "0");
        },
        other => panic!("expected a field mismatch, got {:?}", other.is_ok()),
    }
}

#[test]
fn post_plan_nonzero_code_is_application_error() {
    let mut engine = TestEngine::new(post_plan());
    engine.vars.seed("USER", "alice");
    let r = engine.process_response(true, b"{\"code\":7,\"data\":\"bad input\"}", "");
    match r {
        Err(EngineError::ApplicationError(code, msg)) => {
            assert_eq!(code, 7);
            assert_eq!(msg, "bad input");
        },
        other => panic!("expected an application error, got {:?}", other.is_ok()),
    }
}

#[test]
fn assigned_variable_reaches_the_next_plan() {
    let create = TestPlan {
        input: Input { method: None, json: None, url: "/items".to_string() },
        plan: Plan { executor: "curl".to_string() },
        output: Output {
            expect: vec![("code".to_string(), "0".to_string())],
            assign: Some(vec![("data".to_string(), "$NEWID".to_string())]),
        },
    };
    let mut engine = TestEngine::new(create);
    let r = engine.process_response(true, b"{\"code\":0,\"data\":42}", "");
    assert!(r.is_ok());
    assert_eq!(engine.vars.resolve("$NEWID"), Some("42".to_string()));

    let fetch = TestPlan {
        input: Input { method: None, json: None, url: "/items/$NEWID".to_string() },
        plan: Plan { executor: "curl".to_string() },
        output: Output { expect: vec![("code".to_string(), "0".to_string())], assign: None },
    };
    let engine2 = TestEngine { plan: fetch, vars: engine.vars };
    let cmd = engine2.prepare_request("http://host", None).unwrap();
    assert_eq!(cmd.args.last().unwrap(), "http://host/items/42");
}

#[test]
fn empty_output_with_successful_exit_is_empty_response() {
    let mut engine = TestEngine::new(post_plan());
    let r = engine.process_response(true, b"", "");
    assert!(matches!(r, Err(EngineError::EmptyResponse)));
}

#[test]
fn empty_output_with_failed_exit_is_still_empty_response() {
    let mut engine = TestEngine::new(post_plan());
    let r = engine.process_response(false, b"", "boom");
    assert!(matches!(r, Err(EngineError::EmptyResponse)));
}

#[test]
fn failed_exit_with_output_surfaces_the_error_stream() {
    let mut engine = TestEngine::new(post_plan());
    let r = engine.process_response(false, b"half a response", "connection refused");
    match r {
        Err(EngineError::DispatchFailed(msg)) => assert_eq!(msg, "connection refused"),
        other => panic!("expected a dispatch failure, got {:?}", other.is_ok()),
    }
}

#[test]
fn unparseable_output_is_malformed_response() {
    let mut engine = TestEngine::new(post_plan());
    let r = engine.process_response(true, b"not json at all", "");
    assert!(matches!(r, Err(EngineError::MalformedResponse(_))));
}

#[test]
fn unsupported_executor_is_rejected_before_dispatch() {
    let mut plan = post_plan();
    plan.plan.executor = "wget".to_string();
    let engine = TestEngine::new(plan);
    match engine.prepare_request("http://host", None) {
        Err(EngineError::UnsupportedExecutor(name)) => assert_eq!(name, "wget"),
        other => panic!("expected an unsupported executor error, got {:?}", other.is_ok()),
    }
}

#[test]
fn unresolved_variable_in_body_fails_preparation() {
    let engine = TestEngine::new(post_plan());
    match engine.prepare_request("http://host", None) {
        Err(EngineError::UnresolvedVariable(tok)) => assert_eq!(tok, "$USER"),
        other => panic!("expected an unresolved variable error, got {:?}", other.is_ok()),
    }
}

#[test]
fn failed_plan_writes_no_variables() {
    let plan = TestPlan {
        input: Input { method: None, json: None, url: "/".to_string() },
        plan: Plan { executor: "curl".to_string() },
        output: Output {
            expect: vec![("code".to_string(), "0".to_string())],
            assign: Some(vec![("data".to_string(), "$SAVED".to_string())]),
        },
    };
    let mut engine = TestEngine::new(plan);
    let r = engine.process_response(true, b"{\"code\":1,\"data\":\"denied\"}", "");
    assert!(r.is_err());
    assert_eq!(engine.vars.resolve("$SAVED"), None);
}

#[test]
fn rerunning_a_plan_gives_the_same_verdict_and_values() {
    let plan = TestPlan {
        input: Input { method: None, json: None, url: "/".to_string() },
        plan: Plan { executor: "curl".to_string() },
        output: Output {
            expect: vec![("code".to_string(), "0".to_string())],
            assign: Some(vec![("data".to_string(), "$ID".to_string())]),
        },
    };
    let response = b"{\"code\":0,\"data\":9}";
    let mut engine = TestEngine::new(plan);
    let first = engine.process_response(true, response, "");
    let after_first = engine.vars.resolve("$ID");
    let second = engine.process_response(true, response, "");
    assert_eq!(first.is_ok(), second.is_ok());
    assert!(first.is_ok());
    assert_eq!(after_first, engine.vars.resolve("$ID"));
    assert_eq!(engine.vars.resolve("$ID"), Some("9".to_string()));
}
