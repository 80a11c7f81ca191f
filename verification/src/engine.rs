use vstd::prelude::*;
use vstd::pervasive::unreached;
use vstd::string::{StrSliceExecFns, StringExecFns};
use crate::compare::{compare_values, spec_compare};
use crate::errors::{EngineError, ErrorData};
use crate::json::{field_lookup, get_field, json_fields_view, json_get, json_of, parse_json,
    render, spec_render, JsonData, JsonValue};
use crate::plan::TestPlan;
use crate::subst::{spec_substitute, substitute};
use crate::text::{assoc, pairs_view, spec_set, str_eq, strings_view};
use crate::vars::{find, strip_sigils, StoreData, VariableStore};

verus! {

pub open spec fn code_chars() -> Seq<char> {
    seq!['c', 'o', 'd', 'e']
}

pub open spec fn data_chars() -> Seq<char> {
    seq!['d', 'a', 't', 'a']
}

pub open spec fn unknown_error_chars() -> Seq<char> {
    seq!['u', 'n', 'k', 'n', 'o', 'w', 'n', ' ', 'e', 'r', 'r', 'o', 'r']
}

/// The envelope's `code` field, when the response is an object whose
/// `code` is an integer.
pub open spec fn code_of(j: JsonData) -> Option<int> {
    match json_get(j, code_chars()) {
        Some(JsonData::Int(c)) => Some(c),
        _ => None,
    }
}

/// The message an application-level error carries: the textual form of
/// the `data` field, or a fixed fallback when it is absent.
pub open spec fn app_error_msg(j: JsonData) -> Seq<char> {
    match json_get(j, data_chars()) {
        Some(d) => spec_render(d),
        None => unknown_error_chars(),
    }
}

/// Where field expectations are checked: inside `data` when it is an
/// object, else at the top level of the envelope.
pub open spec fn target_of(j: JsonData) -> Seq<(Seq<char>, JsonData)> {
    match json_get(j, data_chars()) {
        Some(JsonData::Object(fs)) => fs,
        _ => match j {
            JsonData::Object(fs) => fs,
            _ => Seq::empty(),
        },
    }
}

/// The declared expectations of a plan, in order.
pub open spec fn expect_view(p: TestPlan) -> Seq<(Seq<char>, Seq<char>)> {
    pairs_view(p.output.expect@)
}

/// The declared assignments of a plan, in order; none means an empty list.
pub open spec fn assign_view(p: TestPlan) -> Seq<(Seq<char>, Seq<char>)> {
    match p.output.assign {
        Some(a) => pairs_view(a@),
        None => Seq::empty(),
    }
}

/// The request method a plan dispatches with.
pub open spec fn spec_method(p: TestPlan) -> Seq<char> {
    match p.input.method {
        Some(m) => m@,
        None => "GET"@,
    }
}

/// The body text a plan substitutes and sends.
pub open spec fn spec_body_src(p: TestPlan) -> Seq<char> {
    match p.input.json {
        Some(b) => b@,
        None => Seq::empty(),
    }
}

/// Checking the declared expectations from index `i` on against the
/// validation target: `code` and `data` are already handled, every other
/// key must be present and its value must compare true after the expected
/// string went through substitution.
pub open spec fn spec_validate_fields(
    expect: Seq<(Seq<char>, Seq<char>)>,
    i: int,
    target: Seq<(Seq<char>, JsonData)>,
    store: StoreData,
) -> Result<(), ErrorData>
    decreases expect.len() - i,
{
    if i < 0 || i >= expect.len() {
        Ok(())
    } else {
        let key = expect[i].0;
        let expv = expect[i].1;
        if key == code_chars() || key == data_chars() {
            spec_validate_fields(expect, i + 1, target, store)
        } else {
            match assoc(target, key) {
                None => Err(ErrorData::MissingExpectedField(key)),
                Some(actual) => match spec_substitute(expv, store) {
                    Err(tok) => Err(ErrorData::UnresolvedVariable(tok)),
                    Ok(exp_sub) => match spec_compare(actual, exp_sub) {
                        Err(e) => Err(e),
                        Ok(false) => Err(
                            ErrorData::FieldMismatch(key, exp_sub, spec_render(actual)),
                        ),
                        Ok(true) => spec_validate_fields(expect, i + 1, target, store),
                    },
                },
            }
        }
    }
}

/// What validating a response yields: the envelope must carry an integer
/// `code`; a nonzero code is an application error whatever else is
/// declared; a declared `data` expectation checks the whole payload and
/// suffices alone; every other declared field is checked against the
/// validation target.
pub open spec fn spec_validate(
    expect: Seq<(Seq<char>, Seq<char>)>,
    j: JsonData,
    store: StoreData,
) -> Result<(), ErrorData> {
    match code_of(j) {
        None => Err(ErrorData::MissingEnvelopeField(code_chars())),
        Some(c) => if c != 0 {
            Err(ErrorData::ApplicationError(c, app_error_msg(j)))
        } else {
            match assoc(expect, data_chars()) {
                Some(exp_data) => match json_get(j, data_chars()) {
                    None => Err(ErrorData::MissingExpectedField(data_chars())),
                    Some(actual) => match spec_substitute(exp_data, store) {
                        Err(tok) => Err(ErrorData::UnresolvedVariable(tok)),
                        Ok(exp_sub) => match spec_compare(actual, exp_sub) {
                            Err(e) => Err(e),
                            Ok(false) => Err(
                                ErrorData::FieldMismatch(
                                    data_chars(),
                                    exp_sub,
                                    spec_render(actual),
                                ),
                            ),
                            Ok(true) => if expect.len() == 1 {
                                Ok(())
                            } else {
                                spec_validate_fields(expect, 0, target_of(j), store)
                            },
                        },
                    },
                },
                None => spec_validate_fields(expect, 0, target_of(j), store),
            }
        },
    }
}

/// One assignment: the rendered value goes into the environment snapshot
/// under the bare name and into the overlay under the name as written.
pub open spec fn assign_store(store: StoreData, var: Seq<char>, value: Seq<char>) -> StoreData {
    StoreData {
        env: spec_set(store.env, strip_sigils(var), value),
        overlay: spec_set(store.overlay, var, value),
    }
}

/// The store after the declared assignments from index `i` on: each
/// declared field found at the top level of the envelope is rendered and
/// written; absent fields are skipped.
pub open spec fn spec_apply_assigns(
    assigns: Seq<(Seq<char>, Seq<char>)>,
    i: int,
    j: JsonData,
    store: StoreData,
) -> StoreData
    decreases assigns.len() - i,
{
    if i < 0 || i >= assigns.len() {
        store
    } else {
        let step = match json_get(j, assigns[i].0) {
            Some(v) => assign_store(store, assigns[i].1, spec_render(v)),
            None => store,
        };
        spec_apply_assigns(assigns, i + 1, j, step)
    }
}

/// The argument list handed to the dispatch process: silent mode, the
/// method, the substituted body, the fixed content type, the credential
/// header when one is configured, and the full URL last.
pub open spec fn spec_curl_args(
    method: Seq<char>,
    body: Seq<char>,
    token: Option<Seq<char>>,
    url: Seq<char>,
) -> Seq<Seq<char>> {
    let head = seq!["-sS"@, "-X"@, method, "-d"@, body, "-H"@, "Content-Type:application/json"@];
    let auth = match token {
        Some(t) => seq!["-H"@, "Authorization:"@ + t],
        None => Seq::empty(),
    };
    head + auth + seq![url]
}

/// A fully prepared dispatch command: the program to run and its
/// arguments, everything already substituted.
pub struct RequestCommand {
    pub program: String,
    pub args: Vec<String>,
}

/// Runs one plan: substitutes the request, classifies what the dispatch
/// process returned, validates the response and applies assignments to
/// the variable store it carries.
pub struct TestEngine {
    pub plan: TestPlan,
    pub vars: VariableStore,
}

impl TestEngine {
    /// An engine over one plan, with nothing in its variable store.
    pub fn new(plan: TestPlan) -> (e: TestEngine)
        ensures
            e.plan == plan,
            e.vars@.env == Seq::<(Seq<char>, Seq<char>)>::empty(),
            e.vars@.overlay == Seq::<(Seq<char>, Seq<char>)>::empty(),
    {
        TestEngine { plan, vars: VariableStore::new() }
    }

    /// Builds the dispatch command: rejects an executor the engine does
    /// not support before anything is substituted, then substitutes the
    /// body and the URL and lays the arguments out.
    pub fn prepare_request(&self, base_url: &str, token: Option<&str>) -> (r: Result<
        RequestCommand,
        EngineError,
    >)
        ensures
            (match r {
                Ok(cmd) => self.plan.plan.executor@ == "curl"@ && (match (
                    spec_substitute(spec_body_src(self.plan), self.vars@),
                    spec_substitute(self.plan.input.url@, self.vars@),
                ) {
                    (Ok(b), Ok(u)) => cmd.program@ == "curl"@ && strings_view(cmd.args@)
                        == spec_curl_args(
                        spec_method(self.plan),
                        b,
                        (match token {
                            Some(t) => Some(t@),
                            None => None,
                        }),
                        base_url@ + u,
                    ),
                    _ => false,
                }),
                Err(e) => (match e@ {
                    ErrorData::UnsupportedExecutor(x) => x == self.plan.plan.executor@ && x
                        != "curl"@,
                    ErrorData::UnresolvedVariable(tok) => self.plan.plan.executor@ == "curl"@
                        && (match spec_substitute(spec_body_src(self.plan), self.vars@) {
                        Err(t) => tok == t,
                        Ok(_) => spec_substitute(self.plan.input.url@, self.vars@) == Err::<
                            Seq<char>,
                            Seq<char>,
                        >(tok),
                    }),
                    _ => false,
                }),
            }),
    {
        if !str_eq(self.plan.plan.executor.as_str(), "curl") {
            return Err(EngineError::UnsupportedExecutor(self.plan.plan.executor.clone()));
        }
        let method: String = match &self.plan.input.method {
            Some(m) => m.clone(),
            None => String::from_str("GET"),
        };
        let body_src: String = match &self.plan.input.json {
            Some(b) => b.clone(),
            None => String::new(),
        };
        let body = match substitute(body_src.as_str(), &self.vars) {
            Ok(s) => s,
            Err(tok) => {
                return Err(EngineError::UnresolvedVariable(tok));
            },
        };
        let url_sub = match substitute(self.plan.input.url.as_str(), &self.vars) {
            Ok(s) => s,
            Err(tok) => {
                return Err(EngineError::UnresolvedVariable(tok));
            },
        };
        let mut full_url = base_url.to_owned();
        full_url.append(url_sub.as_str());
        let mut args: Vec<String> = Vec::new();
        args.push(String::from_str("-sS"));
        args.push(String::from_str("-X"));
        args.push(method);
        args.push(String::from_str("-d"));
        args.push(body);
        args.push(String::from_str("-H"));
        args.push(String::from_str("Content-Type:application/json"));
        match token {
            Some(t) => {
                args.push(String::from_str("-H"));
                let mut auth = String::from_str("Authorization:");
                auth.append(t);
                args.push(auth);
            },
            None => {},
        }
        args.push(full_url);
        proof {
            assert(strings_view(args@) =~= spec_curl_args(
                spec_method(self.plan),
                spec_substitute(spec_body_src(self.plan), self.vars@)->Ok_0,
                (match token {
                    Some(t) => Some(t@),
                    None => None,
                }),
                base_url@ + spec_substitute(self.plan.input.url@, self.vars@)->Ok_0,
            ));
        }
        Ok(RequestCommand { program: self.plan.plan.executor.clone(), args })
    }

    /// Validates a parsed response against the plan's declared
    /// expectations.
    pub fn validate_output(&self, json: &JsonValue) -> (r: Result<(), EngineError>)
        ensures
            (match r {
                Ok(_) => spec_validate(expect_view(self.plan), json@, self.vars@) == Ok::<
                    (),
                    ErrorData,
                >(()),
                Err(e) => spec_validate(expect_view(self.plan), json@, self.vars@) == Err::<
                    (),
                    ErrorData,
                >(e@),
            }),
    {
        proof {
            reveal_strlit("code");
            reveal_strlit("data");
            assert("code"@ =~= code_chars());
            assert("data"@ =~= data_chars());
        }
        let code: i64 = match get_field(json, "code") {
            Some(v) => match v {
                JsonValue::Int(c) => *c,
                _ => {
                    return Err(EngineError::MissingEnvelopeField(String::from_str("code")));
                },
            },
            None => {
                return Err(EngineError::MissingEnvelopeField(String::from_str("code")));
            },
        };
        if code != 0 {
            let msg: String = match get_field(json, "data") {
                Some(d) => render(d),
                None => {
                    proof {
                        reveal_strlit("unknown error");
                        assert("unknown error"@ =~= unknown_error_chars());
                    }
                    String::from_str("unknown error")
                },
            };
            return Err(EngineError::ApplicationError(code, msg));
        }
        let expect_len = self.plan.output.expect.len();
        match find(&self.plan.output.expect, "data") {
            Some(expected_data) => {
                match get_field(json, "data") {
                    Some(actual) => {
                        let expected_sub = match substitute(expected_data.as_str(), &self.vars) {
                            Ok(s) => s,
                            Err(tok) => {
                                return Err(EngineError::UnresolvedVariable(tok));
                            },
                        };
                        match compare_values(actual, expected_sub.as_str()) {
                            Ok(true) => {
                                if expect_len == 1 {
                                    return Ok(());
                                }
                            },
                            Ok(false) => {
                                return Err(EngineError::FieldMismatch(
                                    String::from_str("data"),
                                    expected_sub,
                                    render(actual),
                                ));
                            },
                            Err(e) => {
                                return Err(e);
                            },
                        }
                    },
                    None => {
                        return Err(EngineError::MissingExpectedField(String::from_str("data")));
                    },
                }
            },
            None => {},
        }
        let target: &Vec<(String, JsonValue)> = match get_field(json, "data") {
            Some(d) => match d {
                JsonValue::Object(fs) => fs,
                _ => match json {
                    JsonValue::Object(fs) => fs,
                    _ => unreached(),
                },
            },
            None => match json {
                JsonValue::Object(fs) => fs,
                _ => unreached(),
            },
        };
        let ghost ev = expect_view(self.plan);
        let ghost tv = target_of(json@);
        proof {
            assert(json_fields_view(target@) == tv);
            assert(spec_validate(ev, json@, self.vars@) == spec_validate_fields(
                ev,
                0,
                tv,
                self.vars@,
            ));
        }
        let n = self.plan.output.expect.len();
        let mut i: usize = 0;
        while i < n
            invariant
                n == self.plan.output.expect@.len(),
                i <= n,
                ev == expect_view(self.plan),
                tv == json_fields_view(target@),
                spec_validate(ev, json@, self.vars@) == spec_validate_fields(
                    ev,
                    i as int,
                    tv,
                    self.vars@,
                ),
            decreases n - i,
        {
            let key = &self.plan.output.expect[i].0;
            proof {
                reveal_strlit("code");
                reveal_strlit("data");
                assert("code"@ =~= code_chars());
                assert("data"@ =~= data_chars());
                assert(ev[i as int] == (
                    self.plan.output.expect@[i as int].0@,
                    self.plan.output.expect@[i as int].1@,
                ));
            }
            if str_eq(key.as_str(), "code") || str_eq(key.as_str(), "data") {
                i += 1;
                continue ;
            }
            match field_lookup(target, key.as_str()) {
                None => {
                    return Err(EngineError::MissingExpectedField(key.clone()));
                },
                Some(actual) => {
                    let expected_sub = match substitute(
                        self.plan.output.expect[i].1.as_str(),
                        &self.vars,
                    ) {
                        Ok(s) => s,
                        Err(tok) => {
                            return Err(EngineError::UnresolvedVariable(tok));
                        },
                    };
                    match compare_values(actual, expected_sub.as_str()) {
                        Ok(true) => {},
                        Ok(false) => {
                            return Err(EngineError::FieldMismatch(
                                key.clone(),
                                expected_sub,
                                render(actual),
                            ));
                        },
                        Err(e) => {
                            return Err(e);
                        },
                    }
                },
            }
            i += 1;
        }
        Ok(())
    }

    /// Applies the plan's declared assignments from a validated response
    /// to the variable store.
    pub fn assign_output(&mut self, json: &JsonValue)
        ensures
            final(self).plan == old(self).plan,
            final(self).vars@ == spec_apply_assigns(
                assign_view(old(self).plan),
                0,
                json@,
                old(self).vars@,
            ),
    {
        match &self.plan.output.assign {
            Some(assigns) => apply_assigns(assigns, json, &mut self.vars),
            None => {},
        }
    }

    /// Classifies what the dispatch process returned and, on a valid
    /// response, validates it and applies assignments: empty output is
    /// its own failure before anything is parsed, a failed exit surfaces
    /// the error stream, unparseable output is a malformed response, and
    /// assignments happen only after validation succeeded.
    pub fn process_response(&mut self, exit_ok: bool, stdout: &[u8], stderr: &str) -> (r: Result<
        (),
        EngineError,
    >)
        ensures
            final(self).plan == old(self).plan,
            (stdout@.len() == 0 ==> (match r {
                Err(e) => e@ == ErrorData::EmptyResponse,
                Ok(_) => false,
            }) && final(self).vars@ == old(self).vars@),
            (stdout@.len() > 0 && !exit_ok ==> (match r {
                Err(e) => e@ == ErrorData::DispatchFailed(stderr@),
                Ok(_) => false,
            }) && final(self).vars@ == old(self).vars@),
            (stdout@.len() > 0 && exit_ok && json_of(stdout@) is None ==> (match r {
                Err(e) => e@ is MalformedResponse,
                Ok(_) => false,
            }) && final(self).vars@ == old(self).vars@),
            (stdout@.len() > 0 && exit_ok ==> (json_of(stdout@) matches Some(j) ==> (match
                spec_validate(expect_view(old(self).plan), j, old(self).vars@) {
                Ok(_) => (r is Ok) && final(self).vars@ == spec_apply_assigns(
                    assign_view(old(self).plan),
                    0,
                    j,
                    old(self).vars@,
                ),
                Err(e) => (match r {
                    Err(err) => err@ == e,
                    Ok(_) => false,
                }) && final(self).vars@ == old(self).vars@,
            }))),
    {
        if stdout.len() == 0 {
            return Err(EngineError::EmptyResponse);
        }
        if !exit_ok {
            return Err(EngineError::DispatchFailed(stderr.to_owned()));
        }
        let json = match parse_json(stdout) {
            Ok(v) => v,
            Err(msg) => {
                return Err(EngineError::MalformedResponse(msg));
            },
        };
        match self.validate_output(&json) {
            Ok(_) => {},
            Err(e) => {
                return Err(e);
            },
        }
        self.assign_output(&json);
        Ok(())
    }
}

fn apply_assigns(assigns: &Vec<(String, String)>, json: &JsonValue, vars: &mut VariableStore)
    ensures
        final(vars)@ == spec_apply_assigns(pairs_view(assigns@), 0, json@, old(vars)@),
{
    let ghost av = pairs_view(assigns@);
    let n = assigns.len();
    let mut i: usize = 0;
    while i < n
        invariant
            n == assigns@.len(),
            i <= n,
            av == pairs_view(assigns@),
            spec_apply_assigns(av, 0, json@, old(vars)@) == spec_apply_assigns(
                av,
                i as int,
                json@,
                vars@,
            ),
        decreases n - i,
    {
        proof {
            assert(av[i as int] == (assigns@[i as int].0@, assigns@[i as int].1@));
        }
        match get_field(json, assigns[i].0.as_str()) {
            Some(v) => {
                let text = render(v);
                vars.assign(assigns[i].1.as_str(), text.as_str());
            },
            None => {},
        }
        i += 1;
    }
}

} // verus!
