use vstd::prelude::*;
use vstd::string::StringExecFns;

verus! {

/// One request to issue: optional method (absent means `GET`), optional
/// body text, and the URL path.  The body and the URL may hold `$NAME`
/// substitution tokens.
pub struct Input {
    pub method: Option<String>,
    pub json: Option<String>,
    pub url: String,
}

/// How to dispatch the request: the name of the external process strategy
/// that performs the HTTP exchange.
pub struct Plan {
    pub executor: String,
}

/// Declared expectations: an ordered list of field/value assertions, and
/// optionally which response fields to capture into which variables.
pub struct Output {
    pub expect: Vec<(String, String)>,
    pub assign: Option<Vec<(String, String)>>,
}

/// One declarative test: a request, how to run it, and what to expect.
pub struct TestPlan {
    pub input: Input,
    pub plan: Plan,
    pub output: Output,
}

/// The request method used when a plan declares none.
pub fn default_method() -> (r: Option<String>)
    ensures
        (match r {
            Some(m) => m@ == "GET"@,
            None => false,
        }),
{
    Some(String::from_str("GET"))
}

impl Default for Plan {
    /// The executor used when a plan declares none.
    fn default() -> (p: Plan)
        ensures
            p.executor@ == "curl"@,
    {
        Plan { executor: String::from_str("curl") }
    }
}

} // verus!
