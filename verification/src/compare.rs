use vstd::prelude::*;
use vstd::string::StrSliceExecFns;
use crate::errors::{EngineError, ErrorData};
use crate::json::{bool_str, JsonData, JsonValue};
use crate::numbers::{parse_i64, spec_parse_i64};
use crate::text::str_eq;

verus! {

/// The comparison an expected-value string declares against a numeric
/// actual: an explicit relation parsed once, so a malformed literal is an
/// error of its own rather than a silent mismatch.
#[derive(Clone, Copy, Debug, PartialEq, Eq, Structural)]
pub enum Comparison {
    GreaterThan(i64),
    LessThan(i64),
    Equals(i64),
}

/// How an expected-value string reads as a numeric comparison: a leading
/// `>` or `<` asks for a strict order against the rest, anything else
/// must read as a number in full.
pub open spec fn spec_parse_comparison(e: Seq<char>) -> Option<Comparison> {
    if e.len() > 0 && e[0] == '>' {
        match spec_parse_i64(e.drop_first()) {
            Some(k) => Some(Comparison::GreaterThan(k as i64)),
            None => None,
        }
    } else if e.len() > 0 && e[0] == '<' {
        match spec_parse_i64(e.drop_first()) {
            Some(k) => Some(Comparison::LessThan(k as i64)),
            None => None,
        }
    } else {
        match spec_parse_i64(e) {
            Some(k) => Some(Comparison::Equals(k as i64)),
            None => None,
        }
    }
}

pub open spec fn spec_matches_num(n: int, cmp: Comparison) -> bool {
    match cmp {
        Comparison::GreaterThan(k) => n > k,
        Comparison::LessThan(k) => n < k,
        Comparison::Equals(k) => n == k,
    }
}

/// Parses an expected-value string into the comparison it declares.
pub fn parse_comparison(expected: &str) -> (r: Option<Comparison>)
    ensures
        r == spec_parse_comparison(expected@),
{
    let len = expected.unicode_len();
    if len > 0 {
        let c = expected.get_char(0);
        if c == '>' || c == '<' {
            let rest = expected.substring_char(1, len);
            proof {
                assert(rest@ =~= expected@.drop_first());
            }
            return match parse_i64(rest) {
                Some(k) => if c == '>' {
                    Some(Comparison::GreaterThan(k))
                } else {
                    Some(Comparison::LessThan(k))
                },
                None => None,
            };
        }
    }
    match parse_i64(expected) {
        Some(k) => Some(Comparison::Equals(k)),
        None => None,
    }
}

/// What comparing an actual value against an expected string yields:
/// numbers compare under the declared relation, strings byte for byte,
/// booleans against the literals `true` and `false`, and anything else
/// never matches.  A numeric actual with a malformed expected literal is
/// an error, not a mismatch.
pub open spec fn spec_compare(v: JsonData, expected: Seq<char>) -> Result<bool, ErrorData> {
    match v {
        JsonData::Int(n) => match spec_parse_comparison(expected) {
            Some(cmp) => Ok(spec_matches_num(n, cmp)),
            None => Err(ErrorData::MalformedComparisonLiteral(expected)),
        },
        JsonData::BigNum(t) => Err(ErrorData::MalformedResponse(t)),
        JsonData::Str(s) => Ok(s == expected),
        JsonData::Bool(b) => Ok(
            if expected == bool_str(true) {
                b
            } else if expected == bool_str(false) {
                !b
            } else {
                false
            },
        ),
        _ => Ok(false),
    }
}

/// Compares one response value against one expected-value string.
pub fn compare_values(value: &JsonValue, expected: &str) -> (r: Result<bool, EngineError>)
    ensures
        (match r {
            Ok(b) => spec_compare(value@, expected@) == Ok::<bool, ErrorData>(b),
            Err(e) => spec_compare(value@, expected@) == Err::<bool, ErrorData>(e@),
        }),
{
    match value {
        JsonValue::Int(n) => match parse_comparison(expected) {
            Some(cmp) => {
                let b = match cmp {
                    Comparison::GreaterThan(k) => *n > k,
                    Comparison::LessThan(k) => *n < k,
                    Comparison::Equals(k) => *n == k,
                };
                Ok(b)
            },
            None => Err(EngineError::MalformedComparisonLiteral(expected.to_owned())),
        },
        JsonValue::BigNum(t) => Err(EngineError::MalformedResponse(t.clone())),
        JsonValue::Str(s) => Ok(str_eq(s.as_str(), expected)),
        JsonValue::Bool(b) => {
            proof {
                reveal_strlit("true");
                reveal_strlit("false");
                assert("true"@ =~= bool_str(true));
                assert("false"@ =~= bool_str(false));
            }
            if str_eq(expected, "true") {
                Ok(*b)
            } else if str_eq(expected, "false") {
                Ok(!*b)
            } else {
                Ok(false)
            }
        },
        JsonValue::Null => Ok(false),
        JsonValue::Array(_) => Ok(false),
        JsonValue::Object(_) => Ok(false),
    }
}

} // verus!
