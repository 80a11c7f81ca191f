use vstd::prelude::*;
use vstd::string::StringExecFns;
use crate::numbers::{i64_to_string, int_str};
use crate::text::{assoc, lemma_assoc_found, lemma_assoc_none, str_eq};

verus! {

broadcast use vstd::std_specs::vec::group_vec_axioms, vstd::seq::group_seq_axioms;

/// A JSON value as the engine sees it.  Numbers that fit in an `i64` are
/// kept as machine integers; any other number keeps only its textual form,
/// since the engine compares numbers as integers.
pub enum JsonValue {
    Null,
    Bool(bool),
    Int(i64),
    BigNum(String),
    Str(String),
    Array(Vec<JsonValue>),
    Object(Vec<(String, JsonValue)>),
}

/// The mathematical model of a `JsonValue`: text becomes `Seq<char>`,
/// vectors become sequences.
pub enum JsonData {
    Null,
    Bool(bool),
    Int(int),
    BigNum(Seq<char>),
    Str(Seq<char>),
    Array(Seq<JsonData>),
    Object(Seq<(Seq<char>, JsonData)>),
}

pub open spec fn json_view(v: JsonValue) -> JsonData
    decreases v,
{
    match v {
        JsonValue::Null => JsonData::Null,
        JsonValue::Bool(b) => JsonData::Bool(b),
        JsonValue::Int(n) => JsonData::Int(n as int),
        JsonValue::BigNum(t) => JsonData::BigNum(t@),
        JsonValue::Str(s) => JsonData::Str(s@),
        JsonValue::Array(items) => JsonData::Array(json_seq_view(items@)),
        JsonValue::Object(fields) => JsonData::Object(json_fields_view(fields@)),
    }
}

pub open spec fn json_seq_view(s: Seq<JsonValue>) -> Seq<JsonData>
    decreases s,
{
    if s.len() == 0 {
        Seq::empty()
    } else {
        json_seq_view(s.drop_last()).push(json_view(s.last()))
    }
}

pub open spec fn json_fields_view(s: Seq<(String, JsonValue)>) -> Seq<(Seq<char>, JsonData)>
    decreases s,
{
    if s.len() == 0 {
        Seq::empty()
    } else {
        json_fields_view(s.drop_last()).push((s.last().0@, json_view(s.last().1)))
    }
}

impl View for JsonValue {
    type V = JsonData;

    open spec fn view(&self) -> JsonData {
        json_view(*self)
    }
}

pub proof fn lemma_json_seq_view(s: Seq<JsonValue>)
    ensures
        json_seq_view(s).len() == s.len(),
        forall|i: int| 0 <= i < s.len() ==> json_seq_view(s)[i] == json_view(#[trigger] s[i]),
    decreases s.len(),
{
    if s.len() > 0 {
        lemma_json_seq_view(s.drop_last());
        assert forall|i: int| 0 <= i < s.len() implies json_seq_view(s)[i] == json_view(
            #[trigger] s[i],
        ) by {
            if i < s.len() - 1 {
                assert(s.drop_last()[i] == s[i]);
            } else {
                assert(s.last() == s[i]);
            }
        }
    }
}

pub proof fn lemma_json_fields_view(s: Seq<(String, JsonValue)>)
    ensures
        json_fields_view(s).len() == s.len(),
        forall|i: int|
            0 <= i < s.len() ==> json_fields_view(s)[i] == (
                (#[trigger] s[i]).0@,
                json_view(s[i].1),
            ),
    decreases s.len(),
{
    if s.len() > 0 {
        lemma_json_fields_view(s.drop_last());
        assert forall|i: int| 0 <= i < s.len() implies json_fields_view(s)[i] == (
            (#[trigger] s[i]).0@,
            json_view(s[i].1),
        ) by {
            if i < s.len() - 1 {
                assert(s.drop_last()[i] == s[i]);
            } else {
                assert(s.last() == s[i]);
            }
        }
    }
}

/// Field lookup as `serde_json::Value::get` behaves on a key: a value on
/// objects that have the field, `None` on everything else.
pub open spec fn json_get(j: JsonData, key: Seq<char>) -> Option<JsonData> {
    match j {
        JsonData::Object(fields) => assoc(fields, key),
        _ => None,
    }
}

/// First value bound to `key` in a field list.
pub fn field_lookup<'a>(fields: &'a Vec<(String, JsonValue)>, key: &str) -> (r: Option<
    &'a JsonValue,
>)
    ensures
        match r {
            Some(x) => assoc(json_fields_view(fields@), key@) == Some(x@),
            None => assoc(json_fields_view(fields@), key@) is None,
        },
{
    proof {
        lemma_json_fields_view(fields@);
    }
    let n = fields.len();
    let mut i: usize = 0;
    while i < n
        invariant
            n == fields@.len(),
            json_fields_view(fields@).len() == n,
            i <= n,
            forall|j: int|
                0 <= j < fields@.len() ==> json_fields_view(fields@)[j] == (
                    (#[trigger] fields@[j]).0@,
                    json_view(fields@[j].1),
                ),
            forall|j: int| 0 <= j < i ==> (#[trigger] json_fields_view(fields@)[j]).0 != key@,
        decreases n - i,
    {
        if str_eq(fields[i].0.as_str(), key) {
            proof {
                lemma_assoc_found(json_fields_view(fields@), key@, i as int);
            }
            return Some(&fields[i].1);
        }
        i += 1;
    }
    proof {
        lemma_assoc_none(json_fields_view(fields@), key@);
    }
    None
}

/// Looks a field up at the top level of a value, as
/// `serde_json::Value::get` would.
pub fn get_field<'a>(v: &'a JsonValue, key: &str) -> (r: Option<&'a JsonValue>)
    ensures
        match r {
            Some(x) => json_get(v@, key@) == Some(x@),
            None => json_get(v@, key@) is None,
        },
{
    match v {
        JsonValue::Object(fields) => field_lookup(fields, key),
        _ => None,
    }
}

/// The textual form of a boolean.
pub open spec fn bool_str(b: bool) -> Seq<char> {
    if b {
        seq!['t', 'r', 'u', 'e']
    } else {
        seq!['f', 'a', 'l', 's', 'e']
    }
}

/// The textual form the engine gives a value: scalars bare, numbers in
/// decimal, arrays and objects in compact JSON shape without any quote
/// characters.
pub open spec fn spec_render(d: JsonData) -> Seq<char>
    decreases d,
{
    match d {
        JsonData::Null => seq!['n', 'u', 'l', 'l'],
        JsonData::Bool(b) => bool_str(b),
        JsonData::Int(n) => int_str(n),
        JsonData::BigNum(t) => t,
        JsonData::Str(s) => s,
        JsonData::Array(items) => seq!['['] + spec_render_items(items) + seq![']'],
        JsonData::Object(fields) => seq!['{'] + spec_render_fields(fields) + seq!['}'],
    }
}

pub open spec fn spec_render_items(s: Seq<JsonData>) -> Seq<char>
    decreases s,
{
    if s.len() == 0 {
        Seq::empty()
    } else if s.len() == 1 {
        spec_render(s.last())
    } else {
        spec_render_items(s.drop_last()) + seq![','] + spec_render(s.last())
    }
}

pub open spec fn spec_render_fields(s: Seq<(Seq<char>, JsonData)>) -> Seq<char>
    decreases s,
{
    if s.len() == 0 {
        Seq::empty()
    } else if s.len() == 1 {
        s.last().0 + seq![':'] + spec_render(s.last().1)
    } else {
        spec_render_fields(s.drop_last()) + seq![','] + s.last().0 + seq![':'] + spec_render(
            s.last().1,
        )
    }
}

/// Renders a value in the engine's textual form.
#[verifier::loop_isolation(false)]
pub fn render(v: &JsonValue) -> (s: String)
    ensures
        s@ == spec_render(v@),
    decreases *v,
{
    match v {
        JsonValue::Null => {
            let mut out = String::new();
            out.push('n');
            out.push('u');
            out.push('l');
            out.push('l');
            proof {
                assert(out@ =~= seq!['n', 'u', 'l', 'l']);
            }
            out
        },
        JsonValue::Bool(b) => {
            let mut out = String::new();
            if *b {
                out.push('t');
                out.push('r');
                out.push('u');
                out.push('e');
                proof {
                    assert(out@ =~= seq!['t', 'r', 'u', 'e']);
                }
            } else {
                out.push('f');
                out.push('a');
                out.push('l');
                out.push('s');
                out.push('e');
                proof {
                    assert(out@ =~= seq!['f', 'a', 'l', 's', 'e']);
                }
            }
            out
        },
        JsonValue::Int(n) => i64_to_string(*n),
        JsonValue::BigNum(t) => t.clone(),
        JsonValue::Str(s0) => s0.clone(),
        JsonValue::Array(items) => {
            proof {
                lemma_json_seq_view(items@);
            }
            let mut out = String::new();
            out.push('[');
            let n = items.len();
            let ghost model = json_seq_view(items@);
            let mut i: usize = 0;
            while i < n
                invariant
                    i <= n,
                    out@ == seq!['['] + spec_render_items(model.subrange(0, i as int)),
                decreases n - i,
            {
                if i > 0 {
                    out.push(',');
                }
                let piece = render(&items[i]);
                out.append(piece.as_str());
                proof {
                    let pre = model.subrange(0, i as int);
                    let cur = model.subrange(0, i as int + 1);
                    assert(cur.drop_last() =~= pre);
                    assert(cur.last() == model[i as int]);
                    if i == 0 {
                        assert(out@ =~= seq!['['] + spec_render_items(cur));
                    } else {
                        assert(out@ =~= seq!['['] + spec_render_items(cur));
                    }
                }
                i += 1;
            }
            out.push(']');
            proof {
                assert(model.subrange(0, n as int) =~= model);
                assert(out@ =~= seq!['['] + spec_render_items(model) + seq![']']);
            }
            out
        },
        JsonValue::Object(fields) => {
            proof {
                lemma_json_fields_view(fields@);
            }
            let mut out = String::new();
            out.push('{');
            let n = fields.len();
            let ghost model = json_fields_view(fields@);
            let mut i: usize = 0;
            while i < n
                invariant
                    i <= n,
                    out@ == seq!['{'] + spec_render_fields(model.subrange(0, i as int)),
                decreases n - i,
            {
                if i > 0 {
                    out.push(',');
                }
                out.append(fields[i].0.as_str());
                out.push(':');
                let piece = render(&fields[i].1);
                out.append(piece.as_str());
                proof {
                    let pre = model.subrange(0, i as int);
                    let cur = model.subrange(0, i as int + 1);
                    assert(cur.drop_last() =~= pre);
                    assert(cur.last() == model[i as int]);
                    assert(out@ =~= seq!['{'] + spec_render_fields(cur));
                }
                i += 1;
            }
            out.push('}');
            proof {
                assert(model.subrange(0, n as int) =~= model);
                assert(out@ =~= seq!['{'] + spec_render_fields(model) + seq!['}']);
            }
            out
        },
    }
}

#[verifier::external_type_specification]
#[verifier::external_body]
pub struct ExValue(serde_json::Value);

/// What `serde_json::from_slice::<Value>` makes of a byte string: the
/// parsed document, or nothing when the bytes are not valid JSON.
pub uninterp spec fn json_of(b: Seq<u8>) -> Option<JsonData>;

/// Relies on serde_json's `Value` enum: each variant is moved into the
/// matching variant of `JsonValue`; a number becomes `Int` exactly when
/// `Number::as_i64` accepts it, and keeps its `to_string` form otherwise.
#[verifier::external_body]
fn lift_json(v: serde_json::Value) -> JsonValue {
    match v {
        serde_json::Value::Null => JsonValue::Null,
        serde_json::Value::Bool(b) => JsonValue::Bool(b),
        serde_json::Value::Number(n) => match n.as_i64() {
            Some(i) => JsonValue::Int(i),
            None => JsonValue::BigNum(n.to_string()),
        },
        serde_json::Value::String(s) => JsonValue::Str(s),
        serde_json::Value::Array(items) => JsonValue::Array(
            items.into_iter().map(lift_json).collect(),
        ),
        serde_json::Value::Object(fields) => JsonValue::Object(
            fields.into_iter().map(|(k, x)| (k, lift_json(x))).collect(),
        ),
    }
}

/// Relies on `serde_json::from_slice::<Value>`: parses the bytes as one
/// JSON document, a pure function of its argument, and fails exactly on
/// input that is not valid JSON.
#[verifier::external_body]
pub fn parse_json(bytes: &[u8]) -> (r: Result<JsonValue, String>)
    ensures
        match r {
            Ok(v) => json_of(bytes@) == Some(v@),
            Err(_) => json_of(bytes@) is None,
        },
{
    match serde_json::from_slice::<serde_json::Value>(bytes) {
        Ok(v) => Ok(lift_json(v)),
        Err(e) => Err(e.to_string()),
    }
}

} // verus!
