use vstd::prelude::*;
use crate::compare::spec_compare;
use crate::engine::{app_error_msg, assign_store, code_of, data_chars, spec_apply_assigns,
    spec_validate, spec_validate_fields, target_of};
use crate::errors::ErrorData;
use crate::json::{json_get, spec_render, JsonData};
use crate::numbers::spec_parse_i64;
use crate::subst::{is_token_char, lemma_token_end, spec_substitute, subst_from, token_end};
use crate::text::{assoc, lemma_assoc_set};
use crate::vars::{spec_resolve, strip_sigils, StoreData};

verus! {

/// When the envelope carries `code = 0` and the only declared expectation
/// is a whole-payload check on `data`, validation succeeds exactly when
/// the actual `data` field compares true against the expected string after
/// substitution — whatever else the envelope holds.
pub proof fn lemma_whole_payload_validation(j: JsonData, x: Seq<char>, store: StoreData)
    requires
        code_of(j) == Some(0int),
    ensures
        ({
            let expect = seq![(data_chars(), x)];
            &&& spec_validate(expect, j, store) == (match json_get(j, data_chars()) {
                None => Err::<(), ErrorData>(ErrorData::MissingExpectedField(data_chars())),
                Some(actual) => match spec_substitute(x, store) {
                    Err(tok) => Err(ErrorData::UnresolvedVariable(tok)),
                    Ok(xs) => match spec_compare(actual, xs) {
                        Err(e) => Err(e),
                        Ok(true) => Ok(()),
                        Ok(false) => Err(
                            ErrorData::FieldMismatch(data_chars(), xs, spec_render(actual)),
                        ),
                    },
                },
            })
            &&& ((spec_validate(expect, j, store) is Ok) <==> (match json_get(j, data_chars()) {
                Some(actual) => match spec_substitute(x, store) {
                    Ok(xs) => spec_compare(actual, xs) == Ok::<bool, ErrorData>(true),
                    Err(_) => false,
                },
                None => false,
            }))
        }),
{
    let expect = seq![(data_chars(), x)];
    assert(expect.first() == (data_chars(), x));
    assert(assoc(expect, data_chars()) == Some(x));
    assert(expect.len() == 1);
}

/// Comparison of a numeric actual against the three expected-literal
/// shapes: `>k` asks for strictly greater, `<k` for strictly less, a bare
/// literal for equality; a remainder that does not read as a number is a
/// parse error of its own, never a silent mismatch.
pub proof fn lemma_numeric_comparison(v: i64, ks: Seq<char>)
    requires
        ks.len() == 0 || (ks[0] != '>' && ks[0] != '<'),
    ensures
        (match spec_parse_i64(ks) {
            Some(k) => {
                &&& spec_compare(JsonData::Int(v as int), seq!['>'] + ks) == Ok::<
                    bool,
                    ErrorData,
                >(v > k)
                &&& spec_compare(JsonData::Int(v as int), seq!['<'] + ks) == Ok::<
                    bool,
                    ErrorData,
                >(v < k)
                &&& spec_compare(JsonData::Int(v as int), ks) == Ok::<bool, ErrorData>(
                    v as int == k,
                )
            },
            None => {
                &&& spec_compare(JsonData::Int(v as int), seq!['>'] + ks) == Err::<
                    bool,
                    ErrorData,
                >(ErrorData::MalformedComparisonLiteral(seq!['>'] + ks))
                &&& spec_compare(JsonData::Int(v as int), seq!['<'] + ks) == Err::<
                    bool,
                    ErrorData,
                >(ErrorData::MalformedComparisonLiteral(seq!['<'] + ks))
                &&& spec_compare(JsonData::Int(v as int), ks) == Err::<bool, ErrorData>(
                    ErrorData::MalformedComparisonLiteral(ks),
                )
            },
        }),
{
    let gt = seq!['>'] + ks;
    let lt = seq!['<'] + ks;
    assert(gt[0] == '>' && lt[0] == '<');
    assert(gt.drop_first() =~= ks);
    assert(lt.drop_first() =~= ks);
}

/// A nonzero envelope code is always an application error carrying the
/// code and the textual form of `data`, whatever expectations the plan
/// declares: no expectation check runs.
pub proof fn lemma_nonzero_code_is_application_error(
    expect: Seq<(Seq<char>, Seq<char>)>,
    j: JsonData,
    store: StoreData,
    c: int,
)
    requires
        code_of(j) == Some(c),
        c != 0,
    ensures
        spec_validate(expect, j, store) == Err::<(), ErrorData>(
            ErrorData::ApplicationError(c, app_error_msg(j)),
        ),
{
}

/// A token `$NAME` bound to a value resolves to exactly that value: the
/// whole text is the token, the result is the binding, and nothing inside
/// the value is scanned again — the value may itself hold `$` characters.
pub proof fn lemma_substitution_roundtrip(name: Seq<char>, v: Seq<char>, store: StoreData)
    requires
        name.len() > 0,
        forall|k: int| 0 <= k < name.len() ==> is_token_char(#[trigger] name[k]),
        spec_resolve(store, seq!['$'] + name) == Some(v),
    ensures
        spec_substitute(seq!['$'] + name, store) == Ok::<Seq<char>, Seq<char>>(v),
{
    let t = seq!['$'] + name;
    assert(t[0] == '$');
    assert(t[1] == name[0]);
    lemma_token_end(t, 1);
    assert forall|k: int| 1 <= k < t.len() implies is_token_char(t[k]) by {
        assert(t[k] == name[k - 1]);
    }
    if token_end(t, 1) < t.len() {
        assert(is_token_char(t[token_end(t, 1)]));
        assert(false);
    }
    assert(t.subrange(0, t.len() as int) =~= t);
    assert(subst_from(t, store, t.len() as int) == Ok::<Seq<char>, Seq<char>>(Seq::empty()));
    assert(v + Seq::<char>::empty() =~= v);
}

/// How one assignment shifts resolution: the assigned name (under any
/// spelling of its sigils) now resolves to the written value, and every
/// other token resolves as before.
pub proof fn lemma_assign_resolve(s: StoreData, var: Seq<char>, value: Seq<char>, tok: Seq<char>)
    ensures
        spec_resolve(assign_store(s, var, value), tok) == if strip_sigils(tok) == strip_sigils(
            var,
        ) {
            Some(value)
        } else {
            spec_resolve(s, tok)
        },
{
    let s2 = assign_store(s, var, value);
    lemma_assoc_set(s.env, strip_sigils(var), value, strip_sigils(tok));
    lemma_assoc_set(s.overlay, var, value, tok);
    if strip_sigils(tok) != strip_sigils(var) {
        assert(tok != var);
    }
}

/// Two stores that resolve every token alike keep doing so after the same
/// assignments are applied to both.
pub proof fn lemma_apply_assigns_stable(
    assigns: Seq<(Seq<char>, Seq<char>)>,
    i: int,
    j: JsonData,
    s0: StoreData,
    s1: StoreData,
)
    requires
        forall|tok: Seq<char>| #[trigger] spec_resolve(s0, tok) == spec_resolve(s1, tok),
    ensures
        forall|tok: Seq<char>| #[trigger]
            spec_resolve(spec_apply_assigns(assigns, i, j, s0), tok) == spec_resolve(
                spec_apply_assigns(assigns, i, j, s1),
                tok,
            ),
    decreases assigns.len() - i,
{
    if 0 <= i < assigns.len() {
        match json_get(j, assigns[i].0) {
            Some(v) => {
                let t0 = assign_store(s0, assigns[i].1, spec_render(v));
                let t1 = assign_store(s1, assigns[i].1, spec_render(v));
                assert forall|tok: Seq<char>| #[trigger]
                    spec_resolve(t0, tok) == spec_resolve(t1, tok) by {
                    lemma_assign_resolve(s0, assigns[i].1, spec_render(v), tok);
                    lemma_assign_resolve(s1, assigns[i].1, spec_render(v), tok);
                }
                lemma_apply_assigns_stable(assigns, i + 1, j, t0, t1);
            },
            None => {
                lemma_apply_assigns_stable(assigns, i + 1, j, s0, s1);
            },
        }
    }
}

proof fn lemma_subst_from_stable(t: Seq<char>, s0: StoreData, s1: StoreData, i: int)
    requires
        forall|tok: Seq<char>| #[trigger] spec_resolve(s0, tok) == spec_resolve(s1, tok),
    ensures
        subst_from(t, s0, i) == subst_from(t, s1, i),
    decreases t.len() - i,
{
    if 0 <= i < t.len() {
        if t[i] == '$' && i + 1 < t.len() && is_token_char(t[i + 1]) {
            lemma_token_end(t, i + 1);
            lemma_subst_from_stable(t, s0, s1, token_end(t, i + 1));
        } else {
            lemma_subst_from_stable(t, s0, s1, i + 1);
        }
    }
}

/// Substitution sees a store only through token resolution: two stores
/// that resolve every token alike substitute every text alike.
pub proof fn lemma_substitute_stable(t: Seq<char>, s0: StoreData, s1: StoreData)
    requires
        forall|tok: Seq<char>| #[trigger] spec_resolve(s0, tok) == spec_resolve(s1, tok),
    ensures
        spec_substitute(t, s0) == spec_substitute(t, s1),
{
    lemma_subst_from_stable(t, s0, s1, 0);
}

proof fn lemma_validate_fields_stable(
    expect: Seq<(Seq<char>, Seq<char>)>,
    i: int,
    target: Seq<(Seq<char>, JsonData)>,
    s0: StoreData,
    s1: StoreData,
)
    requires
        forall|tok: Seq<char>| #[trigger] spec_resolve(s0, tok) == spec_resolve(s1, tok),
    ensures
        spec_validate_fields(expect, i, target, s0) == spec_validate_fields(expect, i, target, s1),
    decreases expect.len() - i,
{
    if 0 <= i < expect.len() {
        lemma_substitute_stable(expect[i].1, s0, s1);
        lemma_validate_fields_stable(expect, i + 1, target, s0, s1);
    }
}

/// Validation sees a store only through token resolution: two stores that
/// resolve every token alike give every response the same verdict.
pub proof fn lemma_revalidation_stable(
    expect: Seq<(Seq<char>, Seq<char>)>,
    j: JsonData,
    s0: StoreData,
    s1: StoreData,
)
    requires
        forall|tok: Seq<char>| #[trigger] spec_resolve(s0, tok) == spec_resolve(s1, tok),
    ensures
        spec_validate(expect, j, s0) == spec_validate(expect, j, s1),
{
    match assoc(expect, data_chars()) {
        Some(exp_data) => {
            lemma_substitute_stable(exp_data, s0, s1);
        },
        None => {},
    }
    lemma_validate_fields_stable(expect, 0, target_of(j), s0, s1);
}

/// Idempotence against a stable service: when the first run's assignments
/// leave every token resolving as before — as after any failed run, which
/// writes nothing — a second run of the same plan on the same response
/// reaches the same verdict, writes the same values, and leaves resolution
/// unchanged again.
pub proof fn lemma_idempotent_rerun(
    expect: Seq<(Seq<char>, Seq<char>)>,
    assigns: Seq<(Seq<char>, Seq<char>)>,
    j: JsonData,
    store: StoreData,
)
    requires
        forall|tok: Seq<char>| #[trigger]
            spec_resolve(spec_apply_assigns(assigns, 0, j, store), tok) == spec_resolve(
                store,
                tok,
            ),
    ensures
        spec_validate(expect, j, spec_apply_assigns(assigns, 0, j, store)) == spec_validate(
            expect,
            j,
            store,
        ),
        forall|tok: Seq<char>| #[trigger]
            spec_resolve(
                spec_apply_assigns(assigns, 0, j, spec_apply_assigns(assigns, 0, j, store)),
                tok,
            ) == spec_resolve(spec_apply_assigns(assigns, 0, j, store), tok),
{
    let after = spec_apply_assigns(assigns, 0, j, store);
    lemma_revalidation_stable(expect, j, after, store);
    lemma_apply_assigns_stable(assigns, 0, j, after, store);
}

} // verus!
