use vstd::prelude::*;
use vstd::string::{StrSliceExecFns, StringExecFns};
use crate::vars::{spec_resolve, StoreData, VariableStore};

verus! {

/// A character that may stand in a substitution token after the sigil:
/// ASCII letters, digits and the underscore.
pub open spec fn is_token_char(c: char) -> bool {
    (65 <= c as u32 <= 90) || (97 <= c as u32 <= 122) || (48 <= c as u32 <= 57) || c == '_'
}

fn is_token_char_exec(c: char) -> (r: bool)
    ensures
        r == is_token_char(c),
{
    let u = c as u32;
    (65 <= u && u <= 90) || (97 <= u && u <= 122) || (48 <= u && u <= 57) || u == 95
}

/// The index just past the run of token characters that starts at `i`.
pub open spec fn token_end(t: Seq<char>, i: int) -> int
    decreases t.len() - i,
{
    if i < 0 || i >= t.len() || !is_token_char(t[i]) {
        i
    } else {
        token_end(t, i + 1)
    }
}

pub proof fn lemma_token_end(t: Seq<char>, i: int)
    requires
        0 <= i <= t.len(),
    ensures
        i <= token_end(t, i) <= t.len(),
        forall|k: int| i <= k < token_end(t, i) ==> is_token_char(t[k]),
        token_end(t, i) < t.len() ==> !is_token_char(t[token_end(t, i)]),
    decreases t.len() - i,
{
    if i < t.len() && is_token_char(t[i]) {
        lemma_token_end(t, i + 1);
    }
}

/// Substitution of the suffix of `t` that starts at `i`: every maximal
/// token `$NAME` is replaced by its resolved value, a token that does not
/// resolve is the error, and replaced text is not scanned again.
pub open spec fn subst_from(t: Seq<char>, store: StoreData, i: int) -> Result<Seq<char>, Seq<char>>
    decreases t.len() - i,
        via subst_from_decreases
{
    if i < 0 || i >= t.len() {
        Ok(Seq::empty())
    } else if t[i] == '$' && i + 1 < t.len() && is_token_char(t[i + 1]) {
        let j = token_end(t, i + 1);
        let token = t.subrange(i, j);
        match spec_resolve(store, token) {
            Some(v) => match subst_from(t, store, j) {
                Ok(rest) => Ok(v + rest),
                Err(e) => Err(e),
            },
            None => Err(token),
        }
    } else {
        match subst_from(t, store, i + 1) {
            Ok(rest) => Ok(seq![t[i]] + rest),
            Err(e) => Err(e),
        }
    }
}

#[via_fn]
proof fn subst_from_decreases(t: Seq<char>, store: StoreData, i: int) {
    if 0 <= i < t.len() && t[i] == '$' && i + 1 < t.len() && is_token_char(t[i + 1]) {
        lemma_token_end(t, i + 1);
        assert(token_end(t, i + 1) == token_end(t, i + 2));
    }
}

/// What substitution makes of a whole text against a store.
pub open spec fn spec_substitute(t: Seq<char>, store: StoreData) -> Result<Seq<char>, Seq<char>> {
    subst_from(t, store, 0)
}

/// Replaces every `$NAME` token in `text` by its value from the store;
/// the error carries the first token that does not resolve.
pub fn substitute(text: &str, store: &VariableStore) -> (r: Result<String, String>)
    ensures
        (match r {
            Ok(s) => spec_substitute(text@, store@) == Ok::<Seq<char>, Seq<char>>(s@),
            Err(tok) => spec_substitute(text@, store@) == Err::<Seq<char>, Seq<char>>(tok@),
        }),
{
    let len = text.unicode_len();
    let mut out = String::new();
    let mut i: usize = 0;
    proof {
        let r0 = subst_from(text@, store@, 0);
        if r0 is Ok {
            assert(out@ + r0->Ok_0 =~= r0->Ok_0);
        }
    }
    while i < len
        invariant
            i <= len,
            len == text@.len(),
            (subst_from(text@, store@, 0) == match subst_from(text@, store@, i as int) {
                Ok(rest) => Ok::<Seq<char>, Seq<char>>(out@ + rest),
                Err(e) => Err::<Seq<char>, Seq<char>>(e),
            }),
        decreases len - i,
    {
        let c = text.get_char(i);
        if c == '$' && i + 1 < len && is_token_char_exec(text.get_char(i + 1)) {
            let mut j = i + 1;
            while j < len && is_token_char_exec(text.get_char(j))
                invariant
                    i + 1 <= j <= len,
                    len == text@.len(),
                    token_end(text@, i + 1) == token_end(text@, j as int),
                decreases len - j,
            {
                j += 1;
            }
            proof {
                assert(token_end(text@, j as int) == j);
            }
            let token = text.substring_char(i, j);
            match store.resolve(token) {
                Some(v) => {
                    let ghost out_pre = out@;
                    out.append(v.as_str());
                    proof {
                        let rest_j = subst_from(text@, store@, j as int);
                        if rest_j is Ok {
                            assert(out_pre + (v@ + rest_j->Ok_0) =~= out@ + rest_j->Ok_0);
                        }
                    }
                    i = j;
                },
                None => {
                    return Err(token.to_owned());
                },
            }
        } else {
            let ghost out_pre = out@;
            out.push(c);
            proof {
                let rest_n = subst_from(text@, store@, i + 1);
                if rest_n is Ok {
                    assert(out_pre + (seq![text@[i as int]] + rest_n->Ok_0) =~= out@
                        + rest_n->Ok_0);
                }
            }
            i += 1;
        }
    }
    proof {
        assert(out@ + Seq::<char>::empty() =~= out@);
    }
    Ok(out)
}

} // verus!
