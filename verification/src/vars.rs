use vstd::prelude::*;
use vstd::string::StrSliceExecFns;
use crate::text::{assoc, lemma_assoc_found, lemma_assoc_none, pairs_view, spec_set, str_eq};

verus! {

/// The variable store a run threads through its plans: a snapshot of the
/// process environment taken at startup, and an overlay that assignments
/// fill in as plans run.  The snapshot is consulted first, the overlay
/// second.
pub struct VariableStore {
    env: Vec<(String, String)>,
    overlay: Vec<(String, String)>,
}

/// The model of a `VariableStore`: two ordered binding lists.
pub struct StoreData {
    pub env: Seq<(Seq<char>, Seq<char>)>,
    pub overlay: Seq<(Seq<char>, Seq<char>)>,
}

impl View for VariableStore {
    type V = StoreData;

    closed spec fn view(&self) -> StoreData {
        StoreData { env: pairs_view(self.env@), overlay: pairs_view(self.overlay@) }
    }
}

/// The index after the leading run of `$` signs, starting at `i`.
pub open spec fn sigil_end(t: Seq<char>, i: int) -> int
    decreases t.len() - i,
{
    if i < 0 || i >= t.len() || t[i] != '$' {
        i
    } else {
        sigil_end(t, i + 1)
    }
}

/// A variable name with its leading `$` signs removed.
pub open spec fn strip_sigils(t: Seq<char>) -> Seq<char> {
    t.skip(sigil_end(t, 0))
}

/// How a token resolves: the environment snapshot is authoritative, keyed
/// by the bare name; the overlay is keyed by the token as written.
pub open spec fn spec_resolve(store: StoreData, token: Seq<char>) -> Option<Seq<char>> {
    match assoc(store.env, strip_sigils(token)) {
        Some(v) => Some(v),
        None => assoc(store.overlay, token),
    }
}

pub(crate) fn find(entries: &Vec<(String, String)>, key: &str) -> (r: Option<String>)
    ensures
        match r {
            Some(v) => assoc(pairs_view(entries@), key@) == Some(v@),
            None => assoc(pairs_view(entries@), key@) is None,
        },
{
    let n = entries.len();
    let mut i: usize = 0;
    while i < n
        invariant
            n == entries@.len(),
            i <= n,
            forall|j: int| 0 <= j < i ==> (#[trigger] pairs_view(entries@)[j]).0 != key@,
        decreases n - i,
    {
        if str_eq(entries[i].0.as_str(), key) {
            proof {
                lemma_assoc_found(pairs_view(entries@), key@, i as int);
            }
            return Some(entries[i].1.clone());
        }
        proof {
            assert(pairs_view(entries@)[i as int].0 == entries@[i as int].0@);
        }
        i += 1;
    }
    proof {
        lemma_assoc_none(pairs_view(entries@), key@);
    }
    None
}

/// Writes `value` under `key`, replacing the first binding of `key` or
/// appending one.
fn store_set(entries: &mut Vec<(String, String)>, key: &str, value: &str)
    ensures
        pairs_view(final(entries)@) == spec_set(pairs_view(old(entries)@), key@, value@),
{
    let n = entries.len();
    let mut i: usize = 0;
    while i < n
        invariant
            n == entries@.len(),
            i <= n,
            entries@ == old(entries)@,
            forall|j: int| 0 <= j < i ==> (#[trigger] pairs_view(entries@)[j]).0 != key@,
        decreases n - i,
    {
        if str_eq(entries[i].0.as_str(), key) {
            let pair = (key.to_owned(), value.to_owned());
            entries.set(i, pair);
            proof {
                lemma_spec_set_at(pairs_view(old(entries)@), key@, value@, i as int);
                assert(pairs_view(entries@) =~= pairs_view(old(entries)@).update(
                    i as int,
                    (key@, value@),
                ));
            }
            return ;
        }
        proof {
            assert(pairs_view(entries@)[i as int].0 == entries@[i as int].0@);
        }
        i += 1;
    }
    let pair = (key.to_owned(), value.to_owned());
    entries.push(pair);
    proof {
        lemma_spec_set_absent(pairs_view(old(entries)@), key@, value@);
        assert(pairs_view(entries@) =~= pairs_view(old(entries)@).push((key@, value@)));
    }
}

proof fn lemma_spec_set_at(
    entries: Seq<(Seq<char>, Seq<char>)>,
    key: Seq<char>,
    value: Seq<char>,
    i: int,
)
    requires
        0 <= i < entries.len(),
        forall|j: int| 0 <= j < i ==> (#[trigger] entries[j]).0 != key,
        entries[i].0 == key,
    ensures
        spec_set(entries, key, value) == entries.update(i, (key, value)),
    decreases i,
{
    let out = spec_set(entries, key, value);
    if i == 0 {
        assert(out =~= entries.update(0, (key, value)));
    } else {
        assert(entries.first().0 != key);
        lemma_spec_set_at(entries.drop_first(), key, value, i - 1);
        assert(out =~= entries.update(i, (key, value)));
    }
}

proof fn lemma_spec_set_absent(
    entries: Seq<(Seq<char>, Seq<char>)>,
    key: Seq<char>,
    value: Seq<char>,
)
    requires
        forall|j: int| 0 <= j < entries.len() ==> (#[trigger] entries[j]).0 != key,
    ensures
        spec_set(entries, key, value) == entries.push((key, value)),
    decreases entries.len(),
{
    let out = spec_set(entries, key, value);
    if entries.len() == 0 {
        assert(out =~= entries.push((key, value)));
    } else {
        lemma_spec_set_absent(entries.drop_first(), key, value);
        assert(out =~= entries.push((key, value)));
    }
}

impl VariableStore {
    /// An empty store: nothing seeded, nothing assigned.
    pub fn new() -> (s: Self)
        ensures
            s@.env == Seq::<(Seq<char>, Seq<char>)>::empty(),
            s@.overlay == Seq::<(Seq<char>, Seq<char>)>::empty(),
    {
        let s = VariableStore { env: Vec::new(), overlay: Vec::new() };
        proof {
            assert(s@.env =~= Seq::<(Seq<char>, Seq<char>)>::empty());
            assert(s@.overlay =~= Seq::<(Seq<char>, Seq<char>)>::empty());
        }
        s
    }

    /// Seeds the environment snapshot with one variable, as found in the
    /// real process environment at startup.
    pub fn seed(&mut self, name: &str, value: &str)
        ensures
            final(self)@.env == spec_set(old(self)@.env, name@, value@),
            final(self)@.overlay == old(self)@.overlay,
    {
        store_set(&mut self.env, name, value);
    }

    /// Records an assignment: the bare name goes into the environment
    /// snapshot, the name as written into the overlay.
    pub fn assign(&mut self, var_name: &str, value: &str)
        ensures
            final(self)@.env == spec_set(
                old(self)@.env,
                strip_sigils(var_name@),
                value@,
            ),
            final(self)@.overlay == spec_set(old(self)@.overlay, var_name@, value@),
    {
        let bare = strip_sigils_exec(var_name);
        store_set(&mut self.env, bare, value);
        store_set(&mut self.overlay, var_name, value);
    }

    /// Resolves one substitution token.
    pub fn resolve(&self, token: &str) -> (r: Option<String>)
        ensures
            match r {
                Some(v) => spec_resolve(self@, token@) == Some(v@),
                None => spec_resolve(self@, token@) is None,
            },
    {
        let bare = strip_sigils_exec(token);
        match find(&self.env, bare) {
            Some(v) => Some(v),
            None => find(&self.overlay, token),
        }
    }
}

/// The suffix of a token after its leading `$` signs.
fn strip_sigils_exec<'a>(token: &'a str) -> (r: &'a str)
    ensures
        r@ == strip_sigils(token@),
{
    let len = token.unicode_len();
    let mut i: usize = 0;
    while i < len && token.get_char(i) == '$'
        invariant
            i <= len,
            len == token@.len(),
            sigil_end(token@, 0) == sigil_end(token@, i as int),
            forall|k: int| 0 <= k < i ==> token@[k] == '$',
        decreases len - i,
    {
        i += 1;
    }
    let r = token.substring_char(i, len);
    proof {
        assert(sigil_end(token@, i as int) == i);
        assert(r@ =~= token@.skip(i as int));
    }
    r
}

} // verus!
