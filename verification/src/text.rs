use vstd::prelude::*;
use vstd::string::StrSliceExecFns;

verus! {

/// Relies on std's `String::push`: appends one character at the end.
pub assume_specification[ String::push ](s: &mut String, c: char)
    ensures
        final(s)@ == old(s)@.push(c),
;

/// The views of a sequence of strings, in order.
pub open spec fn strings_view(s: Seq<String>) -> Seq<Seq<char>> {
    Seq::new(s.len(), |i: int| s[i]@)
}

/// The views of a sequence of string pairs, in order.
pub open spec fn pairs_view(s: Seq<(String, String)>) -> Seq<(Seq<char>, Seq<char>)> {
    Seq::new(s.len(), |i: int| (s[i].0@, s[i].1@))
}

/// First value bound to `key` in an ordered key/value list.
pub open spec fn assoc<V>(entries: Seq<(Seq<char>, V)>, key: Seq<char>) -> Option<V>
    decreases entries.len(),
{
    if entries.len() == 0 {
        None
    } else if entries.first().0 == key {
        Some(entries.first().1)
    } else {
        assoc(entries.drop_first(), key)
    }
}

pub proof fn lemma_assoc_found<V>(entries: Seq<(Seq<char>, V)>, key: Seq<char>, i: int)
    requires
        0 <= i < entries.len(),
        forall|j: int| 0 <= j < i ==> (#[trigger] entries[j]).0 != key,
        entries[i].0 == key,
    ensures
        assoc(entries, key) == Some(entries[i].1),
    decreases i,
{
    if i > 0 {
        assert(entries.first().0 != key);
        lemma_assoc_found(entries.drop_first(), key, i - 1);
    }
}

pub proof fn lemma_assoc_none<V>(entries: Seq<(Seq<char>, V)>, key: Seq<char>)
    requires
        forall|j: int| 0 <= j < entries.len() ==> (#[trigger] entries[j]).0 != key,
    ensures
        assoc(entries, key) is None,
    decreases entries.len(),
{
    if entries.len() > 0 {
        lemma_assoc_none(entries.drop_first(), key);
    }
}

/// Replaces the first binding of `key`, or appends one at the end.
pub open spec fn spec_set<V>(entries: Seq<(Seq<char>, V)>, key: Seq<char>, value: V) -> Seq<
    (Seq<char>, V),
>
    decreases entries.len(),
{
    if entries.len() == 0 {
        seq![(key, value)]
    } else if entries.first().0 == key {
        seq![(key, value)] + entries.drop_first()
    } else {
        seq![entries.first()] + spec_set(entries.drop_first(), key, value)
    }
}

/// After a `spec_set`, the written key reads back the new value and every
/// other key is untouched.
pub proof fn lemma_assoc_set<V>(
    entries: Seq<(Seq<char>, V)>,
    key: Seq<char>,
    value: V,
    key2: Seq<char>,
)
    ensures
        assoc(spec_set(entries, key, value), key2) == if key2 == key {
            Some(value)
        } else {
            assoc(entries, key2)
        },
    decreases entries.len(),
{
    let out = spec_set(entries, key, value);
    if entries.len() == 0 {
        assert(out.first() == (key, value));
        assert(out.drop_first() =~= Seq::<(Seq<char>, V)>::empty());
        assert(assoc(out.drop_first(), key2) is None);
        assert(assoc(out, key2) == if key2 == key {
            Some(value)
        } else {
            assoc(entries, key2)
        });
    } else if entries.first().0 == key {
        assert(out.first() == (key, value));
        assert(out.drop_first() =~= entries.drop_first());
        assert(assoc(out, key2) == if key2 == key {
            Some(value)
        } else {
            assoc(entries, key2)
        });
    } else {
        lemma_assoc_set(entries.drop_first(), key, value, key2);
        assert(out.first() == entries.first());
        assert(out.drop_first() =~= spec_set(entries.drop_first(), key, value));
        assert(assoc(out, key2) == if key2 == key {
            Some(value)
        } else {
            assoc(entries, key2)
        });
    }
}

/// Character-for-character equality of two string slices.
pub fn str_eq(a: &str, b: &str) -> (r: bool)
    ensures
        r == (a@ == b@),
{
    let alen = a.unicode_len();
    let blen = b.unicode_len();
    if alen != blen {
        return false;
    }
    let mut i: usize = 0;
    while i < alen
        invariant
            alen == a@.len(),
            blen == b@.len(),
            alen == blen,
            i <= alen,
            forall|j: int| 0 <= j < i ==> a@[j] == b@[j],
        decreases alen - i,
    {
        if a.get_char(i) != b.get_char(i) {
            return false;
        }
        i += 1;
    }
    proof {
        assert(a@ =~= b@);
    }
    true
}

} // verus!
