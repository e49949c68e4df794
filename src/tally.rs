//! Counting keyed occurrences in a vector of `(key, count)` pairs.
use vstd::prelude::*;

verus! {

/// `t` counts by `f`: its keys are distinct, each count is `f` of its key and
/// positive, and every key with a positive `f` has an entry.
pub open spec fn tally_of<K>(t: Seq<(K, u64)>, f: spec_fn(K) -> nat) -> bool {
    &&& forall|a: int, b: int| 0 <= a < b < t.len() ==> t[a].0 != t[b].0
    &&& forall|j: int| 0 <= j < t.len() ==> t[j].1 == f(t[j].0) && t[j].1 > 0
    &&& forall|k: K| #[trigger] f(k) > 0 ==> exists|j: int| 0 <= j < t.len() && t[j].0 == k
}

/// `new` is `old` with one more occurrence of `key`.
pub open spec fn bumped<K>(old: Seq<(K, u64)>, new: Seq<(K, u64)>, key: K) -> bool {
    &&& new.len() == old.len() || new.len() == old.len() + 1
    &&& forall|j: int| 0 <= j < old.len() ==> new[j].0 == old[j].0
        && new[j].1 == old[j].1 + (if old[j].0 == key { 1int } else { 0int })
    &&& new.len() == old.len() + 1 ==> new[old.len() as int] == (key, 1u64)
        && forall|j: int| 0 <= j < old.len() ==> old[j].0 != key
    &&& new.len() == old.len() ==> exists|j: int| 0 <= j < old.len() && old[j].0 == key
}

/// Counting one more `key` keeps a tally exact.
pub proof fn lemma_bumped_tally<K>(
    old: Seq<(K, u64)>,
    new: Seq<(K, u64)>,
    key: K,
    f: spec_fn(K) -> nat,
    g: spec_fn(K) -> nat,
)
    requires
        tally_of(old, f),
        bumped(old, new, key),
        forall|k: K| #[trigger] g(k) == f(k) + (if k == key { 1nat } else { 0nat }),
    ensures
        tally_of(new, g),
{
    assert forall|a: int, b: int| 0 <= a < b < new.len() implies new[a].0 != new[b].0 by {
        if b == old.len() {
            assert(old[a].0 != key);
        }
    }
    assert forall|j: int| 0 <= j < new.len() implies new[j].1 == g(new[j].0) && new[j].1 > 0 by {
        if j == old.len() {
            if exists|i: int| 0 <= i < old.len() && old[i].0 == key {
                let i = choose|i: int| 0 <= i < old.len() && old[i].0 == key;
                assert(old[i].0 != key);
            }
            assert(f(key) == 0) by {
                if f(key) > 0 {
                    let i = choose|i: int| 0 <= i < old.len() && old[i].0 == key;
                    assert(old[i].0 != key);
                }
            }
            assert(g(key) == 1);
        } else {
            assert(g(new[j].0) == f(old[j].0) + (if old[j].0 == key { 1nat } else { 0nat }));
        }
    }
    assert forall|k: K| #[trigger] g(k) > 0 implies exists|j: int| 0 <= j < new.len() && new[j].0 == k by {
        if k == key {
            if new.len() == old.len() {
                let i = choose|i: int| 0 <= i < old.len() && old[i].0 == key;
                assert(new[i].0 == k);
            } else {
                assert(new[old.len() as int].0 == k);
            }
        } else {
            assert(f(k) > 0);
            let i = choose|i: int| 0 <= i < old.len() && old[i].0 == k;
            assert(new[i].0 == k);
        }
    }
}

/// A tally counts the same way under an equal counting function.
pub proof fn lemma_tally_same<K>(t: Seq<(K, u64)>, f: spec_fn(K) -> nat, g: spec_fn(K) -> nat)
    requires
        tally_of(t, f),
        forall|k: K| #[trigger] g(k) == f(k),
    ensures
        tally_of(t, g),
{
    assert forall|k: K| #[trigger] g(k) > 0 implies exists|j: int| 0 <= j < t.len() && t[j].0 == k by {
        assert(f(k) > 0);
    }
}

/// Counts one more occurrence of code `key`.
pub(crate) fn bump_code(t: &mut Vec<(u16, u64)>, key: u16)
    requires
        forall|j: int| 0 <= j < old(t)@.len() && old(t)@[j].0 == key ==> old(t)@[j].1 < u64::MAX,
        forall|a: int, b: int| 0 <= a < b < old(t)@.len() ==> old(t)@[a].0 != old(t)@[b].0,
    ensures
        bumped(old(t)@, final(t)@, key),
{
    let n = t.len();
    let mut j: usize = 0;
    while j < n
        invariant
            n == t@.len(),
            j <= n,
            t@ == old(t)@,
            forall|i: int| 0 <= i < j ==> t@[i].0 != key,
            forall|i: int| 0 <= i < old(t)@.len() && old(t)@[i].0 == key ==> old(t)@[i].1 < u64::MAX,
            forall|a: int, b: int| 0 <= a < b < old(t)@.len() ==> old(t)@[a].0 != old(t)@[b].0,
        decreases n - j,
    {
        if t[j].0 == key {
            let c = t[j].1;
            t.set(j, (key, c + 1));
            assert(old(t)@[j as int].0 == key);
            assert(forall|i: int| 0 <= i < old(t)@.len() ==> t@[i].0 == old(t)@[i].0
                && t@[i].1 == old(t)@[i].1 + (if old(t)@[i].0 == key { 1int } else { 0int }));
            return;
        }
        j = j + 1;
    }
    t.push((key, 1));
}

/// Counts one more occurrence of text `key`.
pub(crate) fn bump_text(t: &mut Vec<(String, u64)>, key: &String)
    requires
        forall|j: int| 0 <= j < old(t)@.len() && old(t)@[j].0@ == key@ ==> old(t)@[j].1 < u64::MAX,
        forall|a: int, b: int| 0 <= a < b < old(t)@.len() ==> old(t)@[a].0@ != old(t)@[b].0@,
    ensures
        bumped(text_keys(old(t)@), text_keys(final(t)@), key@),
{
    let n = t.len();
    let mut j: usize = 0;
    while j < n
        invariant
            n == t@.len(),
            j <= n,
            t@ == old(t)@,
            forall|i: int| 0 <= i < j ==> t@[i].0@ != key@,
            forall|i: int| 0 <= i < old(t)@.len() && old(t)@[i].0@ == key@ ==> old(t)@[i].1 < u64::MAX,
            forall|a: int, b: int| 0 <= a < b < old(t)@.len() ==> old(t)@[a].0@ != old(t)@[b].0@,
        decreases n - j,
    {
        if t[j].0 == *key {
            let c = t[j].1;
            t.set(j, (key.clone(), c + 1));
            let ghost o = text_keys(old(t)@);
            assert(text_keys(t@) =~= o.update(j as int, (key@, (c + 1) as u64)));
            assert(o[j as int].0 == key@);
            assert(forall|i: int| 0 <= i < o.len() ==> text_keys(t@)[i].0 == o[i].0
                && text_keys(t@)[i].1 == o[i].1 + (if o[i].0 == key@ { 1int } else { 0int }));
            return;
        }
        j = j + 1;
    }
    t.push((key.clone(), 1));
    assert(text_keys(t@) =~= text_keys(old(t)@).push((key@, 1u64)));
    assert(forall|i: int| 0 <= i < text_keys(old(t)@).len() ==> text_keys(old(t)@)[i].0 != key@);
}

/// Text-keyed pairs with the keys as character sequences.
pub open spec fn text_keys(t: Seq<(String, u64)>) -> Seq<(Seq<char>, u64)> {
    t.map_values(|p: (String, u64)| (p.0@, p.1))
}

} // verus!
