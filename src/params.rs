use vstd::prelude::*;

use crate::settings::text_eq;

verus! {

/// The value a list of key/value insertions leaves for `key`: that of the
/// last insertion of `key`, as a map filled in that order holds it.
pub open spec fn lookup(s: Seq<(String, String)>, key: Seq<char>) -> Option<Seq<char>>
    decreases s.len(),
{
    if s.len() == 0 {
        None
    } else if s.last().0@ == key {
        Some(s.last().1@)
    } else {
        lookup(s.drop_last(), key)
    }
}

/// No key occurs twice.
pub open spec fn keys_unique(s: Seq<(String, String)>) -> bool {
    forall|i: int, j: int| 0 <= i < j < s.len() ==> #[trigger] s[i].0@ != #[trigger] s[j].0@
}

proof fn lemma_lookup_at(s: Seq<(String, String)>, i: int)
    requires
        keys_unique(s),
        0 <= i < s.len(),
    ensures
        lookup(s, s[i].0@) == Some(s[i].1@),
    decreases s.len(),
{
    if i < s.len() - 1 {
        let t = s.drop_last();
        assert(s[i].0@ != s[s.len() - 1].0@);
        assert(t[i] == s[i]);
        lemma_lookup_at(t, i);
    }
}

proof fn lemma_lookup_absent(s: Seq<(String, String)>, key: Seq<char>)
    requires
        forall|i: int| 0 <= i < s.len() ==> #[trigger] s[i].0@ != key,
    ensures
        lookup(s, key) is None,
    decreases s.len(),
{
    if s.len() > 0 {
        let t = s.drop_last();
        assert forall|i: int| 0 <= i < t.len() implies #[trigger] t[i].0@ != key by {
            assert(t[i] == s[i]);
        }
        lemma_lookup_absent(t, key);
    }
}

/// Sets `key` to `value`: the entry of `key` is replaced where there is one,
/// and appended otherwise.
pub fn upsert_param(params: &mut Vec<(String, String)>, key: String, value: String)
    requires
        keys_unique(old(params)@),
    ensures
        keys_unique(final(params)@),
        forall|k: Seq<char>|
            #[trigger] lookup(final(params)@, k) == if k == key@ {
                Some(value@)
            } else {
                lookup(old(params)@, k)
            },
{
    let ghost before = params@;
    let n = params.len();
    let mut i: usize = 0;
    while i < n
        invariant
            n == params@.len(),
            params@ == before,
            before == old(params)@,
            keys_unique(before),
            i <= n,
            forall|j: int| 0 <= j < i ==> #[trigger] params@[j].0@ != key@,
        decreases n - i,
    {
        if text_eq(params[i].0.as_str(), key.as_str()) {
            let ghost kv = key@;
            let ghost vv = value@;
            params.set(i, (key, value));
            proof {
                let after = params@;
                assert forall|a: int, b: int| 0 <= a < b < after.len() implies #[trigger] after[a].0@
                    != #[trigger] after[b].0@ by {
                    assert(after[a].0@ == before[a].0@);
                    assert(after[b].0@ == before[b].0@);
                    assert(before[a].0@ != before[b].0@);
                }
                assert forall|k: Seq<char>| #[trigger] lookup(after, k) == if k == kv {
                    Some(vv)
                } else {
                    lookup(before, k)
                } by {
                    if k == kv {
                        lemma_lookup_at(after, i as int);
                    } else if exists|j: int| 0 <= j < before.len() && #[trigger] before[j].0@ == k {
                        let j = choose|j: int| 0 <= j < before.len() && #[trigger] before[j].0@ == k;
                        assert(j != i);
                        assert(after[j] == before[j]);
                        lemma_lookup_at(after, j);
                        lemma_lookup_at(before, j);
                    } else {
                        assert forall|j: int| 0 <= j < after.len() implies #[trigger] after[j].0@ != k by {
                            if j != i {
                                assert(after[j] == before[j]);
                            }
                        }
                        lemma_lookup_absent(after, k);
                        lemma_lookup_absent(before, k);
                    }
                }
            }
            return;
        }
        i = i + 1;
    }
    let ghost kv = key@;
    let ghost vv = value@;
    params.push((key, value));
    proof {
        let after = params@;
        assert(after.drop_last() =~= before);
        assert(after.last().0@ == kv);
        assert(after.last().1@ == vv);
        assert forall|k: Seq<char>| #[trigger] lookup(after, k) == if k == kv {
            Some(vv)
        } else {
            lookup(before, k)
        } by {}
        assert forall|a: int, b: int| 0 <= a < b < after.len() implies #[trigger] after[a].0@
            != #[trigger] after[b].0@ by {
            if b < before.len() {
                assert(before[a].0@ != before[b].0@);
            }
        }
    }
}

} // verus!
