use vstd::prelude::*;

verus! {

/// No two entries of the association list share a key.
pub open spec fn unique_keys<V>(s: Seq<(String, V)>) -> bool {
    forall|i: int, j: int| 0 <= i < j < s.len() ==> s[i].0@ != s[j].0@
}

/// Some entry of the association list has key `k`.
pub open spec fn has_key<V>(s: Seq<(String, V)>, k: Seq<char>) -> bool {
    exists|i: int| 0 <= i < s.len() && s[i].0@ == k
}

/// The index of the entry with key `k`; meaningful only when `has_key` holds
/// (and unique when `unique_keys` holds).
pub open spec fn index_of_key<V>(s: Seq<(String, V)>, k: Seq<char>) -> int {
    choose|i: int| 0 <= i < s.len() && s[i].0@ == k
}

/// The value stored under key `k`; meaningful only when `has_key` holds.
pub open spec fn value_of_key<V>(s: Seq<(String, V)>, k: Seq<char>) -> V {
    s[index_of_key(s, k)].1
}

/// Under `unique_keys`, any index whose entry has key `k` is `index_of_key`.
pub proof fn lemma_index_of_key_unique<V>(s: Seq<(String, V)>, k: Seq<char>, i: int)
    requires
        unique_keys(s),
        0 <= i < s.len(),
        s[i].0@ == k,
    ensures
        index_of_key(s, k) == i,
{
    assert(has_key(s, k));
    let j = index_of_key(s, k);
    assert(0 <= j < s.len() && s[j].0@ == k);
    if i < j {
        assert(s[i].0@ != s[j].0@);
    } else if j < i {
        assert(s[j].0@ != s[i].0@);
    }
}

/// Find the index of the entry whose key equals `key`, scanning from the
/// front.
pub fn find_index<V>(entries: &Vec<(String, V)>, key: &String) -> (r: Option<usize>)
    ensures
        match r {
            Some(i) => i < entries@.len() && entries@[i as int].0@ == key@ && (forall|j: int|
                0 <= j < i ==> entries@[j].0@ != key@),
            None => !has_key(entries@, key@),
        },
{
    let n = entries.len();
    let mut i: usize = 0;
    while i < n
        invariant
            i <= n,
            n == entries@.len(),
            forall|j: int| 0 <= j < i ==> entries@[j].0@ != key@,
        decreases n - i,
    {
        let e: &(String, V) = &entries[i];
        if e.0 == *key {
            return Some(i);
        }
        i = i + 1;
    }
    None
}

} // verus!
