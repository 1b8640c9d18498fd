use vstd::prelude::*;

verus! {

/// Entry `i` is the first one in `s` that carries key `id`.
pub open spec fn keyed_matches<T>(s: Seq<(u64, T)>, id: u64, i: int) -> bool {
    &&& 0 <= i < s.len()
    &&& s[i].0 == id
    &&& forall|j: int| 0 <= j < i ==> (#[trigger] s[j].0) != id
}

/// Some entry of `s` carries key `id`.
pub open spec fn has_key<T>(s: Seq<(u64, T)>, id: u64) -> bool {
    exists|i: int| #[trigger] keyed_matches(s, id, i)
}

/// The index of the first entry carrying key `id`; meaningful only when
/// `has_key` holds.
pub open spec fn index_of_key<T>(s: Seq<(u64, T)>, id: u64) -> int {
    choose|i: int| keyed_matches(s, id, i)
}

/// The value stored under key `id`; meaningful only when `has_key` holds.
pub open spec fn value_of_key<T>(s: Seq<(u64, T)>, id: u64) -> T {
    s[index_of_key(s, id)].1
}

/// At most one index is the first match for a key.
pub proof fn lemma_keyed_match_unique<T>(s: Seq<(u64, T)>, id: u64, i: int, j: int)
    requires
        keyed_matches(s, id, i),
        keyed_matches(s, id, j),
    ensures
        i == j,
{
    if i < j {
        assert(s[i].0 != id);
    } else if j < i {
        assert(s[j].0 != id);
    }
}

/// A first match pins down `index_of_key` and `value_of_key`.
pub proof fn lemma_keyed_match_is_index<T>(s: Seq<(u64, T)>, id: u64, i: int)
    requires
        keyed_matches(s, id, i),
    ensures
        has_key(s, id),
        index_of_key(s, id) == i,
        value_of_key(s, id) == s[i].1,
{
    assert(has_key(s, id));
    lemma_keyed_match_unique(s, id, i, index_of_key(s, id));
}

/// Appending a fresh key makes its entry the one found afterwards, and
/// leaves every other key's entry where it was.
pub proof fn lemma_push_fresh_key<T>(s: Seq<(u64, T)>, id: u64, v: T)
    requires
        !has_key(s, id),
    ensures
        keyed_matches(s.push((id, v)), id, s.len() as int),
        has_key(s.push((id, v)), id),
        value_of_key(s.push((id, v)), id) == v,
        forall|other: u64, i: int|
            #[trigger] keyed_matches(s, other, i) ==> keyed_matches(s.push((id, v)), other, i),
{
    let t = s.push((id, v));
    assert forall|j: int| 0 <= j < s.len() implies (#[trigger] t[j].0) != id by {
        if t[j].0 == id {
            assert(s[j] == t[j]);
            lemma_first_match_exists(s, id, j);
        }
    }
    assert(keyed_matches(t, id, s.len() as int));
    lemma_keyed_match_is_index(t, id, s.len() as int);
    assert forall|other: u64, i: int|
        #[trigger] keyed_matches(s, other, i) implies keyed_matches(t, other, i) by {
        assert(t[i] == s[i]);
        assert(forall|j: int| 0 <= j < i ==> t[j] == s[j]);
    }
}

/// Any entry carrying a key puts a first match for that key somewhere.
pub proof fn lemma_first_match_exists<T>(s: Seq<(u64, T)>, id: u64, j: int)
    requires
        0 <= j < s.len(),
        s[j].0 == id,
    ensures
        has_key(s, id),
    decreases j,
{
    if forall|k: int| 0 <= k < j ==> (#[trigger] s[k].0) != id {
        assert(keyed_matches(s, id, j));
        assert(has_key(s, id));
    } else {
        let k = choose|k: int| 0 <= k < j && (#[trigger] s[k].0) == id;
        lemma_first_match_exists(s, id, k);
    }
}

/// Finds the first entry carrying key `id`.
pub fn find_key<T>(entries: &Vec<(u64, T)>, id: u64) -> (r: Option<usize>)
    ensures
        match r {
            Some(i) => keyed_matches(entries@, id, i as int),
            None => !has_key(entries@, id),
        },
{
    let mut i: usize = 0;
    while i < entries.len()
        invariant
            i <= entries@.len(),
            forall|j: int| 0 <= j < i ==> (#[trigger] entries@[j].0) != id,
        decreases entries@.len() - i,
    {
        if entries[i].0 == id {
            return Some(i);
        }
        i = i + 1;
    }
    proof {
        if has_key(entries@, id) {
            let w = choose|k: int| keyed_matches(entries@, id, k);
            assert(entries@[w].0 == id);
        }
    }
    None
}

} // verus!
