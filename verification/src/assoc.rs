use vstd::prelude::*;

verus! {

/// The map that a list of key/value pairs stands for; a later pair wins
/// over an earlier one with the same key.
pub open spec fn amap<V>(s: Seq<(usize, V)>) -> Map<usize, V>
    decreases s.len(),
{
    if s.len() == 0 {
        Map::empty()
    } else {
        amap(s.drop_last()).insert(s.last().0, s.last().1)
    }
}

/// No key occurs twice in the list.
pub open spec fn distinct_keys<V>(s: Seq<(usize, V)>) -> bool {
    forall|i: int, j: int| 0 <= i < s.len() && 0 <= j < s.len() && i != j ==> s[i].0 != s[j].0
}

/// Some pair of the list has key `k`.
pub open spec fn has_key<V>(s: Seq<(usize, V)>, k: usize) -> bool {
    exists|i: int| 0 <= i < s.len() && s[i].0 == k
}

/// A key is in the map of a list exactly when some pair has it.
pub proof fn lemma_amap_dom<V>(s: Seq<(usize, V)>, k: usize)
    ensures
        amap(s).dom().contains(k) <==> has_key(s, k),
    decreases s.len(),
{
    if s.len() > 0 {
        lemma_amap_dom(s.drop_last(), k);
        if has_key(s, k) && s.last().0 != k {
            let i = choose|i: int| 0 <= i < s.len() && s[i].0 == k;
            assert(s.drop_last()[i] == s[i]);
        }
        if has_key(s.drop_last(), k) {
            let i = choose|i: int| 0 <= i < s.drop_last().len() && s.drop_last()[i].0 == k;
            assert(s[i] == s.drop_last()[i]);
        }
    }
}

/// With distinct keys, each pair's value is the map's value at its key.
pub proof fn lemma_amap_index<V>(s: Seq<(usize, V)>, i: int)
    requires
        distinct_keys(s),
        0 <= i < s.len(),
    ensures
        amap(s).dom().contains(s[i].0),
        amap(s)[s[i].0] == s[i].1,
    decreases s.len(),
{
    if i < s.len() - 1 {
        assert(s.drop_last()[i] == s[i]);
        assert(distinct_keys(s.drop_last()));
        lemma_amap_index(s.drop_last(), i);
    }
}

/// Replacing the value of a pair is inserting into the map.
pub proof fn lemma_amap_update<V>(s: Seq<(usize, V)>, i: int, v: V)
    requires
        distinct_keys(s),
        0 <= i < s.len(),
    ensures
        distinct_keys(s.update(i, (s[i].0, v))),
        amap(s.update(i, (s[i].0, v))) == amap(s).insert(s[i].0, v),
{
    let t = s.update(i, (s[i].0, v));
    assert(distinct_keys(t));
    assert forall|k: usize| #![auto] amap(t).dom().contains(k) <==> amap(s).insert(s[i].0, v).dom().contains(k) by {
        lemma_amap_dom(t, k);
        lemma_amap_dom(s, k);
        if has_key(s, k) {
            let j = choose|j: int| 0 <= j < s.len() && s[j].0 == k;
            assert(t[j].0 == k);
        }
        if has_key(t, k) {
            let j = choose|j: int| 0 <= j < t.len() && t[j].0 == k;
            assert(s[j].0 == k);
        }
    }
    assert forall|k: usize| #![auto] amap(t).dom().contains(k) implies amap(t)[k] == amap(s).insert(s[i].0, v)[k] by {
        lemma_amap_dom(t, k);
        let j = choose|j: int| 0 <= j < t.len() && t[j].0 == k;
        lemma_amap_index(t, j);
        if j != i {
            lemma_amap_index(s, j);
        }
    }
    assert(amap(t) =~= amap(s).insert(s[i].0, v));
}

/// Appending a pair with a new key is inserting into the map.
pub proof fn lemma_amap_push_fresh<V>(s: Seq<(usize, V)>, k: usize, v: V)
    requires
        distinct_keys(s),
        !has_key(s, k),
    ensures
        distinct_keys(s.push((k, v))),
        amap(s.push((k, v))) == amap(s).insert(k, v),
{
    assert(s.push((k, v)).drop_last() == s);
    assert forall|i: int, j: int| 0 <= i < s.len() + 1 && 0 <= j < s.len() + 1 && i != j implies
        s.push((k, v))[i].0 != s.push((k, v))[j].0 by {
        if i == s.len() {
            assert(s[j].0 != k);
        }
        if j == s.len() {
            assert(s[i].0 != k);
        }
    }
}

/// Two lists with the same key at each index and values related pointwise
/// stand for maps with the same keys.
pub proof fn lemma_amap_same_keys<V, W>(s: Seq<(usize, V)>, t: Seq<(usize, W)>, k: usize)
    requires
        s.len() == t.len(),
        forall|i: int| 0 <= i < s.len() ==> #[trigger] s[i].0 == t[i].0,
    ensures
        amap(s).dom().contains(k) <==> amap(t).dom().contains(k),
{
    lemma_amap_dom(s, k);
    lemma_amap_dom(t, k);
    if has_key(s, k) {
        let j = choose|j: int| 0 <= j < s.len() && s[j].0 == k;
        assert(t[j].0 == k);
    }
    if has_key(t, k) {
        let j = choose|j: int| 0 <= j < t.len() && t[j].0 == k;
        assert(s[j].0 == k);
    }
}

/// Finds the position of key `k` in the list.
pub fn find_key<V>(v: &Vec<(usize, V)>, k: usize) -> (r: Option<usize>)
    ensures
        match r {
            Some(i) => i < v@.len() && v@[i as int].0 == k,
            None => !has_key(v@, k),
        },
{
    let mut i: usize = 0;
    while i < v.len()
        invariant
            i <= v@.len(),
            forall|j: int| 0 <= j < i ==> v@[j].0 != k,
        decreases v.len() - i,
    {
        if v[i].0 == k {
            return Some(i);
        }
        i = i + 1;
    }
    None
}

} // verus!

verus! {

/// Mapping the values commutes with inserting.
pub proof fn lemma_map_values_insert<V, W>(m: Map<usize, V>, k: usize, v: V, f: spec_fn(V) -> W)
    ensures
        m.insert(k, v).map_values(f) == m.map_values(f).insert(k, f(v)),
{
    assert(m.insert(k, v).map_values(f) =~= m.map_values(f).insert(k, f(v)));
}

/// Removing the pair at `i` and putting a new one back at `i` replaces it.
pub proof fn lemma_remove_insert<A>(s: Seq<A>, i: int, x: A)
    requires
        0 <= i < s.len(),
    ensures
        s.remove(i).insert(i, x) == s.update(i, x),
{
    assert(s.remove(i).insert(i, x) =~= s.update(i, x));
}

} // verus!
