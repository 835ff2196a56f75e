//! The ordered color mapping of a theme.
//!
//! Color names map to hue values in an `indexmap::IndexMap`, whose insertion
//! order decides the order in which custom properties are emitted. The map
//! itself is an outside collection; its contents are abstracted by
//! [`color_entries`], and the few methods the engine calls are trusted
//! wrappers whose contracts restate what the collection's documentation
//! promises. Everything layered on top — the ordered merge and its laws —
//! is verified against those contracts.

use crate::decimal::Num;
use vstd::prelude::*;

verus! {

#[verifier::external_type_specification]
#[verifier::external_body]
#[verifier::reject_recursive_types(K)]
#[verifier::reject_recursive_types(V)]
#[verifier::reject_recursive_types(S)]
pub struct ExIndexMap<K, V, S>(indexmap::IndexMap<K, V, S>);

/// The entries of a color map, in order: pairs of color name and hue value.
pub uninterp spec fn color_entries(m: indexmap::IndexMap<String, Num>) -> Seq<(Seq<char>, Num)>;

/// The entry sequence that a vector of owned pairs denotes.
pub open spec fn spec_pairs_view(s: Seq<(String, Num)>) -> Seq<(Seq<char>, Num)> {
    s.map_values(|p: (String, Num)| (p.0@, p.1))
}

/// The index of the first entry with key `k`, or `-1` when `k` is absent.
pub open spec fn key_index(s: Seq<(Seq<char>, Num)>, k: Seq<char>) -> int
    decreases s.len(),
{
    if s.len() == 0 {
        -1
    } else if s[0].0 == k {
        0
    } else {
        let r = key_index(s.drop_first(), k);
        if r == -1 {
            -1
        } else {
            r + 1
        }
    }
}

/// Ordered-map insertion: an existing key keeps its position and takes the
/// new value; a new key is appended.
pub open spec fn spec_insert_entry(s: Seq<(Seq<char>, Num)>, k: Seq<char>, v: Num) -> Seq<
    (Seq<char>, Num),
> {
    let i = key_index(s, k);
    if i >= 0 {
        s.update(i, (k, v))
    } else {
        s.push((k, v))
    }
}

/// The ordered merge of two entry sequences: every entry of `o` is inserted
/// into `b` in order, so keys of `b` keep value and position unless `o`
/// overrides them, and keys new in `o` are appended in `o`'s order.
pub open spec fn spec_merge_entries(b: Seq<(Seq<char>, Num)>, o: Seq<(Seq<char>, Num)>) -> Seq<
    (Seq<char>, Num),
>
    decreases o.len(),
{
    if o.len() == 0 {
        b
    } else {
        spec_insert_entry(spec_merge_entries(b, o.drop_last()), o.last().0, o.last().1)
    }
}

/// No two entries share a key.
pub open spec fn distinct_keys(s: Seq<(Seq<char>, Num)>) -> bool {
    forall|i: int, j: int| 0 <= i < j < s.len() ==> s[i].0 != s[j].0
}

pub proof fn lemma_key_index_bounds(s: Seq<(Seq<char>, Num)>, k: Seq<char>)
    ensures
        -1 <= key_index(s, k) < s.len(),
        key_index(s, k) >= 0 ==> s[key_index(s, k)].0 == k,
        key_index(s, k) == -1 ==> forall|i: int| 0 <= i < s.len() ==> s[i].0 != k,
    decreases s.len(),
{
    if s.len() > 0 && s[0].0 != k {
        lemma_key_index_bounds(s.drop_first(), k);
        assert forall|i: int| 0 <= i < s.len() && key_index(s, k) == -1 implies s[i].0 != k by {
            if i > 0 {
                assert(s.drop_first()[i - 1] == s[i]);
            }
        }
    }
}

/// In a sequence with distinct keys, the key of entry `j` is found at `j`.
pub proof fn lemma_key_index_of_present(s: Seq<(Seq<char>, Num)>, j: int)
    requires
        distinct_keys(s),
        0 <= j < s.len(),
    ensures
        key_index(s, s[j].0) == j,
    decreases s.len(),
{
    if j > 0 {
        assert(s[0].0 != s[j].0);
        assert(distinct_keys(s.drop_first())) by {
            assert forall|a: int, b: int|
                0 <= a < b < s.drop_first().len() implies s.drop_first()[a].0
                != s.drop_first()[b].0 by {
                assert(s.drop_first()[a] == s[a + 1]);
                assert(s.drop_first()[b] == s[b + 1]);
            }
        }
        assert(s.drop_first()[j - 1] == s[j]);
        lemma_key_index_of_present(s.drop_first(), j - 1);
    }
}

/// Insertion never makes two keys collide.
pub proof fn lemma_insert_distinct(s: Seq<(Seq<char>, Num)>, k: Seq<char>, v: Num)
    requires
        distinct_keys(s),
    ensures
        distinct_keys(spec_insert_entry(s, k, v)),
{
    lemma_key_index_bounds(s, k);
    let i = key_index(s, k);
    if i >= 0 {
        let t = s.update(i, (k, v));
        assert forall|a: int, b: int| 0 <= a < b < t.len() implies t[a].0 != t[b].0 by {
            assert(s[i].0 == k);
        }
    } else {
        let t = s.push((k, v));
        assert forall|a: int, b: int| 0 <= a < b < t.len() implies t[a].0 != t[b].0 by {
            if b == s.len() {
                assert(t[a] == s[a]);
                assert(s[a].0 != k);
            }
        }
    }
}

/// The ordered merge of sequences with distinct keys has distinct keys.
pub proof fn lemma_merge_entries_distinct(b: Seq<(Seq<char>, Num)>, o: Seq<(Seq<char>, Num)>)
    requires
        distinct_keys(b),
    ensures
        distinct_keys(spec_merge_entries(b, o)),
    decreases o.len(),
{
    if o.len() > 0 {
        lemma_merge_entries_distinct(b, o.drop_last());
        lemma_insert_distinct(spec_merge_entries(b, o.drop_last()), o.last().0, o.last().1);
    }
}

/// Re-inserting an entry a sequence already holds changes nothing.
pub proof fn lemma_insert_same(s: Seq<(Seq<char>, Num)>, j: int)
    requires
        distinct_keys(s),
        0 <= j < s.len(),
    ensures
        spec_insert_entry(s, s[j].0, s[j].1) == s,
{
    lemma_key_index_of_present(s, j);
    assert(s.update(j, (s[j].0, s[j].1)) =~= s);
}

/// Merging a sequence with distinct keys over itself is the identity.
pub proof fn lemma_merge_entries_self(s: Seq<(Seq<char>, Num)>)
    requires
        distinct_keys(s),
    ensures
        spec_merge_entries(s, s) == s,
{
    lemma_merge_entries_prefix_self(s, s.len() as int);
    assert(s.take(s.len() as int) =~= s);
}

proof fn lemma_merge_entries_prefix_self(s: Seq<(Seq<char>, Num)>, n: int)
    requires
        distinct_keys(s),
        0 <= n <= s.len(),
    ensures
        spec_merge_entries(s, s.take(n)) == s,
    decreases n,
{
    if n > 0 {
        lemma_merge_entries_prefix_self(s, n - 1);
        assert(s.take(n).drop_last() =~= s.take(n - 1));
        assert(s.take(n).last() == s[n - 1]);
        lemma_insert_same(s, n - 1);
    }
}

/// Merging an empty override changes nothing.
pub proof fn lemma_merge_entries_empty(b: Seq<(Seq<char>, Num)>)
    ensures
        spec_merge_entries(b, Seq::<(Seq<char>, Num)>::empty()) == b,
{
}

/// Appending an entry moves no earlier first occurrence: a key found in
/// `s` keeps its index, and a fresh key is found at the appended position.
proof fn lemma_key_index_push(s: Seq<(Seq<char>, Num)>, p: (Seq<char>, Num), k: Seq<char>)
    ensures
        key_index(s.push(p), k) == if key_index(s, k) >= 0 {
            key_index(s, k)
        } else if p.0 == k {
            s.len() as int
        } else {
            -1
        },
    decreases s.len(),
{
    if s.len() == 0 {
        assert(s.push(p)[0] == p);
        assert(s.push(p).drop_first() =~= Seq::<(Seq<char>, Num)>::empty());
        assert(key_index(s, k) == -1);
        if p.0 == k {
            assert(key_index(s.push(p), k) == 0);
        } else {
            assert(key_index(Seq::<(Seq<char>, Num)>::empty(), k) == -1);
            assert(key_index(s.push(p), k) == -1);
        }
    } else {
        assert(s.push(p)[0] == s[0]);
        assert(s.push(p).drop_first() =~= s.drop_first().push(p));
        lemma_key_index_push(s.drop_first(), p, k);
        if s[0].0 == k {
            assert(key_index(s.push(p), k) == 0);
            assert(key_index(s, k) == 0);
        } else {
            let inner = key_index(s.drop_first().push(p), k);
            let tail = key_index(s.drop_first(), k);
            assert(key_index(s.push(p), k) == (if inner == -1 {
                -1
            } else {
                inner + 1
            }));
            assert(key_index(s, k) == (if tail == -1 {
                -1
            } else {
                tail + 1
            }));
        }
    }
}

/// A prefix of a sequence with distinct keys has distinct keys.
proof fn lemma_distinct_drop_last(o: Seq<(Seq<char>, Num)>)
    requires
        distinct_keys(o),
        o.len() > 0,
    ensures
        distinct_keys(o.drop_last()),
{
    assert forall|a: int, b: int|
        0 <= a < b < o.drop_last().len() implies o.drop_last()[a].0 != o.drop_last()[b].0 by {
        assert(o.drop_last()[a] == o[a]);
        assert(o.drop_last()[b] == o[b]);
    }
}

/// The merge keeps every base key at its position. Its value is the
/// override's where the override names that key, and the base's where it
/// does not.
pub proof fn lemma_merge_entries_base_positions(b: Seq<(Seq<char>, Num)>, o: Seq<(Seq<char>, Num)>)
    requires
        distinct_keys(b),
        distinct_keys(o),
    ensures
        spec_merge_entries(b, o).len() >= b.len(),
        forall|i: int| 0 <= i < b.len() ==> (#[trigger] spec_merge_entries(b, o)[i]).0 == b[i].0,
        forall|i: int|
            0 <= i < b.len() ==> (#[trigger] spec_merge_entries(b, o)[i]).1 == (if key_index(
                o,
                b[i].0,
            ) >= 0 {
                o[key_index(o, b[i].0)].1
            } else {
                b[i].1
            }),
    decreases o.len(),
{
    if o.len() > 0 {
        let o1 = o.drop_last();
        let last = o.last();
        lemma_distinct_drop_last(o);
        lemma_merge_entries_base_positions(b, o1);
        let m = spec_merge_entries(b, o1);
        lemma_merge_entries_distinct(b, o1);
        lemma_key_index_bounds(m, last.0);
        let j = key_index(m, last.0);
        let merged = spec_merge_entries(b, o);
        assert(merged == spec_insert_entry(m, last.0, last.1));
        assert(o1.push(last) =~= o);
        assert forall|i: int| 0 <= i < b.len() implies (#[trigger] merged[i]).0 == b[i].0 by {
            if j >= 0 {
                assert(merged == m.update(j, (last.0, last.1)));
                if i == j {
                    assert(m[j].0 == last.0);
                }
            }
        }
        assert forall|i: int|
            0 <= i < b.len() implies (#[trigger] merged[i]).1 == (if key_index(o, b[i].0) >= 0 {
            o[key_index(o, b[i].0)].1
        } else {
            b[i].1
        }) by {
            lemma_key_index_push(o1, last, b[i].0);
            lemma_key_index_bounds(o1, b[i].0);
            if b[i].0 == last.0 {
                // The override's last entry names this base key; with
                // distinct override keys it is the only one that does.
                if key_index(o1, b[i].0) >= 0 {
                    assert(o[key_index(o1, b[i].0)].0 == last.0);
                    assert(false);
                }
                assert(key_index(o, b[i].0) == o1.len() as int);
                lemma_key_index_of_present(m, i);
                assert(j == i);
                assert(merged[i].1 == last.1);
            } else {
                assert(merged[i].1 == m[i].1);
                if key_index(o1, b[i].0) >= 0 {
                    assert(o[key_index(o1, b[i].0)] == o1[key_index(o1, b[i].0)]);
                }
            }
        }
    }
}

/// The entries of the override whose keys the base does not hold, in the
/// override's order.
pub open spec fn spec_new_entries(b: Seq<(Seq<char>, Num)>, o: Seq<(Seq<char>, Num)>) -> Seq<
    (Seq<char>, Num),
>
    decreases o.len(),
{
    if o.len() == 0 {
        Seq::<(Seq<char>, Num)>::empty()
    } else if key_index(b, o.last().0) == -1 {
        spec_new_entries(b, o.drop_last()).push(o.last())
    } else {
        spec_new_entries(b, o.drop_last())
    }
}

/// Every new entry's key occurs in the override.
proof fn lemma_new_entries_from(b: Seq<(Seq<char>, Num)>, o: Seq<(Seq<char>, Num)>)
    ensures
        forall|t: int|
            0 <= t < spec_new_entries(b, o).len() ==> key_index(
                o,
                (#[trigger] spec_new_entries(b, o)[t]).0,
            ) >= 0,
    decreases o.len(),
{
    if o.len() > 0 {
        let o1 = o.drop_last();
        let last = o.last();
        lemma_new_entries_from(b, o1);
        assert(o1.push(last) =~= o);
        let new = spec_new_entries(b, o);
        assert forall|t: int| 0 <= t < new.len() implies key_index(o, (#[trigger] new[t]).0)
            >= 0 by {
            if t < spec_new_entries(b, o1).len() {
                lemma_key_index_push(o1, last, new[t].0);
            } else {
                lemma_key_index_bounds(o, last.0);
                if key_index(o, last.0) == -1 {
                    assert(o[o.len() - 1].0 != last.0);
                }
            }
        }
    }
}

/// Keys new in the override are appended after the base's entries, in the
/// override's order, with the override's values.
pub proof fn lemma_merge_entries_appends_new_keys(
    b: Seq<(Seq<char>, Num)>,
    o: Seq<(Seq<char>, Num)>,
)
    requires
        distinct_keys(b),
        distinct_keys(o),
    ensures
        spec_merge_entries(b, o).len() == b.len() + spec_new_entries(b, o).len(),
        spec_merge_entries(b, o).skip(b.len() as int) == spec_new_entries(b, o),
    decreases o.len(),
{
    if o.len() > 0 {
        let o1 = o.drop_last();
        let last = o.last();
        lemma_distinct_drop_last(o);
        lemma_merge_entries_appends_new_keys(b, o1);
        lemma_merge_entries_base_positions(b, o1);
        lemma_new_entries_from(b, o1);
        let m = spec_merge_entries(b, o1);
        let new1 = spec_new_entries(b, o1);
        lemma_key_index_bounds(m, last.0);
        lemma_key_index_bounds(b, last.0);
        let j = key_index(m, last.0);
        let merged = spec_merge_entries(b, o);
        assert(merged == spec_insert_entry(m, last.0, last.1));
        if j >= 0 {
            // The key is already present, and it cannot be one appended
            // from the override's earlier entries: those keys occur in the
            // strict prefix, and the override's keys are distinct.
            assert(j < b.len()) by {
                if j >= b.len() {
                    let t = j - b.len();
                    assert(m.skip(b.len() as int)[t] == m[j]);
                    let oi = key_index(o1, m[j].0);
                    lemma_key_index_bounds(o1, m[j].0);
                    assert(o1[oi] == o[oi]);
                    assert(o[oi].0 == last.0);
                    assert(o[o.len() - 1] == last);
                }
            }
            assert(key_index(b, last.0) >= 0) by {
                assert(m[j].0 == b[j].0);
            }
            assert(spec_new_entries(b, o) == new1);
            assert(merged == m.update(j, (last.0, last.1)));
            assert(merged.skip(b.len() as int) =~= m.skip(b.len() as int));
        } else {
            assert(key_index(b, last.0) == -1) by {
                if key_index(b, last.0) >= 0 {
                    let i = key_index(b, last.0);
                    assert(m[i].0 == b[i].0);
                }
            }
            assert(spec_new_entries(b, o) == new1.push(last));
            assert(merged == m.push((last.0, last.1)));
            assert(merged.skip(b.len() as int) =~= new1.push(last));
        }
    } else {
        assert(spec_merge_entries(b, o).skip(b.len() as int) =~= spec_new_entries(b, o));
    }
}

/// Every override key ends up in the merge with the override's value.
pub proof fn lemma_merge_entries_override_wins(b: Seq<(Seq<char>, Num)>, o: Seq<(Seq<char>, Num)>)
    requires
        distinct_keys(b),
        distinct_keys(o),
    ensures
        forall|j: int|
            0 <= j < o.len() ==> {
                let idx = key_index(spec_merge_entries(b, o), (#[trigger] o[j]).0);
                &&& idx >= 0
                &&& spec_merge_entries(b, o)[idx].1 == o[j].1
            },
    decreases o.len(),
{
    if o.len() > 0 {
        let o1 = o.drop_last();
        let last = o.last();
        lemma_distinct_drop_last(o);
        lemma_merge_entries_override_wins(b, o1);
        let m = spec_merge_entries(b, o1);
        lemma_merge_entries_distinct(b, o1);
        lemma_key_index_bounds(m, last.0);
        let j0 = key_index(m, last.0);
        let merged = spec_merge_entries(b, o);
        assert(merged == spec_insert_entry(m, last.0, last.1));
        lemma_merge_entries_distinct(b, o);
        assert forall|j: int|
            0 <= j < o.len() implies {
            let idx = key_index(merged, (#[trigger] o[j]).0);
            &&& idx >= 0
            &&& merged[idx].1 == o[j].1
        } by {
            if j == o.len() - 1 {
                if j0 >= 0 {
                    assert(merged == m.update(j0, (last.0, last.1)));
                    lemma_key_index_of_present(merged, j0);
                } else {
                    lemma_key_index_of_present(merged, m.len() as int);
                }
            } else {
                // An earlier override key differs from the last one, so
                // the final insertion leaves its entry untouched.
                assert(o[j] == o1[j]);
                let idx = key_index(m, o[j].0);
                lemma_key_index_bounds(m, o[j].0);
                assert(o[j].0 != last.0);
                if j0 >= 0 {
                    assert(m[j0].0 == last.0);
                    assert(idx != j0);
                    assert(merged == m.update(j0, (last.0, last.1)));
                    assert(merged[idx] == m[idx]);
                    lemma_key_index_of_present(merged, idx);
                } else {
                    assert(merged == m.push((last.0, last.1)));
                    assert(merged[idx] == m[idx]);
                    lemma_key_index_of_present(merged, idx);
                }
            }
        }
    }
}

/// Relies on `indexmap::IndexMap::new`: the new map is empty.
#[verifier::external_body]
pub(crate) fn color_map_new() -> (m: indexmap::IndexMap<String, Num>)
    ensures
        color_entries(m) == Seq::<(Seq<char>, Num)>::empty(),
{
    indexmap::IndexMap::new()
}

/// Relies on `indexmap::IndexMap`'s `Clone`: the clone holds the same
/// entries in the same order.
#[verifier::external_body]
pub(crate) fn color_map_clone(m: &indexmap::IndexMap<String, Num>) -> (r: indexmap::IndexMap<
    String,
    Num,
>)
    ensures
        color_entries(r) == color_entries(*m),
{
    m.clone()
}

/// Relies on `indexmap::IndexMap::insert`: an existing key keeps its place
/// in the order and takes the new value; a new key is appended last.
#[verifier::external_body]
pub(crate) fn color_map_insert(m: &mut indexmap::IndexMap<String, Num>, k: String, v: Num)
    ensures
        color_entries(*final (m)) == spec_insert_entry(color_entries(*old(m)), k@, v),
{
    m.insert(k, v);
}

/// Relies on `indexmap::IndexMap::iter`: iteration yields the entries in
/// order.
#[verifier::external_body]
pub(crate) fn color_map_pairs(m: &indexmap::IndexMap<String, Num>) -> (r: Vec<(String, Num)>)
    ensures
        spec_pairs_view(r@) == color_entries(*m),
{
    m.iter().map(|p| (p.0.clone(), *p.1)).collect()
}

/// Builds a color map from owned pairs, inserting them in order: a repeated
/// key keeps its first position and takes the later value.
pub fn color_map_from_pairs(pairs: Vec<(String, Num)>) -> (m: indexmap::IndexMap<String, Num>)
    ensures
        color_entries(m) == spec_merge_entries(
            Seq::<(Seq<char>, Num)>::empty(),
            spec_pairs_view(pairs@),
        ),
        distinct_keys(color_entries(m)),
{
    let mut m = color_map_new();
    let n = pairs.len();
    let mut i: usize = 0;
    while i < n
        invariant
            n == pairs.len(),
            0 <= i <= n,
            color_entries(m) == spec_merge_entries(
                Seq::<(Seq<char>, Num)>::empty(),
                spec_pairs_view(pairs@).take(i as int),
            ),
        decreases n - i,
    {
        let ghost pre = spec_pairs_view(pairs@).take(i as int);
        let (k, v) = (pairs[i].0.clone(), pairs[i].1);
        color_map_insert(&mut m, k, v);
        proof {
            let cur = spec_pairs_view(pairs@).take(i + 1);
            assert(cur.drop_last() =~= pre);
            assert(cur.last() == (pairs@[i as int].0@, pairs@[i as int].1));
        }
        i = i + 1;
    }
    proof {
        assert(spec_pairs_view(pairs@).take(n as int) =~= spec_pairs_view(pairs@));
        lemma_merge_entries_distinct(Seq::<(Seq<char>, Num)>::empty(), spec_pairs_view(pairs@));
    }
    m
}

} // verus!
