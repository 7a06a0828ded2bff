//! Small tables keyed by name: a `Vec` of `(name, value)` pairs where the
//! first pair with a name is the one that counts.
use crate::text::str_eq;
use vstd::prelude::*;

verus! {

/// The value of the first pair named `k`.
pub open spec fn entry<T>(pairs: Seq<(String, T)>, k: Seq<char>) -> Option<T>
    decreases pairs.len(),
{
    if pairs.len() == 0 {
        None
    } else if pairs[0].0@ == k {
        Some(pairs[0].1)
    } else {
        entry(pairs.drop_first(), k)
    }
}

pub proof fn lemma_entry_at<T>(pairs: Seq<(String, T)>, k: Seq<char>, i: int)
    requires
        0 <= i < pairs.len(),
        pairs[i].0@ == k,
        forall|j: int| 0 <= j < i ==> pairs[j].0@ != k,
    ensures
        entry(pairs, k) == Some(pairs[i].1),
    decreases i,
{
    if i > 0 {
        lemma_entry_at(pairs.drop_first(), k, i - 1);
    }
}

pub proof fn lemma_entry_none<T>(pairs: Seq<(String, T)>, k: Seq<char>)
    requires
        forall|j: int| 0 <= j < pairs.len() ==> pairs[j].0@ != k,
    ensures
        entry(pairs, k) is None,
    decreases pairs.len(),
{
    if pairs.len() > 0 {
        lemma_entry_none(pairs.drop_first(), k);
    }
}



/// The index of the first pair named `k`.
pub fn find_index<T>(pairs: &Vec<(String, T)>, k: &str) -> (r: Option<usize>)
    ensures
        r matches Some(i) ==> i < pairs@.len() && pairs@[i as int].0@ == k@ && entry(pairs@, k@)
            == Some(pairs@[i as int].1) && forall|j: int| 0 <= j < i ==> pairs@[j].0@ != k@,
        r is None ==> entry(pairs@, k@) is None && forall|j: int| 0 <= j < pairs@.len() ==> pairs@[j].0@ != k@,
{
    let mut i: usize = 0;
    while i < pairs.len()
        invariant
            i <= pairs@.len(),
            forall|j: int| 0 <= j < i ==> pairs@[j].0@ != k@,
        decreases pairs@.len() - i,
    {
        if str_eq(pairs[i].0.as_str(), k) {
            proof {
                lemma_entry_at(pairs@, k@, i as int);
            }
            return Some(i);
        }
        i += 1;
    }
    proof {
        lemma_entry_none(pairs@, k@);
    }
    None
}

/// The value of the first pair named `k`.
pub fn find_entry<'a, T>(pairs: &'a Vec<(String, T)>, k: &str) -> (r: Option<&'a T>)
    ensures
        r matches Some(v) ==> entry(pairs@, k@) == Some(*v),
        r is None ==> entry(pairs@, k@) is None,
{
    match find_index(pairs, k) {
        Some(i) => Some(&pairs[i].1),
        None => None,
    }
}

proof fn lemma_entry_push<T>(pairs: Seq<(String, T)>, x: (String, T), k: Seq<char>)
    ensures
        entry(pairs.push(x), k) == (match entry(pairs, k) {
            Some(v) => Some(v),
            None => if x.0@ == k {
                Some(x.1)
            } else {
                None
            },
        }),
    decreases pairs.len(),
{
    if pairs.len() > 0 {
        assert(pairs.push(x).drop_first() =~= pairs.drop_first().push(x));
        assert(pairs.push(x)[0] == pairs[0]);
        lemma_entry_push(pairs.drop_first(), x, k);
        assert(entry(pairs.push(x), k) == if pairs[0].0@ == k {
            Some(pairs[0].1)
        } else {
            entry(pairs.drop_first().push(x), k)
        });
        assert(entry(pairs, k) == if pairs[0].0@ == k {
            Some(pairs[0].1)
        } else {
            entry(pairs.drop_first(), k)
        });
    } else {
        assert(pairs.push(x).drop_first() =~= Seq::<(String, T)>::empty());
        assert(pairs.push(x)[0] == x);
        assert(entry(pairs.push(x).drop_first(), k) is None);
        assert(entry(pairs, k) is None);
    }
}

proof fn lemma_entry_update_other<T>(pairs: Seq<(String, T)>, i: int, x: (String, T), k: Seq<char>)
    requires
        0 <= i < pairs.len(),
        pairs[i].0@ == x.0@,
        k != x.0@,
    ensures
        entry(pairs.update(i, x), k) == entry(pairs, k),
    decreases pairs.len(),
{
    if i > 0 {
        assert(pairs.update(i, x).drop_first() =~= pairs.drop_first().update(i - 1, x));
        lemma_entry_update_other(pairs.drop_first(), i - 1, x, k);
    } else {
        assert(pairs.update(i, x).drop_first() =~= pairs.drop_first());
    }
}

/// Sets the value named `k`: replaces the first pair with that name, or
/// appends one. Other names keep their values.
pub fn set_entry<T>(pairs: &mut Vec<(String, T)>, k: String, v: T)
    ensures
        entry(final(pairs)@, k@) == Some(v),
        forall|n: Seq<char>| n != k@ ==> entry(final(pairs)@, n) == entry(old(pairs)@, n),
{
    let ghost before = pairs@;
    match find_index(pairs, k.as_str()) {
        Some(i) => {
            let ghost kv = k@;
            pairs.remove(i);
            pairs.insert(i, (k, v));
            proof {
                assert(pairs@ =~= before.update(i as int, pairs@[i as int]));
                lemma_entry_at(pairs@, kv, i as int);
                assert forall|n: Seq<char>| n != kv implies entry(pairs@, n) == entry(before, n) by {
                    lemma_entry_update_other(before, i as int, pairs@[i as int], n);
                }
            }
        },
        None => {
            let ghost kv = k@;
            pairs.push((k, v));
            proof {
                assert forall|n: Seq<char>| entry(pairs@, n) == (match entry(before, n) {
                    Some(x) => Some(x),
                    None => if kv == n { Some(v) } else { None },
                }) by {
                    lemma_entry_push(before, pairs@.last(), n);
                    assert(pairs@ == before.push(pairs@.last()));
                }
            }
        },
    }
}

} // verus!
