//! Ordered lists of asset ids.

use vstd::prelude::*;

verus! {

/// The first position of `target` in `s`: `Seq::index_of_first` finds
/// exactly the position before which `target` does not occur.
pub proof fn lemma_first_position(s: Seq<u32>, target: u32, at: int)
    requires
        0 <= at < s.len(),
        s[at] == target,
        forall|j: int| 0 <= j < at ==> s[j] != target,
    ensures
        s.contains(target),
        s.index_of_first(target) == Some(at),
        s.remove_value(target) == s.remove(at),
{
    s.index_of_first_ensures(target);
    assert(s.contains(target));
}

/// A list that does not hold `target` is left alone by `remove_value`.
pub proof fn lemma_absent_value(s: Seq<u32>, target: u32)
    requires
        !s.contains(target),
    ensures
        s.remove_value(target) == s,
{
    s.index_of_first_ensures(target);
}

/// What is left of a list without repetitions when `target`, which it
/// holds, is removed: every other entry, and nothing twice.
pub proof fn lemma_removed(s: Seq<u32>, target: u32)
    requires
        s.no_duplicates(),
        s.contains(target),
    ensures
        s.remove_value(target).len() == s.len() - 1,
        s.remove_value(target).no_duplicates(),
        !s.remove_value(target).contains(target),
        forall|x: u32| x != target ==> s.remove_value(target).contains(x) == s.contains(x),
{
    s.index_of_first_ensures(target);
    let at = s.index_of_first(target).unwrap();
    let r = s.remove(at);
    s.remove_ensures(at);
    assert forall|i: int, j: int| 0 <= i < r.len() && 0 <= j < r.len() && i != j implies r[i]
        != r[j] by {
        let si = if i < at { i } else { i + 1 };
        let sj = if j < at { j } else { j + 1 };
        assert(r[i] == s[si] && r[j] == s[sj]);
    }
    assert forall|x: u32| #[trigger] r.contains(x) implies x != target && s.contains(x) by {
        let i = choose|i: int| 0 <= i < r.len() && r[i] == x;
        let si = if i < at { i } else { i + 1 };
        assert(r[i] == s[si]);
    }
    assert forall|x: u32| x != target && s.contains(x) implies #[trigger] r.contains(x) by {
        let si = choose|i: int| 0 <= i < s.len() && s[i] == x;
        let i = if si < at { si } else { si - 1 };
        assert(r[i] == s[si]);
    }
}

/// A list without repetitions stays one when an entry it does not hold is
/// appended, and then holds that entry and what it held.
pub proof fn lemma_appended(s: Seq<u32>, x: u32)
    requires
        s.no_duplicates(),
        !s.contains(x),
    ensures
        s.push(x).no_duplicates(),
        s.push(x).contains(x),
        forall|y: u32| s.contains(y) ==> s.push(x).contains(y),
        forall|y: u32| s.push(x).contains(y) ==> y == x || s.contains(y),
{
    let r = s.push(x);
    assert(r[s.len() as int] == x);
    assert forall|y: u32| s.contains(y) implies #[trigger] r.contains(y) by {
        let i = choose|i: int| 0 <= i < s.len() && s[i] == y;
        assert(r[i] == y);
    }
    assert forall|y: u32| #[trigger] r.contains(y) implies y == x || s.contains(y) by {
        let i = choose|i: int| 0 <= i < r.len() && r[i] == y;
        if i < s.len() {
            assert(s[i] == y);
        }
    }
    assert forall|i: int, j: int| 0 <= i < r.len() && 0 <= j < r.len() && i != j implies r[i]
        != r[j] by {
        if i == s.len() {
            assert(s[j] == r[j]);
        } else if j == s.len() {
            assert(s[i] == r[i]);
        }
    }
}

/// A copy of `v`.
pub fn copy_vec<T: Copy>(v: &Vec<T>) -> (copy: Vec<T>)
    ensures
        copy@ == v@,
{
    let mut copy: Vec<T> = Vec::new();
    let mut i: usize = 0;
    while i < v.len()
        invariant
            i <= v.len(),
            copy@ == v@.take(i as int),
        decreases v.len() - i,
    {
        copy.push(v[i]);
        proof {
            assert(v@.take(i + 1) =~= v@.take(i as int).push(v@[i as int]));
        }
        i += 1;
    }
    proof {
        assert(v@.take(v@.len() as int) =~= v@);
    }
    copy
}

/// Whether `a` and `b` hold the same bytes.
pub fn same_bytes(a: &Vec<u8>, b: &Vec<u8>) -> (same: bool)
    ensures
        same == (a@ == b@),
{
    if a.len() != b.len() {
        return false;
    }
    let mut i: usize = 0;
    while i < a.len()
        invariant
            i <= a.len(),
            a.len() == b.len(),
            forall|k: int| 0 <= k < i ==> a@[k] == b@[k],
        decreases a.len() - i,
    {
        if a[i] != b[i] {
            return false;
        }
        i += 1;
    }
    proof {
        assert(a@ =~= b@);
    }
    true
}

/// Removes the first occurrence of `target` from `v`, keeping the order of
/// the other entries, and says whether there was one.
pub fn vec_remove_once(v: &mut Vec<u32>, target: u32) -> (found: bool)
    ensures
        found == old(v)@.contains(target),
        final(v)@ == old(v)@.remove_value(target),
{
    let mut found = false;
    let mut out: Vec<u32> = Vec::new();
    let ghost mut at: int = 0;
    let mut i: usize = 0;
    while i < v.len()
        invariant
            i <= v.len(),
            *v == *old(v),
            !found ==> out@ == v@.take(i as int),
            !found ==> forall|j: int| 0 <= j < i ==> v@[j] != target,
            found ==> 0 <= at < i && v@[at] == target,
            found ==> forall|j: int| 0 <= j < at ==> v@[j] != target,
            found ==> out@ == v@.take(i as int).remove(at),
        decreases v.len() - i,
    {
        let x = v[i];
        if !found && x == target {
            found = true;
            proof {
                at = i as int;
                assert(v@.take(i + 1).remove(at) =~= v@.take(i as int));
            }
        } else {
            out.push(x);
            proof {
                if found {
                    assert(v@.take(i + 1).remove(at) =~= v@.take(i as int).remove(at).push(x));
                } else {
                    assert(v@.take(i + 1) =~= v@.take(i as int).push(x));
                }
            }
        }
        i += 1;
    }
    proof {
        assert(v@.take(v@.len() as int) =~= v@);
        if found {
            lemma_first_position(v@, target, at);
        } else {
            lemma_absent_value(v@, target);
        }
    }
    *v = out;
    found
}

/// Whether `target` occurs in `v`.
pub fn vec_contains(v: &Vec<u32>, target: u32) -> (found: bool)
    ensures
        found == v@.contains(target),
{
    let mut i: usize = 0;
    while i < v.len()
        invariant
            i <= v.len(),
            forall|j: int| 0 <= j < i ==> v@[j] != target,
        decreases v.len() - i,
    {
        if v[i] == target {
            return true;
        }
        i += 1;
    }
    false
}

} // verus!
