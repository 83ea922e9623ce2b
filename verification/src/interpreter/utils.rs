use vstd::prelude::*;

verus! {

/// `s` after the element at `i` has been replaced by the last one and the
/// last place dropped.
pub open spec fn swap_removed<T>(s: Seq<T>, i: int) -> Seq<T> {
    s.update(i, s.last()).drop_last()
}

/// `s` after the elements at `indices` have been swap-removed, the one at
/// the last index first.
pub open spec fn swap_removed_all<T>(s: Seq<T>, indices: Seq<usize>) -> Seq<T>
    decreases indices.len(),
{
    if indices.len() == 0 {
        s
    } else {
        swap_removed_all(swap_removed(s, indices.last() as int), indices.drop_last())
    }
}

/// Whether `indices` rise strictly and stay below `len`.
pub open spec fn rising_below(indices: Seq<usize>, len: nat) -> bool {
    &&& forall|i: int, j: int| 0 <= i < j < indices.len() ==> indices[i] < indices[j]
    &&& forall|i: int| 0 <= i < indices.len() ==> indices[i] < len
}

/// Swap-removing at rising indices shortens a sequence by their number.
pub proof fn lemma_swap_removed_all_len<T>(s: Seq<T>, indices: Seq<usize>)
    requires
        rising_below(indices, s.len()),
    ensures
        swap_removed_all(s, indices).len() == s.len() - indices.len(),
    decreases indices.len(),
{
    if indices.len() > 0 {
        let rest = indices.drop_last();
        let t = swap_removed(s, indices.last() as int);
        assert forall|i: int| 0 <= i < rest.len() implies rest[i] < t.len() by {
            assert(rest[i] == indices[i]);
            assert(indices[i] < indices[indices.len() - 1]);
        }
        assert forall|i: int, j: int| 0 <= i < j < rest.len() implies rest[i] < rest[j] by {
            assert(rest[i] == indices[i] && rest[j] == indices[j]);
        }
        lemma_swap_removed_all_len(t, rest);
    }
}

/// What stands at the place `k` after swap-removing stood in the sequence
/// before, at the place that this gives, which is none of `indices`.
pub proof fn lemma_swap_removed_all_kept<T>(s: Seq<T>, indices: Seq<usize>, k: int) -> (i: int)
    requires
        rising_below(indices, s.len()),
        0 <= k < swap_removed_all(s, indices).len(),
    ensures
        0 <= i < s.len(),
        forall|j: int| 0 <= j < indices.len() ==> indices[j] != i,
        swap_removed_all(s, indices)[k] == s[i],
    decreases indices.len(),
{
    if indices.len() == 0 {
        k
    } else {
        let rest = indices.drop_last();
        let last = indices.last() as int;
        let t = swap_removed(s, last);
        assert forall|j: int| 0 <= j < rest.len() implies rest[j] < t.len() by {
            assert(rest[j] == indices[j]);
            assert(indices[j] < indices[indices.len() - 1]);
        }
        assert forall|j: int, l: int| 0 <= j < l < rest.len() implies rest[j] < rest[l] by {
            assert(rest[j] == indices[j] && rest[l] == indices[l]);
        }
        let at = lemma_swap_removed_all_kept(t, rest, k);
        let i = if at == last {
            s.len() - 1
        } else {
            at
        };
        assert forall|j: int| 0 <= j < indices.len() implies indices[j] != i by {
            if j < rest.len() {
                assert(rest[j] == indices[j]);
                assert(indices[j] < indices[indices.len() - 1]);
            }
        }
        i
    }
}

/// Two pools of one length that are swap-removed at the same indices stay
/// aligned: what stood at one place in both stands at one place in both
/// afterwards.
pub proof fn lemma_swap_removed_all_aligned<A, B>(a: Seq<A>, b: Seq<B>, indices: Seq<usize>)
    requires
        a.len() == b.len(),
        rising_below(indices, a.len()),
    ensures
        swap_removed_all(a, indices).len() == swap_removed_all(b, indices).len(),
        swap_removed_all(a.zip_with(b), indices) == swap_removed_all(a, indices).zip_with(
            swap_removed_all(b, indices),
        ),
    decreases indices.len(),
{
    if indices.len() > 0 {
        let rest = indices.drop_last();
        let i = indices.last() as int;
        let a1 = swap_removed(a, i);
        let b1 = swap_removed(b, i);
        assert forall|k: int| 0 <= k < rest.len() implies rest[k] < a1.len() by {
            assert(rest[k] == indices[k]);
            assert(indices[k] < indices[indices.len() - 1]);
        }
        assert forall|k: int, j: int| 0 <= k < j < rest.len() implies rest[k] < rest[j] by {
            assert(rest[k] == indices[k] && rest[j] == indices[j]);
        }
        assert(swap_removed(a.zip_with(b), i) =~= a1.zip_with(b1));
        lemma_swap_removed_all_aligned(a1, b1, rest);
    }
}

/// Swap-removing and then taking the image of every element under `f` is
/// taking the images first and swap-removing then.
pub proof fn lemma_swap_removed_all_mapped<A, B>(s: Seq<A>, f: spec_fn(A) -> B, indices: Seq<usize>)
    requires
        rising_below(indices, s.len()),
    ensures
        swap_removed_all(s, indices).map_values(f) == swap_removed_all(s.map_values(f), indices),
    decreases indices.len(),
{
    if indices.len() > 0 {
        let rest = indices.drop_last();
        let i = indices.last() as int;
        let s1 = swap_removed(s, i);
        assert forall|k: int| 0 <= k < rest.len() implies rest[k] < s1.len() by {
            assert(rest[k] == indices[k]);
            assert(indices[k] < indices[indices.len() - 1]);
        }
        assert forall|k: int, j: int| 0 <= k < j < rest.len() implies rest[k] < rest[j] by {
            assert(rest[k] == indices[k] && rest[j] == indices[j]);
        }
        assert(swap_removed(s.map_values(f), i) =~= s1.map_values(f));
        lemma_swap_removed_all_mapped(s1, f, rest);
    } else {
        assert(swap_removed_all(s, indices) == s);
    }
}

/// Removes the elements at `indices`, the one at the last index first, each
/// by putting the last element in its place.
pub fn swap_remove_all<T>(vec: &mut Vec<T>, indices: &Vec<usize>)
    requires
        rising_below(indices@, old(vec)@.len()),
    ensures
        final(vec)@ == swap_removed_all(old(vec)@, indices@),
        final(vec)@.len() == old(vec)@.len() - indices@.len(),
{
    let mut j: usize = indices.len();
    assert(indices@.take(j as int) =~= indices@);
    proof {
        lemma_swap_removed_all_len(vec@, indices@);
    }
    while j > 0
        invariant
            j <= indices@.len(),
            rising_below(indices@.take(j as int), vec@.len()),
            swap_removed_all(old(vec)@, indices@) == swap_removed_all(vec@, indices@.take(j as int)),
        decreases j,
    {
        let ghost cur = indices@.take(j as int);
        let ghost before = vec@;
        assert(cur.last() == indices@[j - 1]);
        assert(cur.drop_last() =~= indices@.take(j - 1));
        vec.swap_remove(indices[j - 1]);
        proof {
            let rest = indices@.take(j - 1);
            assert forall|k: int| 0 <= k < rest.len() implies rest[k] < vec@.len() by {
                assert(rest[k] == cur[k]);
                assert(cur[k] < cur[cur.len() - 1]);
            }
            assert forall|k: int, l: int| 0 <= k < l < rest.len() implies rest[k] < rest[l] by {
                assert(rest[k] == cur[k] && rest[l] == cur[l]);
            }
        }
        j -= 1;
    }
}

} // verus!
