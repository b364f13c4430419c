//! Searching and filtering sequences by a predicate.

use vstd::prelude::*;

verus! {

/// The index of the first element that satisfies `p`, or the length of the
/// sequence if none does.
pub open spec fn first_index<T>(s: Seq<T>, p: spec_fn(T) -> bool) -> int
    decreases s.len(),
{
    if s.len() == 0 {
        0
    } else if p(s[0]) {
        0
    } else {
        1 + first_index(s.drop_first(), p)
    }
}

/// The elements that satisfy `p`, in order.
pub open spec fn keep<T>(s: Seq<T>, p: spec_fn(T) -> bool) -> Seq<T>
    decreases s.len(),
{
    if s.len() == 0 {
        s
    } else if p(s.last()) {
        keep(s.drop_last(), p).push(s.last())
    } else {
        keep(s.drop_last(), p)
    }
}

/// The number of elements that satisfy `p`.
pub open spec fn count<T>(s: Seq<T>, p: spec_fn(T) -> bool) -> nat
    decreases s.len(),
{
    if s.len() == 0 {
        0
    } else if p(s.last()) {
        count(s.drop_last(), p) + 1
    } else {
        count(s.drop_last(), p)
    }
}

/// `first_index` is in range, no element before it satisfies `p`, and the
/// element at it does, if there is one.
pub proof fn lemma_first_index<T>(s: Seq<T>, p: spec_fn(T) -> bool)
    ensures
        0 <= first_index(s, p) <= s.len(),
        forall|j: int| 0 <= j < first_index(s, p) ==> !p(#[trigger] s[j]),
        first_index(s, p) < s.len() ==> p(s[first_index(s, p)]),
    decreases s.len(),
{
    if s.len() != 0 && !p(s[0]) {
        let rest = s.drop_first();
        lemma_first_index(rest, p);
        assert forall|j: int| 0 <= j < first_index(s, p) implies !p(#[trigger] s[j]) by {
            if j > 0 {
                assert(s[j] == rest[j - 1]);
            }
        }
    }
}

/// An index with the properties of `first_index` is `first_index`.
pub proof fn lemma_first_index_is<T>(s: Seq<T>, p: spec_fn(T) -> bool, i: int)
    requires
        0 <= i <= s.len(),
        forall|j: int| 0 <= j < i ==> !p(#[trigger] s[j]),
        i < s.len() ==> p(s[i]),
    ensures
        first_index(s, p) == i,
{
    lemma_first_index(s, p);
    let f = first_index(s, p);
    if f < i {
        assert(!p(s[f]));
    } else if i < f {
        assert(!p(s[i]));
    }
}

/// Where some element satisfies `p`, `first_index` finds one.
pub proof fn lemma_first_index_finds<T>(s: Seq<T>, p: spec_fn(T) -> bool, i: int)
    requires
        0 <= i < s.len(),
        p(s[i]),
    ensures
        first_index(s, p) <= i,
{
    lemma_first_index(s, p);
    if i < first_index(s, p) {
        assert(!p(s[i]));
    }
}

/// `keep` is no longer than the sequence, holds only elements of it that
/// satisfy `p`, and holds every such element.
pub proof fn lemma_keep<T>(s: Seq<T>, p: spec_fn(T) -> bool)
    ensures
        keep(s, p).len() <= s.len(),
        forall|k: int|
            0 <= k < keep(s, p).len() ==> p(#[trigger] keep(s, p)[k]) && s.contains(
                keep(s, p)[k],
            ),
        forall|i: int| 0 <= i < s.len() && p(#[trigger] s[i]) ==> keep(s, p).contains(s[i]),
    decreases s.len(),
{
    if s.len() != 0 {
        let front = s.drop_last();
        lemma_keep(front, p);
        let kept = keep(s, p);
        assert forall|k: int| 0 <= k < kept.len() implies p(#[trigger] kept[k]) && s.contains(
            kept[k],
        ) by {
            if k < keep(front, p).len() {
                let e = keep(front, p)[k];
                assert(front.contains(e));
                let w = choose|w: int| 0 <= w < front.len() && front[w] == e;
                assert(s[w] == e);
            } else {
                assert(s[s.len() - 1] == kept[k]);
            }
        }
        assert forall|i: int| 0 <= i < s.len() && p(#[trigger] s[i]) implies kept.contains(
            s[i],
        ) by {
            if i < front.len() {
                assert(front[i] == s[i]);
                assert(keep(front, p).contains(s[i]));
                let w = choose|w: int| 0 <= w < keep(front, p).len() && keep(front, p)[w] == s[i];
                assert(kept[w] == s[i]);
            } else {
                assert(kept[kept.len() - 1] == s[i]);
            }
        }
    }
}

/// Whether `rel` holds of every element and every later one.
pub open spec fn pairwise<T>(s: Seq<T>, rel: spec_fn(T, T) -> bool) -> bool {
    forall|i: int, j: int| 0 <= i < j < s.len() ==> rel(#[trigger] s[i], #[trigger] s[j])
}

/// What holds of every element and every later one still holds when only
/// some elements are kept.
pub proof fn lemma_keep_pairwise<T>(s: Seq<T>, p: spec_fn(T) -> bool, rel: spec_fn(T, T) -> bool)
    requires
        pairwise(s, rel),
    ensures
        pairwise(keep(s, p), rel),
    decreases s.len(),
{
    if s.len() != 0 {
        let front = s.drop_last();
        assert forall|i: int, j: int| 0 <= i < j < front.len() implies rel(
            #[trigger] front[i],
            #[trigger] front[j],
        ) by {
            assert(front[i] == s[i] && front[j] == s[j]);
        }
        lemma_keep_pairwise(front, p, rel);
        lemma_keep(front, p);
        let kept = keep(s, p);
        assert forall|a: int, b: int| 0 <= a < b < kept.len() implies rel(
            #[trigger] kept[a],
            #[trigger] kept[b],
        ) by {
            if b < keep(front, p).len() {
                assert(kept[a] == keep(front, p)[a]);
                assert(kept[b] == keep(front, p)[b]);
            } else {
                let e = keep(front, p)[a];
                assert(front.contains(e));
                let w = choose|w: int| 0 <= w < front.len() && front[w] == e;
                assert(s[w] == e);
                assert(kept[b] == s[s.len() - 1]);
            }
        }
    }
}

/// The rows with `row` in the place of the first row that satisfies `p`, or
/// at the end if there is none.
pub open spec fn upsert<T>(rows: Seq<T>, p: spec_fn(T) -> bool, row: T) -> Seq<T> {
    let i = first_index(rows, p);
    if i < rows.len() {
        rows.update(i, row)
    } else {
        rows.push(row)
    }
}

/// After an upsert the row is found where it was put, and the list has
/// grown by one row at most.
pub proof fn lemma_upsert<T>(rows: Seq<T>, p: spec_fn(T) -> bool, row: T)
    requires
        p(row),
    ensures
        first_index(upsert(rows, p, row), p) == first_index(rows, p),
        first_index(rows, p) < upsert(rows, p, row).len(),
        upsert(rows, p, row)[first_index(rows, p)] == row,
        rows.len() <= upsert(rows, p, row).len() <= rows.len() + 1,
        first_index(rows, p) < rows.len() ==> upsert(rows, p, row).len() == rows.len(),
        upsert(upsert(rows, p, row), p, row) == upsert(rows, p, row),
{
    let i = first_index(rows, p);
    let after = upsert(rows, p, row);
    lemma_first_index(rows, p);
    assert forall|j: int| 0 <= j < i implies !p(#[trigger] after[j]) by {
        assert(after[j] == rows[j]);
    }
    lemma_first_index_is(after, p, i);
    assert(upsert(after, p, row) =~= after);
}

} // verus!
