use vstd::prelude::*;

verus! {

/// The smallest number from `from` up, and below `m`, that `ids` does not
/// hold; `m` when it holds every one of them.
pub open spec fn free_from(ids: Seq<usize>, from: nat, m: nat) -> nat
    decreases m - from,
{
    if from >= m {
        m
    } else if !ids.contains(from as usize) {
        from
    } else {
        free_from(ids, from + 1, m)
    }
}

/// The smallest identifier below `m` that `ids` does not hold (`m` if none).
pub open spec fn first_free(ids: Seq<usize>, m: nat) -> nat {
    free_from(ids, 0, m)
}

/// `ids` followed by new identifiers until there are `m`: each new one is the
/// smallest not yet held.
pub open spec fn refill(ids: Seq<usize>, m: nat) -> Seq<usize>
    decreases m - ids.len(),
{
    if ids.len() >= m {
        ids
    } else {
        refill(ids.push(first_free(ids, m) as usize), m)
    }
}

/// Distinct identifiers, all below `m`.
pub open spec fn distinct_below(ids: Seq<usize>, m: nat) -> bool {
    &&& ids.no_duplicates()
    &&& forall|i: int| 0 <= i < ids.len() ==> #[trigger] ids[i] < m
}

proof fn lemma_free_from(ids: Seq<usize>, from: nat, m: nat)
    requires
        from <= m,
    ensures
        from <= free_from(ids, from, m) <= m,
        free_from(ids, from, m) < m ==> !ids.contains(free_from(ids, from, m) as usize),
        forall|u: nat| from <= u < free_from(ids, from, m) ==> #[trigger] ids.contains(u as usize),
    decreases m - from,
{
    if from < m && ids.contains(from as usize) {
        lemma_free_from(ids, from + 1, m);
    }
}

/// Distinct identifiers below `m` that hold every number below `m` are at
/// least `m` many.
proof fn lemma_covering_is_full(ids: Seq<usize>, m: nat)
    requires
        m <= usize::MAX,
        distinct_below(ids, m),
        forall|u: nat| u < m ==> #[trigger] ids.contains(u as usize),
    ensures
        ids.len() >= m,
    decreases m,
{
    if m > 0 {
        let top = (m - 1) as usize;
        assert(ids.contains(top));
        let k = ids.index_of(top);
        let rest = ids.remove(k);
        ids.remove_ensures(k);
        assert forall|a: int, b: int| 0 <= a < rest.len() && 0 <= b < rest.len() && a != b implies rest[a]
            != rest[b] by {
            let oa = if a < k { a } else { a + 1 };
            let ob = if b < k { b } else { b + 1 };
            assert(rest[a] == ids[oa]);
            assert(rest[b] == ids[ob]);
        }
        assert forall|a: int| 0 <= a < rest.len() implies #[trigger] rest[a] < (m - 1) as nat by {
            let oa = if a < k { a } else { a + 1 };
            assert(rest[a] == ids[oa]);
            assert(ids[oa] != ids[k]);
        }
        assert forall|u: nat| u < (m - 1) as nat implies #[trigger] rest.contains(u as usize) by {
            assert(ids.contains(u as usize));
            let j = choose|j: int| 0 <= j < ids.len() && ids[j] == u as usize;
            assert(j != k);
            let nj = if j < k { j } else { j - 1 };
            assert(rest[nj] == u as usize);
        }
        lemma_covering_is_full(rest, (m - 1) as nat);
    }
}

/// When fewer than `m` distinct identifiers below `m` are held, the first
/// free one is below `m`, not held, and every smaller one is held.
pub proof fn lemma_first_free(ids: Seq<usize>, m: nat)
    requires
        m <= usize::MAX,
        distinct_below(ids, m),
        ids.len() < m,
    ensures
        first_free(ids, m) < m,
        !ids.contains(first_free(ids, m) as usize),
        forall|u: nat| u < first_free(ids, m) ==> #[trigger] ids.contains(u as usize),
{
    lemma_free_from(ids, 0, m);
    if first_free(ids, m) == m {
        lemma_covering_is_full(ids, m);
    }
}

/// Refilling up to `m` keeps the identifiers held in front, ends with `m`
/// distinct identifiers below `m`.
pub proof fn lemma_refill(ids: Seq<usize>, m: nat)
    requires
        m <= usize::MAX,
        distinct_below(ids, m),
        ids.len() <= m,
    ensures
        refill(ids, m).len() == m,
        distinct_below(refill(ids, m), m),
        refill(ids, m).subrange(0, ids.len() as int) == ids,
    decreases m - ids.len(),
{
    if ids.len() < m {
        lemma_first_free(ids, m);
        let f = first_free(ids, m) as usize;
        let next = ids.push(f);
        assert forall|a: int, b: int| 0 <= a < next.len() && 0 <= b < next.len() && a != b implies next[a]
            != next[b] by {
            if a < ids.len() && b < ids.len() {
                assert(next[a] == ids[a] && next[b] == ids[b]);
            } else if a < ids.len() {
                assert(next[a] == ids[a]);
            } else if b < ids.len() {
                assert(next[b] == ids[b]);
            }
        }
        assert forall|a: int| 0 <= a < next.len() implies #[trigger] next[a] < m by {
            if a < ids.len() {
                assert(next[a] == ids[a]);
            }
        }
        lemma_refill(next, m);
        let r = refill(next, m);
        assert(refill(ids, m) == r);
        assert forall|i: int| 0 <= i < ids.len() implies r[i] == ids[i] by {
            assert(r.subrange(0, next.len() as int)[i] == next[i]);
        }
        assert(r.subrange(0, ids.len() as int) =~= ids);
    }
}

/// Identifiers `0 .. k` in order are refilled with `k .. m` in order.
pub proof fn lemma_refill_in_order(k: nat, m: nat)
    requires
        k <= m <= usize::MAX,
    ensures
        refill(Seq::new(k, |i: int| i as usize), m) == Seq::new(m, |i: int| i as usize),
    decreases m - k,
{
    let ids = Seq::new(k, |i: int| i as usize);
    if k < m {
        assert(distinct_below(ids, m));
        lemma_first_free(ids, m);
        let f = first_free(ids, m);
        if f < k {
            assert(ids[f as int] == f as usize);
        }
        if f > k {
            assert(ids.contains(k as usize));
        }
        assert(f == k);
        assert(ids.push(k as usize) =~= Seq::new(k + 1, |i: int| i as usize));
        lemma_refill_in_order(k + 1, m);
    } else {
        assert(ids =~= Seq::new(m, |i: int| i as usize));
    }
}

/// Whether `ids` holds `id`.
pub fn holds(ids: &Vec<usize>, id: usize) -> (b: bool)
    ensures
        b == ids@.contains(id),
{
    let mut i: usize = 0;
    while i < ids.len()
        invariant
            i <= ids@.len(),
            forall|j: int| 0 <= j < i ==> ids@[j] != id,
        decreases ids@.len() - i,
    {
        if ids[i] == id {
            assert(ids@[i as int] == id);
            return true;
        }
        i = i + 1;
    }
    false
}

/// The smallest identifier below `m` that `ids` does not hold (`m` if none).
pub fn smallest_free(ids: &Vec<usize>, m: usize) -> (id: usize)
    ensures
        id == first_free(ids@, m as nat),
{
    let mut c: usize = 0;
    while c < m && holds(ids, c)
        invariant
            c <= m,
            free_from(ids@, c as nat, m as nat) == first_free(ids@, m as nat),
        decreases m - c,
    {
        c = c + 1;
    }
    c
}

} // verus!
