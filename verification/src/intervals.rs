//! The arcs of the hue wheel that remain after exclusions.
//!
//! Points of the wheel are given by order-preserving integer keys: the
//! program maps each (normalized, non-negative) degree value to a `u32` key
//! whose order is the order of the degrees, so sorting, merging and taking
//! the complement can be done here on the keys.  An interval `(s, e)` is the
//! half-open range `[s, e)`.

use vstd::prelude::*;

verus! {

/// `k` lies in the half-open interval `iv`.
pub open spec fn in_interval(iv: (u32, u32), k: int) -> bool {
    iv.0 <= k < iv.1
}

/// `k` lies in one of the intervals of `ivs`.
pub open spec fn covered(ivs: Seq<(u32, u32)>, k: int) -> bool {
    exists|i: int| 0 <= i < ivs.len() && #[trigger] in_interval(ivs[i], k)
}

/// Every interval is well-ordered and ends at or before `top`.
pub open spec fn within(ivs: Seq<(u32, u32)>, top: u32) -> bool {
    forall|i: int| 0 <= i < ivs.len() ==> #[trigger] ivs[i].0 <= ivs[i].1 <= top
}

/// Starts never decrease.
pub open spec fn sorted_by_start(ivs: Seq<(u32, u32)>) -> bool {
    forall|i: int, j: int| 0 <= i < j < ivs.len() ==> #[trigger] ivs[i].0 <= #[trigger] ivs[j].0
}

/// Each interval ends strictly before every later one starts.
pub open spec fn separated(ivs: Seq<(u32, u32)>) -> bool {
    forall|i: int, j: int| 0 <= i < j < ivs.len() ==> #[trigger] ivs[i].1 < #[trigger] ivs[j].0
}

/// Every interval is non-empty.
pub open spec fn non_empty(ivs: Seq<(u32, u32)>) -> bool {
    forall|i: int| 0 <= i < ivs.len() ==> #[trigger] ivs[i].0 < ivs[i].1
}

/// Sort intervals by start (stable insertion sort).
fn sort_by_start(v: &Vec<(u32, u32)>) -> (r: Vec<(u32, u32)>)
    ensures
        sorted_by_start(r@),
        r@.len() == v@.len(),
        forall|x: (u32, u32)| r@.contains(x) <==> v@.contains(x),
{
    let mut r: Vec<(u32, u32)> = Vec::new();
    let mut i: usize = 0;
    while i < v.len()
        invariant
            i <= v@.len(),
            r@.len() == i,
            sorted_by_start(r@),
            forall|x: (u32, u32)| r@.contains(x) <==> v@.take(i as int).contains(x),
        decreases v@.len() - i,
    {
        let x = v[i];
        let mut p: usize = 0;
        while p < r.len() && r[p].0 <= x.0
            invariant
                p <= r@.len(),
                forall|j: int| 0 <= j < p ==> r@[j].0 <= x.0,
            decreases r@.len() - p,
        {
            p = p + 1;
        }
        assert(forall|j: int| p <= j < r@.len() ==> r@[j].0 > x.0) by {
            if p < r@.len() {
                assert(r@[p as int].0 > x.0);
                assert forall|j: int| p <= j < r@.len() implies r@[j].0 > x.0 by {
                    if j > p {
                        assert(r@[p as int].0 <= r@[j].0);
                    }
                }
            }
        }
        let ghost old_r = r@;
        r.insert(p, x);
        proof {
            old_r.insert_ensures(p as int, x);
            assert forall|a: int, b: int| 0 <= a < b < r@.len() implies #[trigger] r@[a].0
                <= #[trigger] r@[b].0 by {
                if b < p {
                } else if b == p {
                } else if a < p {
                    assert(r@[b] == old_r[b - 1]);
                } else if a == p {
                    assert(r@[b] == old_r[b - 1]);
                } else {
                    assert(r@[a] == old_r[a - 1]);
                    assert(r@[b] == old_r[b - 1]);
                }
            }
            assert(v@.take(i + 1) =~= v@.take(i as int).push(x));
            assert forall|y: (u32, u32)| r@.contains(y) <==> v@.take(i + 1).contains(y) by {
                if r@.contains(y) {
                    let t = choose|t: int| 0 <= t < r@.len() && r@[t] == y;
                    if t < p {
                        assert(old_r.contains(y));
                        assert(v@.take(i as int).contains(y));
                        let u = choose|u: int| 0 <= u < i && v@.take(i as int)[u] == y;
                        assert(v@.take(i + 1)[u] == y);
                    } else if t == p {
                        assert(v@.take(i + 1)[i as int] == y);
                    } else {
                        assert(old_r[t - 1] == y);
                        assert(old_r.contains(y));
                        let u = choose|u: int| 0 <= u < i && v@.take(i as int)[u] == y;
                        assert(v@.take(i + 1)[u] == y);
                    }
                }
                if v@.take(i + 1).contains(y) {
                    let u = choose|u: int| 0 <= u < i + 1 && #[trigger] v@.take(i + 1)[u] == y;
                    if u == i {
                        assert(r@[p as int] == y);
                    } else {
                        assert(v@.take(i as int)[u] == y);
                        assert(old_r.contains(y));
                        let t = choose|t: int| 0 <= t < old_r.len() && old_r[t] == y;
                        if t < p {
                            assert(r@[t] == y);
                        } else {
                            assert(r@[t + 1] == y);
                        }
                    }
                }
            }
        }
        i = i + 1;
    }
    assert(v@.take(v@.len() as int) =~= v@);
    r
}

/// Merge sorted intervals into separated ones covering the same points.
fn merge_sorted(v: &Vec<(u32, u32)>, Ghost(top): Ghost<u32>) -> (m: Vec<(u32, u32)>)
    requires
        sorted_by_start(v@),
        within(v@, top),
    ensures
        separated(m@),
        non_empty(m@),
        within(m@, top),
        forall|k: int| covered(m@, k) <==> covered(v@, k),
        v@.len() == 0 ==> m@.len() == 0,
{
    let mut m: Vec<(u32, u32)> = Vec::new();
    let mut i: usize = 0;
    while i < v.len()
        invariant
            i <= v@.len(),
            sorted_by_start(v@),
            within(v@, top),
            separated(m@),
            non_empty(m@),
            m@.len() <= i,
            within(m@, top),
            m@.len() > 0 ==> forall|j: int| i <= j < v@.len() ==> m@.last().0 <= #[trigger] v@[j].0,
            forall|k: int| covered(m@, k) <==> covered(v@.take(i as int), k),
        decreases v@.len() - i,
    {
        let (s, e) = v[i];
        assert(v@[i as int] == (s, e));
        let ghost old_m = m@;
        if s < e {
            let n = m.len();
            if n > 0 && s <= m[n - 1].1 {
                let last = m[n - 1];
                let new_end = if e > last.1 {
                    e
                } else {
                    last.1
                };
                m.set(n - 1, (last.0, new_end));
                proof {
                    assert forall|a: int, b: int| 0 <= a < b < m@.len() implies #[trigger] m@[a].1
                        < #[trigger] m@[b].0 by {
                        assert(old_m[a].1 < old_m[b].0);
                    }
                    assert forall|k: int| covered(m@, k) <==> covered(v@.take(i + 1), k) by {
                        assert(v@.take(i + 1)[i as int] == (s, e));
                        if covered(m@, k) {
                            let t = choose|t: int| 0 <= t < m@.len() && #[trigger] in_interval(m@[t], k);
                            if t < n - 1 {
                                assert(in_interval(old_m[t], k));
                                assert(covered(old_m, k));
                                assert(covered(v@.take(i as int), k));
                                let u = choose|u: int|
                                    0 <= u < i && #[trigger] in_interval(v@.take(i as int)[u], k);
                                assert(in_interval(v@.take(i + 1)[u], k));
                            } else if k < last.1 {
                                assert(in_interval(old_m[n - 1], k));
                                assert(covered(old_m, k));
                                assert(covered(v@.take(i as int), k));
                                let u = choose|u: int|
                                    0 <= u < i && #[trigger] in_interval(v@.take(i as int)[u], k);
                                assert(in_interval(v@.take(i + 1)[u], k));
                            } else {
                                assert(in_interval(v@.take(i + 1)[i as int], k));
                            }
                        }
                        if covered(v@.take(i + 1), k) {
                            let u = choose|u: int|
                                0 <= u < i + 1 && #[trigger] in_interval(v@.take(i + 1)[u], k);
                            if u < i {
                                assert(in_interval(v@.take(i as int)[u], k));
                                assert(covered(old_m, k));
                                let t = choose|t: int| 0 <= t < old_m.len() && #[trigger] in_interval(old_m[t], k);
                                if t < n - 1 {
                                    assert(in_interval(m@[t], k));
                                } else {
                                    assert(in_interval(m@[n - 1], k));
                                }
                            } else {
                                assert(last.0 <= s);
                                assert(in_interval(m@[n - 1], k));
                            }
                        }
                    }
                }
            } else {
                m.push((s, e));
                proof {
                    assert forall|a: int, b: int| 0 <= a < b < m@.len() implies #[trigger] m@[a].1
                        < #[trigger] m@[b].0 by {
                        if b < n {
                            assert(old_m[a].1 < old_m[b].0);
                        } else if a < n - 1 {
                            assert(old_m[a].1 < old_m[n - 1].0);
                        }
                    }
                    assert forall|k: int| covered(m@, k) <==> covered(v@.take(i + 1), k) by {
                        assert(v@.take(i + 1)[i as int] == (s, e));
                        if covered(m@, k) {
                            let t = choose|t: int| 0 <= t < m@.len() && #[trigger] in_interval(m@[t], k);
                            if t < n {
                                assert(in_interval(old_m[t], k));
                                assert(covered(old_m, k));
                                assert(covered(v@.take(i as int), k));
                                let u = choose|u: int|
                                    0 <= u < i && #[trigger] in_interval(v@.take(i as int)[u], k);
                                assert(in_interval(v@.take(i + 1)[u], k));
                            } else {
                                assert(in_interval(v@.take(i + 1)[i as int], k));
                            }
                        }
                        if covered(v@.take(i + 1), k) {
                            let u = choose|u: int|
                                0 <= u < i + 1 && #[trigger] in_interval(v@.take(i + 1)[u], k);
                            if u < i {
                                assert(in_interval(v@.take(i as int)[u], k));
                                assert(covered(old_m, k));
                                let t = choose|t: int| 0 <= t < old_m.len() && #[trigger] in_interval(old_m[t], k);
                                assert(in_interval(m@[t], k));
                            } else {
                                assert(in_interval(m@[n as int], k));
                            }
                        }
                    }
                }
            }
        } else {
            proof {
                assert forall|k: int| covered(m@, k) <==> covered(v@.take(i + 1), k) by {
                    assert(v@.take(i + 1)[i as int] == (s, e));
                    if covered(v@.take(i + 1), k) {
                        let u = choose|u: int|
                            0 <= u < i + 1 && #[trigger] in_interval(v@.take(i + 1)[u], k);
                        assert(u != i);
                        assert(in_interval(v@.take(i as int)[u], k));
                    }
                    if covered(v@.take(i as int), k) {
                        let u = choose|u: int|
                            0 <= u < i && #[trigger] in_interval(v@.take(i as int)[u], k);
                        assert(in_interval(v@.take(i + 1)[u], k));
                    }
                }
            }
        }
        i = i + 1;
    }
    assert(v@.take(v@.len() as int) =~= v@);
    m
}

/// The gaps between separated intervals, and after the last one up to `top`.
fn gaps(m: &Vec<(u32, u32)>, top: u32) -> (r: Vec<(u32, u32)>)
    requires
        separated(m@),
        non_empty(m@),
        within(m@, top),
    ensures
        non_empty(r@),
        within(r@, top),
        separated(r@),
        m@.len() == 0 && top > 0 ==> r@ == seq![(0u32, top)],
        forall|k: int| 0 <= k < top ==> (covered(r@, k) <==> !covered(m@, k)),
        forall|k: int| covered(r@, k) ==> 0 <= k < top,
{
    let mut r: Vec<(u32, u32)> = Vec::new();
    let mut pos: u32 = 0;
    let mut i: usize = 0;
    while i < m.len()
        invariant
            i <= m@.len(),
            separated(m@),
            non_empty(m@),
            within(m@, top),
            pos <= top,
            i == 0 ==> pos == 0 && r@.len() == 0,
            forall|j: int| 0 <= j < i ==> #[trigger] m@[j].1 <= pos,
            forall|j: int| i <= j < m@.len() ==> pos <= #[trigger] m@[j].0,
            non_empty(r@),
            separated(r@),
            forall|j: int| 0 <= j < r@.len() ==> #[trigger] r@[j].1 < pos,
            forall|k: int| covered(r@, k) ==> 0 <= k < pos,
            forall|k: int| 0 <= k < pos ==> (covered(r@, k) <==> !covered(m@, k)),
        decreases m@.len() - i,
    {
        let (s, e) = m[i];
        assert(m@[i as int] == (s, e));
        let ghost old_r = r@;
        let ghost old_pos = pos;
        if pos < s {
            r.push((pos, s));
        }
        if e > pos {
            pos = e;
        }
        proof {
            assert forall|j: int| i + 1 <= j < m@.len() implies pos <= #[trigger] m@[j].0 by {
                assert(m@[i as int].1 < m@[j].0);
            }
            assert forall|a: int, b: int| 0 <= a < b < r@.len() implies #[trigger] r@[a].1
                < #[trigger] r@[b].0 by {
                if b >= old_r.len() {
                    assert(old_r[a].1 < old_pos);
                } else {
                    assert(old_r[a].1 < old_r[b].0);
                }
            }
            // Points of m beyond interval i start after its end.
            assert forall|k: int| old_pos <= k < s implies !covered(m@, k) by {
                if covered(m@, k) {
                    let t = choose|t: int| 0 <= t < m@.len() && #[trigger] in_interval(m@[t], k);
                    if t < i {
                        assert(m@[t].1 <= old_pos);
                    } else if t > i {
                        assert(m@[i as int].1 < m@[t].0);
                    }
                }
            }
            assert forall|k: int| covered(r@, k) implies 0 <= k < pos by {
                let t = choose|t: int| 0 <= t < r@.len() && #[trigger] in_interval(r@[t], k);
                if t < old_r.len() {
                    assert(in_interval(old_r[t], k));
                    assert(covered(old_r, k));
                }
            }
            assert forall|k: int| 0 <= k < pos implies (covered(r@, k) <==> !covered(m@, k)) by {
                if k < old_pos {
                    if covered(r@, k) {
                        let t = choose|t: int| 0 <= t < r@.len() && #[trigger] in_interval(r@[t], k);
                        if t >= old_r.len() {
                            assert(r@[t].0 == old_pos);
                        } else {
                            assert(in_interval(old_r[t], k));
                            assert(covered(old_r, k));
                        }
                    } else {
                        if covered(old_r, k) {
                            let t = choose|t: int| 0 <= t < old_r.len() && #[trigger] in_interval(old_r[t], k);
                            assert(in_interval(r@[t], k));
                        }
                    }
                } else if k < s {
                    assert(in_interval(r@[r@.len() - 1], k));
                } else {
                    assert(in_interval(m@[i as int], k));
                    if covered(r@, k) {
                        let t = choose|t: int| 0 <= t < r@.len() && #[trigger] in_interval(r@[t], k);
                        if t < old_r.len() {
                            assert(old_r[t].1 <= old_pos);
                        }
                    }
                }
            }
        }
        i = i + 1;
    }
    let ghost old_r = r@;
    if pos < top {
        r.push((pos, top));
    }
    proof {
        assert forall|a: int, b: int| 0 <= a < b < r@.len() implies #[trigger] r@[a].1
            < #[trigger] r@[b].0 by {
            if b >= old_r.len() {
                assert(old_r[a].1 < pos);
            } else {
                assert(old_r[a].1 < old_r[b].0);
            }
        }
        if m@.len() == 0 && top > 0 {
            assert(r@ =~= seq![(0u32, top)]);
        }
        assert forall|k: int| covered(r@, k) implies 0 <= k < top by {
            let t = choose|t: int| 0 <= t < r@.len() && #[trigger] in_interval(r@[t], k);
            if t < old_r.len() {
                assert(in_interval(old_r[t], k));
                assert(covered(old_r, k));
            }
        }
        assert forall|k: int| 0 <= k < top implies (covered(r@, k) <==> !covered(m@, k)) by {
            if k < pos {
                if covered(r@, k) {
                    let t = choose|t: int| 0 <= t < r@.len() && #[trigger] in_interval(r@[t], k);
                    if t < old_r.len() {
                        assert(in_interval(old_r[t], k));
                        assert(covered(old_r, k));
                    }
                } else if covered(old_r, k) {
                    let t = choose|t: int| 0 <= t < old_r.len() && #[trigger] in_interval(old_r[t], k);
                    assert(in_interval(r@[t], k));
                }
            } else {
                assert(in_interval(r@[r@.len() - 1], k));
                if covered(m@, k) {
                    let t = choose|t: int| 0 <= t < m@.len() && #[trigger] in_interval(m@[t], k);
                    assert(m@[t].1 <= pos);
                }
            }
        }
    }
    r
}

/// The parts of `[0, top)` not covered by any excluded interval, as
/// non-empty, separated intervals in ascending order (the maximal allowed
/// runs).  The excluded intervals are sorted by start, empty ones dropped,
/// the rest merged where they overlap or touch, and the gaps between them
/// (and after the last, up to `top`) are returned.
pub fn allowed_ranges(excluded: &Vec<(u32, u32)>, top: u32) -> (r: Vec<(u32, u32)>)
    requires
        within(excluded@, top),
    ensures
        non_empty(r@),
        within(r@, top),
        separated(r@),
        forall|k: int| 0 <= k < top ==> (covered(r@, k) <==> !covered(excluded@, k)),
        forall|k: int| covered(r@, k) ==> 0 <= k < top,
        excluded@.len() == 0 && top > 0 ==> r@ == seq![(0u32, top)],
{
    let sorted = sort_by_start(excluded);
    assert forall|i: int| 0 <= i < sorted@.len() implies #[trigger] sorted@[i].0 <= sorted@[i].1
        <= top by {
        assert(sorted@.contains(sorted@[i]));
        let j = choose|j: int| 0 <= j < excluded@.len() && excluded@[j] == sorted@[i];
    }
    assert forall|k: int| covered(sorted@, k) <==> covered(excluded@, k) by {
        if covered(sorted@, k) {
            let t = choose|t: int| 0 <= t < sorted@.len() && #[trigger] in_interval(sorted@[t], k);
            assert(sorted@.contains(sorted@[t]));
            let j = choose|j: int| 0 <= j < excluded@.len() && excluded@[j] == sorted@[t];
            assert(in_interval(excluded@[j], k));
        }
        if covered(excluded@, k) {
            let t = choose|t: int| 0 <= t < excluded@.len() && #[trigger] in_interval(excluded@[t], k);
            assert(excluded@.contains(excluded@[t]));
            let j = choose|j: int| 0 <= j < sorted@.len() && sorted@[j] == excluded@[t];
            assert(in_interval(sorted@[j], k));
        }
    }
    let merged = merge_sorted(&sorted, Ghost(top));
    gaps(&merged, top)
}

// ─── laws ─────────────────────────────────────────────────────────────────────

/// With nothing excluded, any result with the contract of `allowed_ranges`
/// allows every point of `[0, top)`.
pub proof fn lemma_nothing_excluded_allows_all(r: Seq<(u32, u32)>, top: u32, k: int)
    requires
        0 <= k < top,
        forall|k2: int| 0 <= k2 < top ==> (covered(r, k2) <==> !covered(Seq::<(u32, u32)>::empty(), k2)),
    ensures
        covered(r, k),
{
}

/// An interval that covers all of `[0, top)` leaves nothing allowed: any
/// result with the contract of `allowed_ranges` is then empty.
pub proof fn lemma_full_exclusion_allows_nothing(excluded: Seq<(u32, u32)>, r: Seq<(u32, u32)>, top: u32)
    requires
        excluded.len() > 0,
        excluded[0].0 == 0,
        excluded[0].1 == top,
        non_empty(r),
        within(r, top),
        forall|k: int| 0 <= k < top ==> (covered(r, k) <==> !covered(excluded, k)),
    ensures
        r.len() == 0,
{
    if r.len() > 0 {
        let k = r[0].0 as int;
        assert(in_interval(r[0], k));
        assert(covered(r, k));
        assert(in_interval(excluded[0], k));
        assert(covered(excluded, k));
    }
}

/// The first interval of separated, non-empty intervals starts at or before
/// every covered point.
proof fn lemma_first_start(r: Seq<(u32, u32)>, k: int)
    requires
        separated(r),
        non_empty(r),
        covered(r, k),
    ensures
        r.len() > 0,
        r[0].0 <= k,
{
    let t = choose|t: int| 0 <= t < r.len() && #[trigger] in_interval(r[t], k);
    if t > 0 {
        assert(r[0].1 < r[t].0);
        assert(r[0].0 < r[0].1);
    }
}

/// The end of the first of separated intervals is not covered.
proof fn lemma_first_end_uncovered(r: Seq<(u32, u32)>)
    requires
        separated(r),
        r.len() > 0,
    ensures
        !covered(r, r[0].1 as int),
{
    if covered(r, r[0].1 as int) {
        let t = choose|t: int| 0 <= t < r.len() && #[trigger] in_interval(r[t], r[0].1 as int);
        if t > 0 {
            assert(r[0].1 < r[t].0);
        }
    }
}

/// Dropping the first of separated, non-empty intervals leaves exactly the
/// covered points at or after its end.
proof fn lemma_tail_cover(r: Seq<(u32, u32)>, k: int)
    requires
        separated(r),
        non_empty(r),
        r.len() > 0,
    ensures
        covered(r.drop_first(), k) <==> (covered(r, k) && k >= r[0].1),
        separated(r.drop_first()),
        non_empty(r.drop_first()),
{
    let t = r.drop_first();
    if covered(t, k) {
        let u = choose|u: int| 0 <= u < t.len() && #[trigger] in_interval(t[u], k);
        assert(t[u] == r[u + 1]);
        assert(in_interval(r[u + 1], k));
        assert(r[0].1 < r[u + 1].0);
    }
    if covered(r, k) && k >= r[0].1 {
        let u = choose|u: int| 0 <= u < r.len() && #[trigger] in_interval(r[u], k);
        assert(u != 0);
        assert(t[u - 1] == r[u]);
        assert(in_interval(t[u - 1], k));
    }
    assert forall|a: int, b: int| 0 <= a < b < t.len() implies #[trigger] t[a].1 < #[trigger] t[b].0 by {
        assert(r[a + 1].1 < r[b + 1].0);
    }
    assert forall|a: int| 0 <= a < t.len() implies #[trigger] t[a].0 < t[a].1 by {
        assert(r[a + 1].0 < r[a + 1].1);
    }
}

/// Separated, non-empty intervals are determined by the points they cover:
/// two such sequences covering the same points are equal.  So the result of
/// `allowed_ranges` is fixed by the excluded points (for instance, with 90–180
/// and 340–30 excluded exactly the arcs 30–90 and 180–340 remain).
pub proof fn lemma_separated_cover_unique(r1: Seq<(u32, u32)>, r2: Seq<(u32, u32)>)
    requires
        separated(r1),
        separated(r2),
        non_empty(r1),
        non_empty(r2),
        forall|k: int| covered(r1, k) <==> covered(r2, k),
    ensures
        r1 == r2,
    decreases r1.len(),
{
    if r1.len() == 0 || r2.len() == 0 {
        if r2.len() > 0 {
            assert(in_interval(r2[0], r2[0].0 as int));
            assert(covered(r2, r2[0].0 as int));
        }
        if r1.len() > 0 {
            assert(in_interval(r1[0], r1[0].0 as int));
            assert(covered(r1, r1[0].0 as int));
        }
        assert(r1 =~= r2);
    } else {
        let (a1, b1) = r1[0];
        let (a2, b2) = r2[0];
        assert(in_interval(r1[0], a1 as int));
        assert(covered(r1, a1 as int));
        lemma_first_start(r2, a1 as int);
        assert(in_interval(r2[0], a2 as int));
        assert(covered(r2, a2 as int));
        lemma_first_start(r1, a2 as int);
        lemma_first_end_uncovered(r1);
        lemma_first_end_uncovered(r2);
        if b1 < b2 {
            assert(in_interval(r2[0], b1 as int));
            assert(covered(r2, b1 as int));
        }
        if b2 < b1 {
            assert(in_interval(r1[0], b2 as int));
            assert(covered(r1, b2 as int));
        }
        assert forall|k: int| covered(r1.drop_first(), k) <==> covered(r2.drop_first(), k) by {
            lemma_tail_cover(r1, k);
            lemma_tail_cover(r2, k);
        }
        lemma_tail_cover(r1, 0);
        lemma_tail_cover(r2, 0);
        lemma_separated_cover_unique(r1.drop_first(), r2.drop_first());
        assert(r1 =~= seq![r1[0]] + r1.drop_first());
        assert(r2 =~= seq![r2[0]] + r2.drop_first());
    }
}

} // verus!
