//! Putting things in order, without moving them: a sort yields the places of the entries.
use vstd::prelude::*;
use vstd::set_lib::{lemma_int_range, lemma_subset_equality, set_int_range};

use crate::text::{text_at_most, text_le, text_le_total, text_le_transitive};

verus! {

/// Entries that can be put in order.
pub trait Ranked {
    /// How many entries there are.
    spec fn count(&self) -> nat;

    /// Whether entry `i` may stand in front of entry `j`.
    spec fn at_most(&self, i: int, j: int) -> bool;

    /// Of two entries, one may stand in front of the other.
    proof fn total(&self, i: int, j: int)
        requires
            0 <= i < self.count(),
            0 <= j < self.count(),
        ensures
            self.at_most(i, j) || self.at_most(j, i),
    ;

    /// What may stand in front of an entry may stand in front of all behind it.
    proof fn transitive(&self, i: int, j: int, k: int)
        requires
            0 <= i < self.count(),
            0 <= j < self.count(),
            0 <= k < self.count(),
            self.at_most(i, j),
            self.at_most(j, k),
        ensures
            self.at_most(i, k),
    ;

    fn may_precede(&self, i: usize, j: usize) -> (yes: bool)
        requires
            i < self.count(),
            j < self.count(),
        ensures
            yes == self.at_most(i as int, j as int),
    ;
}

/// Whether entry `i` stands in front of entry `j` in a stable order: entries that could stand
/// either way keep their places.
pub open spec fn ranks<T: Ranked>(t: &T, i: int, j: int) -> bool {
    &&& t.at_most(i, j)
    &&& t.at_most(j, i) ==> i < j
}

/// Whether `order` holds the places from `lo` to `hi`, each once, in a stable order.
pub open spec fn is_order<T: Ranked>(t: &T, order: Seq<usize>, lo: int, hi: int) -> bool {
    &&& order.len() == hi - lo
    &&& forall|i: int| 0 <= i < order.len() ==> lo <= #[trigger] order[i] < hi
    &&& forall|i: int, j: int| 0 <= i < j < order.len() ==> order[i] != order[j]
    &&& forall|i: int, j: int|
        0 <= i < j < order.len() ==> ranks(t, #[trigger] order[i] as int, #[trigger] order[j] as int)
}

/// The places of all entries, in a stable order.
pub fn sorted_order<T: Ranked>(t: &T, n: usize) -> (order: Vec<usize>)
    requires
        n == t.count(),
    ensures
        is_order(t, order@, 0, n as int),
{
    sort_range(t, 0, n)
}

fn sort_range<T: Ranked>(t: &T, lo: usize, hi: usize) -> (order: Vec<usize>)
    requires
        lo <= hi <= t.count(),
    ensures
        is_order(t, order@, lo as int, hi as int),
    decreases hi - lo,
{
    if hi - lo <= 1 {
        let mut order: Vec<usize> = Vec::new();
        if lo < hi {
            order.push(lo);
        }
        return order;
    }
    let mid: usize = lo + (hi - lo) / 2;
    let left = sort_range(t, lo, mid);
    let right = sort_range(t, mid, hi);
    merge(t, left, right, Ghost(lo as int), Ghost(mid as int), Ghost(hi as int))
}

/// How far a merge has come: `i` entries of the left and `j` of the right stand in `out`.
spec fn merged<T: Ranked>(
    t: &T,
    left: Seq<usize>,
    right: Seq<usize>,
    out: Seq<usize>,
    i: int,
    j: int,
) -> bool {
    &&& 0 <= i <= left.len()
    &&& 0 <= j <= right.len()
    &&& out.len() == i + j
    &&& forall|k: int|
        0 <= k < out.len() ==> left.take(i).contains(#[trigger] out[k]) || right.take(j).contains(
            out[k],
        )
    &&& forall|a: int, b: int| 0 <= a < b < out.len() ==> out[a] != out[b]
    &&& forall|a: int, b: int|
        0 <= a < b < out.len() ==> ranks(t, #[trigger] out[a] as int, #[trigger] out[b] as int)
    &&& forall|a: int, b: int|
        0 <= a < i && j <= b < right.len() ==> t.at_most(
            #[trigger] left[a] as int,
            #[trigger] right[b] as int,
        )
    &&& forall|a: int, b: int|
        i <= a < left.len() && 0 <= b < j ==> t.at_most(
            #[trigger] right[b] as int,
            #[trigger] left[a] as int,
        ) && !t.at_most(left[a] as int, right[b] as int)
}

proof fn take_left<T: Ranked>(
    t: &T,
    left: Seq<usize>,
    right: Seq<usize>,
    out: Seq<usize>,
    i: int,
    j: int,
    lo: int,
    mid: int,
    hi: int,
)
    requires
        0 <= lo <= mid <= hi <= t.count(),
        is_order(t, left, lo, mid),
        is_order(t, right, mid, hi),
        merged(t, left, right, out, i, j),
        i < left.len(),
        j < right.len() ==> t.at_most(left[i] as int, right[j] as int),
    ensures
        merged(t, left, right, out.push(left[i]), i + 1, j),
{
    let x = left[i];
    let next = out.push(x);
    assert(left.take(i + 1).contains(x)) by {
        assert(left.take(i + 1)[i] == x);
    }
    assert forall|k: int| 0 <= k < next.len() implies left.take(i + 1).contains(#[trigger] next[k])
        || right.take(j).contains(next[k]) by {
        if k < out.len() && left.take(i).contains(out[k]) {
            let a = choose|a: int| 0 <= a < i && left.take(i)[a] == out[k];
            assert(left.take(i + 1)[a] == out[k]);
        }
    }
    assert forall|k: int| 0 <= k < out.len() implies out[k] != x && ranks(
        t,
        #[trigger] out[k] as int,
        x as int,
    ) by {
        if left.take(i).contains(out[k]) {
            let a = choose|a: int| 0 <= a < i && left.take(i)[a] == out[k];
            assert(left[a] == out[k]);
            assert(ranks(t, left[a] as int, left[i] as int));
        } else {
            let b = choose|b: int| 0 <= b < j && right.take(j)[b] == out[k];
            assert(right[b] == out[k]);
            assert(t.at_most(right[b] as int, left[i] as int));
        }
    }
    assert forall|b: int| j <= b < right.len() implies t.at_most(
        x as int,
        #[trigger] right[b] as int,
    ) by {
        if b > j {
            assert(ranks(t, right[j] as int, right[b] as int));
            t.transitive(x as int, right[j] as int, right[b] as int);
        }
    }
}

proof fn take_right<T: Ranked>(
    t: &T,
    left: Seq<usize>,
    right: Seq<usize>,
    out: Seq<usize>,
    i: int,
    j: int,
    lo: int,
    mid: int,
    hi: int,
)
    requires
        0 <= lo <= mid <= hi <= t.count(),
        is_order(t, left, lo, mid),
        is_order(t, right, mid, hi),
        merged(t, left, right, out, i, j),
        j < right.len(),
        i < left.len() ==> !t.at_most(left[i] as int, right[j] as int),
    ensures
        merged(t, left, right, out.push(right[j]), i, j + 1),
{
    let x = right[j];
    let next = out.push(x);
    assert(right.take(j + 1).contains(x)) by {
        assert(right.take(j + 1)[j] == x);
    }
    assert forall|k: int| 0 <= k < next.len() implies left.take(i).contains(#[trigger] next[k])
        || right.take(j + 1).contains(next[k]) by {
        if k < out.len() && right.take(j).contains(out[k]) {
            let b = choose|b: int| 0 <= b < j && right.take(j)[b] == out[k];
            assert(right.take(j + 1)[b] == out[k]);
        }
    }
    assert forall|k: int| 0 <= k < out.len() implies out[k] != x && ranks(
        t,
        #[trigger] out[k] as int,
        x as int,
    ) by {
        if left.take(i).contains(out[k]) {
            let a = choose|a: int| 0 <= a < i && left.take(i)[a] == out[k];
            assert(left[a] == out[k]);
            assert(t.at_most(left[a] as int, right[j] as int));
        } else {
            let b = choose|b: int| 0 <= b < j && right.take(j)[b] == out[k];
            assert(right[b] == out[k]);
            assert(ranks(t, right[b] as int, right[j] as int));
        }
    }
    assert forall|a: int| i <= a < left.len() implies t.at_most(
        x as int,
        #[trigger] left[a] as int,
    ) && !t.at_most(left[a] as int, x as int) by {
        t.total(left[i] as int, x as int);
        if a > i {
            assert(ranks(t, left[i] as int, left[a] as int));
            t.transitive(x as int, left[i] as int, left[a] as int);
            if t.at_most(left[a] as int, x as int) {
                t.transitive(left[i] as int, left[a] as int, x as int);
            }
        }
    }
}

fn merge<T: Ranked>(
    t: &T,
    left: Vec<usize>,
    right: Vec<usize>,
    Ghost(lo): Ghost<int>,
    Ghost(mid): Ghost<int>,
    Ghost(hi): Ghost<int>,
) -> (out: Vec<usize>)
    requires
        0 <= lo <= mid <= hi <= t.count(),
        is_order(t, left@, lo, mid),
        is_order(t, right@, mid, hi),
    ensures
        is_order(t, out@, lo, hi),
{
    let mut out: Vec<usize> = Vec::new();
    let mut i: usize = 0;
    let mut j: usize = 0;
    while i < left.len() || j < right.len()
        invariant
            0 <= lo <= mid <= hi <= t.count(),
            is_order(t, left@, lo, mid),
            is_order(t, right@, mid, hi),
            merged(t, left@, right@, out@, i as int, j as int),
        decreases left@.len() - i + right@.len() - j,
    {
        let from_left: bool = if i == left.len() {
            false
        } else if j == right.len() {
            true
        } else {
            t.may_precede(left[i], right[j])
        };
        if from_left {
            proof {
                take_left(t, left@, right@, out@, i as int, j as int, lo, mid, hi);
            }
            out.push(left[i]);
            i += 1;
        } else {
            proof {
                take_right(t, left@, right@, out@, i as int, j as int, lo, mid, hi);
            }
            out.push(right[j]);
            j += 1;
        }
    }
    proof {
        assert forall|k: int| 0 <= k < out@.len() implies lo <= #[trigger] out@[k] < hi by {
            if left@.take(i as int).contains(out@[k]) {
                let a = choose|a: int| 0 <= a < i && left@.take(i as int)[a] == out@[k];
                assert(left@[a] == out@[k]);
            } else {
                let b = choose|b: int| 0 <= b < j && right@.take(j as int)[b] == out@[k];
                assert(right@[b] == out@[k]);
            }
        }
    }
    out
}

/// An order of the places below `n` holds every one of them.
pub proof fn order_covers<T: Ranked>(t: &T, order: Seq<usize>, n: int, k: int) -> (i: int)
    requires
        0 <= k < n,
        is_order(t, order, 0, n),
    ensures
        0 <= i < order.len(),
        order[i] == k,
{
    let places = Seq::new(order.len(), |i: int| order[i] as int);
    let range = set_int_range(0, n);
    lemma_int_range(0, n);
    places.unique_seq_to_set();
    assert(places.to_set().subset_of(range)) by {
        assert forall|k: int| places.to_set().contains(k) implies range.contains(k) by {
            let i = choose|i: int| 0 <= i < places.len() && places[i] == k;
            assert(0 <= order[i] < n);
        }
    }
    lemma_subset_equality(places.to_set(), range);
    assert(range.contains(k));
    assert(places.contains(k));
    choose|i: int| 0 <= i < places.len() && places[i] == k
}

/// Whether `top` holds the first `limit` places of a stable order of `n` entries, or all of them if
/// there are fewer.
pub open spec fn is_top<T: Ranked>(t: &T, top: Seq<usize>, n: int, limit: int) -> bool {
    &&& top.len() == (if limit < n {
        limit
    } else {
        n
    })
    &&& forall|i: int| 0 <= i < top.len() ==> 0 <= #[trigger] top[i] < n
    &&& forall|i: int, j: int| 0 <= i < j < top.len() ==> top[i] != top[j]
    &&& forall|i: int, j: int|
        0 <= i < j < top.len() ==> ranks(t, #[trigger] top[i] as int, #[trigger] top[j] as int)
    &&& forall|p: int|
        0 <= p < n ==> top.contains(p as usize) || #[trigger] is_behind(t, top, p)
}

/// Whether a place ranks behind all of these.
pub open spec fn is_behind<T: Ranked>(t: &T, top: Seq<usize>, p: int) -> bool {
    forall|i: int| 0 <= i < top.len() ==> ranks(t, #[trigger] top[i] as int, p)
}

/// The first places in a stable order.
pub fn top_places<T: Ranked>(t: &T, n: usize, limit: usize) -> (top: Vec<usize>)
    requires
        n == t.count(),
    ensures
        is_top(t, top@, n as int, limit as int),
{
    let mut order = sorted_order(t, n);
    let ghost all = order@;
    if limit < n {
        order.truncate(limit);
    }
    proof {
        let cut = if limit < n {
            limit as int
        } else {
            n as int
        };
        assert(order@ =~= all.take(cut));
        assert forall|p: int| 0 <= p < n implies order@.contains(p as usize) || #[trigger] is_behind(
            t,
            order@,
            p,
        ) by {
            let m = order_covers(t, all, n as int, p);
            if m < cut {
                assert(order@[m] == p as usize);
            } else {
                assert forall|i: int| 0 <= i < order@.len() implies ranks(
                    t,
                    #[trigger] order@[i] as int,
                    p,
                ) by {
                    assert(ranks(t, all[i] as int, all[m] as int));
                }
            }
        }
    }
    order
}

/// Texts with weights, the heaviest first, then by text.
pub struct Weighed {
    pub names: Vec<String>,
    pub weights: Vec<u64>,
}

impl Ranked for Weighed {
    open spec fn count(&self) -> nat {
        if self.names@.len() == self.weights@.len() {
            self.names@.len()
        } else {
            0
        }
    }

    open spec fn at_most(&self, i: int, j: int) -> bool {
        ||| self.weights@[i] > self.weights@[j]
        ||| self.weights@[i] == self.weights@[j] && text_le(self.names@[i]@, self.names@[j]@)
    }

    proof fn total(&self, i: int, j: int) {
        text_le_total(self.names@[i]@, self.names@[j]@);
    }

    proof fn transitive(&self, i: int, j: int, k: int) {
        if self.weights@[i] == self.weights@[j] && self.weights@[j] == self.weights@[k] {
            text_le_transitive(self.names@[i]@, self.names@[j]@, self.names@[k]@);
        }
    }

    fn may_precede(&self, i: usize, j: usize) -> (yes: bool) {
        self.weights[i] > self.weights[j] || (self.weights[i] == self.weights[j] && text_at_most(
            self.names[i].as_str(),
            self.names[j].as_str(),
        ))
    }
}

} // verus!
