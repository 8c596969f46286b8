//! What a profile says of the samples it was made from.
use vstd::prelude::*;

use super::methods::MethodModel;
use super::state::{
    a_stack_counts_once, charged, charged_hidden, label_of, recording_keeps_order, with_stack,
    ProfileModel,
};
use super::tally::{
    count_of, counting_adds_one, counts_are_bounded, distinct_addresses, place_of, sum_of,
    with_one, Counts,
};

verus! {

/// The profile of some stacks, each innermost-first.
pub open spec fn profile_of(stacks: Seq<Seq<u64>>) -> ProfileModel
    decreases stacks.len(),
{
    if stacks.len() == 0 {
        ProfileModel::blank()
    } else {
        profile_of(stacks.drop_last()).recorded(stacks.last())
    }
}

/// How many stacks have an address innermost.
pub open spec fn stacks_ending_in(stacks: Seq<Seq<u64>>, address: u64) -> int
    decreases stacks.len(),
{
    if stacks.len() == 0 {
        0
    } else {
        stacks_ending_in(stacks.drop_last(), address) + (if stacks.last().len() > 0
            && stacks.last()[0] == address {
            1int
        } else {
            0int
        })
    }
}

/// How many stacks hold an address anywhere.
pub open spec fn stacks_holding(stacks: Seq<Seq<u64>>, address: u64) -> int
    decreases stacks.len(),
{
    if stacks.len() == 0 {
        0
    } else {
        stacks_holding(stacks.drop_last(), address) + (if stacks.last().contains(address) {
            1int
        } else {
            0int
        })
    }
}

/// How many stacks are not empty.
pub open spec fn usable_stacks(stacks: Seq<Seq<u64>>) -> int
    decreases stacks.len(),
{
    if stacks.len() == 0 {
        0
    } else {
        usable_stacks(stacks.drop_last()) + (if stacks.last().len() > 0 {
            1int
        } else {
            0int
        })
    }
}

/// The self count of an address is the number of stacks it was innermost on; its total count is
/// the number of stacks it was on at all, however often it recurred there; and the usable samples
/// are the stacks that were not empty.
pub proof fn counts_are_numbers_of_stacks(stacks: Seq<Seq<u64>>, address: u64)
    requires
        stacks.len() < u64::MAX,
    ensures
        profile_of(stacks).valid(),
        profile_of(stacks).samples == stacks.len(),
        profile_of(stacks).unresolved_stacks == 0,
        profile_of(stacks).usable() == usable_stacks(stacks),
        count_of(profile_of(stacks).self_counts, address) == stacks_ending_in(stacks, address),
        count_of(profile_of(stacks).total_counts, address) == stacks_holding(stacks, address),
    decreases stacks.len(),
{
    if stacks.len() == 0 {
        assert forall|a: u64|
            #![trigger count_of(ProfileModel::blank().self_counts, a)]
            #![trigger count_of(ProfileModel::blank().total_counts, a)]
            count_of(ProfileModel::blank().self_counts, a) <= count_of(
                ProfileModel::blank().total_counts,
                a,
            ) <= ProfileModel::blank().usable() by {}
    } else {
        let before = profile_of(stacks.drop_last());
        let frames = stacks.last();
        counts_are_numbers_of_stacks(stacks.drop_last(), address);
        counts_are_bounded(before.self_counts, address);
        recording_keeps_order(before, frames);
        if frames.len() > 0 {
            assert forall|a: u64| #[trigger] count_of(before.total_counts, a) < u64::MAX by {}
            assert(count_of(before.self_counts, frames[0]) < u64::MAX);
            counting_adds_one(before.self_counts, frames[0], address);
            a_stack_counts_once(before.total_counts, frames, frames.len(), address);
            assert(frames.take(frames.len() as int) =~= frames);
        }
    }
}

/// Every usable sample is charged either to work or to waiting.
pub proof fn samples_are_split(
    m: ProfileModel,
    methods: Seq<MethodModel>,
    include_waiting: bool,
)
    requires
        m.valid(),
    ensures
        0 <= charged_hidden(m.self_counts, methods, include_waiting, m.self_counts.len())
            <= m.usable(),
{
    hidden_is_part(m.self_counts, methods, include_waiting, m.self_counts.len());
    assert(m.self_counts.take(m.self_counts.len() as int) =~= m.self_counts);
}

proof fn hidden_is_part(
    counts: Counts,
    methods: Seq<MethodModel>,
    include_waiting: bool,
    n: nat,
)
    requires
        n <= counts.len(),
    ensures
        0 <= charged_hidden(counts, methods, include_waiting, n) <= sum_of(counts.take(n as int)),
    decreases n,
{
    if n > 0 {
        hidden_is_part(counts, methods, include_waiting, (n - 1) as nat);
        assert(counts.take(n as int).drop_last() =~= counts.take(n - 1));
    }
}

// ---------------------------------------------------------------------------------------------
// By name

pub(crate) proof fn charged_prefix(
    a: Counts,
    b: Counts,
    methods: Seq<MethodModel>,
    name: Seq<char>,
    n: nat,
)
    requires
        n <= a.len(),
        n <= b.len(),
        forall|i: int| 0 <= i < n ==> a[i] == b[i],
    ensures
        charged(a, methods, name, n) == charged(b, methods, name, n),
    decreases n,
{
    if n > 0 {
        charged_prefix(a, b, methods, name, (n - 1) as nat);
    }
}

/// What one entry adds to a name.
pub open spec fn share(entry: (u64, u64), methods: Seq<MethodModel>, name: Seq<char>) -> int {
    if label_of(methods, entry.0) == name {
        entry.1 as int
    } else {
        0
    }
}

proof fn charged_update(
    counts: Counts,
    methods: Seq<MethodModel>,
    name: Seq<char>,
    n: nat,
    i: int,
    entry: (u64, u64),
)
    requires
        0 <= i < n <= counts.len(),
    ensures
        charged(counts.update(i, entry), methods, name, n) == charged(counts, methods, name, n)
            - share(counts[i], methods, name) + share(entry, methods, name),
    decreases n,
{
    let after = counts.update(i, entry);
    if i == n - 1 {
        charged_prefix(after, counts, methods, name, (n - 1) as nat);
    } else {
        charged_update(counts, methods, name, (n - 1) as nat, i, entry);
    }
}

pub(crate) proof fn charged_with_one(
    counts: Counts,
    methods: Seq<MethodModel>,
    name: Seq<char>,
    address: u64,
)
    requires
        distinct_addresses(counts),
        count_of(counts, address) < u64::MAX,
    ensures
        charged(with_one(counts, address), methods, name, with_one(counts, address).len())
            == charged(counts, methods, name, counts.len()) + (if label_of(methods, address)
            == name {
            1int
        } else {
            0int
        }),
{
    let after = with_one(counts, address);
    match place_of(counts, address) {
        Some(i) => {
            assert(counts[i].0 == address);
            charged_update(counts, methods, name, counts.len(), i, after[i]);
        },
        None => {
            charged_prefix(after, counts, methods, name, counts.len());
        },
    }
}

proof fn charged_remove(
    counts: Counts,
    methods: Seq<MethodModel>,
    name: Seq<char>,
    i: int,
    n: nat,
)
    requires
        0 <= i < n <= counts.len(),
    ensures
        charged(counts.remove(i), methods, name, (n - 1) as nat) == charged(
            counts,
            methods,
            name,
            n,
        ) - share(counts[i], methods, name),
    decreases n,
{
    let after = counts.remove(i);
    if i == n - 1 {
        charged_prefix(after, counts, methods, name, (n - 1) as nat);
    } else {
        charged_remove(counts, methods, name, i, (n - 1) as nat);
        assert(after[n - 2] == counts[n - 1]);
    }
}

proof fn charged_is_positive(
    counts: Counts,
    methods: Seq<MethodModel>,
    name: Seq<char>,
    n: nat,
)
    requires
        n <= counts.len(),
    ensures
        charged(counts, methods, name, n) >= 0,
    decreases n,
{
    if n > 0 {
        charged_is_positive(counts, methods, name, (n - 1) as nat);
    }
}

proof fn count_is_entry(counts: Counts, i: int)
    requires
        distinct_addresses(counts),
        0 <= i < counts.len(),
    ensures
        count_of(counts, counts[i].0) == counts[i].1,
{
    let k = place_of(counts, counts[i].0)->0;
    assert(counts[i].0 == counts[i].0);
    if k < i {
        assert(counts[k].0 != counts[i].0);
    }
    if i < k {
        assert(counts[i].0 != counts[k].0);
    }
}

proof fn smaller_counts_charge_less(
    a: Counts,
    b: Counts,
    methods: Seq<MethodModel>,
    name: Seq<char>,
)
    requires
        distinct_addresses(a),
        distinct_addresses(b),
        forall|x: u64| #[trigger] count_of(a, x) <= count_of(b, x),
    ensures
        charged(a, methods, name, a.len()) <= charged(b, methods, name, b.len()),
    decreases a.len(),
{
    charged_is_positive(b, methods, name, b.len());
    if a.len() > 0 {
        let last = a.last();
        let rest = a.drop_last();
        count_is_entry(a, a.len() - 1);
        assert(count_of(a, last.0) == last.1);
        charged_prefix(a, rest, methods, name, rest.len());
        assert forall|i: int, j: int| 0 <= i < j < rest.len() implies (#[trigger] rest[i]).0 != (
        #[trigger] rest[j]).0 by {
            assert(a[i].0 != a[j].0);
        }
        match place_of(b, last.0) {
            Some(k) => {
                let fewer = b.remove(k);
                assert forall|i: int, j: int| 0 <= i < j < fewer.len() implies (
                #[trigger] fewer[i]).0 != (#[trigger] fewer[j]).0 by {
                    let x = if i < k { i } else { i + 1 };
                    let y = if j < k { j } else { j + 1 };
                    assert(fewer[i] == b[x] && fewer[j] == b[y]);
                    assert(b[x].0 != b[y].0);
                }
                assert forall|x: u64| #[trigger] count_of(rest, x) <= count_of(fewer, x) by {
                    removed_counts(a, a.len() - 1, x);
                    removed_counts(b, k, x);
                    assert(a.remove(a.len() - 1) =~= rest);
                    assert(count_of(a, x) <= count_of(b, x));
                }
                smaller_counts_charge_less(rest, fewer, methods, name);
                charged_remove(b, methods, name, k, b.len());
                count_is_entry(b, k);
            },
            None => {
                assert(last.1 == 0);
                assert forall|x: u64| #[trigger] count_of(rest, x) <= count_of(b, x) by {
                    removed_counts(a, a.len() - 1, x);
                    assert(a.remove(a.len() - 1) =~= rest);
                    assert(count_of(a, x) <= count_of(b, x));
                }
                smaller_counts_charge_less(rest, b, methods, name);
            },
        }
    }
}

proof fn removed_counts(counts: Counts, k: int, x: u64)
    requires
        distinct_addresses(counts),
        0 <= k < counts.len(),
    ensures
        count_of(counts.remove(k), x) == (if x == counts[k].0 {
            0
        } else {
            count_of(counts, x)
        }),
{
    let after = counts.remove(k);
    if x == counts[k].0 {
        if let Some(i) = place_of(after, x) {
            let y = if i < k { i } else { i + 1 };
            assert(after[i] == counts[y]);
            if y < k {
                assert(counts[y].0 != counts[k].0);
            } else {
                assert(counts[k].0 != counts[y].0);
            }
        }
    } else {
        if let Some(y) = place_of(counts, x) {
            let i = if y < k { y } else { y - 1 };
            assert(after[i] == counts[y]);
            assert(after[i].0 == x);
            let z = place_of(after, x)->0;
            let w = if z < k { z } else { z + 1 };
            assert(after[z] == counts[w]);
            if w < y {
                assert(counts[w].0 != counts[y].0);
            }
            if y < w {
                assert(counts[y].0 != counts[w].0);
            }
        } else {
            if let Some(i) = place_of(after, x) {
                let y = if i < k { i } else { i + 1 };
                assert(after[i] == counts[y]);
                assert(counts[y].0 == x);
            }
        }
    }
}

/// A method's total time is never less than its self time.
pub proof fn total_includes_self(m: ProfileModel, methods: Seq<MethodModel>, name: Seq<char>)
    requires
        m.valid(),
    ensures
        charged(m.self_counts, methods, name, m.self_counts.len()) <= charged(
            m.total_counts,
            methods,
            name,
            m.total_counts.len(),
        ),
{
    assert forall|x: u64| #[trigger] count_of(m.self_counts, x) <= count_of(
        m.total_counts,
        x,
    ) by {}
    smaller_counts_charge_less(m.self_counts, m.total_counts, methods, name);
}

/// A method's self time is never more than all the time there is.
pub proof fn self_is_at_most_everything(
    m: ProfileModel,
    methods: Seq<MethodModel>,
    name: Seq<char>,
)
    requires
        m.valid(),
    ensures
        charged(m.self_counts, methods, name, m.self_counts.len()) <= m.usable(),
{
    charged_is_part(m.self_counts, methods, name, m.self_counts.len());
    assert(m.self_counts.take(m.self_counts.len() as int) =~= m.self_counts);
}

proof fn charged_is_part(
    counts: Counts,
    methods: Seq<MethodModel>,
    name: Seq<char>,
    n: nat,
)
    requires
        n <= counts.len(),
    ensures
        charged(counts, methods, name, n) <= sum_of(counts.take(n as int)),
    decreases n,
{
    if n > 0 {
        charged_is_part(counts, methods, name, (n - 1) as nat);
        assert(counts.take(n as int).drop_last() =~= counts.take(n - 1));
    }
}

/// Whether no stack holds two different addresses that go by a name.
pub open spec fn once_per_stack(
    stacks: Seq<Seq<u64>>,
    methods: Seq<MethodModel>,
    name: Seq<char>,
) -> bool {
    forall|s: int, i: int, j: int|
        0 <= s < stacks.len() && 0 <= i < stacks[s].len() && 0 <= j < stacks[s].len() && label_of(
            methods,
            #[trigger] stacks[s][i],
        ) == name && label_of(methods, #[trigger] stacks[s][j]) == name ==> stacks[s][i]
            == stacks[s][j]
}

pub(crate) proof fn charged_with_stack(
    counts: Counts,
    frames: Seq<u64>,
    n: nat,
    methods: Seq<MethodModel>,
    name: Seq<char>,
)
    requires
        n <= frames.len(),
        distinct_addresses(counts),
        forall|a: u64| #[trigger] count_of(counts, a) < u64::MAX,
        forall|i: int, j: int|
            0 <= i < frames.len() && 0 <= j < frames.len() && label_of(methods, #[trigger] frames[i])
                == name && label_of(methods, #[trigger] frames[j]) == name ==> frames[i]
                == frames[j],
    ensures
        ({
            let after = with_stack(counts, frames, n);
            let more = charged(after, methods, name, after.len()) - charged(
                counts,
                methods,
                name,
                counts.len(),
            );
            &&& 0 <= more <= 1
            &&& (forall|k: int| 0 <= k < n ==> label_of(methods, #[trigger] frames[k]) != name)
                ==> more == 0
            &&& (exists|k: int| 0 <= k < n && label_of(methods, #[trigger] frames[k]) == name)
                ==> more == 1
        }),
    decreases n,
{
    if n > 0 {
        let before = with_stack(counts, frames, (n - 1) as nat);
        let x = frames[n - 1];
        charged_with_stack(counts, frames, (n - 1) as nat, methods, name);
        a_stack_counts_once(counts, frames, (n - 1) as nat, x);
        if !frames.take(n - 1).contains(x) {
            assert(count_of(counts, x) < u64::MAX);
            charged_with_one(before, methods, name, x);
            if label_of(methods, x) == name {
                assert forall|k: int| 0 <= k < n - 1 implies label_of(
                    methods,
                    #[trigger] frames[k],
                ) != name by {
                    if label_of(methods, frames[k]) == name {
                        assert(frames[k] == frames[n - 1]);
                        assert(frames.take(n - 1)[k] == x);
                    }
                }
            }
        }
    }
}

/// A method that is on every stack cannot take more than all the time there is, as long as no stack
/// holds two different addresses of it.
pub proof fn total_is_at_most_everything(
    stacks: Seq<Seq<u64>>,
    methods: Seq<MethodModel>,
    name: Seq<char>,
)
    requires
        stacks.len() < u64::MAX,
        once_per_stack(stacks, methods, name),
    ensures
        charged(
            profile_of(stacks).total_counts,
            methods,
            name,
            profile_of(stacks).total_counts.len(),
        ) <= profile_of(stacks).usable(),
    decreases stacks.len(),
{
    if stacks.len() > 0 {
        let earlier = stacks.drop_last();
        let before = profile_of(earlier);
        let frames = stacks.last();
        assert(once_per_stack(earlier, methods, name)) by {
            assert forall|s: int, i: int, j: int|
                0 <= s < earlier.len() && 0 <= i < earlier[s].len() && 0 <= j < earlier[s].len()
                    && label_of(methods, #[trigger] earlier[s][i]) == name && label_of(
                    methods,
                    #[trigger] earlier[s][j],
                ) == name implies earlier[s][i] == earlier[s][j] by {
                assert(stacks[s][i] == earlier[s][i] && stacks[s][j] == earlier[s][j]);
            }
        }
        total_is_at_most_everything(earlier, methods, name);
        counts_are_numbers_of_stacks(earlier, 0);
        counts_are_numbers_of_stacks(stacks, 0);
        if frames.len() > 0 {
            assert forall|a: u64| #[trigger] count_of(before.total_counts, a) < u64::MAX by {}
            assert forall|i: int, j: int|
                0 <= i < frames.len() && 0 <= j < frames.len() && label_of(
                    methods,
                    #[trigger] frames[i],
                ) == name && label_of(methods, #[trigger] frames[j]) == name implies frames[i]
                == frames[j] by {
                let s = stacks.len() - 1;
                assert(stacks[s][i] == frames[i] && stacks[s][j] == frames[j]);
            }
            charged_with_stack(before.total_counts, frames, frames.len(), methods, name);
        }
    }
}

} // verus!
