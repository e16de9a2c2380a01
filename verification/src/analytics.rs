//! The connection log and its rollups. The log only grows; every rollup is a
//! function of the log, and of the time of reading where it speaks of the
//! last days.

use vstd::prelude::*;
use crate::text::{
    decimal, digit_char, lemma_text_lt_strict_total, push_decimal, push_text, str_eq, text_less,
    text_lt,
};

verus! {

/// Seconds in a day.
pub const DAY: i64 = 86_400;

/// How many entries a ranking keeps.
pub const TOP: usize = 10;

/// One finished session. `timestamp` is in seconds since the Unix epoch,
/// `duration` in seconds.
#[derive(Debug)]
pub struct ConnectionLog {
    pub timestamp: i64,
    pub server_id: String,
    pub server_name: String,
    pub country: String,
    pub duration: u64,
    pub bytes_sent: u64,
    pub bytes_received: u64,
    pub disconnection_reason: Option<String>,
}

impl Clone for ConnectionLog {
    fn clone(&self) -> (r: Self)
        ensures
            r == *self,
    {
        ConnectionLog {
            timestamp: self.timestamp,
            server_id: self.server_id.clone(),
            server_name: self.server_name.clone(),
            country: self.country.clone(),
            duration: self.duration,
            bytes_sent: self.bytes_sent,
            bytes_received: self.bytes_received,
            disconnection_reason: match &self.disconnection_reason {
                Some(m) => Some(m.clone()),
                None => None,
            },
        }
    }
}

/// The rollups of the log. Durations are in seconds; a ranking lists names
/// with the number of sessions of each.
#[derive(Debug)]
pub struct UsageStatistics {
    pub total_connections: u64,
    pub total_data_sent: u64,
    pub total_data_received: u64,
    pub total_duration: u64,
    pub average_session_duration: u64,
    pub most_used_countries: Vec<(String, u32)>,
    pub most_used_servers: Vec<(String, u32)>,
    pub last_30_days_data: u64,
}

/// A copy of a ranking.
fn copy_counts(list: &Vec<(String, u32)>) -> (r: Vec<(String, u32)>)
    ensures
        r@ == list@,
{
    let mut out: Vec<(String, u32)> = Vec::new();
    let mut i: usize = 0;
    while i < list.len()
        invariant
            i <= list.len(),
            out@ == list@.take(i as int),
        decreases list.len() - i,
    {
        out.push((list[i].0.clone(), list[i].1));
        assert(out@ =~= list@.take(i + 1));
        i += 1;
    }
    assert(list@.take(list.len() as int) =~= list@);
    out
}

impl Clone for UsageStatistics {
    fn clone(&self) -> (r: Self)
        ensures
            r.total_connections == self.total_connections,
            r.total_data_sent == self.total_data_sent,
            r.total_data_received == self.total_data_received,
            r.total_duration == self.total_duration,
            r.average_session_duration == self.average_session_duration,
            r.most_used_countries@ == self.most_used_countries@,
            r.most_used_servers@ == self.most_used_servers@,
            r.last_30_days_data == self.last_30_days_data,
    {
        UsageStatistics {
            total_connections: self.total_connections,
            total_data_sent: self.total_data_sent,
            total_data_received: self.total_data_received,
            total_duration: self.total_duration,
            average_session_duration: self.average_session_duration,
            most_used_countries: copy_counts(&self.most_used_countries),
            most_used_servers: copy_counts(&self.most_used_servers),
            last_30_days_data: self.last_30_days_data,
        }
    }
}

/// The sum of a list of numbers, folded from the left.
pub open spec fn total(values: Seq<nat>) -> nat
    decreases values.len(),
{
    if values.len() == 0 {
        0
    } else {
        total(values.drop_last()) + values.last()
    }
}

/// The bytes sent, entry by entry.
pub open spec fn sent_of(log: Seq<ConnectionLog>) -> Seq<nat> {
    Seq::new(log.len(), |i: int| log[i].bytes_sent as nat)
}

/// The bytes received, entry by entry.
pub open spec fn received_of(log: Seq<ConnectionLog>) -> Seq<nat> {
    Seq::new(log.len(), |i: int| log[i].bytes_received as nat)
}

/// The durations, entry by entry.
pub open spec fn durations_of(log: Seq<ConnectionLog>) -> Seq<nat> {
    Seq::new(log.len(), |i: int| log[i].duration as nat)
}

/// The bytes of each entry, both ways, counted only where the entry is later
/// than `cut`.
pub open spec fn bytes_after(log: Seq<ConnectionLog>, cut: int) -> Seq<nat> {
    Seq::new(
        log.len(),
        |i: int|
            if log[i].timestamp > cut {
                (log[i].bytes_sent + log[i].bytes_received) as nat
            } else {
                0nat
            },
    )
}

/// Each country of the log once per session, with the weight one.
pub open spec fn country_sessions(log: Seq<ConnectionLog>) -> Seq<(Seq<char>, nat)> {
    Seq::new(log.len(), |i: int| (log[i].country@, 1nat))
}

/// Each server name of the log once per session, with the weight one.
pub open spec fn server_sessions(log: Seq<ConnectionLog>) -> Seq<(Seq<char>, nat)> {
    Seq::new(log.len(), |i: int| (log[i].server_name@, 1nat))
}

/// The sum of the weights that `entries` gives to `name`.
pub open spec fn amount_of(entries: Seq<(Seq<char>, nat)>, name: Seq<char>) -> nat
    decreases entries.len(),
{
    if entries.len() == 0 {
        0
    } else {
        amount_of(entries.drop_last(), name) + (if entries.last().0 == name {
            entries.last().1
        } else {
            0
        })
    }
}

/// Whether some entry carries the name.
pub open spec fn names(entries: Seq<(Seq<char>, nat)>, name: Seq<char>) -> bool {
    exists|i: int| 0 <= i < entries.len() && (#[trigger] entries[i]).0 == name
}

/// Whether the entry stands in the list.
pub open spec fn lists(list: Seq<(Seq<char>, nat)>, e: (Seq<char>, nat)) -> bool {
    exists|i: int| 0 <= i < list.len() && #[trigger] list[i] == e
}

/// `list` groups `entries` by name: it lists every name of `entries` exactly
/// once, with the sum of its weights.
pub open spec fn is_grouping(list: Seq<(Seq<char>, nat)>, entries: Seq<(Seq<char>, nat)>) -> bool {
    &&& forall|i: int, j: int|
        0 <= i < list.len() && 0 <= j < list.len() && i != j ==> (#[trigger] list[i]).0 != (
        #[trigger] list[j]).0
    &&& forall|i: int|
        0 <= i < list.len() ==> names(entries, (#[trigger] list[i]).0) && list[i].1 == amount_of(
            entries,
            list[i].0,
        )
    &&& forall|k: int| 0 <= k < entries.len() ==> names(list, (#[trigger] entries[k]).0)
}

/// `a` stands before `b` in a ranking: it has the larger number, or the same
/// number and the name that comes first in lexicographic order.
pub open spec fn precedes(a: (Seq<char>, nat), b: (Seq<char>, nat)) -> bool {
    a.1 > b.1 || (a.1 == b.1 && text_lt(a.0, b.0))
}

/// `list` is the ranking of the `k` foremost names of `entries`: each with
/// the sum of its weights, in ranking order, and every name that is left out
/// stands behind all `k` that are listed.
pub open spec fn is_top(
    list: Seq<(Seq<char>, nat)>,
    entries: Seq<(Seq<char>, nat)>,
    k: nat,
) -> bool {
    &&& list.len() <= k
    &&& forall|i: int|
        0 <= i < list.len() ==> names(entries, (#[trigger] list[i]).0) && list[i].1 == amount_of(
            entries,
            list[i].0,
        )
    &&& forall|i: int, j: int|
        0 <= i < j < list.len() ==> precedes(#[trigger] list[i], #[trigger] list[j])
    &&& forall|n: int|
        0 <= n < entries.len() ==> names(list, (#[trigger] entries[n]).0) || (list.len() == k
            && forall|i: int|
            0 <= i < list.len() ==> precedes(
                #[trigger] list[i],
                (entries[n].0, amount_of(entries, entries[n].0)),
            ))
}

/// A list of names with 32-bit numbers, as the rollups see it.
pub open spec fn counted(v: Seq<(String, u32)>) -> Seq<(Seq<char>, nat)> {
    Seq::new(v.len(), |i: int| (v[i].0@, v[i].1 as nat))
}

/// A list of names with 64-bit numbers, as the rollups see it.
pub open spec fn weighed(v: Seq<(String, u64)>) -> Seq<(Seq<char>, nat)> {
    Seq::new(v.len(), |i: int| (v[i].0@, v[i].1 as nat))
}

/// Labels and amounts, paired position by position.
pub open spec fn paired(labels: Seq<String>, amounts: Seq<u64>) -> Seq<(Seq<char>, nat)> {
    Seq::new(labels.len(), |i: int| (labels[i]@, amounts[i] as nat))
}

/// The sum of a list grows with every entry, and no part of it exceeds the
/// whole.
pub proof fn lemma_total(values: Seq<nat>, i: int)
    requires
        0 <= i <= values.len(),
    ensures
        total(values.take(i)) <= total(values),
        i < values.len() ==> total(values.take(i + 1)) == total(values.take(i)) + values[i],
        i < values.len() ==> values[i] <= total(values),
    decreases values.len() - i,
{
    if i < values.len() {
        assert(values.take(i + 1).drop_last() =~= values.take(i));
        lemma_total(values, i + 1);
    } else {
        assert(values.take(i) =~= values);
    }
}

/// The weight of a name grows by the weight of each new entry that carries
/// it.
pub proof fn lemma_amount_push(entries: Seq<(Seq<char>, nat)>, e: (Seq<char>, nat), name: Seq<char>)
    ensures
        amount_of(entries.push(e), name) == amount_of(entries, name) + (if e.0 == name {
            e.1
        } else {
            0
        }),
{
    assert(entries.push(e).drop_last() =~= entries);
}

/// A name that no entry carries has no weight, and the weight of a name is
/// no more than the sum of all weights.
pub proof fn lemma_amount_bounds(entries: Seq<(Seq<char>, nat)>, name: Seq<char>)
    ensures
        !names(entries, name) ==> amount_of(entries, name) == 0,
        amount_of(entries, name) <= total(Seq::new(entries.len(), |i: int| entries[i].1)),
    decreases entries.len(),
{
    let weights = Seq::new(entries.len(), |i: int| entries[i].1);
    if entries.len() > 0 {
        let front = entries.drop_last();
        lemma_amount_bounds(front, name);
        assert(weights.drop_last() =~= Seq::new(front.len(), |i: int| front[i].1));
        if !names(entries, name) {
            assert forall|i: int| 0 <= i < front.len() implies (#[trigger] front[i]).0 != name by {
                assert(entries[i].0 != name);
            }
            assert(entries[entries.len() - 1].0 != name);
        }
    }
}

/// The ranking order is a strict total order on entries with different
/// names.
pub proof fn lemma_precedes(a: (Seq<char>, nat), b: (Seq<char>, nat), c: (Seq<char>, nat))
    ensures
        !precedes(a, a),
        !(precedes(a, b) && precedes(b, a)),
        a.0 != b.0 ==> precedes(a, b) || precedes(b, a),
        precedes(a, b) && precedes(b, c) ==> precedes(a, c),
{
    lemma_text_lt_strict_total(a.0, b.0, c.0);
}

/// Where the name stands in the list.
fn position_of(list: &Vec<(String, u64)>, name: &str) -> (r: Option<usize>)
    ensures
        match r {
            Some(j) => j < list.len() && list[j as int].0@ == name@,
            None => !names(weighed(list@), name@),
        },
{
    let mut j: usize = 0;
    while j < list.len()
        invariant
            j <= list.len(),
            forall|t: int| 0 <= t < j ==> (#[trigger] list[t]).0@ != name@,
        decreases list.len() - j,
    {
        if str_eq(list[j].0.as_str(), name) {
            return Some(j);
        }
        j += 1;
    }
    proof {
        if names(weighed(list@), name@) {
            let t = choose|t: int|
                0 <= t < weighed(list@).len() && (#[trigger] weighed(list@)[t]).0 == name@;
            assert(list[t].0@ == name@);
        }
    }
    None
}

/// Groups amounts by label: every label once, with the sum of the amounts
/// that stand beside it.
pub fn group_amounts(labels: &Vec<String>, amounts: &Vec<u64>) -> (r: Vec<(String, u64)>)
    requires
        labels.len() == amounts.len(),
        total(Seq::new(amounts.len() as nat, |i: int| amounts[i] as nat)) <= u64::MAX,
    ensures
        is_grouping(weighed(r@), paired(labels@, amounts@)),
{
    let ghost entries = paired(labels@, amounts@);
    let ghost weights = Seq::new(amounts.len() as nat, |i: int| amounts[i] as nat);
    let mut out: Vec<(String, u64)> = Vec::new();
    let mut i: usize = 0;
    while i < labels.len()
        invariant
            i <= labels.len(),
            labels.len() == amounts.len(),
            entries == paired(labels@, amounts@),
            weights == Seq::new(amounts.len() as nat, |i: int| amounts[i] as nat),
            total(weights) <= u64::MAX,
            is_grouping(weighed(out@), entries.take(i as int)),
        decreases labels.len() - i,
    {
        let ghost done = entries.take(i as int);
        let ghost next = entries.take(i + 1);
        let ghost e = entries[i as int];
        let ghost before = weighed(out@);
        proof {
            assert(next =~= done.push(e));
            assert forall|n: Seq<char>| #[trigger]
                amount_of(next, n) == amount_of(done, n) + (if e.0 == n {
                    e.1
                } else {
                    0
                }) by {
                lemma_amount_push(done, e, n);
            }
            assert forall|n: Seq<char>| names(done, n) implies names(next, n) by {
                let t = choose|t: int| 0 <= t < done.len() && (#[trigger] done[t]).0 == n;
                assert(next[t].0 == n);
            }
            assert(next[i as int].0 == e.0);
            lemma_amount_bounds(next, e.0);
            assert(Seq::new(next.len(), |t: int| next[t].1) =~= weights.take(i + 1));
            lemma_total(weights, i + 1);
            lemma_amount_bounds(done, e.0);
        }
        match position_of(&out, labels[i].as_str()) {
            Some(j) => {
                proof {
                    assert(before[j as int].0 == e.0);
                    assert(before[j as int].1 == amount_of(done, e.0));
                    assert(amount_of(next, e.0) == amount_of(done, e.0) + e.1);
                }
                let sum: u64 = out[j].1 + amounts[i];
                out.set(j, (labels[i].clone(), sum));
                proof {
                    let after = weighed(out@);
                    assert forall|t: int| 0 <= t < after.len() implies (#[trigger] after[t]).0
                        == before[t].0 by {}
                    assert forall|t: int| 0 <= t < after.len() implies names(
                        next,
                        (#[trigger] after[t]).0,
                    ) && after[t].1 == amount_of(next, after[t].0) by {
                        assert(names(done, before[t].0));
                        if t != j {
                            assert(before[t].0 != before[j as int].0);
                        }
                    }
                    assert forall|k: int| 0 <= k < next.len() implies names(
                        after,
                        (#[trigger] next[k]).0,
                    ) by {
                        if k < i {
                            assert(done[k] == next[k]);
                            let t = choose|t: int|
                                0 <= t < before.len() && (#[trigger] before[t]).0 == done[k].0;
                            assert(after[t].0 == next[k].0);
                        } else {
                            assert(after[j as int].0 == next[k].0);
                        }
                    }
                }
            },
            None => {
                out.push((labels[i].clone(), amounts[i]));
                proof {
                    let after = weighed(out@);
                    assert(after =~= before.push(e));
                    assert forall|t: int| 0 <= t < after.len() implies names(
                        next,
                        (#[trigger] after[t]).0,
                    ) && after[t].1 == amount_of(next, after[t].0) by {
                        if t < before.len() {
                            assert(names(done, before[t].0));
                        }
                    }
                    assert forall|a: int, b: int|
                        0 <= a < after.len() && 0 <= b < after.len() && a != b implies (
                    #[trigger] after[a]).0 != (#[trigger] after[b]).0 by {
                        if a < before.len() && b < before.len() {
                            assert(before[a].0 != before[b].0);
                        } else if a < before.len() {
                            assert(before[a].0 != e.0);
                        } else {
                            assert(before[b].0 != e.0);
                        }
                    }
                    assert forall|k: int| 0 <= k < next.len() implies names(
                        after,
                        (#[trigger] next[k]).0,
                    ) by {
                        if k < i {
                            assert(done[k] == next[k]);
                            let t = choose|t: int|
                                0 <= t < before.len() && (#[trigger] before[t]).0 == done[k].0;
                            assert(after[t].0 == next[k].0);
                        } else {
                            assert(after[before.len() as int].0 == next[k].0);
                        }
                    }
                }
            },
        }
        i += 1;
    }
    assert(entries.take(labels.len() as int) =~= entries);
    out
}

/// Whether the entry `a` stands before the entry `b` in a ranking.
fn ranks_before(a: &(String, u64), b: &(String, u64)) -> (r: bool)
    ensures
        r == precedes((a.0@, a.1 as nat), (b.0@, b.1 as nat)),
{
    a.1 > b.1 || (a.1 == b.1 && text_less(a.0.as_str(), b.0.as_str()))
}

/// The foremost of the entries that are not taken yet.
fn foremost(groups: &Vec<(String, u64)>, taken: &Vec<bool>) -> (r: Option<usize>)
    requires
        taken.len() == groups.len(),
        forall|i: int, j: int|
            0 <= i < groups.len() && 0 <= j < groups.len() && i != j ==> (#[trigger] groups[i]).0@
                != (#[trigger] groups[j]).0@,
    ensures
        match r {
            Some(b) => b < groups.len() && !taken[b as int] && forall|c: int|
                0 <= c < groups.len() && !taken[c] && c != b ==> precedes(
                    weighed(groups@)[b as int],
                    #[trigger] weighed(groups@)[c],
                ),
            None => forall|c: int| 0 <= c < groups.len() ==> taken[c],
        },
{
    let ghost pool = weighed(groups@);
    let mut best: Option<usize> = None;
    let mut j: usize = 0;
    while j < groups.len()
        invariant
            j <= groups.len(),
            pool == weighed(groups@),
            taken.len() == groups.len(),
            forall|a: int, b: int|
                0 <= a < groups.len() && 0 <= b < groups.len() && a != b ==> (
                #[trigger] groups[a]).0@ != (#[trigger] groups[b]).0@,
            match best {
                Some(b) => b < j && !taken[b as int] && forall|c: int|
                    0 <= c < j && !taken[c] && c != b ==> precedes(
                        pool[b as int],
                        #[trigger] pool[c],
                    ),
                None => forall|c: int| 0 <= c < j ==> taken[c],
            },
        decreases groups.len() - j,
    {
        if !taken[j] {
            match best {
                None => {
                    best = Some(j);
                },
                Some(b) => {
                    if ranks_before(&groups[j], &groups[b]) {
                        proof {
                            assert forall|c: int|
                                0 <= c < j + 1 && !taken[c] && c != j implies precedes(
                                pool[j as int],
                                #[trigger] pool[c],
                            ) by {
                                if c != b {
                                    lemma_precedes(pool[j as int], pool[b as int], pool[c]);
                                }
                            }
                        }
                        best = Some(j);
                    } else {
                        proof {
                            assert(groups[j as int].0@ != groups[b as int].0@);
                            lemma_precedes(pool[b as int], pool[j as int], pool[j as int]);
                        }
                    }
                },
            }
        }
        j += 1;
    }
    best
}

/// The `k` foremost entries of a list of different names, in ranking order.
fn top_ranked(groups: &Vec<(String, u64)>, k: usize) -> (r: Vec<(String, u64)>)
    requires
        forall|i: int, j: int|
            0 <= i < groups.len() && 0 <= j < groups.len() && i != j ==> (#[trigger] groups[i]).0@
                != (#[trigger] groups[j]).0@,
    ensures
        r.len() <= k,
        forall|i: int| 0 <= i < r.len() ==> lists(weighed(groups@), #[trigger] weighed(r@)[i]),
        forall|i: int, j: int|
            0 <= i < j < r.len() ==> precedes(#[trigger] weighed(r@)[i], #[trigger] weighed(r@)[j]),
        forall|j: int|
            0 <= j < groups.len() ==> lists(weighed(r@), #[trigger] weighed(groups@)[j]) || (r.len()
                == k && forall|i: int|
                0 <= i < r.len() ==> precedes(#[trigger] weighed(r@)[i], weighed(groups@)[j])),
{
    let ghost pool = weighed(groups@);
    let mut out: Vec<(String, u64)> = Vec::new();
    let mut taken: Vec<bool> = Vec::new();
    let mut t: usize = 0;
    while t < groups.len()
        invariant
            t <= groups.len(),
            taken.len() == t,
            forall|j: int| 0 <= j < t ==> !taken[j],
        decreases groups.len() - t,
    {
        taken.push(false);
        t += 1;
    }
    // `from[i]` is where the entry `out[i]` stands in the pool, `slot[j]`
    // where the taken entry `pool[j]` stands in `out`.
    let ghost mut from: Seq<int> = Seq::empty();
    let ghost mut slot: Seq<int> = Seq::new(pool.len(), |j: int| -1int);
    let mut more: bool = true;
    while out.len() < k && more
        invariant
            pool == weighed(groups@),
            out.len() <= k,
            taken.len() == groups.len(),
            from.len() == out.len(),
            slot.len() == pool.len(),
            forall|i: int, j: int|
                0 <= i < groups.len() && 0 <= j < groups.len() && i != j ==> (
                #[trigger] groups[i]).0@ != (#[trigger] groups[j]).0@,
            forall|i: int|
                0 <= i < out.len() ==> 0 <= #[trigger] from[i] < pool.len() && taken[from[i]]
                    && pool[from[i]] == weighed(out@)[i],
            forall|j: int|
                0 <= j < pool.len() && #[trigger] taken[j] ==> 0 <= slot[j] < out.len() && weighed(
                    out@,
                )[slot[j]] == pool[j],
            forall|i: int, j: int|
                0 <= i < j < out.len() ==> precedes(
                    #[trigger] weighed(out@)[i],
                    #[trigger] weighed(out@)[j],
                ),
            forall|i: int, j: int|
                0 <= i < out.len() && 0 <= j < pool.len() && !taken[j] ==> precedes(
                    #[trigger] weighed(out@)[i],
                    #[trigger] pool[j],
                ),
            !more ==> forall|j: int| 0 <= j < pool.len() ==> taken[j],
        decreases k - out.len(), if more { 1int } else { 0int },
    {
        match foremost(groups, &taken) {
            None => {
                more = false;
            },
            Some(b) => {
                let ghost before = weighed(out@);
                let ghost was = taken@;
                out.push((groups[b].0.clone(), groups[b].1));
                taken.set(b, true);
                proof {
                    let after = weighed(out@);
                    from = from.push(b as int);
                    slot = slot.update(b as int, before.len() as int);
                    assert(after =~= before.push(pool[b as int]));
                    assert forall|i: int, j: int| 0 <= i < j < after.len() implies precedes(
                        #[trigger] after[i],
                        #[trigger] after[j],
                    ) by {
                        if j < before.len() {
                            assert(precedes(before[i], before[j]));
                        } else {
                            assert(precedes(before[i], pool[b as int]));
                        }
                    }
                    assert forall|i: int, j: int|
                        0 <= i < after.len() && 0 <= j < pool.len() && !taken[j] implies precedes(
                        #[trigger] after[i],
                        #[trigger] pool[j],
                    ) by {
                        assert(!was[j] && j != b);
                        if i < before.len() {
                            assert(precedes(before[i], pool[j]));
                        }
                    }
                    assert forall|i: int| 0 <= i < out.len() implies 0 <= #[trigger] from[i]
                        < pool.len() && taken[from[i]] && pool[from[i]] == after[i] by {
                        if i < before.len() {
                            assert(was[from[i]]);
                            assert(after[i] == before[i]);
                        }
                    }
                    assert forall|j: int| 0 <= j < pool.len() && #[trigger] taken[j] implies 0
                        <= slot[j] < out.len() && after[slot[j]] == pool[j] by {
                        if j != b {
                            assert(was[j]);
                            assert(after[slot[j]] == before[slot[j]]);
                        }
                    }
                }
            },
        }
    }
    proof {
        let list = weighed(out@);
        assert forall|i: int| 0 <= i < out.len() implies lists(pool, #[trigger] list[i]) by {
            assert(pool[from[i]] == list[i]);
        }
        assert forall|j: int| 0 <= j < groups.len() implies lists(list, #[trigger] pool[j]) || (
        out.len() == k && forall|i: int|
            0 <= i < out.len() ==> precedes(#[trigger] list[i], pool[j])) by {
            if taken[j] {
                assert(list[slot[j]] == pool[j]);
            } else {
                assert(more);
                assert(out.len() == k);
            }
        }
    }
    out
}

/// The ranking of the `k` foremost names of the given labels, each label
/// counting the amount that stands beside it.
pub fn rank_labels(labels: &Vec<String>, amounts: &Vec<u64>, k: usize) -> (r: Vec<(String, u64)>)
    requires
        labels.len() == amounts.len(),
        total(Seq::new(amounts.len() as nat, |i: int| amounts[i] as nat)) <= u64::MAX,
    ensures
        is_top(weighed(r@), paired(labels@, amounts@), k as nat),
{
    let groups = group_amounts(labels, amounts);
    proof {
        let pool = weighed(groups@);
        assert forall|i: int, j: int|
            0 <= i < groups.len() && 0 <= j < groups.len() && i != j implies (
        #[trigger] groups[i]).0@ != (#[trigger] groups[j]).0@ by {
            assert(pool[i].0 != pool[j].0);
        }
    }
    let r = top_ranked(&groups, k);
    proof {
        let entries = paired(labels@, amounts@);
        let pool = weighed(groups@);
        let list = weighed(r@);
        assert forall|i: int| 0 <= i < list.len() implies names(entries, (#[trigger] list[i]).0)
            && list[i].1 == amount_of(entries, list[i].0) by {
            assert(lists(pool, list[i]));
            let j = choose|j: int| 0 <= j < pool.len() && #[trigger] pool[j] == list[i];
            assert(names(entries, pool[j].0));
        }
        assert forall|n: int| 0 <= n < entries.len() implies names(list, (#[trigger] entries[n]).0)
            || (list.len() == k && forall|i: int|
            0 <= i < list.len() ==> precedes(
                #[trigger] list[i],
                (entries[n].0, amount_of(entries, entries[n].0)),
            )) by {
            assert(names(pool, entries[n].0));
            let j = choose|j: int| 0 <= j < pool.len() && (#[trigger] pool[j]).0 == entries[n].0;
            assert(pool[j] == (entries[n].0, amount_of(entries, entries[n].0)));
            if lists(list, pool[j]) {
                let i = choose|i: int| 0 <= i < list.len() && #[trigger] list[i] == pool[j];
                assert(list[i].0 == entries[n].0);
            }
        }
    }
    r
}

/// A name for what `chrono` writes for the calendar day, in UTC, of a moment
/// given in seconds since the Unix epoch: the text of the format
/// `%Y-%m-%d`, or nothing where the moment lies outside the years that
/// `chrono` can hold.
pub uninterp spec fn utc_day(timestamp: i64) -> Option<Seq<char>>;

/// `format` of `chrono::DateTime<Utc>` with the pattern `%Y-%m-%d`, for the
/// moment that `DateTime::from_timestamp` makes of the seconds, written out
/// with `write_to`, which reports a failure where `to_string` would panic.
/// The contract names the text and so says that it depends on the moment
/// alone; what the text is, character by character, is left to `chrono`.
#[verifier::external_body]
fn day_label(timestamp: i64) -> (r: Option<String>)
    ensures
        match r {
            Some(s) => utc_day(timestamp) == Some(s@),
            None => utc_day(timestamp) is None,
        },
{
    let moment = chrono::DateTime::from_timestamp(timestamp, 0)?;
    let mut out = String::new();
    match moment.format("%Y-%m-%d").write_to(&mut out) {
        Ok(()) => Some(out),
        Err(_) => None,
    }
}

/// The entries of the log that are later than `cut` and whose day can be
/// written, each as its day with its bytes, both ways.
pub open spec fn daily_entries(log: Seq<ConnectionLog>, cut: int) -> Seq<(Seq<char>, nat)>
    decreases log.len(),
{
    if log.len() == 0 {
        Seq::empty()
    } else {
        let front = daily_entries(log.drop_last(), cut);
        let e = log.last();
        if e.timestamp > cut && utc_day(e.timestamp) is Some {
            front.push((utc_day(e.timestamp)->0, (e.bytes_sent + e.bytes_received) as nat))
        } else {
            front
        }
    }
}

/// The moment before which entries no longer count, for a reading at `now`
/// that looks `days` days back.
pub open spec fn cut_of(now: i64, days: i64) -> int {
    now - days * DAY
}

/// Whether a moment is later than the cut of a reading at `now` that looks
/// `days` days back.
pub fn is_after_cut(timestamp: i64, now: i64, days: i64) -> (r: bool)
    ensures
        r == (timestamp > cut_of(now, days)),
{
    let span: i128 = (days as i128) * 86_400;
    let cut: i128 = (now as i128) - span;
    (timestamp as i128) > cut
}

/// The log with its running totals.
pub struct Analytics {
    connection_logs: Vec<ConnectionLog>,
    total_sent: u64,
    total_received: u64,
    total_duration: u64,
}

/// Whether the log can take one more entry: its counters stay within what
/// 64 bits hold, with both byte totals together, and its length within what
/// 32 bits hold.
pub open spec fn has_room(log: Seq<ConnectionLog>, entry: ConnectionLog) -> bool {
    &&& log.len() < u32::MAX
    &&& total(sent_of(log)) + total(received_of(log)) + entry.bytes_sent + entry.bytes_received
        <= u64::MAX
    &&& total(durations_of(log)) + entry.duration <= u64::MAX
}

/// Whether `stats` are the rollups of `log`, read at `now`.
pub open spec fn is_rollup(stats: UsageStatistics, log: Seq<ConnectionLog>, now: i64) -> bool {
    &&& stats.total_connections == log.len()
    &&& stats.total_data_sent == total(sent_of(log))
    &&& stats.total_data_received == total(received_of(log))
    &&& stats.total_duration == total(durations_of(log))
    &&& stats.average_session_duration == (if log.len() == 0 {
        0
    } else {
        total(durations_of(log)) / log.len()
    })
    &&& is_top(counted(stats.most_used_countries@), country_sessions(log), TOP as nat)
    &&& is_top(counted(stats.most_used_servers@), server_sessions(log), TOP as nat)
    &&& stats.last_30_days_data == total(bytes_after(log, cut_of(now, 30)))
}

/// Turns 64-bit counts that fit in 32 bits into 32-bit counts.
fn narrow(list: Vec<(String, u64)>) -> (r: Vec<(String, u32)>)
    requires
        forall|i: int| 0 <= i < list.len() ==> (#[trigger] list[i]).1 <= u32::MAX,
    ensures
        counted(r@) == weighed(list@),
{
    let mut out: Vec<(String, u32)> = Vec::new();
    let mut i: usize = 0;
    while i < list.len()
        invariant
            i <= list.len(),
            forall|i: int| 0 <= i < list.len() ==> (#[trigger] list[i]).1 <= u32::MAX,
            counted(out@) == weighed(list@).take(i as int),
        decreases list.len() - i,
    {
        let ghost before = counted(out@);
        assert(list[i as int].1 <= u32::MAX);
        out.push((list[i].0.clone(), list[i].1 as u32));
        assert(counted(out@) =~= before.push(weighed(list@)[i as int]));
        assert(counted(out@) =~= weighed(list@).take(i + 1));
        i += 1;
    }
    assert(weighed(list@).take(list.len() as int) =~= weighed(list@));
    out
}

impl Analytics {
    #[verifier::type_invariant]
    pub closed spec fn wf(self) -> bool {
        &&& self.connection_logs.len() <= u32::MAX
        &&& self.total_sent == total(sent_of(self.connection_logs@))
        &&& self.total_received == total(received_of(self.connection_logs@))
        &&& self.total_duration == total(durations_of(self.connection_logs@))
        &&& self.total_sent + self.total_received <= u64::MAX
    }

    /// The log, oldest entry first.
    pub closed spec fn log(&self) -> Seq<ConnectionLog> {
        self.connection_logs@
    }

    /// An empty log.
    pub fn new() -> (r: Self)
        ensures
            r.log() == Seq::<ConnectionLog>::empty(),
    {
        let r = Analytics {
            connection_logs: Vec::new(),
            total_sent: 0,
            total_received: 0,
            total_duration: 0,
        };
        assert(sent_of(r.connection_logs@) =~= Seq::<nat>::empty());
        assert(received_of(r.connection_logs@) =~= Seq::<nat>::empty());
        assert(durations_of(r.connection_logs@) =~= Seq::<nat>::empty());
        r
    }

    /// Appends an entry to the log, and says whether it did. An entry for
    /// which the log has no room is dropped and the log stays as it is.
    pub fn log_connection(&mut self, log: ConnectionLog) -> (accepted: bool)
        ensures
            accepted == has_room(old(self).log(), log),
            accepted ==> final(self).log() == old(self).log().push(log),
            !accepted ==> final(self).log() == old(self).log(),
    {
        proof {
            use_type_invariant(&*self);
        }
        if self.connection_logs.len() >= u32::MAX as usize {
            return false;
        }
        let sent = self.total_sent.checked_add(log.bytes_sent);
        let received = self.total_received.checked_add(log.bytes_received);
        let duration = self.total_duration.checked_add(log.duration);
        match (sent, received, duration) {
            (Some(s), Some(r), Some(d)) => {
                if s.checked_add(r).is_none() {
                    return false;
                }
                let mut taken = Analytics::new();
                std::mem::swap(self, &mut taken);
                proof {
                    use_type_invariant(&taken);
                }
                let Analytics { connection_logs, total_sent, total_received, total_duration } =
                    taken;
                let mut entries = connection_logs;
                let ghost before = entries@;
                entries.push(log);
                proof {
                    assert(sent_of(entries@).drop_last() =~= sent_of(before));
                    assert(received_of(entries@).drop_last() =~= received_of(before));
                    assert(durations_of(entries@).drop_last() =~= durations_of(before));
                }
                *self = Analytics {
                    connection_logs: entries,
                    total_sent: s,
                    total_received: r,
                    total_duration: d,
                };
                true
            },
            _ => false,
        }
    }

    /// The countries of the entries, or their server names, entry by entry,
    /// each with the weight one.
    fn session_labels(&self, by_country: bool) -> (r: (Vec<String>, Vec<u64>))
        ensures
            r.0.len() == r.1.len(),
            paired(r.0@, r.1@) == (if by_country {
                country_sessions(self.log())
            } else {
                server_sessions(self.log())
            }),
            r.0.len() == self.log().len(),
            forall|i: int| 0 <= i < r.1.len() ==> r.1[i] == 1,
    {
        let mut labels: Vec<String> = Vec::new();
        let mut ones: Vec<u64> = Vec::new();
        let mut i: usize = 0;
        while i < self.connection_logs.len()
            invariant
                i <= self.connection_logs.len(),
                labels.len() == i,
                ones.len() == i,
                forall|t: int| 0 <= t < i ==> ones[t] == 1,
                forall|t: int|
                    0 <= t < i ==> (#[trigger] labels[t])@ == (if by_country {
                        self.connection_logs[t].country@
                    } else {
                        self.connection_logs[t].server_name@
                    }),
            decreases self.connection_logs.len() - i,
        {
            if by_country {
                labels.push(self.connection_logs[i].country.clone());
            } else {
                labels.push(self.connection_logs[i].server_name.clone());
            }
            ones.push(1);
            i += 1;
        }
        proof {
            if by_country {
                assert(paired(labels@, ones@) =~= country_sessions(self.log()));
            } else {
                assert(paired(labels@, ones@) =~= server_sessions(self.log()));
            }
        }
        (labels, ones)
    }

    /// The ranking of countries or of servers by their number of sessions.
    fn ranking(&self, by_country: bool) -> (r: Vec<(String, u32)>)
        ensures
            is_top(
                counted(r@),
                if by_country {
                    country_sessions(self.log())
                } else {
                    server_sessions(self.log())
                },
                TOP as nat,
            ),
    {
        proof {
            use_type_invariant(self);
        }
        let (labels, ones) = self.session_labels(by_country);
        let ghost weights = Seq::new(ones.len() as nat, |i: int| ones[i] as nat);
        proof {
            lemma_ones(weights);
        }
        let top = rank_labels(&labels, &ones, TOP);
        proof {
            let entries = paired(labels@, ones@);
            assert forall|i: int| 0 <= i < top.len() implies (#[trigger] top[i]).1 <= u32::MAX by {
                assert(weighed(top@)[i].1 == amount_of(entries, weighed(top@)[i].0));
                lemma_amount_bounds(entries, weighed(top@)[i].0);
                assert(Seq::new(entries.len(), |t: int| entries[t].1) =~= weights);
            }
        }
        narrow(top)
    }

    /// The rollups of the log, read at `now`: the totals are the sums over
    /// all entries, the average is the total duration divided by the number
    /// of entries and zero for an empty log, the rankings hold the ten
    /// foremost countries and servers, and the data of the last thirty days
    /// counts the entries later than `now` less thirty days.
    pub fn get_statistics(&self, now: i64) -> (r: UsageStatistics)
        ensures
            is_rollup(r, self.log(), now),
    {
        proof {
            use_type_invariant(self);
        }
        let n: usize = self.connection_logs.len();
        let average: u64 = if n == 0 {
            0
        } else {
            self.total_duration / (n as u64)
        };
        UsageStatistics {
            total_connections: n as u64,
            total_data_sent: self.total_sent,
            total_data_received: self.total_received,
            total_duration: self.total_duration,
            average_session_duration: average,
            most_used_countries: self.ranking(true),
            most_used_servers: self.ranking(false),
            last_30_days_data: self.data_since(now, 30),
        }
    }

    /// The bytes, both ways, of the entries later than `now` less `days`
    /// days.
    pub fn data_since(&self, now: i64, days: i64) -> (r: u64)
        ensures
            r == total(bytes_after(self.log(), cut_of(now, days))),
    {
        proof {
            use_type_invariant(self);
        }
        let ghost cut = cut_of(now, days);
        let ghost log = self.connection_logs@;
        let mut sum: u64 = 0;
        let mut i: usize = 0;
        proof {
            lemma_total(bytes_after(log, cut), 0);
            lemma_total(sent_of(log), 0);
            lemma_total(received_of(log), 0);
            assert(total(bytes_after(log, cut).take(0)) == 0);
            assert(total(sent_of(log).take(0)) == 0);
            assert(total(received_of(log).take(0)) == 0);
        }
        while i < self.connection_logs.len()
            invariant
                i <= log.len(),
                log == self.connection_logs@,
                cut == cut_of(now, days),
                sum == total(bytes_after(log, cut).take(i as int)),
                sum <= total(sent_of(log).take(i as int)) + total(received_of(log).take(i as int)),
                total(sent_of(log)) + total(received_of(log)) <= u64::MAX,
            decreases log.len() - i,
        {
            proof {
                lemma_total(bytes_after(log, cut), i as int);
                lemma_total(sent_of(log), i as int);
                lemma_total(received_of(log), i as int);
                lemma_total(sent_of(log), i + 1);
                lemma_total(received_of(log), i + 1);
            }
            let e = &self.connection_logs[i];
            if is_after_cut(e.timestamp, now, days) {
                sum = sum + (e.bytes_sent + e.bytes_received);
            }
            i += 1;
        }
        proof {
            assert(bytes_after(log, cut).take(log.len() as int) =~= bytes_after(log, cut));
        }
        sum
    }

    /// The latest entries, newest first, `limit` of them at most.
    pub fn get_connection_history(&self, limit: usize) -> (r: Vec<&ConnectionLog>)
        ensures
            r.len() == (if limit < self.log().len() {
                limit as int
            } else {
                self.log().len() as int
            }),
            forall|i: int| 0 <= i < r.len() ==> *(#[trigger] r[i]) == self.log()[self.log().len() - 1 - i],
    {
        let n: usize = self.connection_logs.len();
        let mut out: Vec<&ConnectionLog> = Vec::new();
        let mut i: usize = 0;
        while i < n && i < limit
            invariant
                i <= n,
                i <= limit,
                n == self.connection_logs.len(),
                out.len() == i,
                forall|t: int| 0 <= t < i ==> *(#[trigger] out[t]) == self.connection_logs[n - 1 - t],
            decreases n - i,
        {
            out.push(&self.connection_logs[n - 1 - i]);
            i += 1;
        }
        out
    }

    /// The bytes, both ways, of each of the last `days` days as read at
    /// `now`: one entry for each calendar day, in UTC, on which a session
    /// that still counts was logged.
    pub fn get_data_usage_by_day(&self, days: i64, now: i64) -> (r: Vec<(String, u64)>)
        ensures
            is_grouping(weighed(r@), daily_entries(self.log(), cut_of(now, days))),
    {
        proof {
            use_type_invariant(self);
        }
        let ghost cut = cut_of(now, days);
        let ghost log = self.connection_logs@;
        let mut labels: Vec<String> = Vec::new();
        let mut amounts: Vec<u64> = Vec::new();
        let mut i: usize = 0;
        proof {
            lemma_total(sent_of(log), 0);
            lemma_total(received_of(log), 0);
            assert(log.take(0) =~= Seq::<ConnectionLog>::empty());
            assert(paired(labels@, amounts@) =~= daily_entries(log.take(0), cut));
            assert(Seq::new(amounts.len() as nat, |t: int| amounts[t] as nat) =~= Seq::<
                nat,
            >::empty());
        }
        while i < self.connection_logs.len()
            invariant
                i <= log.len(),
                log == self.connection_logs@,
                cut == cut_of(now, days),
                labels.len() == amounts.len(),
                paired(labels@, amounts@) == daily_entries(log.take(i as int), cut),
                total(Seq::new(amounts.len() as nat, |t: int| amounts[t] as nat)) <= total(
                    sent_of(log).take(i as int),
                ) + total(received_of(log).take(i as int)),
                total(sent_of(log)) + total(received_of(log)) <= u64::MAX,
            decreases log.len() - i,
        {
            proof {
                lemma_total(sent_of(log), i as int);
                lemma_total(received_of(log), i as int);
                lemma_total(sent_of(log), i + 1);
                lemma_total(received_of(log), i + 1);
                assert(log.take(i + 1).drop_last() =~= log.take(i as int));
            }
            let e = &self.connection_logs[i];
            if is_after_cut(e.timestamp, now, days) {
                match day_label(e.timestamp) {
                    Some(day) => {
                        let ghost before = paired(labels@, amounts@);
                        let ghost weights = Seq::new(
                            amounts.len() as nat,
                            |t: int| amounts[t] as nat,
                        );
                        let amount: u64 = e.bytes_sent + e.bytes_received;
                        labels.push(day);
                        amounts.push(amount);
                        proof {
                            assert(paired(labels@, amounts@) =~= before.push(
                                (day@, amount as nat),
                            ));
                            let grown = Seq::new(amounts.len() as nat, |t: int| amounts[t] as nat);
                            assert(grown.drop_last() =~= weights);
                        }
                    },
                    None => {},
                }
            }
            i += 1;
        }
        proof {
            assert(log.take(log.len() as int) =~= log);
            lemma_total(sent_of(log), log.len() as int);
            lemma_total(received_of(log), log.len() as int);
        }
        group_amounts(&labels, &amounts)
    }

    /// The number of sessions of each country of the log.
    pub fn get_connection_count_by_country(&self) -> (r: Vec<(String, u32)>)
        ensures
            is_grouping(counted(r@), country_sessions(self.log())),
    {
        proof {
            use_type_invariant(self);
        }
        let (labels, ones) = self.session_labels(true);
        let ghost weights = Seq::new(ones.len() as nat, |i: int| ones[i] as nat);
        proof {
            lemma_ones(weights);
        }
        let groups = group_amounts(&labels, &ones);
        proof {
            let entries = paired(labels@, ones@);
            assert forall|i: int| 0 <= i < groups.len() implies (#[trigger] groups[i]).1
                <= u32::MAX by {
                assert(weighed(groups@)[i].1 == amount_of(entries, weighed(groups@)[i].0));
                lemma_amount_bounds(entries, weighed(groups@)[i].0);
                assert(Seq::new(entries.len(), |t: int| entries[t].1) =~= weights);
            }
        }
        narrow(groups)
    }

    /// Empties the log. Every rollup is then at its zero.
    pub fn clear_logs(&mut self)
        ensures
            final(self).log() == Seq::<ConnectionLog>::empty(),
    {
        *self = Analytics::new();
    }

    /// A number of bytes in words, in the largest unit that fits, to two
    /// decimal places.
    pub fn format_bytes(bytes: u64) -> (r: String)
        ensures
            r@ == bytes_text(bytes as nat),
    {
        let mut out = String::new();
        if bytes < 0x400 {
            push_decimal(&mut out, bytes);
            push_text(&mut out, " B");
            assert(out@ =~= bytes_text(bytes as nat));
            return out;
        }
        let m: u128 = measure(bytes) * 100;
        if bytes >= 0x100_0000_0000 {
            push_two_places(&mut out, nearest_to(m, 0x100_0000_0000) as u64);
            push_text(&mut out, " TB");
        } else if bytes >= 0x4000_0000 {
            push_two_places(&mut out, nearest_to(m, 0x4000_0000) as u64);
            push_text(&mut out, " GB");
        } else if bytes >= 0x10_0000 {
            push_two_places(&mut out, nearest_to(m, 0x10_0000) as u64);
            push_text(&mut out, " MB");
        } else {
            push_two_places(&mut out, nearest_to(m, 0x400) as u64);
            push_text(&mut out, " KB");
        }
        assert(out@ =~= bytes_text(bytes as nat));
        out
    }

    /// The summary of the rollups as read at `now`, for showing.
    pub fn generate_summary_report(&self, now: i64) -> (r: String)
        ensures
            exists|stats: UsageStatistics|
                is_rollup(stats, self.log(), now) && r@ == #[trigger] report_text(stats),
    {
        let stats = self.get_statistics(now);
        let r = summary_of(&stats);
        assert(is_rollup(stats, self.log(), now) && r@ == report_text(stats));
        r
    }

    /// A duration in words: hours, minutes and seconds, the larger units
    /// only where they are not zero.
    pub fn format_duration(seconds: u64) -> (r: String)
        ensures
            r@ == duration_text(seconds as nat),
    {
        let hours: u64 = seconds / 3600;
        let minutes: u64 = (seconds % 3600) / 60;
        let rest: u64 = seconds % 60;
        let mut out = String::new();
        if hours > 0 {
            push_decimal(&mut out, hours);
            push_text(&mut out, "h ");
        }
        if hours > 0 || minutes > 0 {
            push_decimal(&mut out, minutes);
            push_text(&mut out, "m ");
        }
        push_decimal(&mut out, rest);
        push_text(&mut out, "s");
        assert(out@ =~= duration_text(seconds as nat));
        out
    }
}

/// A list of ones sums to its length.
pub proof fn lemma_ones(weights: Seq<nat>)
    requires
        forall|i: int| 0 <= i < weights.len() ==> weights[i] == 1,
    ensures
        total(weights) == weights.len(),
    decreases weights.len(),
{
    if weights.len() > 0 {
        lemma_ones(weights.drop_last());
    }
}

/// The rollups of an empty log are all zero, whenever they are read.
pub proof fn lemma_empty_rollup(stats: UsageStatistics, now: i64)
    requires
        is_rollup(stats, Seq::<ConnectionLog>::empty(), now),
    ensures
        stats.total_connections == 0,
        stats.total_data_sent == 0,
        stats.total_data_received == 0,
        stats.total_duration == 0,
        stats.average_session_duration == 0,
        stats.most_used_countries@.len() == 0,
        stats.most_used_servers@.len() == 0,
        stats.last_30_days_data == 0,
{
    let log = Seq::<ConnectionLog>::empty();
    assert(sent_of(log) =~= Seq::<nat>::empty());
    assert(received_of(log) =~= Seq::<nat>::empty());
    assert(durations_of(log) =~= Seq::<nat>::empty());
    assert(bytes_after(log, cut_of(now, 30)) =~= Seq::<nat>::empty());
    let c = counted(stats.most_used_countries@);
    if c.len() > 0 {
        assert(names(country_sessions(log), c[0].0));
    }
    let s = counted(stats.most_used_servers@);
    if s.len() > 0 {
        assert(names(server_sessions(log), s[0].0));
    }
}

/// The totals of a log are the sums over its entries: each new entry adds
/// its own numbers to them.
pub proof fn lemma_totals_are_sums(log: Seq<ConnectionLog>, entry: ConnectionLog)
    ensures
        total(sent_of(Seq::<ConnectionLog>::empty())) == 0,
        total(received_of(Seq::<ConnectionLog>::empty())) == 0,
        total(durations_of(Seq::<ConnectionLog>::empty())) == 0,
        total(sent_of(log.push(entry))) == total(sent_of(log)) + entry.bytes_sent,
        total(received_of(log.push(entry))) == total(received_of(log)) + entry.bytes_received,
        total(durations_of(log.push(entry))) == total(durations_of(log)) + entry.duration,
{
    let empty = Seq::<ConnectionLog>::empty();
    assert(sent_of(empty) =~= Seq::<nat>::empty());
    assert(received_of(empty) =~= Seq::<nat>::empty());
    assert(durations_of(empty) =~= Seq::<nat>::empty());
    assert(sent_of(log.push(entry)).drop_last() =~= sent_of(log));
    assert(received_of(log.push(entry)).drop_last() =~= received_of(log));
    assert(durations_of(log.push(entry)).drop_last() =~= durations_of(log));
}

/// The whole number nearest to `n / d`; of two that are equally near, the
/// even one.
pub open spec fn nearest(n: nat, d: nat) -> nat {
    let q = n / d;
    let r = n % d;
    if 2 * r > d || (2 * r == d && q % 2 == 1) {
        q + 1
    } else {
        q
    }
}

/// The step in which a number is measured when it is kept to 53 significant
/// bits: the least power of two, from `s` on, with `x` below it times 2^53.
pub open spec fn step_of(x: nat, s: nat) -> nat
    decreases 4096 - s,
{
    if s == 0 || s >= 2048 || x < 0x20_0000_0000_0000 * s {
        s
    } else {
        step_of(x, 2 * s)
    }
}

/// A number kept to 53 significant bits: the multiple of its step that is
/// nearest to it.
pub open spec fn measured(x: nat) -> nat {
    nearest(x, step_of(x, 1)) * step_of(x, 1)
}

/// Two decimal places.
pub open spec fn two_places(hundredths: nat) -> Seq<char> {
    decimal(hundredths / 100).push('.').push(digit_char((hundredths % 100) / 10)).push(
        digit_char(hundredths % 10),
    )
}

/// A number of bytes in words: below 1024 the number itself, from there on
/// the number of the largest unit that fits, of KB, MB, GB and TB, each 1024
/// times the one before, to two decimal places. The number is measured to 53
/// significant bits first and then brought to the nearest hundredth.
pub open spec fn bytes_text(bytes: nat) -> Seq<char> {
    if bytes >= 0x100_0000_0000 {
        two_places(nearest(measured(bytes) * 100, 0x100_0000_0000)) + " TB"@
    } else if bytes >= 0x4000_0000 {
        two_places(nearest(measured(bytes) * 100, 0x4000_0000)) + " GB"@
    } else if bytes >= 0x10_0000 {
        two_places(nearest(measured(bytes) * 100, 0x10_0000)) + " MB"@
    } else if bytes >= 0x400 {
        two_places(nearest(measured(bytes) * 100, 0x400)) + " KB"@
    } else {
        decimal(bytes) + " B"@
    }
}

/// The lines of a ranking in a report: name, number of connections.
pub open spec fn ranking_text(list: Seq<(Seq<char>, nat)>) -> Seq<char>
    decreases list.len(),
{
    if list.len() == 0 {
        Seq::empty()
    } else {
        ranking_text(list.drop_last()) + "  "@ + list.last().0 + " - "@ + decimal(list.last().1)
            + " connections\n"@
    }
}

/// The summary of the rollups, line by line.
pub open spec fn report_text(stats: UsageStatistics) -> Seq<char> {
    "=== VPN Usage Summary ===\n\n"@ + "Total Connections: "@ + decimal(
        stats.total_connections as nat,
    ) + "\n"@ + "Total Data Sent: "@ + bytes_text(stats.total_data_sent as nat) + "\n"@
        + "Total Data Received: "@ + bytes_text(stats.total_data_received as nat) + "\n"@
        + "Total Duration: "@ + duration_text(stats.total_duration as nat) + "\n"@
        + "Average Session: "@ + duration_text(stats.average_session_duration as nat) + "\n"@
        + "Last 30 Days Data: "@ + bytes_text(stats.last_30_days_data as nat) + "\n\n"@ + (
    if stats.most_used_countries@.len() > 0 {
        "Most Used Countries:\n"@ + ranking_text(counted(stats.most_used_countries@)) + "\n"@
    } else {
        Seq::empty()
    }) + (if stats.most_used_servers@.len() > 0 {
        "Most Used Servers:\n"@ + ranking_text(counted(stats.most_used_servers@))
    } else {
        Seq::empty()
    })
}

/// The whole number nearest to `n / d`, ties to the even one.
fn nearest_to(n: u128, d: u128) -> (r: u128)
    requires
        0 < d < 0x1_0000_0000_0000_0000,
        n < 0x1_0000_0000_0000_0000_0000,
    ensures
        r == nearest(n as nat, d as nat),
        r <= n / d + 1,
{
    let q: u128 = n / d;
    let rest: u128 = n % d;
    if 2 * rest > d || (2 * rest == d && q % 2 == 1) {
        q + 1
    } else {
        q
    }
}

/// A number kept to 53 significant bits.
fn measure(x: u64) -> (r: u128)
    ensures
        r == measured(x as nat),
        r <= x + 4096,
{
    let mut step: u128 = 1;
    while step < 2048 && (x as u128) >= 0x20_0000_0000_0000 * step
        invariant
            1 <= step < 4096,
            step_of(x as nat, 1) == step_of(x as nat, step as nat),
        decreases 4096 - step,
    {
        step = 2 * step;
    }
    let q: u128 = nearest_to(x as u128, step);
    assert(q * step <= x + step) by (nonlinear_arith)
        requires
            q <= (x as int) / (step as int) + 1,
            step >= 1,
            x >= 0,
    ;
    q * step
}

/// Appends a number of hundredths with two decimal places.
fn push_two_places(out: &mut String, hundredths: u64)
    ensures
        final(out)@ == old(out)@ + two_places(hundredths as nat),
{
    push_decimal(out, hundredths / 100);
    out.push('.');
    out.push(crate::text::digit_of(((hundredths % 100) / 10) as u8));
    out.push(crate::text::digit_of((hundredths % 10) as u8));
    assert(out@ =~= old(out)@ + two_places(hundredths as nat));
}

/// Appends the lines of a ranking.
fn push_ranking(out: &mut String, list: &Vec<(String, u32)>)
    ensures
        final(out)@ == old(out)@ + ranking_text(counted(list@)),
{
    let mut i: usize = 0;
    assert(counted(list@).take(0) =~= Seq::<(Seq<char>, nat)>::empty());
    assert(old(out)@ + ranking_text(counted(list@).take(0)) =~= old(out)@);
    while i < list.len()
        invariant
            i <= list.len(),
            out@ == old(out)@ + ranking_text(counted(list@).take(i as int)),
        decreases list.len() - i,
    {
        let ghost before = out@;
        let ghost done = counted(list@).take(i as int);
        let ghost next = counted(list@).take(i + 1);
        push_text(out, "  ");
        push_text(out, list[i].0.as_str());
        push_text(out, " - ");
        push_decimal(out, list[i].1 as u64);
        push_text(out, " connections\n");
        proof {
            assert(next.drop_last() =~= done);
            assert(next.last() == counted(list@)[i as int]);
            assert(out@ =~= old(out)@ + ranking_text(next));
        }
        i += 1;
    }
    assert(counted(list@).take(list.len() as int) =~= counted(list@));
}

/// A duration in words.
pub open spec fn duration_text(seconds: nat) -> Seq<char> {
    let hours = seconds / 3600;
    let minutes = (seconds % 3600) / 60;
    let rest = seconds % 60;
    if hours > 0 {
        decimal(hours) + "h "@ + decimal(minutes) + "m "@ + decimal(rest) + "s"@
    } else if minutes > 0 {
        decimal(minutes) + "m "@ + decimal(rest) + "s"@
    } else {
        decimal(rest) + "s"@
    }
}

/// The summary of the given rollups, for showing.
pub fn summary_of(stats: &UsageStatistics) -> (r: String)
    ensures
        r@ == report_text(*stats),
{
    let mut out = String::new();
    push_text(&mut out, "=== VPN Usage Summary ===\n\n");
    push_text(&mut out, "Total Connections: ");
    push_decimal(&mut out, stats.total_connections);
    push_text(&mut out, "\n");
    push_text(&mut out, "Total Data Sent: ");
    push_text(&mut out, Analytics::format_bytes(stats.total_data_sent).as_str());
    push_text(&mut out, "\n");
    push_text(&mut out, "Total Data Received: ");
    push_text(&mut out, Analytics::format_bytes(stats.total_data_received).as_str());
    push_text(&mut out, "\n");
    push_text(&mut out, "Total Duration: ");
    push_text(&mut out, Analytics::format_duration(stats.total_duration).as_str());
    push_text(&mut out, "\n");
    push_text(&mut out, "Average Session: ");
    push_text(&mut out, Analytics::format_duration(stats.average_session_duration).as_str());
    push_text(&mut out, "\n");
    push_text(&mut out, "Last 30 Days Data: ");
    push_text(&mut out, Analytics::format_bytes(stats.last_30_days_data).as_str());
    push_text(&mut out, "\n\n");
    if stats.most_used_countries.len() > 0 {
        push_text(&mut out, "Most Used Countries:\n");
        push_ranking(&mut out, &stats.most_used_countries);
        push_text(&mut out, "\n");
    }
    if stats.most_used_servers.len() > 0 {
        push_text(&mut out, "Most Used Servers:\n");
        push_ranking(&mut out, &stats.most_used_servers);
    }
    assert(out@ =~= report_text(*stats));
    out
}

impl Default for Analytics {
    fn default() -> (r: Self)
        ensures
            r.log() == Seq::<ConnectionLog>::empty(),
    {
        Analytics::new()
    }
}

} // verus!
