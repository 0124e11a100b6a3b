//! What the benchmark computes of what it measured.
use vstd::prelude::*;

verus! {

/// `values` in ascending order.
pub open spec fn ascending(values: Seq<u64>) -> bool {
    forall|i: int, j: int| #![trigger values[i], values[j]] 0 <= i < j < values.len() ==> values[i] <= values[j]
}

/// `order` is `values` in ascending order.
pub open spec fn sorts(values: Seq<u64>, order: Seq<u64>) -> bool {
    &&& ascending(order)
    &&& order.to_multiset() == values.to_multiset()
    &&& order.len() == values.len()
}

/// The middle of an ascending sequence; of an even number, the mean of the two in the middle, rounded
/// down.
pub open spec fn middle(order: Seq<u64>) -> int
    recommends
        order.len() > 0,
{
    let mid = order.len() as int / 2;
    if order.len() % 2 == 0 {
        (order[mid - 1] + order[mid]) / 2
    } else {
        order[mid] as int
    }
}

/// `m` is the median of `values`.
pub open spec fn is_median(values: Seq<u64>, m: u64) -> bool {
    exists|order: Seq<u64>| #[trigger] sorts(values, order) && m == middle(order)
}

/// Where `value` has to go so that `order` stays ascending: behind all that are not larger.
fn position(order: &Vec<u64>, value: u64) -> (at: usize)
    requires
        ascending(order@),
    ensures
        at <= order@.len(),
        forall|i: int| #![trigger order@[i]] 0 <= i < at ==> order@[i] <= value,
        forall|i: int| #![trigger order@[i]] at <= i < order@.len() ==> value < order@[i],
{
    let mut at: usize = 0;
    while at < order.len() && order[at] <= value
        invariant
            at <= order@.len(),
            forall|i: int| #![trigger order@[i]] 0 <= i < at ==> order@[i] <= value,
        decreases order@.len() - at,
    {
        at += 1;
    }
    at
}

fn sorted(values: &Vec<u64>) -> (order: Vec<u64>)
    ensures
        sorts(values@, order@),
{
    let mut order: Vec<u64> = Vec::with_capacity(values.len());
    let mut i: usize = 0;
    assert(values@.take(0) =~= order@);
    while i < values.len()
        invariant
            i <= values@.len(),
            sorts(values@.take(i as int), order@),
        decreases values@.len() - i,
    {
        let value: u64 = values[i];
        let at: usize = position(&order, value);
        let ghost before = order@;
        order.insert(at, value);
        proof {
            assert(values@.take(i + 1) =~= values@.take(i as int).push(value));
            values@.take(i as int).to_multiset_ensures();
            before.to_multiset_ensures();
            assert(order@ =~= before.insert(at as int, value));
            vstd::seq_lib::to_multiset_insert(before, at as int, value);
        }
        i += 1;
    }
    assert(values@.take(values@.len() as int) =~= values@);
    order
}

/// The median of some values.
pub fn median_u64(values: &Vec<u64>) -> (median: u64)
    requires
        values@.len() > 0,
    ensures
        is_median(values@, median),
{
    let order = sorted(values);
    let mid: usize = order.len() / 2;
    assert(sorts(values@, order@));
    if order.len() % 2 == 0 {
        let low: u64 = order[mid - 1];
        let high: u64 = order[mid];
        low + (high - low) / 2
    } else {
        order[mid]
    }
}

/// There is only one ascending order, and so only one median.
pub proof fn law_order_is_unique(values: Seq<u64>, a: Seq<u64>, b: Seq<u64>)
    requires
        sorts(values, a),
        sorts(values, b),
    ensures
        a == b,
{
    let leq = |x: u64, y: u64| x <= y;
    assert(vstd::relations::sorted_by(a, leq));
    assert(vstd::relations::sorted_by(b, leq));
    vstd::seq_lib::lemma_sorted_unique(a, b, leq);
}

/// How long messages took, in microseconds.
#[derive(Debug, Clone, Copy, PartialEq, Eq, Structural)]
pub struct Latencies {
    pub p50: u64,
    pub p95: u64,
    pub p99: u64,
    pub max: u64,
}

impl Latencies {
    /// From nanoseconds.
    pub fn from_nanos(p50: u64, p95: u64, p99: u64, max: u64) -> (latencies: Self)
        ensures
            latencies == (Latencies { p50: p50 / 1000, p95: p95 / 1000, p99: p99 / 1000, max: max / 1000 }),
            1000 * latencies.p50 <= p50 < 1000 * (latencies.p50 + 1),
            1000 * latencies.p95 <= p95 < 1000 * (latencies.p95 + 1),
            1000 * latencies.p99 <= p99 < 1000 * (latencies.p99 + 1),
            1000 * latencies.max <= max < 1000 * (latencies.max + 1),
    {
        Latencies { p50: p50 / 1000, p95: p95 / 1000, p99: p99 / 1000, max: max / 1000 }
    }
}

/// The medians of several runs, each figure by itself.
pub fn aggregate_median(runs: &Vec<Latencies>) -> (medians: Latencies)
    requires
        runs@.len() > 0,
    ensures
        is_median(runs@.map_values(|r: Latencies| r.p50), medians.p50),
        is_median(runs@.map_values(|r: Latencies| r.p95), medians.p95),
        is_median(runs@.map_values(|r: Latencies| r.p99), medians.p99),
        is_median(runs@.map_values(|r: Latencies| r.max), medians.max),
{
    let mut p50s: Vec<u64> = Vec::new();
    let mut p95s: Vec<u64> = Vec::new();
    let mut p99s: Vec<u64> = Vec::new();
    let mut maxs: Vec<u64> = Vec::new();
    let mut i: usize = 0;
    while i < runs.len()
        invariant
            i <= runs@.len(),
            p50s@ == runs@.take(i as int).map_values(|r: Latencies| r.p50),
            p95s@ == runs@.take(i as int).map_values(|r: Latencies| r.p95),
            p99s@ == runs@.take(i as int).map_values(|r: Latencies| r.p99),
            maxs@ == runs@.take(i as int).map_values(|r: Latencies| r.max),
        decreases runs@.len() - i,
    {
        p50s.push(runs[i].p50);
        p95s.push(runs[i].p95);
        p99s.push(runs[i].p99);
        maxs.push(runs[i].max);
        i += 1;
        assert(p50s@ =~= runs@.take(i as int).map_values(|r: Latencies| r.p50));
        assert(p95s@ =~= runs@.take(i as int).map_values(|r: Latencies| r.p95));
        assert(p99s@ =~= runs@.take(i as int).map_values(|r: Latencies| r.p99));
        assert(maxs@ =~= runs@.take(i as int).map_values(|r: Latencies| r.max));
    }
    assert(runs@.take(runs@.len() as int) =~= runs@);
    Latencies {
        p50: median_u64(&p50s),
        p95: median_u64(&p95s),
        p99: median_u64(&p99s),
        max: median_u64(&maxs),
    }
}

/// How many messages each client sends, so that all together send no more than `total`.
pub fn messages_per_client(total: usize, concurrency: usize) -> (messages: usize)
    requires
        concurrency > 0,
    ensures
        messages == total / concurrency,
        messages * concurrency <= total,
        total < (messages + 1) * concurrency,
{
    assert((total / concurrency) * concurrency <= total < (total / concurrency + 1) * concurrency) by (nonlinear_arith)
        requires
            concurrency > 0,
    ;
    total / concurrency
}

/// How often a client tries to connect.
pub const CONNECT_ATTEMPTS: u32 = 100;

/// How long a client waits after an attempt that failed, in milliseconds.
pub const CONNECT_WAIT_MS: u64 = 5;

/// The attempts of a client to connect.
#[derive(Debug, Clone, Copy, PartialEq, Eq, Structural)]
pub struct Connecting {
    /// How many attempts are left.
    pub left: u32,
}

impl Connecting {
    pub fn new() -> (connecting: Self)
        ensures
            connecting == (Connecting { left: CONNECT_ATTEMPTS }),
            connecting.left == 100,
    {
        Connecting { left: CONNECT_ATTEMPTS }
    }

    /// Whether to try once more; and if so, how long to wait should the attempt fail, in milliseconds.
    pub fn next(&mut self) -> (wait: Option<u64>)
        ensures
            match wait {
                Some(ms) => {
                    &&& old(self).left > 0
                    &&& ms == CONNECT_WAIT_MS
                    &&& ms == 5
                    &&& final(self).left == old(self).left - 1
                },
                None => old(self).left == 0 && *final(self) == *old(self),
            },
    {
        if self.left == 0 {
            return None;
        }
        self.left = self.left - 1;
        Some(CONNECT_WAIT_MS)
    }
}

/// Reading a whole message, a part at a time.
#[derive(Debug, Clone, Copy, PartialEq, Eq, Structural)]
pub struct ReadAll {
    pub len: usize,
    pub read: usize,
}

impl ReadAll {
    pub open spec fn wf(&self) -> bool {
        self.read <= self.len
    }

    pub fn new(len: usize) -> (all: Self)
        ensures
            all.wf(),
            all == (ReadAll { len, read: 0 }),
    {
        ReadAll { len, read: 0 }
    }

    /// Where to go on reading, if anything is missing.
    pub fn next(&self) -> (from: Option<usize>)
        requires
            self.wf(),
        ensures
            from == (if self.read < self.len {
                Some(self.read)
            } else {
                None
            }),
    {
        if self.read < self.len {
            Some(self.read)
        } else {
            None
        }
    }

    /// Takes note that `n` more bytes were read. Says whether to go on: nothing read means that
    /// nothing more will come.
    pub fn got(&mut self, n: usize) -> (more: bool)
        requires
            old(self).wf(),
            n <= old(self).len - old(self).read,
        ensures
            final(self).wf(),
            *final(self) == (ReadAll { len: old(self).len, read: (old(self).read + n) as usize }),
            more <==> n > 0 && final(self).read < final(self).len,
    {
        self.read = self.read + n;
        n > 0 && self.read < self.len
    }
}

/// The median stands in the middle: put in ascending order, and with `n` of them, it is the mean of the
/// values at `(n - 1) / 2` and `n / 2`, rounded down.
pub proof fn law_median_is_central(values: Seq<u64>, m: u64) -> (order: Seq<u64>)
    requires
        values.len() > 0,
        is_median(values, m),
    ensures
        order.len() == values.len(),
        order.to_multiset() == values.to_multiset(),
        forall|i: int, j: int| #![trigger order[i], order[j]] 0 <= i < j < order.len() ==> order[i] <= order[j],
        ({
            let n = values.len() as int;
            2 * m <= order[(n - 1) / 2] + order[n / 2] < 2 * m + 2
        }),
{
    choose|order: Seq<u64>| #[trigger] sorts(values, order) && m == middle(order)
}

} // verus!
