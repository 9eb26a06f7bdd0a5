//! The process module: how many processes run, and which five hold the most
//! memory and the most processor time.

use vstd::prelude::*;
use crate::decimal::{fixed_text, order_key, push_ratio, ratio_text, Decimal};
use crate::metric::{put, MetricData, MetricValue, Pairs, Timestamp, Value};
use crate::text::{digits, push_str, push_u64, to_text};

use crate::error::GimError;
use crate::modules::{refusal, MetricCollector, ModuleKind, Reading, Sample};

verus! {

/// How many processes each list names at most.
pub const TOP_COUNT: usize = 5;

/// Bytes in one mebibyte.
pub const MEBIBYTE: u64 = 1_048_576;

/// One running process.
#[derive(Debug)]
pub struct ProcessInfo {
    pub name: String,
    pub pid: u32,
    /// Resident memory in bytes.
    pub memory: u64,
    /// Processor usage in percent.
    pub cpu_usage: Decimal,
}

/// What the operating system reports of its processes.
#[derive(Debug)]
pub struct ProcessReading {
    pub processes: Vec<ProcessInfo>,
}

/// Collects the metrics of the process module.
#[derive(Debug)]
pub struct ProcessCollector;

/// Where item `x` goes into `order`: behind every item whose key is at least
/// its own, looking from the end.
pub open spec fn slot(order: Seq<int>, keys: Seq<int>, x: int) -> int
    decreases order.len(),
{
    if order.len() == 0 {
        0
    } else if keys[order.last()] >= keys[x] {
        order.len() as int
    } else {
        slot(order.drop_last(), keys, x)
    }
}

/// The places of the `limit` largest of the first `n` keys, largest first;
/// of equal keys the earlier comes first.
pub open spec fn top_places(keys: Seq<int>, n: nat, limit: nat) -> Seq<int>
    decreases n,
{
    if n == 0 {
        Seq::<int>::empty()
    } else {
        let before = top_places(keys, (n - 1) as nat, limit);
        let wider = before.insert(slot(before, keys, n - 1), n - 1);
        if wider.len() > limit {
            wider.take(limit as int)
        } else {
            wider
        }
    }
}

/// Whether place `i` comes before place `j` in descending order of the keys,
/// the earlier of two equal keys first.
pub open spec fn outranks(keys: Seq<int>, i: int, j: int) -> bool {
    keys[i] > keys[j] || (keys[i] == keys[j] && i < j)
}

/// Whether `order` lists the `limit` foremost of the first `n` places in
/// descending order of their keys: not more than there are, each a place, each
/// before the next, and each before every place that is left out.
pub open spec fn foremost(keys: Seq<int>, n: nat, limit: nat, order: Seq<int>) -> bool {
    &&& order.len() == if n < limit {
        n
    } else {
        limit
    }
    &&& forall|a: int| 0 <= a < order.len() ==> 0 <= #[trigger] order[a] < n
    &&& forall|a: int, b: int|
        0 <= a < b < order.len() ==> outranks(keys, #[trigger] order[a], #[trigger] order[b])
    &&& forall|a: int, j: int|
        0 <= a < order.len() && 0 <= j < n && !order.contains(j) ==> #[trigger] outranks(
            keys,
            order[a],
            j,
        )
}

/// The slot of an item lies within the order; what stands before it has a key
/// at least as large, what stands from it on a smaller one.
pub proof fn slot_bounds(order: Seq<int>, keys: Seq<int>, x: int)
    requires
        forall|a: int, b: int|
            0 <= a < b < order.len() ==> keys[#[trigger] order[a]] >= keys[#[trigger] order[b]],
    ensures
        0 <= slot(order, keys, x) <= order.len(),
        forall|a: int| 0 <= a < slot(order, keys, x) ==> keys[#[trigger] order[a]] >= keys[x],
        forall|a: int|
            slot(order, keys, x) <= a < order.len() ==> keys[#[trigger] order[a]] < keys[x],
    decreases order.len(),
{
    if order.len() > 0 {
        let last = order.len() - 1;
        if keys[order.last()] >= keys[x] {
            assert forall|a: int| 0 <= a < order.len() implies keys[#[trigger] order[a]]
                >= keys[x] by {
                if a < last {
                    assert(keys[order[a]] >= keys[order[last]]);
                }
            }
        } else {
            let rest = order.drop_last();
            assert forall|a: int, b: int| 0 <= a < b < rest.len() implies keys[#[trigger] rest[a]]
                >= keys[#[trigger] rest[b]] by {
                assert(rest[a] == order[a] && rest[b] == order[b]);
            }
            slot_bounds(rest, keys, x);
            assert forall|a: int| 0 <= a < slot(order, keys, x) implies keys[#[trigger] order[a]]
                >= keys[x] by {
                assert(rest[a] == order[a]);
            }
            assert forall|a: int| slot(order, keys, x) <= a < order.len() implies keys[
                #[trigger] order[a]
            ] < keys[x] by {
                if a < last {
                    assert(rest[a] == order[a]);
                }
            }
        }
    }
}

/// `top_places` lists the foremost places: in descending order of the keys,
/// ties in the order of encounter, and nothing left out comes before a place
/// that is listed.
pub proof fn top_places_foremost(keys: Seq<int>, n: nat, limit: nat)
    requires
        n <= keys.len(),
    ensures
        foremost(keys, n, limit, top_places(keys, n, limit)),
    decreases n,
{
    if n > 0 {
        let m = (n - 1) as nat;
        top_places_foremost(keys, m, limit);
        let before = top_places(keys, m, limit);
        assert forall|a: int, b: int| 0 <= a < b < before.len() implies keys[
            #[trigger] before[a]
        ] >= keys[#[trigger] before[b]] by {
            assert(outranks(keys, before[a], before[b]));
        }
        slot_bounds(before, keys, m as int);
        let at = slot(before, keys, m as int);
        let wider = before.insert(at, m as int);
        let order = top_places(keys, n, limit);
        assert forall|a: int| 0 <= a < wider.len() implies 0 <= #[trigger] wider[a] < n by {
            if a < at {
                assert(wider[a] == before[a]);
            } else if a > at {
                assert(wider[a] == before[a - 1]);
            }
        }
        assert forall|a: int, b: int| 0 <= a < b < wider.len() implies outranks(
            keys,
            #[trigger] wider[a],
            #[trigger] wider[b],
        ) by {
            if b < at {
                assert(wider[a] == before[a] && wider[b] == before[b]);
            } else if b == at {
                assert(wider[a] == before[a]);
                assert(before[a] < m);
            } else if a < at {
                assert(wider[a] == before[a] && wider[b] == before[b - 1]);
            } else if a == at {
                assert(wider[b] == before[b - 1]);
            } else {
                assert(wider[a] == before[a - 1] && wider[b] == before[b - 1]);
            }
        }
        assert forall|j: int| 0 <= j < n && !wider.contains(j) implies 0 <= j < m
            && !before.contains(j) by {
            if j == m {
                assert(wider[at] == j);
            }
            if before.contains(j) {
                let k = choose|k: int| 0 <= k < before.len() && before[k] == j;
                if k < at {
                    assert(wider[k] == j);
                } else {
                    assert(wider[k + 1] == j);
                }
            }
        }
        assert forall|a: int, j: int|
            0 <= a < wider.len() && a < limit && 0 <= j < n && !wider.contains(j)
                implies #[trigger] outranks(keys, wider[a], j) by {
            assert(0 <= j < m && !before.contains(j));
            if a < at {
                assert(wider[a] == before[a]);
                assert(outranks(keys, before[a], j));
            } else if a > at {
                assert(wider[a] == before[a - 1]);
                assert(outranks(keys, before[a - 1], j));
            } else {
                // The new place: the listed place behind it outranks j, or
                // the list was not full and nothing was left out.
                if at < before.len() {
                    assert(outranks(keys, before[at], j));
                    assert(keys[before[at]] < keys[m as int]);
                } else {
                    assert(before.len() == m);
                    left_out_of_full(keys, m, before, j);
                }
            }
        }
        if wider.len() > limit {
            assert forall|a: int, j: int|
                0 <= a < order.len() && 0 <= j < n && !order.contains(j) implies #[trigger] outranks(
                keys,
                order[a],
                j,
            ) by {
                assert(order[a] == wider[a]);
                if wider.contains(j) {
                    let k = choose|k: int| 0 <= k < wider.len() && wider[k] == j;
                    if k < limit {
                        assert(order[k] == j);
                    } else {
                        assert(outranks(keys, wider[a], wider[k]));
                    }
                } else {
                    assert(outranks(keys, wider[a], j));
                }
            }
            assert forall|a: int, b: int| 0 <= a < b < order.len() implies outranks(
                keys,
                #[trigger] order[a],
                #[trigger] order[b],
            ) by {
                assert(order[a] == wider[a] && order[b] == wider[b]);
            }
            assert forall|a: int| 0 <= a < order.len() implies 0 <= #[trigger] order[a] < n by {
                assert(order[a] == wider[a]);
            }
        }
    }
}

/// There is one list of the foremost places only: two lists that both
/// qualify agree place by place.
pub proof fn foremost_is_unique(keys: Seq<int>, n: nat, limit: nat, a: Seq<int>, b: Seq<int>)
    requires
        foremost(keys, n, limit, a),
        foremost(keys, n, limit, b),
    ensures
        a == b,
{
    foremost_agree(keys, n, limit, a, b, a.len());
    assert(a =~= b);
}

/// Two lists of the foremost places agree in their first `k` places.
proof fn foremost_agree(keys: Seq<int>, n: nat, limit: nat, a: Seq<int>, b: Seq<int>, k: nat)
    requires
        foremost(keys, n, limit, a),
        foremost(keys, n, limit, b),
        k <= a.len(),
    ensures
        forall|i: int| 0 <= i < k ==> a[i] == b[i],
    decreases k,
{
    if k > 0 {
        let at = k - 1;
        foremost_agree(keys, n, limit, a, b, at as nat);
        if a[at] != b[at] {
            // Each of the two outranks the other.
            if b.contains(a[at]) {
                let j = choose|j: int| 0 <= j < b.len() && b[j] == a[at];
                if j < at {
                    assert(a[j] == b[j]);
                    assert(outranks(keys, a[j], a[at]));
                } else {
                    assert(outranks(keys, b[at], b[j]));
                }
            } else {
                assert(outranks(keys, b[at], a[at]));
            }
            if a.contains(b[at]) {
                let j = choose|j: int| 0 <= j < a.len() && a[j] == b[at];
                if j < at {
                    assert(a[j] == b[j]);
                    assert(outranks(keys, b[j], b[at]));
                } else {
                    assert(outranks(keys, a[at], a[j]));
                }
            } else {
                assert(outranks(keys, a[at], b[at]));
            }
        }
    }
}

/// A list of `m` different places below `m` leaves no place below `m` out.
proof fn left_out_of_full(keys: Seq<int>, m: nat, order: Seq<int>, j: int)
    requires
        order.len() == m,
        0 <= j < m,
        forall|a: int| 0 <= a < order.len() ==> 0 <= #[trigger] order[a] < m,
        forall|a: int, b: int|
            0 <= a < b < order.len() ==> outranks(keys, #[trigger] order[a], #[trigger] order[b]),
    ensures
        order.contains(j),
{
    assert forall|a: int, b: int| 0 <= a < b < order.len() implies order[a] != order[b] by {
        assert(outranks(keys, order[a], order[b]));
    }
    assert(order.no_duplicates());
    let places = order.to_set();
    order.unique_seq_to_set();
    let all = Set::new(|i: int| 0 <= i < m);
    vstd::set_lib::lemma_int_range(0, m as int);
    assert(all =~= vstd::set_lib::set_int_range(0, m as int));
    assert(places.subset_of(all)) by {
        assert forall|i: int| places.contains(i) implies all.contains(i) by {
            let k = choose|k: int| 0 <= k < order.len() && order[k] == i;
            assert(0 <= order[k] < m);
        }
    }
    vstd::set_lib::lemma_subset_equality(places, all);
    assert(places.contains(j));
}

/// The keys as mathematical integers.
pub open spec fn ints(keys: Seq<i128>) -> Seq<int> {
    Seq::new(keys.len(), |i: int| keys[i] as int)
}

/// The places as mathematical integers.
pub open spec fn places(order: Seq<usize>) -> Seq<int> {
    Seq::new(order.len(), |i: int| order[i] as int)
}

/// The places of the `limit` largest keys, largest first; of equal keys the
/// earlier comes first.
pub fn top_indices(keys: &Vec<i128>, limit: usize) -> (order: Vec<usize>)
    ensures
        places(order@) == top_places(ints(keys@), keys@.len(), limit as nat),
        foremost(ints(keys@), keys@.len(), limit as nat, places(order@)),
{
    let mut order: Vec<usize> = Vec::new();
    let mut i: usize = 0;
    let ghost all = ints(keys@);
    while i < keys.len()
        invariant
            i <= keys.len(),
            all == ints(keys@),
            places(order@) =~= top_places(all, i as nat, limit as nat),
            foremost(all, i as nat, limit as nat, places(order@)),
        decreases keys.len() - i,
    {
        let ghost before = places(order@);
        let mut p: usize = order.len();
        proof {
            assert(before.take(order.len() as int) =~= before);
        }
        while p > 0 && keys[order[p - 1]] < keys[i]
            invariant
                p <= order.len(),
                i < keys.len(),
                all == ints(keys@),
                before == places(order@),
                forall|a: int| 0 <= a < order.len() ==> 0 <= #[trigger] before[a] < i,
                slot(before, all, i as int) == slot(before.take(p as int), all, i as int),
            decreases p,
        {
            proof {
                assert(before.take(p as int).drop_last() =~= before.take(p - 1));
                assert(before.take(p as int).last() == before[p - 1]);
                assert(before[p - 1] == order@[p - 1]);
            }
            p -= 1;
        }
        proof {
            assert(before.take(order.len() as int) =~= before);
            if p > 0 {
                assert(before.take(p as int).last() == before[p - 1]);
                assert(before[p - 1] == order@[p - 1]);
            }
            assert(slot(before, all, i as int) == p);
        }
        order.insert(p, i);
        proof {
            assert(places(order@) =~= before.insert(p as int, i as int));
        }
        if order.len() > limit {
            order.truncate(limit);
            proof {
                assert(places(order@) =~= before.insert(p as int, i as int).take(limit as int));
            }
        }
        i += 1;
        proof {
            top_places_foremost(all, i as nat, limit as nat);
        }
    }
    order
}

/// The line that names a process with its memory in mebibytes.
pub open spec fn memory_line(p: ProcessInfo) -> Seq<char> {
    p.name@ + " (pid "@ + digits(p.pid as nat) + ") \u{2014} "@ + ratio_text(
        p.memory as nat,
        MEBIBYTE as nat,
        1,
    ) + "MB"@
}

/// The line that names a process with its processor usage in percent.
pub open spec fn cpu_line(p: ProcessInfo) -> Seq<char> {
    p.name@ + " (pid "@ + digits(p.pid as nat) + ") \u{2014} "@ + fixed_text(p.cpu_usage, 1)
        + "%"@
}

/// The keys by which processes are ranked for memory.
pub open spec fn memory_keys(processes: Seq<ProcessInfo>) -> Seq<int> {
    Seq::new(processes.len(), |i: int| processes[i].memory as int)
}

/// The keys by which processes are ranked for processor usage.
pub open spec fn cpu_keys(processes: Seq<ProcessInfo>) -> Seq<int> {
    Seq::new(processes.len(), |i: int| order_key(processes[i].cpu_usage))
}

/// The lines of the processes that hold the most memory.
pub open spec fn memory_lines(processes: Seq<ProcessInfo>) -> Seq<Value> {
    let order = top_places(memory_keys(processes), processes.len(), TOP_COUNT as nat);
    Seq::new(order.len(), |a: int| Value::Text(memory_line(processes[order[a]])))
}

/// The lines of the processes that use the processor most.
pub open spec fn cpu_lines(processes: Seq<ProcessInfo>) -> Seq<Value> {
    let order = top_places(cpu_keys(processes), processes.len(), TOP_COUNT as nat);
    Seq::new(order.len(), |a: int| Value::Text(cpu_line(processes[order[a]])))
}

/// The metrics of the process module.
pub open spec fn process_pairs(reading: ProcessReading) -> Pairs {
    let all = reading.processes@;
    put(
        put(
            put(
                Seq::empty(),
                "total_processes"@,
                Value::Integer(crate::metric::wrap_signed(all.len() as int)),
            ),
            "top_by_memory"@,
            Value::List(memory_lines(all)),
        ),
        "top_by_cpu"@,
        Value::List(cpu_lines(all)),
    )
}

impl ProcessCollector {
    /// A collector for this module.
    pub fn new() -> (r: ProcessCollector)
        ensures
            r.kind() == ModuleKind::Process,
    {
        ProcessCollector
    }


    /// The line that names a process with its memory in mebibytes.
    pub fn memory_line(p: &ProcessInfo) -> (line: Vec<char>)
        ensures
            line@ == memory_line(*p),
    {
        let mut line: Vec<char> = Vec::new();
        push_str(&mut line, p.name.as_str());
        push_str(&mut line, " (pid ");
        push_u64(&mut line, p.pid as u64);
        push_str(&mut line, ") \u{2014} ");
        push_ratio(&mut line, p.memory, MEBIBYTE, 1);
        push_str(&mut line, "MB");
        proof {
            assert(line@ =~= memory_line(*p));
        }
        line
    }

    /// The line that names a process with its processor usage in percent.
    pub fn cpu_line(p: &ProcessInfo) -> (line: Vec<char>)
        ensures
            line@ == cpu_line(*p),
    {
        let mut line: Vec<char> = Vec::new();
        push_str(&mut line, p.name.as_str());
        push_str(&mut line, " (pid ");
        push_u64(&mut line, p.pid as u64);
        push_str(&mut line, ") \u{2014} ");
        p.cpu_usage.push_fixed(&mut line, 1);
        push_str(&mut line, "%");
        proof {
            assert(line@ =~= cpu_line(*p));
        }
        line
    }

    /// Shapes a reading into the metrics of the module.
    pub fn shape(reading: &ProcessReading, at: Timestamp) -> (data: MetricData)
        ensures
            data.wf(),
            data.moment() == at,
            data.pairs() == process_pairs(*reading),
    {
        let all = &reading.processes;
        let mut by_memory: Vec<i128> = Vec::new();
        let mut by_cpu: Vec<i128> = Vec::new();
        let mut i: usize = 0;
        while i < all.len()
            invariant
                i <= all.len(),
                by_memory.len() == i,
                by_cpu.len() == i,
                forall|k: int| 0 <= k < i ==> #[trigger] by_memory@[k] == all@[k].memory,
                forall|k: int| 0 <= k < i ==> #[trigger] by_cpu@[k] == order_key(all@[k].cpu_usage),
            decreases all.len() - i,
        {
            by_memory.push(all[i].memory as i128);
            by_cpu.push(all[i].cpu_usage.key());
            i += 1;
        }
        proof {
            assert(ints(by_memory@) =~= memory_keys(all@));
            assert(ints(by_cpu@) =~= cpu_keys(all@));
        }
        let memory_order = top_indices(&by_memory, TOP_COUNT);
        let cpu_order = top_indices(&by_cpu, TOP_COUNT);
        let mut top_memory: Vec<MetricValue> = Vec::new();
        let mut a: usize = 0;
        while a < memory_order.len()
            invariant
                a <= memory_order.len(),
                top_memory.len() == a,
                foremost(memory_keys(all@), all@.len(), TOP_COUNT as nat, places(memory_order@)),
                forall|k: int|
                    0 <= k < a ==> (#[trigger] top_memory@[k])@ == Value::Text(
                        memory_line(all@[memory_order@[k] as int]),
                    ),
            decreases memory_order.len() - a,
        {
            proof {
                assert(0 <= places(memory_order@)[a as int] < all@.len());
            }
            let line = ProcessCollector::memory_line(&all[memory_order[a]]);
            top_memory.push(MetricValue::text(&line));
            a += 1;
        }
        let mut top_cpu: Vec<MetricValue> = Vec::new();
        let mut b: usize = 0;
        while b < cpu_order.len()
            invariant
                b <= cpu_order.len(),
                top_cpu.len() == b,
                foremost(cpu_keys(all@), all@.len(), TOP_COUNT as nat, places(cpu_order@)),
                forall|k: int|
                    0 <= k < b ==> (#[trigger] top_cpu@[k])@ == Value::Text(
                        cpu_line(all@[cpu_order@[k] as int]),
                    ),
            decreases cpu_order.len() - b,
        {
            proof {
                assert(0 <= places(cpu_order@)[b as int] < all@.len());
            }
            let line = ProcessCollector::cpu_line(&all[cpu_order[b]]);
            top_cpu.push(MetricValue::text(&line));
            b += 1;
        }
        proof {
            assert(crate::metric::contents(top_memory@) =~= memory_lines(all@));
            assert(crate::metric::contents(top_cpu@) =~= cpu_lines(all@));
        }
        let data = MetricData::new(at);
        let data = data.with(
            "total_processes".to_owned(),
            MetricValue::count(all.len() as u64),
        );
        let data = data.with(
            "top_by_memory".to_owned(),
            MetricValue::list(top_memory),
        );
        let data = data.with(
            "top_by_cpu".to_owned(),
            MetricValue::list(top_cpu),
        );
        data
    }
}

impl MetricCollector for ProcessCollector {
    open spec fn kind(&self) -> ModuleKind {
        ModuleKind::Process
    }

    fn name(&self) -> (r: &'static str) {
        "process"
    }

    fn collect(&self, sample: &Sample, at: Timestamp) -> (r: Result<MetricData, GimError>) {
        match sample {
            Ok(Reading::Process(reading)) => Ok(ProcessCollector::shape(reading, at)),
            _ => Err(refusal(ModuleKind::Process, sample)),
        }
    }
}

} // verus!
