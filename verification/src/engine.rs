//! The engine: an ordered list of collectors, and the snapshot that one
//! round over them yields.

use vstd::prelude::*;
use crate::error::GimError;
use crate::metric::{MetricData, Pairs, Timestamp};
use crate::modules::cpu::CpuCollector;
use crate::modules::disk::DiskCollector;
use crate::modules::memory::MemoryCollector;
use crate::modules::network::NetworkCollector;
use crate::modules::process::ProcessCollector;
use crate::modules::system::SystemCollector;
use crate::modules::{
    collected, module_name, recognized, refusal_reason, yield_of, MetricCollector, ModuleKind,
    Sample,
};
use crate::text::{push_str, to_text};

verus! {

/// The collector of one of the modules.
#[derive(Debug)]
pub enum Collector {
    Cpu(CpuCollector),
    Memory(MemoryCollector),
    Disk(DiskCollector),
    Network(NetworkCollector),
    Process(ProcessCollector),
    System(SystemCollector),
}

impl Collector {
    /// The collector of the given module.
    pub fn of(kind: ModuleKind) -> (c: Collector)
        ensures
            c.kind() == kind,
    {
        match kind {
            ModuleKind::Cpu => Collector::Cpu(CpuCollector::new()),
            ModuleKind::Memory => Collector::Memory(MemoryCollector::new()),
            ModuleKind::Disk => Collector::Disk(DiskCollector::new()),
            ModuleKind::Network => Collector::Network(NetworkCollector::new()),
            ModuleKind::Process => Collector::Process(ProcessCollector::new()),
            ModuleKind::System => Collector::System(SystemCollector::new()),
        }
    }
}

impl MetricCollector for Collector {
    open spec fn kind(&self) -> ModuleKind {
        match self {
            Collector::Cpu(_) => ModuleKind::Cpu,
            Collector::Memory(_) => ModuleKind::Memory,
            Collector::Disk(_) => ModuleKind::Disk,
            Collector::Network(_) => ModuleKind::Network,
            Collector::Process(_) => ModuleKind::Process,
            Collector::System(_) => ModuleKind::System,
        }
    }

    fn name(&self) -> (r: &'static str) {
        match self {
            Collector::Cpu(c) => c.name(),
            Collector::Memory(c) => c.name(),
            Collector::Disk(c) => c.name(),
            Collector::Network(c) => c.name(),
            Collector::Process(c) => c.name(),
            Collector::System(c) => c.name(),
        }
    }

    fn collect(&self, sample: &Sample, at: Timestamp) -> (r: Result<MetricData, GimError>) {
        match self {
            Collector::Cpu(c) => c.collect(sample, at),
            Collector::Memory(c) => c.collect(sample, at),
            Collector::Disk(c) => c.collect(sample, at),
            Collector::Network(c) => c.collect(sample, at),
            Collector::Process(c) => c.collect(sample, at),
            Collector::System(c) => c.collect(sample, at),
        }
    }
}

/// The metrics of the modules that were collected in one round, in the order
/// of collection.
#[derive(Debug)]
pub struct MetricsSnapshot {
    pub modules: Vec<(String, MetricData)>,
}

/// One module of a snapshot: its name, the moment of collection and its
/// metrics.
pub struct Section {
    pub name: Seq<char>,
    pub moment: Timestamp,
    pub pairs: Pairs,
}

/// The content of a snapshot's modules.
pub open spec fn sections_of(modules: Seq<(String, MetricData)>) -> Seq<Section> {
    Seq::new(
        modules.len(),
        |i: int| Section { name: modules[i].0@, moment: modules[i].1.moment(), pairs: modules[i].1.pairs() },
    )
}

impl View for MetricsSnapshot {
    type V = Seq<Section>;

    open spec fn view(&self) -> Seq<Section> {
        sections_of(self.modules@)
    }
}

impl MetricsSnapshot {
    /// Whether each module's keys are unique and ascending.
    pub open spec fn wf(&self) -> bool {
        forall|i: int| 0 <= i < self.modules@.len() ==> (#[trigger] self.modules@[i]).1.wf()
    }
}

/// The names of the modules, in order.
pub open spec fn names_of(kinds: Seq<ModuleKind>) -> Seq<Seq<char>> {
    Seq::new(kinds.len(), |i: int| module_name(kinds[i]))
}

/// The texts of the strings, in order.
pub open spec fn texts_of(names: Seq<String>) -> Seq<Seq<char>> {
    Seq::new(names.len(), |i: int| names[i]@)
}

/// What the `i`-th module yields in a round: the metrics that its collector
/// makes of the `i`-th sample; nothing where there is no such sample.
pub open spec fn yield_at(kinds: Seq<ModuleKind>, samples: Seq<Sample>, i: int) -> Option<Pairs> {
    if 0 <= i < kinds.len() && i < samples.len() {
        yield_of(kinds[i], samples[i])
    } else {
        None
    }
}

/// The snapshot of a round over the first `n` modules: a section for each
/// module that yields metrics, in the order of the modules, and none for the
/// others.
pub open spec fn gathered(
    kinds: Seq<ModuleKind>,
    samples: Seq<Sample>,
    at: Timestamp,
    n: nat,
) -> Seq<Section>
    decreases n,
{
    if n == 0 {
        Seq::<Section>::empty()
    } else {
        let before = gathered(kinds, samples, at, (n - 1) as nat);
        match yield_at(kinds, samples, n - 1) {
            Some(pairs) => before.push(
                Section { name: module_name(kinds[n - 1]), moment: at, pairs },
            ),
            None => before,
        }
    }
}

/// An engine whose modules bear the requested names has a module for each
/// name, in the order of the request, each name is a module's, and the
/// modules are the only ones that bear these names in this order.
pub proof fn requested_order_is_kept(
    kinds: Seq<ModuleKind>,
    others: Seq<ModuleKind>,
    requested: Seq<Seq<char>>,
)
    requires
        names_of(kinds) == requested,
    ensures
        kinds.len() == requested.len(),
        forall|i: int|
            0 <= i < requested.len() ==> recognized(#[trigger] requested[i]) && requested[i]
                == module_name(kinds[i]),
        names_of(others) == requested ==> others == kinds,
{
    assert forall|i: int| 0 <= i < requested.len() implies recognized(#[trigger] requested[i])
        && requested[i] == module_name(kinds[i]) by {
        assert(requested[i] == names_of(kinds)[i]);
    }
    if names_of(others) == requested {
        assert forall|i: int| 0 <= i < kinds.len() implies others[i] == kinds[i] by {
            assert(names_of(others)[i] == names_of(kinds)[i]);
            crate::modules::module_names_differ(others[i], kinds[i]);
        }
        assert(others =~= kinds);
    }
}

/// The section of the `i`-th module in a round in which it yields metrics.
pub open spec fn section_at(
    kinds: Seq<ModuleKind>,
    samples: Seq<Sample>,
    at: Timestamp,
    i: int,
) -> Section {
    Section { name: module_name(kinds[i]), moment: at, pairs: yield_at(kinds, samples, i)->0 }
}

/// A round over the first `n` modules in which only the module at `failing`
/// yields nothing: the snapshot holds the sections of the others, in order.
pub proof fn gathered_but_one(
    kinds: Seq<ModuleKind>,
    samples: Seq<Sample>,
    at: Timestamp,
    failing: int,
    n: nat,
)
    requires
        n <= kinds.len(),
        0 <= failing < kinds.len(),
        forall|i: int|
            0 <= i < kinds.len() ==> (#[trigger] yield_at(kinds, samples, i) is None <==> i
                == failing),
    ensures
        gathered(kinds, samples, at, n).len() == if n <= failing {
            n as int
        } else {
            n - 1
        },
        forall|i: int|
            0 <= i < n && i < failing ==> #[trigger] gathered(kinds, samples, at, n)[i]
                == section_at(kinds, samples, at, i),
        forall|i: int|
            failing < i < n ==> #[trigger] gathered(kinds, samples, at, n)[i - 1] == section_at(
                kinds,
                samples,
                at,
                i,
            ),
    decreases n,
{
    if n > 0 {
        gathered_but_one(kinds, samples, at, failing, (n - 1) as nat);
        let before = gathered(kinds, samples, at, (n - 1) as nat);
        let now = gathered(kinds, samples, at, n);
        assert(yield_at(kinds, samples, n - 1) is None <==> n - 1 == failing);
        if n - 1 != failing {
            assert(now == before.push(section_at(kinds, samples, at, n - 1)));
        }
        assert forall|i: int| 0 <= i < n && i < failing implies #[trigger] now[i] == section_at(
            kinds,
            samples,
            at,
            i,
        ) by {
            if i < n - 1 {
                assert(before[i] == section_at(kinds, samples, at, i));
            }
        }
        assert forall|i: int| failing < i < n implies #[trigger] now[i - 1] == section_at(
            kinds,
            samples,
            at,
            i,
        ) by {
            if i < n - 1 {
                assert(before[i - 1] == section_at(kinds, samples, at, i));
            }
        }
    }
}

/// Where the metrics source fails for exactly one configured module, the
/// snapshot of the round holds a section for every other module, in the
/// configured order, and none for the failing one.
pub proof fn one_failure_omits_one(
    kinds: Seq<ModuleKind>,
    samples: Seq<Sample>,
    at: Timestamp,
    failing: int,
)
    requires
        0 <= failing < kinds.len(),
        forall|i: int|
            0 <= i < kinds.len() ==> (#[trigger] yield_at(kinds, samples, i) is None <==> i
                == failing),
    ensures
        gathered(kinds, samples, at, kinds.len()).len() == kinds.len() - 1,
        forall|i: int|
            0 <= i < failing ==> #[trigger] gathered(kinds, samples, at, kinds.len())[i]
                == section_at(kinds, samples, at, i),
        forall|i: int|
            failing < i < kinds.len() ==> #[trigger] gathered(kinds, samples, at, kinds.len())[i
                - 1] == section_at(kinds, samples, at, i),
{
    gathered_but_one(kinds, samples, at, failing, kinds.len());
}

/// A round never yields more sections than there are modules, and each
/// section bears the name of a module.
pub proof fn gathered_within(kinds: Seq<ModuleKind>, samples: Seq<Sample>, at: Timestamp, n: nat)
    requires
        n <= kinds.len(),
    ensures
        gathered(kinds, samples, at, n).len() <= n,
        forall|i: int|
            0 <= i < gathered(kinds, samples, at, n).len() ==> recognized(
                (#[trigger] gathered(kinds, samples, at, n)[i]).name,
            ),
    decreases n,
{
    if n > 0 {
        gathered_within(kinds, samples, at, (n - 1) as nat);
        let before = gathered(kinds, samples, at, (n - 1) as nat);
        let now = gathered(kinds, samples, at, n);
        assert forall|i: int| 0 <= i < now.len() implies recognized((#[trigger] now[i]).name) by {
            if i < before.len() {
                assert(now[i] == before[i]);
            } else {
                assert(now[i].name == module_name(kinds[n - 1]));
            }
        }
    }
}

/// An ordered list of collectors.
#[derive(Debug)]
pub struct Engine {
    collectors: Vec<Collector>,
}

impl Engine {
    /// The modules of the collectors, in order.
    pub closed spec fn kinds(&self) -> Seq<ModuleKind> {
        Seq::new(self.collectors@.len(), |i: int| self.collectors@[i].kind())
    }

    /// An engine with one collector for each name, in the order of the names;
    /// a name that occurs twice gets two collectors. It fails on the first
    /// name that is not a module's, before anything is collected.
    pub fn new(module_names: &[String]) -> (r: Result<Engine, GimError>)
        ensures
            match r {
                Ok(engine) => names_of(engine.kinds()) == texts_of(module_names@),
                Err(e) => exists|k: int|
                    0 <= k < module_names@.len() && !recognized(#[trigger] module_names@[k]@)
                        && (forall|j: int| 0 <= j < k ==> recognized(#[trigger] module_names@[j]@))
                        && (e matches GimError::UnknownModule(name) && name@ == module_names@[k]@),
            },
            r is Ok <==> forall|i: int|
                0 <= i < module_names@.len() ==> recognized(#[trigger] module_names@[i]@),
    {
        let mut collectors: Vec<Collector> = Vec::new();
        let mut i: usize = 0;
        while i < module_names.len()
            invariant
                i <= module_names@.len(),
                collectors.len() == i,
                forall|j: int|
                    0 <= j < i ==> module_name((#[trigger] collectors@[j]).kind())
                        == module_names@[j]@,
                forall|j: int| 0 <= j < i ==> recognized(#[trigger] module_names@[j]@),
            decreases module_names.len() - i,
        {
            match ModuleKind::parse(module_names[i].as_str()) {
                Some(kind) => {
                    collectors.push(Collector::of(kind));
                },
                None => {
                    return Err(GimError::UnknownModule(module_names[i].clone()));
                },
            }
            i += 1;
        }
        let engine = Engine { collectors };
        proof {
            assert(names_of(engine.kinds()) =~= texts_of(module_names@));
        }
        Ok(engine)
    }

    /// The names of the configured modules, in order.
    pub fn module_names(&self) -> (names: Vec<&'static str>)
        ensures
            names@.len() == self.kinds().len(),
            forall|i: int| 0 <= i < names@.len() ==> (#[trigger] names@[i])@ == names_of(self.kinds())[i],
    {
        let mut names: Vec<&'static str> = Vec::new();
        let mut i: usize = 0;
        while i < self.collectors.len()
            invariant
                i <= self.collectors.len(),
                names.len() == i,
                forall|j: int|
                    0 <= j < i ==> (#[trigger] names@[j])@ == module_name(
                        self.collectors@[j].kind(),
                    ),
            decreases self.collectors.len() - i,
        {
            names.push(self.collectors[i].name());
            i += 1;
        }
        names
    }

    /// The number of configured modules.
    pub fn len(&self) -> (n: usize)
        ensures
            n == self.kinds().len(),
    {
        self.collectors.len()
    }

    /// One round: each collector in order shapes the sample at its place.
    /// A collector that fails is left out; the others' metrics are kept.
    /// `samples` holds what the metrics source gave for each configured
    /// module, in order.
    pub fn collect_once(&self, samples: &Vec<Sample>, at: Timestamp) -> (snapshot: MetricsSnapshot)
        ensures
            snapshot.wf(),
            snapshot@ == gathered(self.kinds(), samples@, at, self.kinds().len()),
    {
        let mut modules: Vec<(String, MetricData)> = Vec::new();
        let mut i: usize = 0;
        while i < self.collectors.len()
            invariant
                i <= self.collectors.len(),
                forall|j: int| 0 <= j < modules@.len() ==> (#[trigger] modules@[j]).1.wf(),
                sections_of(modules@) =~= gathered(self.kinds(), samples@, at, i as nat),
            decreases self.collectors.len() - i,
        {
            let ghost before = sections_of(modules@);
            if i < samples.len() {
                let collector = &self.collectors[i];
                match collector.collect(&samples[i], at) {
                    Ok(data) => {
                        modules.push((collector.name().to_owned(), data));
                        proof {
                            assert(sections_of(modules@) =~= before.push(
                                Section {
                                    name: module_name(self.kinds()[i as int]),
                                    moment: at,
                                    pairs: data.pairs(),
                                },
                            ));
                        }
                    },
                    Err(_) => {},
                }
            }
            i += 1;
        }
        MetricsSnapshot { modules }
    }

    /// The warnings of one round: a line for each configured module that
    /// yields no metrics, in the order of the modules.
    pub fn warnings(&self, samples: &Vec<Sample>) -> (lines: Vec<String>)
        ensures
            texts_of(lines@) == warned(self.kinds(), samples@, self.kinds().len()),
    {
        let mut lines: Vec<String> = Vec::new();
        let mut i: usize = 0;
        let at = Timestamp { secs: 0, nanos: 0 };
        while i < self.collectors.len()
            invariant
                i <= self.collectors.len(),
                texts_of(lines@) =~= warned(self.kinds(), samples@, i as nat),
            decreases self.collectors.len() - i,
        {
            let ghost before = texts_of(lines@);
            let collector = &self.collectors[i];
            let mut line: Vec<char> = Vec::new();
            push_str(&mut line, "warning: ");
            push_str(&mut line, collector.name());
            push_str(&mut line, " collection failed: ");
            if i < samples.len() {
                match collector.collect(&samples[i], at) {
                    Ok(_) => {},
                    Err(e) => {
                        match e {
                            GimError::Collector { module, source } => {
                                push_str(&mut line, source.as_str());
                            },
                            _ => {},
                        }
                        lines.push(to_text(&line));
                        proof {
                            assert(line@ =~= warning_line(
                                self.kinds()[i as int],
                                refusal_reason(samples@[i as int]),
                            ));
                            assert(texts_of(lines@) =~= before.push(line@));
                        }
                    },
                }
            } else {
                push_str(&mut line, "no reading");
                lines.push(to_text(&line));
                proof {
                    assert(line@ =~= warning_line(self.kinds()[i as int], "no reading"@));
                    assert(texts_of(lines@) =~= before.push(line@));
                }
            }
            i += 1;
        }
        lines
    }
}

/// The warning that a module's collection failed for the given reason.
pub open spec fn warning_line(kind: ModuleKind, reason: Seq<char>) -> Seq<char> {
    "warning: "@ + module_name(kind) + " collection failed: "@ + reason
}

/// The warnings of a round over the first `n` modules.
pub open spec fn warned(kinds: Seq<ModuleKind>, samples: Seq<Sample>, n: nat) -> Seq<Seq<char>>
    decreases n,
{
    if n == 0 {
        Seq::<Seq<char>>::empty()
    } else {
        let before = warned(kinds, samples, (n - 1) as nat);
        if yield_at(kinds, samples, n - 1) is Some {
            before
        } else if n - 1 < samples.len() {
            before.push(warning_line(kinds[n - 1], refusal_reason(samples[n - 1])))
        } else {
            before.push(warning_line(kinds[n - 1], "no reading"@))
        }
    }
}

} // verus!
