//! The scan scheduler: walks every (address, port) pair in address-major,
//! port-minor order, admits probes under a concurrency cap and a minimum gap
//! between launches, and collects one result per pair.
//!
//! The scheduler makes decisions only. The caller drives it: it asks for the
//! next step with the current time, launches the probes it is handed, and
//! reports each finished probe back.
use vstd::prelude::*;
use crate::address::Address;
use crate::target::{parse_targets, expansion};
use crate::probe::{
    ConnectOutcome, PortState, ScanResult, state_of, banner_of, text_view, bytes_view,
};

verus! {

/// Default cap on probes in flight.
pub const DEFAULT_CONCURRENCY: usize = 64;

/// Default per-probe timeout in milliseconds.
pub const DEFAULT_TIMEOUT_MS: u64 = 200;

/// Why a scan was refused before it started.
#[derive(Clone, Copy, Debug, PartialEq, Eq, Structural)]
pub enum ScanError {
    /// A port is 0, or the first port is above the last.
    InvalidPortRange,
    /// The concurrency cap is 0.
    InvalidConcurrency,
    /// The target text is none of the accepted forms for the family.
    InvalidTarget,
}

/// An inclusive range of ports, both in `[1, 65535]`, first at most last.
#[derive(Clone, Copy, Debug, PartialEq, Eq, Structural)]
pub struct PortRange {
    start: u16,
    end: u16,
}

impl PortRange {
    pub closed spec fn first(&self) -> int {
        self.start as int
    }

    pub closed spec fn last(&self) -> int {
        self.end as int
    }

    /// Both ends in `[1, 65535]`, first at most last.
    pub open spec fn wf(&self) -> bool {
        1 <= self.first() <= self.last() <= u16::MAX
    }

    /// The number of ports in the range.
    pub open spec fn count(&self) -> int {
        self.last() - self.first() + 1
    }

    /// The range `[start, end]`; refused unless `1 <= start <= end`.
    pub fn new(start: u16, end: u16) -> (r: Result<PortRange, ScanError>)
        ensures
            match r {
                Ok(p) => start >= 1 && start <= end && p.first() == start && p.last() == end && p.wf(),
                Err(e) => e == ScanError::InvalidPortRange && (start == 0 || start > end),
            },
    {
        if start == 0 || start > end {
            Err(ScanError::InvalidPortRange)
        } else {
            Ok(PortRange { start, end })
        }
    }

    pub fn start(&self) -> (r: u16)
        ensures
            r == self.first(),
    {
        self.start
    }

    pub fn end(&self) -> (r: u16)
        ensures
            r == self.last(),
    {
        self.end
    }

    /// The number of ports in the range.
    pub fn len(&self) -> (r: u32)
        requires
            self.wf(),
        ensures
            r == self.count(),
    {
        (self.end - self.start) as u32 + 1
    }
}

/// The settings of one scan run.
#[derive(Clone, Copy, Debug, PartialEq, Eq, Structural)]
pub struct EngineConfig {
    /// Cap on probes in flight; positive.
    pub concurrency: usize,
    /// Per-probe timeout in milliseconds.
    pub timeout_ms: u64,
    /// Launches per second; 0 for no limit.
    pub rate: u64,
    /// Whether to read a banner from open ports.
    pub banner: bool,
}

impl EngineConfig {
    pub open spec fn wf(&self) -> bool {
        self.concurrency >= 1
    }

    /// Settings for a run; refused when `concurrency` is 0.
    pub fn new(concurrency: usize, timeout_ms: u64, rate: u64, banner: bool) -> (r: Result<
        EngineConfig,
        ScanError,
    >)
        ensures
            match r {
                Ok(c) => concurrency >= 1 && c == (EngineConfig { concurrency, timeout_ms, rate, banner }),
                Err(e) => concurrency == 0 && e == ScanError::InvalidConcurrency,
            },
    {
        if concurrency == 0 {
            Err(ScanError::InvalidConcurrency)
        } else {
            Ok(EngineConfig { concurrency, timeout_ms, rate, banner })
        }
    }
}

/// The least number of milliseconds between two launches at `rate` launches
/// per second; 0 when the rate is unlimited.
pub open spec fn launch_gap(rate: u64) -> int {
    if rate == 0 { 0 } else { 1000int / (rate as int) }
}

/// The least number of milliseconds between two launches.
pub fn submission_gap_ms(rate: u64) -> (r: u64)
    ensures
        r == launch_gap(rate),
{
    if rate == 0 { 0 } else { 1000 / rate }
}

/// One (address, port) pair to probe; `host` is the address's position in
/// the target list.
#[derive(Clone, Copy, Debug, PartialEq, Eq, Structural)]
pub struct ProbeTask {
    pub host: usize,
    pub ip: Address,
    pub port: u16,
}

/// What the caller should do next.
#[derive(Clone, Copy, Debug, PartialEq, Eq, Structural)]
pub enum Step {
    /// Start a probe for the carried (address, port) pair, then take the next step.
    Launch(ProbeTask),
    /// Wait this many milliseconds before the next step.
    Pause(u64),
    /// Wait for a probe in flight to finish and report it.
    Collect,
    /// Every task has been launched and reported.
    Finished,
}

/// The (address, port) pairs of the open results, in order.
pub open spec fn open_list(s: Seq<ScanResult>) -> Seq<(Address, u16)>
    decreases s.len(),
{
    if s.len() == 0 {
        Seq::empty()
    } else {
        let prev = open_list(s.drop_last());
        if s.last().state == PortState::Open {
            prev.push((s.last().ip, s.last().port))
        } else {
            prev
        }
    }
}

/// The state of one scan run.
pub struct Scheduler {
    addrs: Vec<Address>,
    ports: PortRange,
    config: EngineConfig,
    next_host: usize,
    next_port: u16,
    last_launch: Option<u64>,
    in_flight: Vec<ProbeTask>,
    results: Vec<ScanResult>,
    open_ports: Vec<(Address, u16)>,
    completed: Ghost<Seq<ProbeTask>>,
    launch_times: Ghost<Seq<int>>,
}

impl Scheduler {
    pub closed spec fn targets(&self) -> Seq<Address> {
        self.addrs@
    }

    pub closed spec fn port_range(&self) -> PortRange {
        self.ports
    }

    pub closed spec fn settings(&self) -> EngineConfig {
        self.config
    }

    /// The tasks launched and not yet reported.
    pub closed spec fn pending(&self) -> Seq<ProbeTask> {
        self.in_flight@
    }

    /// The tasks reported, in the order of their results.
    pub closed spec fn done(&self) -> Seq<ProbeTask> {
        self.completed@
    }

    /// The results collected so far, in completion order.
    pub closed spec fn collected(&self) -> Seq<ScanResult> {
        self.results@
    }

    /// The open (address, port) pairs so far, in completion order.
    pub closed spec fn open_view(&self) -> Seq<(Address, u16)> {
        self.open_ports@
    }

    /// The times of all launches so far, in order.
    pub closed spec fn launches(&self) -> Seq<int> {
        self.launch_times@
    }

    /// The host and port of the next task to launch.
    pub closed spec fn cursor(&self) -> (int, int) {
        (self.next_host as int, self.next_port as int)
    }

    /// The number of tasks in the whole scan.
    pub open spec fn total(&self) -> int {
        self.targets().len() * self.port_range().count()
    }

    /// `t` is one of the scan's tasks.
    pub open spec fn valid_task(&self, t: ProbeTask) -> bool {
        &&& t.host < self.targets().len()
        &&& t.ip == self.targets()[t.host as int]
        &&& self.port_range().first() <= t.port <= self.port_range().last()
    }

    /// `t` comes before the cursor in address-major, port-minor order.
    pub open spec fn launched(&self, t: ProbeTask) -> bool {
        t.host < self.cursor().0 || (t.host == self.cursor().0 && t.port < self.cursor().1)
    }

    /// How many tasks have been launched.
    pub open spec fn launched_count(&self) -> int {
        self.cursor().0 * self.port_range().count() + (self.cursor().1 - self.port_range().first())
    }

    /// Every task has been launched.
    pub open spec fn exhausted(&self) -> bool {
        self.cursor().0 == self.targets().len()
    }

    /// Where the cursor moves after a launch: the next port, or the first
    /// port of the next address.
    pub open spec fn advanced(&self) -> (int, int) {
        if self.cursor().1 < self.port_range().last() {
            (self.cursor().0, self.cursor().1 + 1)
        } else {
            (self.cursor().0 + 1, self.port_range().first())
        }
    }

    /// The task under the cursor.
    pub open spec fn cursor_task(&self) -> ProbeTask {
        ProbeTask {
            host: self.cursor().0 as usize,
            ip: self.targets()[self.cursor().0],
            port: self.cursor().1 as u16,
        }
    }

    /// Launches are at least the rate's gap apart.
    pub open spec fn spaced(&self) -> bool {
        forall|i: int|
            0 <= i < self.launches().len() - 1 ==> #[trigger] self.launches()[i + 1]
                >= self.launches()[i] + launch_gap(self.settings().rate)
    }

    /// The invariant of a run.
    pub closed spec fn wf(&self) -> bool {
        &&& self.ports.wf()
        &&& self.config.wf()
        &&& self.next_host <= self.addrs.len()
        &&& self.ports.start <= self.next_port <= self.ports.end
        &&& self.next_host == self.addrs.len() ==> self.next_port == self.ports.start
        &&& self.in_flight.len() <= self.config.concurrency
        &&& self.in_flight@.no_duplicates()
        &&& self.completed@.no_duplicates()
        &&& forall|i: int, j: int|
            0 <= i < self.in_flight.len() && 0 <= j < self.completed@.len() ==> self.in_flight@[i]
                != self.completed@[j]
        &&& forall|i: int|
            0 <= i < self.in_flight.len() ==> self.valid_task(#[trigger] self.in_flight@[i])
                && self.launched(self.in_flight@[i])
        &&& forall|i: int|
            0 <= i < self.completed@.len() ==> self.valid_task(#[trigger] self.completed@[i])
                && self.launched(self.completed@[i])
        &&& forall|t: ProbeTask|
            self.valid_task(t) && self.launched(t) ==> #[trigger] self.in_flight@.contains(t)
                || self.completed@.contains(t)
        &&& self.completed@.len() + self.in_flight.len() == self.launched_count()
        &&& self.results.len() == self.completed@.len()
        &&& forall|i: int|
            0 <= i < self.results.len() ==> (#[trigger] self.results@[i]).ip == self.completed@[i].ip
                && self.results@[i].port == self.completed@[i].port
        &&& forall|i: int|
            0 <= i < self.results.len() ==> (#[trigger] self.results@[i]).banner is Some
                ==> self.results@[i].state == PortState::Open && self.config.banner
        &&& self.open_ports@ == open_list(self.results@)
        &&& self.last_launch is None <==> self.launch_times@.len() == 0
        &&& self.last_launch matches Some(p) ==> p == self.launch_times@.last()
        &&& self.spaced()
    }
}


/// The position of `t` in `v`, if it is there.
fn find_task(v: &Vec<ProbeTask>, t: ProbeTask) -> (r: Option<usize>)
    ensures
        r matches Some(i) ==> i < v.len() && v@[i as int] == t,
        r is None ==> !v@.contains(t),
{
    let mut i: usize = 0;
    while i < v.len()
        invariant
            i <= v.len(),
            forall|j: int| 0 <= j < i ==> v@[j] != t,
        decreases v.len() - i,
    {
        if v[i] == t {
            return Some(i);
        }
        i = i + 1;
    }
    None
}

impl Scheduler {
    /// A run over `addrs` × `ports`, nothing launched yet.
    pub fn new(addrs: Vec<Address>, ports: PortRange, config: EngineConfig) -> (r: Scheduler)
        requires
            ports.wf(),
            config.wf(),
        ensures
            r.wf(),
            r.targets() == addrs@,
            r.port_range() == ports,
            r.settings() == config,
            r.cursor() == (0int, ports.first()),
            r.pending().len() == 0,
            r.done().len() == 0,
            r.collected().len() == 0,
            r.open_view().len() == 0,
            r.launches().len() == 0,
    {
        let start = ports.start;
        let r = Scheduler {
            addrs,
            ports,
            config,
            next_host: 0,
            next_port: start,
            last_launch: None,
            in_flight: Vec::new(),
            results: Vec::new(),
            open_ports: Vec::new(),
            completed: Ghost(Seq::empty()),
            launch_times: Ghost(Seq::empty()),
        };
        assert(r.open_ports@ =~= open_list(r.results@));
        assert(r.in_flight@.no_duplicates());
        assert(r.completed@.no_duplicates());
        assert forall|t: ProbeTask| r.valid_task(t) && r.launched(t) implies
            #[trigger] r.in_flight@.contains(t) || r.completed@.contains(t) by {}
        assert(r.spaced());
        r
    }

    /// Decides what to do next at time `now_ms` (milliseconds on a clock of
    /// the caller's choice). A launch is made only below the concurrency cap
    /// and at least the rate's gap after the previous launch.
    pub fn step(&mut self, now_ms: u64) -> (s: Step)
        requires
            old(self).wf(),
        ensures
            final(self).wf(),
            final(self).targets() == old(self).targets(),
            final(self).port_range() == old(self).port_range(),
            final(self).settings() == old(self).settings(),
            match s {
                Step::Launch(t) => {
                    &&& !old(self).exhausted()
                    &&& old(self).pending().len() < old(self).settings().concurrency
                    &&& old(self).launches().len() > 0 ==> now_ms >= old(self).launches().last()
                        + launch_gap(old(self).settings().rate)
                    &&& t == old(self).cursor_task()
                    &&& old(self).valid_task(t)
                    &&& final(self).pending() == old(self).pending().push(t)
                    &&& final(self).done() == old(self).done()
                    &&& final(self).collected() == old(self).collected()
                    &&& final(self).open_view() == old(self).open_view()
                    &&& final(self).launches() == old(self).launches().push(now_ms as int)
                    &&& final(self).cursor() == old(self).advanced()
                    &&& final(self).launched_count() == old(self).launched_count() + 1
                },
                Step::Pause(ms) => {
                    &&& *final(self) == *old(self)
                    &&& ms > 0
                    &&& !old(self).exhausted()
                    &&& old(self).pending().len() < old(self).settings().concurrency
                    &&& old(self).launches().len() > 0
                    &&& now_ms < old(self).launches().last() + launch_gap(old(self).settings().rate)
                    &&& ms == if now_ms < old(self).launches().last() {
                        old(self).launches().last() - now_ms
                    } else {
                        old(self).launches().last() + launch_gap(old(self).settings().rate) - now_ms
                    }
                },
                Step::Collect => {
                    &&& *final(self) == *old(self)
                    &&& old(self).pending().len() > 0
                    &&& old(self).exhausted() || old(self).pending().len()
                        == old(self).settings().concurrency
                },
                Step::Finished => {
                    &&& *final(self) == *old(self)
                    &&& old(self).exhausted()
                    &&& old(self).pending().len() == 0
                },
            },
    {
        if self.next_host == self.addrs.len() {
            if self.in_flight.len() > 0 {
                return Step::Collect;
            } else {
                return Step::Finished;
            }
        }
        if self.in_flight.len() >= self.config.concurrency {
            return Step::Collect;
        }
        let gap = submission_gap_ms(self.config.rate);
        match self.last_launch {
            Some(p) => {
                if now_ms < p {
                    return Step::Pause(p - now_ms);
                } else if now_ms - p < gap {
                    return Step::Pause(gap - (now_ms - p));
                }
            },
            None => {},
        }
        let ghost old_self = *self;
        let t = ProbeTask { host: self.next_host, ip: self.addrs[self.next_host], port: self.next_port };
        assert(!old_self.launched(t));
        self.in_flight.push(t);
        if self.next_port < self.ports.end {
            self.next_port = self.next_port + 1;
        } else {
            proof {
                let h = self.next_host as int;
                let n = self.ports.count();
                assert((h + 1) * n == h * n + n) by (nonlinear_arith);
            }
            self.next_host = self.next_host + 1;
            self.next_port = self.ports.start;
        }
        self.last_launch = Some(now_ms);
        self.launch_times = Ghost(self.launch_times@.push(now_ms as int));
        proof {
            assert(self.in_flight@.last() == t);
            assert forall|i: int| 0 <= i < self.in_flight.len() implies self.valid_task(
                #[trigger] self.in_flight@[i],
            ) && self.launched(self.in_flight@[i]) by {
                if i < old_self.in_flight.len() {
                    assert(self.in_flight@[i] == old_self.in_flight@[i]);
                }
            }
            assert forall|u: ProbeTask| self.valid_task(u) && self.launched(u) implies
                #[trigger] self.in_flight@.contains(u) || self.completed@.contains(u) by {
                if u == t {
                    assert(self.in_flight@[self.in_flight.len() - 1] == u);
                } else {
                    assert(old_self.launched(u));
                    if old_self.in_flight@.contains(u) {
                        let k = choose|k: int| 0 <= k < old_self.in_flight.len() && old_self.in_flight@[k] == u;
                        assert(self.in_flight@[k] == u);
                    }
                }
            }
            assert forall|i: int|
                0 <= i < self.launches().len() - 1 implies #[trigger] self.launches()[i + 1]
                >= self.launches()[i] + launch_gap(self.settings().rate) by {
                if i < self.launches().len() - 2 {
                    assert(old_self.launches()[i + 1] >= old_self.launches()[i] + launch_gap(
                        old_self.settings().rate,
                    ));
                }
            }
        }
        Step::Launch(t)
    }
}

impl Scheduler {
    /// Reports that the probe for `task` ended with `outcome`, having read
    /// `data` if a read was made. A task that is not in flight is refused and
    /// nothing changes.
    pub fn record(&mut self, task: ProbeTask, outcome: ConnectOutcome, data: Option<Vec<u8>>) -> (accepted: bool)
        requires
            old(self).wf(),
        ensures
            final(self).wf(),
            final(self).targets() == old(self).targets(),
            final(self).port_range() == old(self).port_range(),
            final(self).settings() == old(self).settings(),
            final(self).cursor() == old(self).cursor(),
            final(self).launches() == old(self).launches(),
            accepted == old(self).pending().contains(task),
            !accepted ==> *final(self) == *old(self),
            accepted ==> {
                &&& final(self).done() == old(self).done().push(task)
                &&& final(self).pending().len() == old(self).pending().len() - 1
                &&& !final(self).pending().contains(task)
                &&& forall|u: ProbeTask|
                    u != task ==> (final(self).pending().contains(u) <==> old(self).pending().contains(u))
                &&& final(self).collected().drop_last() == old(self).collected()
                &&& final(self).collected().len() == old(self).collected().len() + 1
                &&& final(self).collected().last().ip == task.ip
                &&& final(self).collected().last().port == task.port
                &&& final(self).collected().last().state == state_of(outcome)
                &&& text_view(final(self).collected().last().banner) == banner_of(
                    outcome,
                    old(self).settings().banner,
                    bytes_view(data),
                )
                &&& final(self).open_view() == open_list(final(self).collected())
            },
    {
        match find_task(&self.in_flight, task) {
            None => false,
            Some(i) => {
                let ghost old_self = *self;
                let _ = self.in_flight.remove(i);
                let r = ScanResult::from_probe(task.ip, task.port, outcome, data, self.config.banner);
                if r.state == PortState::Open {
                    self.open_ports.push((r.ip, r.port));
                }
                self.results.push(r);
                self.completed = Ghost(self.completed@.push(task));
                proof {
                    assert(self.results@.drop_last() =~= old_self.results@);
                    assert(self.open_ports@ =~= open_list(self.results@));
                    assert forall|k: int| 0 <= k < self.in_flight.len() implies
                        #[trigger] self.in_flight@[k] == old_self.in_flight@[if k < i { k } else { k + 1 }] by {}
                    assert forall|u: ProbeTask| u != task implies (self.in_flight@.contains(u)
                        <==> old_self.in_flight@.contains(u)) by {
                        if old_self.in_flight@.contains(u) {
                            let k = choose|k: int| 0 <= k < old_self.in_flight.len() && old_self.in_flight@[k] == u;
                            assert(k != i);
                            if k < i {
                                assert(self.in_flight@[k] == u);
                            } else {
                                assert(self.in_flight@[k - 1] == u);
                            }
                        }
                    }
                    assert(!self.in_flight@.contains(task));
                    assert forall|u: ProbeTask| self.valid_task(u) && self.launched(u) implies
                        #[trigger] self.in_flight@.contains(u) || self.completed@.contains(u) by {
                        assert(old_self.valid_task(u) && old_self.launched(u));
                        if u == task {
                            assert(self.completed@[self.completed@.len() - 1] == u);
                        } else if old_self.completed@.contains(u) {
                            let k = choose|k: int| 0 <= k < old_self.completed@.len() && old_self.completed@[k] == u;
                            assert(self.completed@[k] == u);
                        } else {
                            assert(old_self.in_flight@.contains(u));
                            let k = choose|k: int| 0 <= k < old_self.in_flight.len() && old_self.in_flight@[k] == u;
                            assert(k != i);
                            if k < i {
                                assert(self.in_flight@[k] == u);
                            } else {
                                assert(self.in_flight@[k - 1] == u);
                            }
                        }
                    }
                    assert forall|a: int, b: int|
                        0 <= a < self.in_flight.len() && 0 <= b < self.completed@.len() implies
                        self.in_flight@[a] != self.completed@[b] by {
                        if b < old_self.completed@.len() {
                            assert(self.completed@[b] == old_self.completed@[b]);
                        }
                    }
                    assert forall|a: int| 0 <= a < self.completed@.len() implies
                        self.valid_task(#[trigger] self.completed@[a]) && self.launched(self.completed@[a]) by {
                        if a < old_self.completed@.len() {
                            assert(self.completed@[a] == old_self.completed@[a]);
                        }
                    }
                    assert forall|a: int, b: int|
                        0 <= a < self.completed@.len() && 0 <= b < self.completed@.len() && a != b implies
                        self.completed@[a] != self.completed@[b] by {
                        if a == self.completed@.len() - 1 {
                            assert(old_self.in_flight@[i as int] == task);
                        } else if b == self.completed@.len() - 1 {
                            assert(old_self.in_flight@[i as int] == task);
                        }
                    }
                    assert forall|a: int| 0 <= a < self.results.len() implies
                        (#[trigger] self.results@[a]).ip == self.completed@[a].ip
                        && self.results@[a].port == self.completed@[a].port
                        && (self.results@[a].banner is Some ==> self.results@[a].state == PortState::Open
                            && self.config.banner) by {
                        if a < old_self.results.len() {
                            assert(self.results@[a] == old_self.results@[a]);
                            assert(self.completed@[a] == old_self.completed@[a]);
                        }
                    }
                    assert(self.in_flight@.no_duplicates());
                    assert(self.completed@.no_duplicates());
                    assert forall|a: int| 0 <= a < self.in_flight.len() implies
                        self.valid_task(#[trigger] self.in_flight@[a]) && self.launched(self.in_flight@[a]) by {
                        assert(self.in_flight@[a] == old_self.in_flight@[if a < i { a } else { a + 1 }]);
                    }
                    assert(self.completed@.len() + self.in_flight.len() == self.launched_count());
                    assert(old_self.spaced());
                    assert(self.launches() == old_self.launches());
                    assert(self.settings() == old_self.settings());
                    assert(self.spaced());
                }
                true
            },
        }
    }

    /// The results collected so far, in completion order.
    pub fn results(&self) -> (r: &Vec<ScanResult>)
        ensures
            r@ == self.collected(),
    {
        &self.results
    }

    /// The open (address, port) pairs so far, in completion order.
    pub fn open_ports(&self) -> (r: &Vec<(Address, u16)>)
        requires
            self.wf(),
        ensures
            r@ == open_list(self.collected()),
    {
        &self.open_ports
    }

    /// How many probes are in flight.
    pub fn in_flight_count(&self) -> (r: usize)
        ensures
            r == self.pending().len(),
    {
        self.in_flight.len()
    }

    /// How many results have been collected: the progress counter.
    pub fn completed_count(&self) -> (r: usize)
        ensures
            r == self.collected().len(),
    {
        self.results.len()
    }

    /// The number of tasks in the whole scan: the progress total.
    pub fn total_tasks(&self) -> (r: u128)
        requires
            self.wf(),
        ensures
            r == self.total(),
    {
        let n = self.ports.len() as u128;
        let h = self.addrs.len() as u128;
        proof {
            assert(h * n <= 0xffff_ffff_ffff_ffff * 0x1_0000) by (nonlinear_arith)
                requires
                    h <= 0xffff_ffff_ffff_ffff,
                    n <= 0x1_0000,
            ;
        }
        h * n
    }

    /// Ends the run, handing out all results and the open pairs.
    pub fn into_results(self) -> (r: (Vec<ScanResult>, Vec<(Address, u16)>))
        requires
            self.wf(),
        ensures
            r.0@ == self.collected(),
            r.1@ == open_list(self.collected()),
    {
        (self.results, self.open_ports)
    }
}

/// The (address, port, state) triple of a result.
pub open spec fn triple(r: ScanResult) -> (Address, u16, PortState) {
    (r.ip, r.port, r.state)
}

/// The triples of a result sequence, in order.
pub open spec fn triples(s: Seq<ScanResult>) -> Seq<(Address, u16, PortState)> {
    s.map_values(|r: ScanResult| triple(r))
}

/// A run is over: every task launched and reported.
pub open spec fn finished(s: Scheduler) -> bool {
    s.wf() && s.exhausted() && s.pending().len() == 0
}

/// A finished run holds exactly one result per (address, port) pair: the
/// results number `|addresses| × |ports|`, no task is reported twice, and
/// every task is reported.
pub proof fn lemma_finished_scan_complete(s: Scheduler)
    requires
        finished(s),
    ensures
        s.collected().len() == s.total(),
        s.done().len() == s.total(),
        s.done().no_duplicates(),
        forall|t: ProbeTask| s.valid_task(t) ==> #[trigger] s.done().contains(t),
        forall|i: int|
            0 <= i < s.done().len() ==> s.valid_task(#[trigger] s.done()[i]) && s.collected()[i].ip
                == s.done()[i].ip && s.collected()[i].port == s.done()[i].port,
{
    assert forall|t: ProbeTask| s.valid_task(t) implies #[trigger] s.done().contains(t) by {
        assert(s.launched(t));
        assert(!s.in_flight@.contains(t));
    }
}

/// The number of probes in flight never exceeds the concurrency cap.
pub proof fn lemma_in_flight_within_cap(s: Scheduler)
    requires
        s.wf(),
    ensures
        s.pending().len() <= s.settings().concurrency,
        s.pending().no_duplicates(),
{
}

/// A banner is present only on an open port, and only with banner capture
/// enabled; with capture disabled no result has one.
pub proof fn lemma_banner_only_when_open(s: Scheduler)
    requires
        s.wf(),
    ensures
        forall|i: int|
            0 <= i < s.collected().len() && (#[trigger] s.collected()[i]).banner is Some
                ==> s.collected()[i].state == PortState::Open,
        !s.settings().banner ==> forall|i: int|
            0 <= i < s.collected().len() ==> (#[trigger] s.collected()[i]).banner is None,
{
}

/// Any two consecutive launches are at least `1000 / rate` milliseconds apart
/// when a rate is set.
pub proof fn lemma_launches_spaced(s: Scheduler)
    requires
        s.wf(),
    ensures
        forall|i: int|
            0 <= i < s.launches().len() - 1 ==> #[trigger] s.launches()[i + 1] >= s.launches()[i]
                + launch_gap(s.settings().rate),
{
    assert(s.spaced());
}

/// Two finished runs over the same targets (without repeats) and ports, where
/// each (address, port) pair got the same state both times, hold the same
/// multiset of (address, port, state) triples.
pub proof fn lemma_same_outcomes_same_triples(a: Scheduler, b: Scheduler)
    requires
        finished(a),
        finished(b),
        a.targets() == b.targets(),
        a.port_range() == b.port_range(),
        a.targets().no_duplicates(),
        forall|i: int, j: int|
            0 <= i < a.collected().len() && 0 <= j < b.collected().len() && (
            #[trigger] a.collected()[i]).ip == (#[trigger] b.collected()[j]).ip
                && a.collected()[i].port == b.collected()[j].port ==> a.collected()[i].state
                == b.collected()[j].state,
    ensures
        triples(a.collected()).to_multiset() == triples(b.collected()).to_multiset(),
{
    lemma_finished_scan_complete(a);
    lemma_finished_scan_complete(b);
    lemma_triples_distinct(a);
    lemma_triples_distinct(b);
    let ta = triples(a.collected());
    let tb = triples(b.collected());
    assert forall|x: (Address, u16, PortState)| ta.contains(x) implies tb.contains(x) by {
        let i = choose|i: int| 0 <= i < ta.len() && ta[i] == x;
        let t = a.done()[i];
        assert(b.valid_task(t));
        assert(b.done().contains(t));
        let j = choose|j: int| 0 <= j < b.done().len() && b.done()[j] == t;
        assert(tb[j] == x);
    }
    assert forall|x: (Address, u16, PortState)| tb.contains(x) implies ta.contains(x) by {
        let j = choose|j: int| 0 <= j < tb.len() && tb[j] == x;
        let t = b.done()[j];
        assert(a.valid_task(t));
        assert(a.done().contains(t));
        let i = choose|i: int| 0 <= i < a.done().len() && a.done()[i] == t;
        assert(ta[i] == x);
    }
    ta.lemma_multiset_has_no_duplicates();
    tb.lemma_multiset_has_no_duplicates();
    assert forall|x: (Address, u16, PortState)| ta.to_multiset().count(x) == tb.to_multiset().count(x) by {
        vstd::seq_lib::to_multiset_contains(ta, x);
        vstd::seq_lib::to_multiset_contains(tb, x);
    }
    assert(ta.to_multiset() =~= tb.to_multiset());
}

/// In a finished run over targets without repeats, no two results share an
/// (address, port) pair.
proof fn lemma_triples_distinct(s: Scheduler)
    requires
        finished(s),
        s.targets().no_duplicates(),
    ensures
        triples(s.collected()).no_duplicates(),
{
    lemma_finished_scan_complete(s);
    let ts = triples(s.collected());
    assert forall|i: int, j: int| 0 <= i < ts.len() && 0 <= j < ts.len() && i != j implies ts[i]
        != ts[j] by {
        let ti = s.done()[i];
        let tj = s.done()[j];
        assert(s.valid_task(ti) && s.valid_task(tj));
        if ts[i] == ts[j] {
            assert(s.targets()[ti.host as int] == s.targets()[tj.host as int]);
            assert(ti == tj);
        }
    }
}

/// Validates a scan request and sets up its run: the target text is
/// expanded, then the port range and the settings are checked. Any failure
/// stops the request before a probe is made.
pub fn plan_scan(
    target: &str,
    ipv6: bool,
    start_port: u16,
    end_port: u16,
    config: EngineConfig,
) -> (r: Result<Scheduler, ScanError>)
    ensures
        match r {
            Ok(s) => {
                &&& expansion(target@, ipv6) matches Ok(v) && s.targets() == v
                &&& s.port_range().first() == start_port && s.port_range().last() == end_port
                &&& s.settings() == config
                &&& s.wf()
                &&& s.pending().len() == 0 && s.collected().len() == 0 && s.launches().len() == 0
                &&& s.cursor() == (0int, start_port as int)
            },
            Err(e) => {
                &&& e == ScanError::InvalidTarget <==> expansion(target@, ipv6) is Err
                &&& e == ScanError::InvalidPortRange <==> expansion(target@, ipv6) is Ok && (
                start_port == 0 || start_port > end_port)
                &&& e == ScanError::InvalidConcurrency <==> expansion(target@, ipv6) is Ok && 1
                    <= start_port <= end_port && config.concurrency == 0
            },
        },
{
    let addrs = match parse_targets(target, ipv6) {
        Ok(v) => v,
        Err(_) => {
            return Err(ScanError::InvalidTarget);
        },
    };
    let ports = match PortRange::new(start_port, end_port) {
        Ok(p) => p,
        Err(e) => {
            return Err(e);
        },
    };
    if config.concurrency == 0 {
        return Err(ScanError::InvalidConcurrency);
    }
    Ok(Scheduler::new(addrs, ports, config))
}

} // verus!
