use gscan::address::Address;
use gscan::probe::{ConnectOutcome, PortState};
use gscan::scheduler::{
    plan_scan, submission_gap_ms, EngineConfig, PortRange, ProbeTask, ScanError, Scheduler, Step,
    DEFAULT_CONCURRENCY, DEFAULT_TIMEOUT_MS,
};

struct Run {
    triples: Vec<(Address, u16, PortState)>,
    launch_times: Vec<u64>,
    max_in_flight: usize,
    open: Vec<(Address, u16)>,
    sequential: bool,
}

/// Drives a scheduler with a simulated clock; probes finish in launch order
/// after a fixed 5 ms.
fn drive(mut s: Scheduler, outcome: impl Fn(&ProbeTask) -> ConnectOutcome) -> Run {
    let mut now: u64 = 0;
    let mut queue: Vec<ProbeTask> = Vec::new();
    let mut launch_times = Vec::new();
    let mut max_in_flight = 0;
    let mut sequential = true;
    loop {
        match s.step(now) {
            Step::Launch(t) => {
                if !queue.is_empty() {
                    sequential = false;
                }
                launch_times.push(now);
                queue.push(t);
                max_in_flight = max_in_flight.max(s.in_flight_count());
            }
            Step::Pause(ms) => now += ms,
            Step::Collect => {
                now += 5;
                let t = queue.remove(0);
                assert!(s.record(t, outcome(&t), None));
            }
            Step::Finished => break,
        }
    }
    assert_eq!(s.completed_count() as u128, s.total_tasks());
    let (results, open) = s.into_results();
    Run {
        triples: results.iter().map(|r| (r.ip, r.port, r.state)).collect(),
        launch_times,
        max_in_flight,
        open,
        sequential,
    }
}

fn config(concurrency: usize, rate: u64) -> EngineConfig {
    EngineConfig::new(concurrency, DEFAULT_TIMEOUT_MS, rate, false).unwrap()
}

#[test]
fn one_closed_port_gives_one_closed_outcome() {
    let s = plan_scan("10.0.0.1", false, 1, 1, config(64, 0)).unwrap();
    let run = drive(s, |_| ConnectOutcome::Refused);
    assert_eq!(run.triples, vec![(Address::V4(0x0A00_0001), 1, PortState::Closed)]);
    assert!(run.open.is_empty());
}

#[test]
fn slash_30_on_one_port_gives_four_outcomes() {
    let s = plan_scan("10.0.0.0/30", false, 80, 80, config(64, 0)).unwrap();
    let run = drive(s, |_| ConnectOutcome::TimedOut);
    assert_eq!(run.triples.len(), 4);
    let mut ips: Vec<Address> = run.triples.iter().map(|t| t.0).collect();
    ips.sort_by_key(|a| match a {
        Address::V4(x) => *x as u128,
        Address::V6(x) => *x,
    });
    assert_eq!(
        ips,
        vec![Address::V4(0x0A00_0000), Address::V4(0x0A00_0001), Address::V4(0x0A00_0002), Address::V4(0x0A00_0003)]
    );
}

#[test]
fn concurrency_one_is_strictly_sequential() {
    let s = plan_scan("10.0.0.1-10.0.0.3", false, 22, 23, config(1, 0)).unwrap();
    let run = drive(s, |_| ConnectOutcome::Failed);
    assert_eq!(run.triples.len(), 6);
    assert_eq!(run.max_in_flight, 1);
    assert!(run.sequential);
    let pairs: Vec<(Address, u16)> = run.triples.iter().map(|t| (t.0, t.1)).collect();
    assert_eq!(
        pairs,
        vec![
            (Address::V4(0x0A00_0001), 22),
            (Address::V4(0x0A00_0001), 23),
            (Address::V4(0x0A00_0002), 22),
            (Address::V4(0x0A00_0002), 23),
            (Address::V4(0x0A00_0003), 22),
            (Address::V4(0x0A00_0003), 23),
        ]
    );
}

#[test]
fn rate_ten_spaces_launches_by_100ms() {
    let s = plan_scan("10.0.0.1-10.0.0.4", false, 1, 5, config(64, 10)).unwrap();
    let run = drive(s, |_| ConnectOutcome::TimedOut);
    assert_eq!(run.launch_times.len(), 20);
    for w in run.launch_times.windows(2) {
        assert!(w[1] >= w[0] + 100);
    }
}

#[test]
fn unlimited_rate_launches_without_pause() {
    let s = plan_scan("10.0.0.1", false, 1, 10, config(64, 0)).unwrap();
    let run = drive(s, |_| ConnectOutcome::TimedOut);
    assert!(run.launch_times.iter().all(|t| *t == 0));
    assert_eq!(run.max_in_flight, 10);
}

#[test]
fn in_flight_never_exceeds_cap() {
    let s = plan_scan("10.0.0.0/29", false, 1, 20, config(7, 0)).unwrap();
    let run = drive(s, |_| ConnectOutcome::TimedOut);
    assert_eq!(run.triples.len(), 160);
    assert_eq!(run.max_in_flight, 7);
}

#[test]
fn result_count_is_addresses_times_ports() {
    let s = plan_scan("192.168.0.0/28", false, 100, 109, config(3, 0)).unwrap();
    assert_eq!(s.total_tasks(), 160);
    let run = drive(s, |t| if t.port % 2 == 0 { ConnectOutcome::Connected } else { ConnectOutcome::Refused });
    assert_eq!(run.triples.len(), 160);
    let mut pairs: Vec<(u128, u16)> = run
        .triples
        .iter()
        .map(|t| match t.0 {
            Address::V4(x) => (x as u128, t.1),
            Address::V6(x) => (x, t.1),
        })
        .collect();
    pairs.sort();
    pairs.dedup();
    assert_eq!(pairs.len(), 160);
    assert_eq!(run.open.len(), 80);
}

#[test]
fn open_ports_summary_keeps_completion_order() {
    let s = plan_scan("10.0.0.1", false, 20, 25, config(2, 0)).unwrap();
    let run = drive(s, |t| if t.port == 22 || t.port == 25 { ConnectOutcome::Connected } else { ConnectOutcome::Refused });
    assert_eq!(run.open, vec![(Address::V4(0x0A00_0001), 22), (Address::V4(0x0A00_0001), 25)]);
}

#[test]
fn same_scan_twice_gives_same_triples() {
    let outcome = |t: &ProbeTask| if t.port == 443 { ConnectOutcome::Connected } else { ConnectOutcome::TimedOut };
    let a = drive(plan_scan("10.1.0.0/30", false, 440, 445, config(5, 0)).unwrap(), outcome);
    let b = drive(plan_scan("10.1.0.0/30", false, 440, 445, config(2, 0)).unwrap(), outcome);
    let key = |t: &(Address, u16, PortState)| {
        let ip = match t.0 {
            Address::V4(x) => x as u128,
            Address::V6(x) => x,
        };
        (ip, t.1, t.2.as_str())
    };
    let mut ka: Vec<_> = a.triples.iter().map(key).collect();
    let mut kb: Vec<_> = b.triples.iter().map(key).collect();
    ka.sort();
    kb.sort();
    assert_eq!(ka, kb);
}

#[test]
fn unknown_task_is_refused() {
    let mut s = plan_scan("10.0.0.1", false, 1, 2, config(4, 0)).unwrap();
    let t = ProbeTask { host: 0, ip: Address::V4(0x0A00_0001), port: 2 };
    assert!(!s.record(t, ConnectOutcome::Connected, None));
    assert_eq!(s.completed_count(), 0);
    match s.step(0) {
        Step::Launch(first) => {
            assert_eq!(first, ProbeTask { host: 0, ip: Address::V4(0x0A00_0001), port: 1 });
            assert!(s.record(first, ConnectOutcome::Connected, None));
            assert!(!s.record(first, ConnectOutcome::Connected, None));
        }
        _ => panic!("expected a launch"),
    }
    assert_eq!(s.completed_count(), 1);
    assert_eq!(s.results()[0].state, PortState::Open);
    assert_eq!(s.open_ports().len(), 1);
}

#[test]
fn empty_range_would_finish_at_once() {
    let mut s = Scheduler::new(Vec::new(), PortRange::new(1, 10).unwrap(), config(4, 0));
    assert_eq!(s.step(0), Step::Finished);
    assert_eq!(s.total_tasks(), 0);
}

#[test]
fn pause_when_launch_comes_too_soon() {
    let mut s = plan_scan("10.0.0.1", false, 1, 3, config(8, 4)).unwrap();
    assert!(matches!(s.step(1000), Step::Launch(_)));
    assert_eq!(s.step(1100), Step::Pause(150));
    assert_eq!(s.step(900), Step::Pause(100));
    assert!(matches!(s.step(1250), Step::Launch(_)));
}

#[test]
fn collect_when_cap_reached() {
    let mut s = plan_scan("10.0.0.1", false, 1, 3, config(1, 0)).unwrap();
    assert!(matches!(s.step(0), Step::Launch(_)));
    assert_eq!(s.step(0), Step::Collect);
    assert_eq!(s.in_flight_count(), 1);
}

#[test]
fn gap_formula() {
    assert_eq!(submission_gap_ms(0), 0);
    assert_eq!(submission_gap_ms(10), 100);
    assert_eq!(submission_gap_ms(3), 333);
    assert_eq!(submission_gap_ms(5000), 0);
}

#[test]
fn port_range_validation() {
    assert_eq!(PortRange::new(0, 10), Err(ScanError::InvalidPortRange));
    assert_eq!(PortRange::new(20, 10), Err(ScanError::InvalidPortRange));
    let p = PortRange::new(1, 65535).unwrap();
    assert_eq!((p.start(), p.end(), p.len()), (1, 65535, 65535));
    assert_eq!(PortRange::new(7, 7).unwrap().len(), 1);
}

#[test]
fn config_validation() {
    assert_eq!(EngineConfig::new(0, 200, 0, false), Err(ScanError::InvalidConcurrency));
    let c = EngineConfig::new(DEFAULT_CONCURRENCY, 150, 5, true).unwrap();
    assert_eq!((c.concurrency, c.timeout_ms, c.rate, c.banner), (64, 150, 5, true));
}

#[test]
fn plan_scan_errors() {
    let ok = config(64, 0);
    assert!(matches!(plan_scan("bogus", false, 1, 10, ok), Err(ScanError::InvalidTarget)));
    assert!(matches!(plan_scan("10.0.0.1", false, 10, 1, ok), Err(ScanError::InvalidPortRange)));
    let zero = EngineConfig { concurrency: 0, timeout_ms: 200, rate: 0, banner: false };
    assert!(matches!(plan_scan("10.0.0.1", false, 1, 10, zero), Err(ScanError::InvalidConcurrency)));
    assert!(matches!(plan_scan("bogus", false, 10, 1, zero), Err(ScanError::InvalidTarget)));
}
