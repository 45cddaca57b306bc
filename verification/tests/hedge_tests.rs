use pumpfeed::config::{RawSmartIpfsEnv, SmartIpfsConfig};
use pumpfeed::hedge::{
    HeadStartStep, HedgedRace, OpenStart, RaceEvent, RaceStep,
};
use pumpfeed::records::{FetchError, FetchStats, LogRecord, Strategy};

fn b(s: &str) -> Vec<u8> {
    s.as_bytes().to_vec()
}

fn cfg() -> SmartIpfsConfig {
    SmartIpfsConfig::from_env(&RawSmartIpfsEnv {
        enabled: None,
        local_gateway: None,
        public_gateways: None,
        local_timeout_ms: None,
        public_timeout_ms: None,
        max_bytes: None,
        fallback_threshold_ms: None,
    })
}

fn start_race() -> (HedgedRace, Vec<LogRecord>) {
    HedgedRace::start(&cfg(), b("coinImageUpdated.X"), b("MINT"), b("bafy"))
}

#[test]
fn race_start_emits_the_start_record() {
    let (machine, records) = start_race();
    assert_eq!(records.len(), 1);
    match &records[0] {
        LogRecord::FetchStart { subject, mint, cid, local_gateway, fallback_threshold_ms } => {
            assert_eq!(subject, &b("coinImageUpdated.X"));
            assert_eq!(mint, &b("MINT"));
            assert_eq!(cid, &b("bafy"));
            assert_eq!(local_gateway, &b("http://localhost:8080/ipfs"));
            assert_eq!(*fallback_threshold_ms, 200);
        }
        _ => panic!("expected the start record"),
    }
    assert_eq!(machine.public_count, 4);
}

#[test]
fn local_success_within_window_wins_local_only() {
    let (mut machine, _) = start_race();
    // the local gateway answers at 150 ms, inside the 200 ms window
    let step = machine.on_local_within_window(
        Ok(FetchStats { bytes: 1024, elapsed_ms: 150 }),
        150,
    );
    match step {
        HeadStartStep::Finished(records) => {
            assert_eq!(records.len(), 1);
            match &records[0] {
                LogRecord::FetchSuccess {
                    strategy,
                    bytes,
                    fetch_elapsed_ms,
                    fallback_elapsed_ms,
                    failed_count,
                    ..
                } => {
                    assert!(matches!(strategy, Strategy::LocalOnly));
                    assert_eq!(*bytes, 1024);
                    assert_eq!(*fetch_elapsed_ms, 150);
                    assert!(fallback_elapsed_ms.is_none());
                    assert!(failed_count.is_none());
                }
                _ => panic!("expected the success record"),
            }
        }
        _ => panic!("expected the race to finish in the window"),
    }
    // no public task was ever asked for: the machine is done
    assert!(matches!(machine.phase, pumpfeed::hedge::RacePhase::Done));
}

#[test]
fn local_slow_then_public_wins() {
    let (mut machine, _) = start_race();
    // the threshold fires first
    let recs = machine.on_threshold();
    assert_eq!(recs.len(), 1);
    assert!(matches!(&recs[0], LogRecord::ThresholdExceeded { threshold_ms: 200, .. }));
    // the open phase starts with the local task still alive
    let open = machine.begin_open(true, 200);
    let racing = match open {
        OpenStart::Racing(records) => records,
        _ => panic!("expected the race to open"),
    };
    assert_eq!(racing.len(), 1);
    assert!(matches!(
        &racing[0],
        LogRecord::FallbackStart { public_gateways_count: 4, .. }
    ));
    assert_eq!(machine.pending, 5);
    // the first public gateway answers at 800 ms
    let step = machine.on_completion(
        RaceEvent::Finished {
            local: false,
            gateway: b("https://ipfs.io/ipfs"),
            cid: b("bafy"),
            outcome: Ok(FetchStats { bytes: 2048, elapsed_ms: 800 }),
        },
        1000,
        800,
    );
    match step {
        RaceStep::Won(records) => {
            assert_eq!(records.len(), 2);
            match &records[0] {
                LogRecord::GatewaySuccess { local, gateway, bytes, .. } => {
                    assert!(!*local);
                    assert_eq!(gateway, &b("https://ipfs.io/ipfs"));
                    assert_eq!(*bytes, 2048);
                }
                _ => panic!("expected the public success record"),
            }
            match &records[1] {
                LogRecord::FetchSuccess { strategy, fallback_elapsed_ms, failed_count, .. } => {
                    assert!(matches!(strategy, Strategy::FallbackToPublic));
                    assert_eq!(*fallback_elapsed_ms, Some(800));
                    assert_eq!(*failed_count, Some(0));
                }
                _ => panic!("expected the terminal success record"),
            }
        }
        _ => panic!("expected a win"),
    }
}

#[test]
fn late_local_win_uses_its_own_strategy() {
    let (mut machine, _) = start_race();
    machine.on_threshold();
    machine.begin_open(true, 200);
    let step = machine.on_completion(
        RaceEvent::Finished {
            local: true,
            gateway: b("http://localhost:8080/ipfs"),
            cid: b("bafy"),
            outcome: Ok(FetchStats { bytes: 10, elapsed_ms: 450 }),
        },
        450,
        250,
    );
    match step {
        RaceStep::Won(records) => {
            assert!(matches!(
                &records[1],
                LogRecord::FetchSuccess { strategy: Strategy::LocalAfterThreshold, .. }
            ));
        }
        _ => panic!("expected a win"),
    }
}

#[test]
fn all_gateways_failing_gives_one_terminal_failure() {
    let (mut machine, _) = start_race();
    // local fails inside the window
    let step = machine.on_local_within_window(Err(FetchError::HttpStatus(500)), 50);
    assert!(matches!(step, HeadStartStep::LocalDown(_)));
    machine.begin_open(false, 200);
    assert_eq!(machine.pending, 4);
    let mut terminal_failures = 0;
    let mut terminal_successes = 0;
    for i in 0..4 {
        let step = machine.on_completion(
            RaceEvent::Finished {
                local: false,
                gateway: b("https://gw.example/ipfs"),
                cid: b("bafy"),
                outcome: Err(FetchError::RequestFailed(b("timed out"))),
            },
            1000 + i,
            800 + i,
        );
        match step {
            RaceStep::Racing(records) => {
                assert_eq!(records.len(), 1);
                assert!(matches!(&records[0], LogRecord::GatewayFailed { .. }));
            }
            RaceStep::Exhausted(records) => {
                assert_eq!(records.len(), 2);
                assert!(matches!(&records[0], LogRecord::GatewayFailed { .. }));
                match &records[1] {
                    LogRecord::FetchFailed { failed_count, .. } => {
                        terminal_failures += 1;
                        // the four public failures; the early local failure
                        // is recorded but not counted
                        assert_eq!(*failed_count, 4);
                    }
                    _ => panic!("expected the terminal failure record"),
                }
            }
            RaceStep::Won(_) => terminal_successes += 1,
        }
    }
    assert_eq!(terminal_failures, 1);
    assert_eq!(terminal_successes, 0);
}

#[test]
fn task_abort_consumes_a_task_without_counting_a_gateway_failure() {
    let (mut machine, _) = start_race();
    machine.on_threshold();
    machine.begin_open(false, 200);
    assert_eq!(machine.pending, 4);
    let step = machine.on_completion(RaceEvent::Aborted { error: b("cancelled") }, 300, 100);
    match step {
        RaceStep::Racing(records) => {
            assert_eq!(records.len(), 1);
            assert!(matches!(&records[0], LogRecord::TaskAbort { .. }));
        }
        _ => panic!("expected the race to go on"),
    }
    assert_eq!(machine.pending, 3);
    assert_eq!(machine.failed_count, 0);
}

#[test]
fn open_with_no_tasks_is_exhausted_at_once() {
    let cfg = SmartIpfsConfig::from_env(&RawSmartIpfsEnv {
        enabled: None,
        local_gateway: None,
        public_gateways: Some(b("")),
        local_timeout_ms: None,
        public_timeout_ms: None,
        max_bytes: None,
        fallback_threshold_ms: None,
    });
    let (mut machine, _) = HedgedRace::start(&cfg, b("s"), b("m"), b("c"));
    machine.on_local_within_window(Err(FetchError::HttpStatus(404)), 10);
    match machine.begin_open(false, 210) {
        OpenStart::Exhausted(records) => {
            assert_eq!(records.len(), 2);
            assert!(matches!(
                &records[0],
                LogRecord::FallbackStart { public_gateways_count: 0, .. }
            ));
            assert!(matches!(&records[1], LogRecord::FetchFailed { failed_count: 0, .. }));
        }
        _ => panic!("expected immediate exhaustion"),
    }
}

#[test]
fn event_names_match_the_wire_vocabulary() {
    let (mut machine, start_records) = start_race();
    assert_eq!(start_records[0].event_name(), Some("smart_ipfs_fetch_start"));
    let recs = machine.on_threshold();
    assert_eq!(recs[0].event_name(), Some("smart_ipfs_local_threshold_exceeded"));
    let open = machine.begin_open(true, 200);
    if let OpenStart::Racing(records) = open {
        assert_eq!(records[0].event_name(), Some("smart_ipfs_fallback_start"));
    } else {
        panic!("expected the race to open");
    }
    let step = machine.on_completion(
        RaceEvent::Finished {
            local: false,
            gateway: b("g"),
            cid: b("c"),
            outcome: Ok(FetchStats { bytes: 1, elapsed_ms: 1 }),
        },
        10,
        5,
    );
    if let RaceStep::Won(records) = step {
        assert_eq!(records[0].event_name(), Some("smart_ipfs_public_success"));
        assert_eq!(records[1].event_name(), Some("smart_ipfs_fetch_success"));
    } else {
        panic!("expected a win");
    }
}
