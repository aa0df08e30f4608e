use sda_agent::clock::Timestamp;
use sda_agent::json::Json;
use sda_agent::query::{
    cap_rows, probe, ClientError, FileReading, OsqueryClient, ProbeResult, QueryModule,
    QueryResultSet, QueryRow, ScheduledQuery, Scheduler, SidecarBudget, Tick, UnavailableClient,
};
use std::cell::RefCell;
use std::sync::Mutex;

fn q(name: &str, every: u64, cap: usize) -> ScheduledQuery {
    ScheduledQuery {
        name: name.into(),
        sql: format!("SELECT * FROM {name}"),
        interval_secs: every,
        max_rows: cap,
    }
}

/// 2026-05-07T08:30:00Z
fn t0() -> Timestamp {
    Timestamp::from_timestamp(1_778_142_600, 0).unwrap()
}

fn later(secs: u64) -> Timestamp {
    t0().after_secs(secs)
}

const SECOND: u128 = 1_000_000_000;

#[test]
fn empty_scheduler_sleeps() {
    assert_eq!(t0().to_rfc3339(), "2026-05-07T08:30:00+00:00");
    let s = Scheduler::new(vec![], t0());
    let (idx, tick) = s.tick(t0());
    assert!(idx.is_none());
    assert!(matches!(tick, Tick::Sleep(_)));
}

#[test]
fn scheduler_runs_immediately_on_first_tick() {
    let s = Scheduler::new(vec![q("a", 60, 100)], t0());
    let (idx, tick) = s.tick(t0());
    assert_eq!(idx, Some(0));
    assert_eq!(tick, Tick::Run);
}

#[test]
fn scheduler_sleeps_after_recording_run() {
    let mut s = Scheduler::new(vec![q("a", 60, 100)], t0());
    s.record_run(0, t0());
    let (idx, tick) = s.tick(t0());
    assert!(idx.is_none());
    match tick {
        Tick::Sleep(d) => assert!(d <= 60 * SECOND),
        other => panic!("unexpected: {other:?}"),
    }
}

#[test]
fn scheduler_runs_again_after_interval() {
    let mut s = Scheduler::new(vec![q("a", 60, 100)], t0());
    s.record_run(0, t0());
    let (idx, tick) = s.tick(later(60));
    assert_eq!(idx, Some(0));
    assert_eq!(tick, Tick::Run);
}

#[test]
fn scheduler_picks_next_due_first() {
    // Two queries: "a" every 60 s, "b" every 30 s. After 30 s,
    // "b" should be the one returned as Run.
    let mut s = Scheduler::new(vec![q("a", 60, 100), q("b", 30, 100)], t0());
    s.record_run(0, t0());
    s.record_run(1, t0());
    let (idx, tick) = s.tick(later(35));
    assert_eq!(tick, Tick::Run);
    assert_eq!(idx, Some(1));
}

/// Stub client that returns a fixed row count regardless of
/// SQL.
struct StubClient {
    rows: usize,
    log: Mutex<RefCell<Vec<String>>>,
}

fn rows(n: usize) -> Vec<QueryRow> {
    (0..n)
        .map(|i| vec![("idx".to_string(), Json::Number(i.to_string()))])
        .collect()
}

impl OsqueryClient for StubClient {
    fn execute(&self, query_id: &str, sql: &str) -> Result<QueryResultSet, ClientError> {
        self.log
            .lock()
            .unwrap()
            .borrow_mut()
            .push(format!("{query_id}/{sql}"));
        Ok(QueryResultSet {
            query_id: query_id.into(),
            sql: sql.into(),
            rows: rows(self.rows),
            truncated: false,
        })
    }
}

#[test]
fn execute_applies_max_rows_cap() {
    let s = Scheduler::new(vec![q("a", 60, 5)], t0());
    let stub = StubClient {
        rows: 12,
        log: Mutex::new(RefCell::new(vec![])),
    };
    let rs = s.execute(&stub, 0).unwrap();
    assert_eq!(rs.rows.len(), 5);
    assert!(rs.truncated);
    assert_eq!(rs.rows, rows(5));
    assert_eq!(
        *stub.log.lock().unwrap().borrow(),
        vec!["schedule.a/SELECT * FROM a".to_string()]
    );
}

#[test]
fn execute_below_cap_is_not_truncated() {
    let s = Scheduler::new(vec![q("a", 60, 50)], t0());
    let stub = StubClient {
        rows: 3,
        log: Mutex::new(RefCell::new(vec![])),
    };
    let rs = s.execute(&stub, 0).unwrap();
    assert_eq!(rs.rows.len(), 3);
    assert!(!rs.truncated);
}

struct FailingClient;

impl OsqueryClient for FailingClient {
    fn execute(&self, _query_id: &str, _sql: &str) -> Result<QueryResultSet, ClientError> {
        Err(ClientError::Unavailable("nope".into()))
    }
}

#[test]
fn execute_propagates_client_errors() {
    let s = Scheduler::new(vec![q("a", 60, 5)], t0());
    let r = s.execute(&FailingClient, 0);
    assert!(matches!(r, Err(ClientError::Unavailable(_))));
}

#[test]
fn unavailable_client_returns_unavailable_error() {
    let c = UnavailableClient::default();
    let err = c.execute("q1", "SELECT 1").unwrap_err();
    assert!(matches!(err, ClientError::Unavailable(_)));
}

#[test]
fn unavailable_client_reports_custom_reason() {
    let c = UnavailableClient {
        reason: "no binary at /usr/bin/osqueryd".into(),
    };
    let err = c.execute("q1", "SELECT 1").unwrap_err();
    match err {
        ClientError::Unavailable(s) => assert!(s.contains("no binary")),
        other => panic!("unexpected: {other:?}"),
    }
}

#[test]
fn unavailable_path_is_handled_gracefully() {
    let r = probe(Some("/path/that/does/not/exist"), &FileReading::Absent);
    assert!(matches!(r, ProbeResult::Missing { .. }));

    let c = UnavailableClient::default();
    let err = c.execute("q", "SELECT 1").unwrap_err();
    assert!(matches!(err, ClientError::Unavailable(_)));
}

#[test]
fn budget_defaults_match_architecture_doc() {
    let b = SidecarBudget::default_phase1();
    assert_eq!(b.max_rss_mb, 60);
    assert_eq!(b.max_cpu_percent, 5);
}

#[test]
fn none_path_is_disabled() {
    assert_eq!(
        probe(None, &FileReading::Absent),
        ProbeResult::DisabledByConfig
    );
}

#[test]
fn missing_file_is_reported() {
    let r = probe(
        Some("/this/path/should/not/exist/osqueryd"),
        &FileReading::Absent,
    );
    match r {
        ProbeResult::Missing { reason, .. } => assert!(reason.contains("no such file")),
        other => panic!("unexpected: {other:?}"),
    }
}

#[test]
fn existing_executable_is_available() {
    let r = probe(Some("/bin/sh"), &FileReading::Unix(Ok(0o100755)));
    assert!(matches!(r, ProbeResult::Available { .. }));
}

#[test]
fn existing_non_executable_is_rejected() {
    let r = probe(Some("not-executable"), &FileReading::Unix(Ok(0o100644)));
    match r {
        ProbeResult::Missing { reason, .. } => assert!(reason.contains("not executable")),
        other => panic!("unexpected: {other:?}"),
    }
}

#[test]
fn probe_tells_why_a_file_is_unfit() {
    assert_eq!(
        probe(Some("/x"), &FileReading::Unix(Err("denied".into()))),
        ProbeResult::Missing {
            tried: "/x".into(),
            reason: "stat failed: denied".into()
        }
    );
    assert_eq!(
        probe(Some("C:\\o.dll"), &FileReading::Windows(Some("dll".into()))),
        ProbeResult::Missing {
            tried: "C:\\o.dll".into(),
            reason: "expected .exe extension".into()
        }
    );
    assert_eq!(
        probe(Some("C:\\o.EXE"), &FileReading::Windows(Some("EXE".into()))),
        ProbeResult::Available {
            path: "C:\\o.EXE".into()
        }
    );
    assert!(matches!(
        probe(Some("C:\\o"), &FileReading::Windows(None)),
        ProbeResult::Missing { .. }
    ));
}

#[test]
fn sleeps_last_until_the_next_query() {
    let mut s = Scheduler::new(vec![q("a", 60, 1), q("b", 30, 1)], t0());
    s.record_run(0, t0());
    s.record_run(1, t0());
    assert_eq!(s.tick(t0()), (None, Tick::Sleep(30 * SECOND)));
    assert_eq!(s.tick(later(29)), (None, Tick::Sleep(SECOND)));
    // Never shorter than a millisecond.
    let close = Timestamp {
        secs: later(29).secs,
        nanos: 999_999_999,
    };
    assert_eq!(s.tick(close), (None, Tick::Sleep(1_000_000)));
    assert_eq!(
        Scheduler::new(vec![], t0()).tick(t0()),
        (None, Tick::Sleep(3600 * SECOND))
    );
}

#[test]
fn endless_intervals_are_due_at_the_end_of_time() {
    let mut s = Scheduler::new(vec![q("a", u64::MAX, 1)], t0());
    s.record_run(0, t0());
    let (idx, tick) = s.tick(t0());
    assert!(idx.is_none());
    assert!(matches!(tick, Tick::Sleep(d) if d > 1_000_000_000 * SECOND));
    assert_eq!(s.queries()[0].interval(), u64::MAX);
}

#[test]
fn answers_stay_truncated() {
    let rs = QueryResultSet {
        query_id: "q".into(),
        sql: "s".into(),
        rows: rows(2),
        truncated: true,
    };
    let out = cap_rows(rs, 2);
    assert!(out.truncated);
    assert_eq!(out.rows.len(), 2);
}

#[test]
fn client_errors_have_their_texts() {
    assert_eq!(
        UnavailableClient::default()
            .execute("a", "b")
            .unwrap_err()
            .message(),
        "osquery extension socket unavailable: osquery sidecar not yet wired (Phase 2)"
    );
    assert_eq!(
        ClientError::QueryFailed("x".into()).message(),
        "osquery query failed: x"
    );
    assert_eq!(
        ClientError::Io("x".into()).message(),
        "osquery client I/O: x"
    );
    assert_eq!(QueryModule {}.name(), "query");
}
