//! Scheduled queries against the host, and the sidecar that answers them.

use crate::clock::{later_by, latest, nanos_from, not_after, Timestamp};
use crate::json::Json;
use crate::text::{chars_of, to_ascii_lower, ascii_lower, is_text};
use vstd::prelude::*;
use vstd::string::*;

verus! {

// ---------------------------------------------------------------------
// Client
// ---------------------------------------------------------------------

/// A row of an answer: names of columns and contents of cells.
pub type QueryRow = Vec<(String, Json)>;

/// An answer to a query.
#[derive(Debug, PartialEq, Eq)]
pub struct QueryResultSet {
    /// `schedule.` and the name, or an identifier of its own.
    pub query_id: String,
    /// The query.
    pub sql: String,
    /// The rows, at most as many as the query allows.
    pub rows: Vec<QueryRow>,
    /// Whether rows were left out.
    pub truncated: bool,
}

/// Why a query was not answered.
#[derive(Debug, PartialEq, Eq)]
pub enum ClientError {
    Unavailable(String),
    QueryFailed(String),
    Io(String),
}

impl ClientError {
    /// The text that describes the error.
    pub open spec fn text(self) -> Seq<char> {
        match self {
            ClientError::Unavailable(e) => "osquery extension socket unavailable: "@ + e@,
            ClientError::QueryFailed(e) => "osquery query failed: "@ + e@,
            ClientError::Io(e) => "osquery client I/O: "@ + e@,
        }
    }

    /// Describes the error.
    pub fn message(&self) -> (r: String)
        ensures
            r@ == self.text(),
    {
        match self {
            ClientError::Unavailable(e) => "osquery extension socket unavailable: ".to_owned().concat(
                e.as_str(),
            ),
            ClientError::QueryFailed(e) => "osquery query failed: ".to_owned().concat(e.as_str()),
            ClientError::Io(e) => "osquery client I/O: ".to_owned().concat(e.as_str()),
        }
    }
}

/// Has queries answered.
pub trait OsqueryClient {
    /// Has one query answered.
    fn execute(&self, query_id: &str, sql: &str) -> Result<QueryResultSet, ClientError>;
}

/// A client that reaches no one.
#[derive(Debug, PartialEq, Eq)]
pub struct UnavailableClient {
    /// Why no one is reached.
    pub reason: String,
}

impl Default for UnavailableClient {
    fn default() -> (r: Self)
        ensures
            r.reason@ == Seq::<char>::empty(),
    {
        UnavailableClient { reason: String::new() }
    }
}

impl OsqueryClient for UnavailableClient {
    fn execute(&self, query_id: &str, sql: &str) -> (r: Result<QueryResultSet, ClientError>)
        ensures
            r is Err,
            r->Err_0 is Unavailable,
            r->Err_0->Unavailable_0@ == if self.reason@.len() == 0 {
                "osquery sidecar not yet wired (Phase 2)"@
            } else {
                self.reason@
            },
    {
        if self.reason.as_str().is_empty() {
            Err(ClientError::Unavailable("osquery sidecar not yet wired (Phase 2)".to_owned()))
        } else {
            Err(ClientError::Unavailable(self.reason.clone()))
        }
    }
}

// ---------------------------------------------------------------------
// Scheduler
// ---------------------------------------------------------------------

/// A query that is made again and again.
#[derive(Debug, PartialEq, Eq)]
pub struct ScheduledQuery {
    pub name: String,
    pub sql: String,
    /// Time between two runs, in seconds.
    pub interval_secs: u64,
    /// Greatest number of rows in an answer.
    pub max_rows: usize,
}

impl ScheduledQuery {
    /// Time between two runs, in seconds.
    pub fn interval(&self) -> (r: u64)
        ensures
            r == self.interval_secs,
    {
        self.interval_secs
    }
}

/// What is to be done now.
#[derive(Debug, Clone, Copy, PartialEq, Eq, Structural)]
pub enum Tick {
    /// A query is due.
    Run,
    /// No query is due for this many nanoseconds.
    Sleep(u128),
}

/// A millisecond, in nanoseconds.
pub const MILLISECOND: u128 = 1_000_000;

/// An hour, in nanoseconds.
pub const HOUR: u128 = 3_600_000_000_000;

/// Keeps queries and the points in time at which they are due.
#[derive(Debug)]
pub struct Scheduler {
    queries: Vec<ScheduledQuery>,
    next_run: Vec<Timestamp>,
}

/// Index of the first point in time from the `i`-th on that has come.
pub open spec fn first_due(due: Seq<Timestamp>, now: Timestamp, i: int) -> Option<int>
    decreases due.len() - i,
{
    if i < 0 || i >= due.len() {
        None
    } else if not_after(due[i], now) {
        Some(i)
    } else {
        first_due(due, now, i + 1)
    }
}

/// The earliest of the first `n` points in time.
pub open spec fn soonest(due: Seq<Timestamp>, n: int) -> Timestamp
    decreases n,
{
    if n <= 1 {
        due[0]
    } else {
        let m = soonest(due, n - 1);
        if not_after(m, due[n - 1]) {
            m
        } else {
            due[n - 1]
        }
    }
}

/// How long to sleep until `next`, in nanoseconds: never less than a
/// millisecond.
pub open spec fn sleep_until(now: Timestamp, next: Timestamp) -> int {
    if nanos_from(now, next) < MILLISECOND {
        MILLISECOND as int
    } else {
        nanos_from(now, next)
    }
}

/// What is to be done at `now`, and with which query.
pub open spec fn ticked(due: Seq<Timestamp>, now: Timestamp, idx: Option<int>, tick: Tick) -> bool {
    if due.len() == 0 {
        idx is None && tick == Tick::Sleep(HOUR)
    } else {
        match first_due(due, now, 0) {
            Some(i) => idx == Some(i) && tick == Tick::Run,
            None => idx is None && tick is Sleep && tick->Sleep_0 == sleep_until(
                now,
                soonest(due, due.len() as int),
            ),
        }
    }
}

/// When a query that was run at `now` is due again.
pub open spec fn due_again(now: Timestamp, interval: u64) -> Timestamp {
    match later_by(now, interval as int) {
        Some(t) => t,
        None => latest(),
    }
}

/// An answer that was cut down to `max_rows` rows.
pub open spec fn capped(rs: QueryResultSet, max_rows: usize, out: QueryResultSet) -> bool {
    &&& out.query_id == rs.query_id
    &&& out.sql == rs.sql
    &&& out.rows@ == if rs.rows@.len() > max_rows {
        rs.rows@.take(max_rows as int)
    } else {
        rs.rows@
    }
    &&& out.truncated == (rs.truncated || rs.rows@.len() > max_rows)
}

/// Cuts an answer down to `max_rows` rows.
pub fn cap_rows(rs: QueryResultSet, max_rows: usize) -> (r: QueryResultSet)
    ensures
        capped(rs, max_rows, r),
{
    let mut rows = rs.rows;
    let mut truncated = rs.truncated;
    if rows.len() > max_rows {
        let ghost all = rows@;
        rows.truncate(max_rows);
        assert(rows@ =~= all.take(max_rows as int));
        truncated = true;
    }
    QueryResultSet { query_id: rs.query_id, sql: rs.sql, rows, truncated }
}

impl Scheduler {
    /// The queries.
    pub closed spec fn list(&self) -> Seq<ScheduledQuery> {
        self.queries@
    }

    /// When each query is due.
    pub closed spec fn due(&self) -> Seq<Timestamp> {
        self.next_run@
    }

    /// Each query has a point in time at which it is due.
    pub closed spec fn wf(&self) -> bool {
        &&& self.due().len() == self.queries@.len()
        &&& forall|i: int| 0 <= i < self.due().len() ==> (#[trigger] self.due()[i]).valid()
    }

    /// A scheduler by which all queries are due at `now`.
    pub fn new(queries: Vec<ScheduledQuery>, now: Timestamp) -> (r: Scheduler)
        requires
            now.valid(),
        ensures
            r.wf(),
            r.list() == queries@,
            r.due() == Seq::new(queries@.len(), |i: int| now),
    {
        let mut next_run: Vec<Timestamp> = Vec::new();
        let mut i: usize = 0;
        while i < queries.len()
            invariant
                i <= queries@.len(),
                next_run@.len() == i,
                forall|k: int| 0 <= k < i ==> next_run@[k] == now,
            decreases queries@.len() - i,
        {
            next_run.push(now);
            i += 1;
        }
        assert(next_run@ =~= Seq::new(queries@.len(), |i: int| now));
        Scheduler { queries, next_run }
    }

    /// The queries.
    pub fn queries(&self) -> (r: &Vec<ScheduledQuery>)
        ensures
            r@ == self.list(),
    {
        &self.queries
    }

    /// What is to be done at `now`: run the first query that is due, or
    /// sleep until the next is. Without queries the sleep is an hour.
    pub fn tick(&self, now: Timestamp) -> (r: (Option<usize>, Tick))
        requires
            self.wf(),
            now.valid(),
        ensures
            ticked(
                self.due(),
                now,
                match r.0 {
                    Some(i) => Some(i as int),
                    None => None,
                },
                r.1,
            ),
    {
        if self.queries.len() == 0 {
            return (None, Tick::Sleep(HOUR));
        }
        let ghost due = self.next_run@;
        let mut next: Timestamp = self.next_run[0];
        let mut i: usize = 0;
        while i < self.next_run.len()
            invariant
                i <= self.next_run@.len(),
                due == self.next_run@,
                due.len() > 0,
                self.wf(),
                first_due(due, now, 0) == first_due(due, now, i as int),
                i == 0 ==> next == due[0],
                i > 0 ==> next == soonest(due, i as int),
                next.valid(),
            decreases self.next_run@.len() - i,
        {
            let run_at = self.next_run[i];
            assert(self.due()[i as int].valid());
            if run_at.is_not_after(&now) {
                return (Some(i), Tick::Run);
            }
            if !next.is_not_after(&run_at) {
                next = run_at;
            }
            i += 1;
        }
        let gap: u128 = match next.nanos_since(&now) {
            Some(n) => n,
            None => 0,
        };
        if gap < MILLISECOND {
            (None, Tick::Sleep(MILLISECOND))
        } else {
            (None, Tick::Sleep(gap))
        }
    }

    /// Records that query `idx` was run at `now`.
    pub fn record_run(&mut self, idx: usize, now: Timestamp)
        requires
            old(self).wf(),
            now.valid(),
            idx < old(self).list().len(),
        ensures
            final(self).wf(),
            final(self).list() == old(self).list(),
            final(self).due() == old(self).due().update(
                idx as int,
                due_again(now, old(self).list()[idx as int].interval_secs),
            ),
    {
        let at = now.after_secs(self.queries[idx].interval());
        self.next_run.set(idx, at);
    }

    /// What is asked of the client for query `idx`: the identifier and the
    /// query.
    pub fn request(&self, idx: usize) -> (r: (String, String))
        requires
            idx < self.list().len(),
        ensures
            r.0@ == "schedule."@ + self.list()[idx as int].name@,
            r.1@ == self.list()[idx as int].sql@,
    {
        (
            "schedule.".to_owned().concat(self.queries[idx].name.as_str()),
            self.queries[idx].sql.clone(),
        )
    }

    /// Has query `idx` answered, and cuts the answer down to the rows that
    /// the query allows.
    pub fn execute<C: OsqueryClient>(&self, client: &C, idx: usize) -> (r: Result<
        QueryResultSet,
        ClientError,
    >)
        requires
            idx < self.list().len(),
        ensures
            exists|id: &str, sql: &str, answer: Result<QueryResultSet, ClientError>|
                #![trigger call_ensures(C::execute, (client, id, sql), answer)]
                {
                    &&& id@ == "schedule."@ + self.list()[idx as int].name@
                    &&& sql@ == self.list()[idx as int].sql@
                    &&& call_ensures(C::execute, (client, id, sql), answer)
                    &&& match answer {
                        Ok(rs) => r is Ok && capped(
                            rs,
                            self.list()[idx as int].max_rows,
                            r->Ok_0,
                        ),
                        Err(e) => r == Err::<QueryResultSet, ClientError>(e),
                    }
                },
    {
        let (id, sql) = self.request(idx);
        let answer = client.execute(id.as_str(), sql.as_str());
        match answer {
            Ok(rs) => Ok(cap_rows(rs, self.queries[idx].max_rows)),
            Err(e) => Err(e),
        }
    }
}

/// While the scheduler sleeps, no query becomes due: none is due at any
/// point in time before the one that the sleep aims at.
pub proof fn law_nothing_is_due_while_asleep(due: Seq<Timestamp>, t: Timestamp, i: int)
    requires
        0 <= i < due.len(),
        !not_after(soonest(due, due.len() as int), t),
    ensures
        !not_after(due[i], t),
{
    lemma_soonest(due, due.len() as int, i);
}

proof fn lemma_soonest(due: Seq<Timestamp>, n: int, i: int)
    requires
        0 <= i < n <= due.len(),
    ensures
        not_after(soonest(due, n), due[i]),
    decreases n,
{
    if n > 1 && i < n - 1 {
        lemma_soonest(due, n - 1, i);
    }
}

/// A query that was just run is not due before its interval is over, and
/// due from then on.
pub proof fn law_query_waits_for_its_interval(
    due: Seq<Timestamp>,
    i: int,
    now: Timestamp,
    interval: u64,
    t: Timestamp,
)
    requires
        0 <= i < due.len(),
    ensures
        ({
            let after = due.update(i, due_again(now, interval));
            &&& not_after(due_again(now, interval), t) ==> first_due(after, t, 0) is Some
            &&& !not_after(due_again(now, interval), t) ==> first_due(after, t, 0) != Some(i)
        }),
{
    let after = due.update(i, due_again(now, interval));
    lemma_first_due(after, t, 0, i);
}

proof fn lemma_first_due(due: Seq<Timestamp>, t: Timestamp, from: int, i: int)
    requires
        0 <= from <= i < due.len(),
    ensures
        not_after(due[i], t) ==> first_due(due, t, from) is Some,
        first_due(due, t, from) matches Some(k) ==> from <= k < due.len() && not_after(due[k], t),
    decreases due.len() - from,
{
    if !not_after(due[from], t) && from < i {
        lemma_first_due(due, t, from + 1, i);
    } else if !not_after(due[from], t) && from + 1 < due.len() {
        lemma_first_due(due, t, from + 1, from + 1);
    }
}

/// A scheduler never asks for a sleep so short that it would spin.
pub proof fn law_sleep_is_never_short(
    due: Seq<Timestamp>,
    now: Timestamp,
    idx: Option<int>,
    tick: Tick,
)
    requires
        ticked(due, now, idx, tick),
        tick is Sleep,
    ensures
        tick->Sleep_0 >= MILLISECOND,
{
}

// ---------------------------------------------------------------------
// Sidecar
// ---------------------------------------------------------------------

/// What the sidecar may use.
#[derive(Debug, Clone, Copy, PartialEq, Eq, Structural)]
pub struct SidecarBudget {
    /// Memory, in megabytes.
    pub max_rss_mb: u32,
    /// Processor time, in percent.
    pub max_cpu_percent: u8,
}

impl SidecarBudget {
    /// The budget where none is configured.
    pub fn default_phase1() -> (r: SidecarBudget)
        ensures
            r == (SidecarBudget { max_rss_mb: 60, max_cpu_percent: 5 }),
    {
        SidecarBudget { max_rss_mb: 60, max_cpu_percent: 5 }
    }
}

/// Whether the sidecar can be started.
#[derive(Debug, Clone, PartialEq, Eq)]
pub enum ProbeResult {
    Available { path: String },
    Missing { tried: String, reason: String },
    DisabledByConfig,
}

/// What the system says of the file at a path.
#[derive(Debug)]
pub enum FileReading {
    /// There is none.
    Absent,
    /// Its mode, or why that could not be had.
    Unix(Result<u32, String>),
    /// The extension of its name.
    Windows(Option<String>),
}

/// Why a file cannot be run.
pub open spec fn unfit(file: FileReading) -> Option<Seq<char>> {
    match file {
        FileReading::Absent => Some("no such file"@),
        FileReading::Unix(Ok(mode)) => if mode & 0o111 == 0 {
            Some("not executable (no +x bit)"@)
        } else {
            None
        },
        FileReading::Unix(Err(e)) => Some("stat failed: "@ + e@),
        FileReading::Windows(extension) => if extension is Some && ascii_lower(extension->0@)
            == "exe"@ {
            None
        } else {
            Some("expected .exe extension"@)
        },
    }
}

fn why_unfit(file: &FileReading) -> (r: Option<String>)
    ensures
        crate::text::opt_view(r) == unfit(*file),
{
    match file {
        FileReading::Absent => Some("no such file".to_owned()),
        FileReading::Unix(mode) => match mode {
            Ok(mode) => if *mode & 0o111 == 0 {
                Some("not executable (no +x bit)".to_owned())
            } else {
                None
            },
            Err(e) => Some("stat failed: ".to_owned().concat(e.as_str())),
        },
        FileReading::Windows(extension) => {
            let fits = match extension {
                Some(e) => {
                    let chars = chars_of(e.as_str());
                    let lower = to_ascii_lower(chars.as_slice());
                    is_text(lower.as_slice(), "exe")
                },
                None => false,
            };
            if fits {
                None
            } else {
                Some("expected .exe extension".to_owned())
            }
        },
    }
}

/// Tells whether the sidecar can be started from `path`, where one is
/// configured, by what the system says of that file.
pub fn probe(path: Option<&str>, file: &FileReading) -> (r: ProbeResult)
    ensures
        match (path, unfit(*file)) {
            (None, _) => r == ProbeResult::DisabledByConfig,
            (Some(p), Some(why)) => r is Missing && r->tried@ == p@ && r->reason@ == why,
            (Some(p), None) => r is Available && r->path@ == p@,
        },
{
    match path {
        None => ProbeResult::DisabledByConfig,
        Some(p) => match why_unfit(file) {
            Some(reason) => ProbeResult::Missing { tried: p.to_owned(), reason },
            None => ProbeResult::Available { path: p.to_owned() },
        },
    }
}

/// The query module, which waits for its end.
#[derive(Debug, Clone, Copy)]
pub struct QueryModule {}

impl QueryModule {
    /// Name under which the module is known.
    pub fn name(&self) -> (r: &'static str)
        ensures
            r@ == "query"@,
    {
        "query"
    }
}

} // verus!
