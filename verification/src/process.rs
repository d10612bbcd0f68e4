//! The process engine's state: records of spawned children, their
//! lifecycle from `running` to a terminal status, their bounded log
//! rings, and the registry that holds them by identifier.

use vstd::prelude::*;
use crate::api::{ExecProcessResponse, ProcessLogsResponse, ProcessOperationResponse, ProcessStatus};
use crate::error::AppError;
use crate::level;
use crate::os::{send_signal, SignalName};
use crate::ring::{ring_push_spec, LogRing};
use crate::text;
use crate::timefmt;
use crate::MAX_LOG_LINES;

verus! {

#[derive(Clone, Copy, Debug, PartialEq, Eq, Structural)]
pub enum ProcStatus {
    Running,
    Completed,
    Failed,
    Killed,
}

impl ProcStatus {
    /// A status other than `running` is terminal: nothing leaves it.
    pub open spec fn is_terminal(self) -> bool {
        self != ProcStatus::Running
    }

    pub open spec fn name_spec(self) -> Seq<char> {
        match self {
            ProcStatus::Running => "running"@,
            ProcStatus::Completed => "completed"@,
            ProcStatus::Failed => "failed"@,
            ProcStatus::Killed => "killed"@,
        }
    }

    pub fn name(self) -> (r: &'static str)
        ensures
            r@ == self.name_spec(),
    {
        match self {
            ProcStatus::Running => "running",
            ProcStatus::Completed => "completed",
            ProcStatus::Failed => "failed",
            ProcStatus::Killed => "killed",
        }
    }
}

/// Which output stream of the child a log pump reads.
#[derive(Clone, Copy, Debug, PartialEq, Eq, Structural)]
pub enum StreamKind {
    Stdout,
    Stderr,
}

pub open spec fn stream_tag(kind: StreamKind) -> Seq<char> {
    match kind {
        StreamKind::Stdout => level::tag_stdout(),
        StreamKind::Stderr => level::tag_stderr(),
    }
}

/// What the waiter saw `wait()` return: the exit code and terminating
/// signal the OS reported, or a failure of the wait itself.
pub enum WaitOutcome {
    Exited { code: Option<i32>, signal: Option<i32> },
    WaitFailed,
}

impl WaitOutcome {
    /// Signal numbers are small; this keeps `128 + signal` in range.
    pub open spec fn wf(&self) -> bool {
        match self {
            WaitOutcome::Exited { code, signal } => match signal {
                Some(s) => 0 <= *s <= 1024,
                None => true,
            },
            WaitOutcome::WaitFailed => true,
        }
    }
}

/// The terminal status a wait outcome dictates: success means
/// `completed`, a terminating signal means `killed`, anything else —
/// including a failed wait — means `failed`.
pub open spec fn status_after_wait(o: WaitOutcome) -> ProcStatus {
    match o {
        WaitOutcome::Exited { code, signal } => {
            if code == Some(0i32) {
                ProcStatus::Completed
            } else if signal is Some {
                ProcStatus::Killed
            } else {
                ProcStatus::Failed
            }
        },
        WaitOutcome::WaitFailed => ProcStatus::Failed,
    }
}

/// The exit code a wait outcome dictates: the process's own code, or
/// `128 + signal` for a signal termination, or the old value where the
/// wait itself failed.
pub open spec fn exit_code_after_wait(o: WaitOutcome, old_code: Option<i32>) -> Option<i32> {
    match o {
        WaitOutcome::Exited { code, signal } => match code {
            Some(c) => Some(c),
            None => match signal {
                Some(s) => Some((128 + s) as i32),
                None => None,
            },
        },
        WaitOutcome::WaitFailed => old_code,
    }
}

/// One spawned process as the registry holds it.
pub struct ProcessRecord {
    pub id: String,
    pub pid: Option<u32>,
    /// The OS child handle; the waiter takes it out exactly once.
    pub child: Option<tokio::process::Child>,
    pub command: String,
    pub status: ProcStatus,
    pub start_time: u64,
    pub end_time: Option<u64>,
    pub exit_code: Option<i32>,
    pub logs: LogRing,
}

/// The status view of a record, as `to_status` renders it.
pub open spec fn status_matches(st: ProcessStatus, rec: ProcessRecord) -> bool {
    &&& st.process_id@ == rec.id@
    &&& st.pid == rec.pid
    &&& st.command@ == rec.command@
    &&& st.process_status@ == rec.status.name_spec()
    &&& st.start_time@ == timefmt::format_time_spec(rec.start_time as nat)
    &&& match rec.end_time {
        Some(t) => st.end_time matches Some(e) && e@ == timefmt::format_time_spec(t as nat),
        None => st.end_time is None,
    }
    &&& st.exit_code == rec.exit_code
}

impl ProcessRecord {
    pub open spec fn wf(&self) -> bool {
        self.logs.wf() && self.logs.cap() == MAX_LOG_LINES as nat
    }

    /// A fresh record for a child spawned at `now`: status `running`, no
    /// end time, no exit code, an empty log ring.
    pub fn new(
        id: String,
        pid: Option<u32>,
        command: String,
        child: Option<tokio::process::Child>,
        now: u64,
    ) -> (r: ProcessRecord)
        ensures
            r.wf(),
            r.id == id,
            r.pid == pid,
            r.command == command,
            r.status == ProcStatus::Running,
            r.start_time == now,
            r.end_time is None,
            r.exit_code is None,
            r.logs@ == Seq::<Seq<char>>::empty(),
    {
        ProcessRecord {
            id,
            pid,
            child,
            command,
            status: ProcStatus::Running,
            start_time: now,
            end_time: None,
            exit_code: None,
            logs: LogRing::new(MAX_LOG_LINES),
        }
    }

    pub fn to_status(&self) -> (r: ProcessStatus)
        ensures
            status_matches(r, *self),
    {
        ProcessStatus {
            process_id: self.id.clone(),
            pid: self.pid,
            command: self.command.clone(),
            process_status: self.status.name().to_owned(),
            start_time: timefmt::format_time(self.start_time),
            end_time: match &self.end_time {
                Some(t) => Some(timefmt::format_time(*t)),
                None => None,
            },
            exit_code: self.exit_code,
        }
    }
}

/// What the waiter's write does to a record: the end time is set, the
/// exit code follows the outcome, and the status moves to the dictated
/// terminal status — unless a kill handler already made it terminal, in
/// which case the status stays (a terminal status is never left).
pub open spec fn wait_update_spec(rec: ProcessRecord, o: WaitOutcome, now: u64) -> ProcessRecord {
    ProcessRecord {
        status: if rec.status is Running {
            status_after_wait(o)
        } else {
            rec.status
        },
        exit_code: exit_code_after_wait(o, rec.exit_code),
        end_time: Some(now),
        ..rec
    }
}

/// What a delivered kill does to a record: `SIGKILL` marks it `killed`
/// at once; other signals leave the status to the waiter.
pub open spec fn kill_update_spec(rec: ProcessRecord, sig: SignalName) -> ProcessRecord {
    if sig == SignalName::Kill {
        ProcessRecord { status: ProcStatus::Killed, ..rec }
    } else {
        rec
    }
}

/// The signal a kill request's `signal` parameter names; anything
/// unknown, or no parameter at all, means `SIGKILL`.
pub open spec fn signal_of_name(name: Option<Seq<char>>) -> SignalName {
    match name {
        None => SignalName::Kill,
        Some(s) => {
            if s == "SIGTERM"@ {
                SignalName::Term
            } else if s == "SIGINT"@ {
                SignalName::Int
            } else if s == "SIGHUP"@ {
                SignalName::Hup
            } else {
                SignalName::Kill
            }
        },
    }
}

pub fn parse_signal_name(name: Option<&str>) -> (r: SignalName)
    ensures
        r == signal_of_name(match name {
            Some(s) => Some(s@),
            None => None,
        }),
{
    proof {
        reveal_strlit("SIGTERM");
        reveal_strlit("SIGINT");
        reveal_strlit("SIGHUP");
    }
    match name {
        None => SignalName::Kill,
        Some(s) => {
            if text::str_eq(s, "SIGTERM") {
                SignalName::Term
            } else if text::str_eq(s, "SIGINT") {
                SignalName::Int
            } else if text::str_eq(s, "SIGHUP") {
                SignalName::Hup
            } else {
                SignalName::Kill
            }
        },
    }
}

/// The index of the first record with the given id, at or after `from`.
pub open spec fn find_from(s: Seq<ProcessRecord>, id: Seq<char>, from: int) -> Option<int>
    decreases s.len() - from,
{
    if from < 0 || from >= s.len() {
        None
    } else if s[from].id@ == id {
        Some(from)
    } else {
        find_from(s, id, from + 1)
    }
}

/// The index of the record with the given id, if any.
pub open spec fn spec_lookup(s: Seq<ProcessRecord>, id: Seq<char>) -> Option<int> {
    find_from(s, id, 0)
}

pub proof fn lemma_find_from_props(s: Seq<ProcessRecord>, id: Seq<char>, from: int)
    requires
        0 <= from <= s.len(),
    ensures
        match find_from(s, id, from) {
            Some(i) => from <= i < s.len() && s[i].id@ == id && (forall|j: int|
                from <= j < i ==> s[j].id@ != id),
            None => forall|j: int| from <= j < s.len() ==> s[j].id@ != id,
        },
    decreases s.len() - from,
{
    if from < s.len() && s[from].id@ != id {
        lemma_find_from_props(s, id, from + 1);
    }
}

/// Registry well-formedness: identifiers are unique and each record is
/// well formed.
pub open spec fn registry_wf(s: Seq<ProcessRecord>) -> bool {
    &&& forall|i: int, j: int| 0 <= i < j < s.len() ==> s[i].id@ != s[j].id@
    &&& forall|i: int| 0 <= i < s.len() ==> #[trigger] s[i].wf()
}

/// Updating a record in place, keeping its id, leaves lookups unchanged.
pub proof fn lemma_lookup_after_update(
    s: Seq<ProcessRecord>,
    i: int,
    rec: ProcessRecord,
    id: Seq<char>,
)
    requires
        0 <= i < s.len(),
        spec_lookup(s, id) == Some(i),
        rec.id@ == s[i].id@,
    ensures
        spec_lookup(s.update(i, rec), id) == Some(i),
{
    lemma_find_from_props(s, id, 0);
    lemma_find_from_stable(s, s.update(i, rec), id, 0, i);
}

proof fn lemma_find_from_stable(
    s1: Seq<ProcessRecord>,
    s2: Seq<ProcessRecord>,
    id: Seq<char>,
    from: int,
    i: int,
)
    requires
        0 <= from <= i < s1.len(),
        s1.len() == s2.len(),
        forall|j: int| 0 <= j < s1.len() ==> s1[j].id@ == s2[j].id@,
        s1[i].id@ == id,
        forall|j: int| from <= j < i ==> s1[j].id@ != id,
    ensures
        find_from(s2, id, from) == Some(i),
    decreases i - from,
{
    if from < i {
        lemma_find_from_stable(s1, s2, id, from + 1, i);
    }
}


/// `post` is `pre` with exactly `line` appended to its log ring.
pub open spec fn record_with_pushed_line(
    pre: ProcessRecord,
    post: ProcessRecord,
    line: Seq<char>,
) -> bool {
    &&& post.id == pre.id
    &&& post.pid == pre.pid
    &&& post.child == pre.child
    &&& post.command == pre.command
    &&& post.status == pre.status
    &&& post.start_time == pre.start_time
    &&& post.end_time == pre.end_time
    &&& post.exit_code == pre.exit_code
    &&& post.logs.cap() == pre.logs.cap()
    &&& post.logs@ == ring_push_spec(pre.logs@, pre.logs.cap(), line)
}


/// Replacing one record, keeping its id, preserves registry
/// well-formedness.
pub proof fn lemma_registry_wf_replace(s1: Seq<ProcessRecord>, s2: Seq<ProcessRecord>, i: int)
    requires
        registry_wf(s1),
        0 <= i < s1.len(),
        s2.len() == s1.len(),
        forall|j: int| 0 <= j < s1.len() && j != i ==> s2[j] == s1[j],
        s2[i].id@ == s1[i].id@,
        s2[i].wf(),
    ensures
        registry_wf(s2),
{
    assert forall|a: int, b: int| 0 <= a < b < s2.len() implies s2[a].id@ != s2[b].id@ by {
        assert(s1[a].id@ != s1[b].id@);
    }
    assert forall|a: int| 0 <= a < s2.len() implies #[trigger] s2[a].wf() by {
        assert(s1[a].wf());
    }
}

/// Dropping one record preserves registry well-formedness.
pub proof fn lemma_registry_wf_remove(s: Seq<ProcessRecord>, i: int)
    requires
        registry_wf(s),
        0 <= i < s.len(),
    ensures
        registry_wf(s.remove(i)),
{
    let s2 = s.remove(i);
    assert forall|a: int, b: int| 0 <= a < b < s2.len() implies s2[a].id@ != s2[b].id@ by {
        let a1 = if a < i { a } else { a + 1 };
        let b1 = if b < i { b } else { b + 1 };
        assert(s2[a] == s[a1]);
        assert(s2[b] == s[b1]);
        assert(s[a1].id@ != s[b1].id@);
    }
    assert forall|a: int| 0 <= a < s2.len() implies #[trigger] s2[a].wf() by {
        let a1 = if a < i { a } else { a + 1 };
        assert(s2[a] == s[a1]);
        assert(s[a1].wf());
    }
}

/// Adding a record under a fresh id preserves registry well-formedness.
pub proof fn lemma_registry_wf_push(s: Seq<ProcessRecord>, rec: ProcessRecord)
    requires
        registry_wf(s),
        rec.wf(),
        forall|j: int| 0 <= j < s.len() ==> s[j].id@ != rec.id@,
    ensures
        registry_wf(s.push(rec)),
{
    let s2 = s.push(rec);
    assert forall|a: int, b: int| 0 <= a < b < s2.len() implies s2[a].id@ != s2[b].id@ by {
        if b < s.len() {
            assert(s[a].id@ != s[b].id@);
        } else {
            assert(s2[b] == rec);
            assert(s[a].id@ != rec.id@);
        }
    }
    assert forall|a: int| 0 <= a < s2.len() implies #[trigger] s2[a].wf() by {
        if a < s.len() {
            assert(s[a].wf());
        }
    }
}

/// The process registry: all live records, keyed by their identifier.
pub struct ProcessRegistry {
    items: Vec<ProcessRecord>,
}

impl ProcessRegistry {
    pub closed spec fn view(&self) -> Seq<ProcessRecord> {
        self.items@
    }

    pub open spec fn wf(&self) -> bool {
        registry_wf(self@)
    }

    pub fn new() -> (r: ProcessRegistry)
        ensures
            r.wf(),
            r@ == Seq::<ProcessRecord>::empty(),
    {
        ProcessRegistry { items: Vec::new() }
    }

    fn find_idx(&self, id: &str) -> (r: Option<usize>)
        ensures
            match r {
                Some(i) => i < self@.len() && spec_lookup(self@, id@) == Some(i as int),
                None => spec_lookup(self@, id@) is None,
            },
    {
        let n = self.items.len();
        let mut k: usize = 0;
        while k < n
            invariant
                n == self@.len(),
                k <= n,
                find_from(self@, id@, 0) == find_from(self@, id@, k as int),
            decreases n - k,
        {
            if text::str_eq(self.items[k].id.as_str(), id) {
                return Some(k);
            }
            k += 1;
        }
        None
    }

    /// Put a fresh record in; a record under the same id is replaced.
    pub fn register(&mut self, rec: ProcessRecord)
        requires
            old(self).wf(),
            rec.wf(),
        ensures
            final(self).wf(),
            match spec_lookup(old(self)@, rec.id@) {
                Some(i) => final(self)@ == old(self)@.update(i, rec),
                None => final(self)@ == old(self)@.push(rec),
            },
    {
        proof {
            lemma_find_from_props(self@, rec.id@, 0);
        }
        match self.find_idx(rec.id.as_str()) {
            Some(i) => {
                self.items.remove(i);
                self.items.insert(i, rec);
                proof {
                    assert(self@ =~= old(self)@.update(i as int, rec));
                    lemma_registry_wf_replace(old(self)@, self@, i as int);
                }
            },
            None => {
                let ghost grec = rec;
                self.items.push(rec);
                proof {
                    lemma_registry_wf_push(old(self)@, grec);
                }
            },
        }
    }

    /// Drop the record under `id`, if any: the cleanup step after the
    /// retention period.
    pub fn remove(&mut self, id: &str)
        requires
            old(self).wf(),
        ensures
            final(self).wf(),
            match spec_lookup(old(self)@, id@) {
                Some(i) => final(self)@ == old(self)@.remove(i),
                None => final(self)@ == old(self)@,
            },
    {
        match self.find_idx(id) {
            Some(i) => {
                self.items.remove(i);
                proof {
                    lemma_registry_wf_remove(old(self)@, i as int);
                }
            },
            None => {},
        }
    }

    /// The status views of every record, in registry order.
    pub fn list(&self) -> (r: Vec<ProcessStatus>)
        ensures
            r@.len() == self@.len(),
            forall|i: int| 0 <= i < r@.len() ==> status_matches(#[trigger] r@[i], self@[i]),
    {
        let n = self.items.len();
        let mut out: Vec<ProcessStatus> = Vec::new();
        let mut k: usize = 0;
        while k < n
            invariant
                n == self@.len(),
                k <= n,
                out@.len() == k,
                forall|i: int| 0 <= i < k ==> status_matches(#[trigger] out@[i], self@[i]),
            decreases n - k,
        {
            out.push(self.items[k].to_status());
            k += 1;
        }
        out
    }

    /// The status view of the record under `id`, or `not-found`.
    pub fn status_of(&self, id: &str) -> (r: Result<ProcessStatus, AppError>)
        ensures
            match spec_lookup(self@, id@) {
                Some(i) => r matches Ok(st) && status_matches(st, self@[i]),
                None => r matches Err(AppError::NotFound(_)),
            },
    {
        match self.find_idx(id) {
            Some(i) => Ok(self.items[i].to_status()),
            None => Err(AppError::NotFound(String::from_str("Process not found"))),
        }
    }

    /// Append one line of child output to the record's ring, tagged with
    /// its stream, and hand the tagged entry back for broadcasting.
    /// A missing id means the record was already cleaned up: the line is
    /// dropped.
    pub fn append_line(&mut self, id: &str, kind: StreamKind, line: &str) -> (r: Option<String>)
        requires
            old(self).wf(),
        ensures
            final(self).wf(),
            match spec_lookup(old(self)@, id@) {
                Some(i) => {
                    &&& r matches Some(e) && e@ == level::tagged_line_spec(stream_tag(kind), line@)
                    &&& final(self)@.len() == old(self)@.len()
                    &&& (forall|j: int|
                        0 <= j < old(self)@.len() && j != i ==> final(self)@[j] == old(self)@[j])
                    &&& record_with_pushed_line(
                        old(self)@[i],
                        final(self)@[i],
                        level::tagged_line_spec(stream_tag(kind), line@),
                    )
                },
                None => r is None && final(self)@ == old(self)@,
            },
    {
        let entry = match kind {
            StreamKind::Stdout => level::tag_stdout_line(line),
            StreamKind::Stderr => level::tag_stderr_line(line),
        };
        match self.find_idx(id) {
            Some(i) => {
                proof {
                    lemma_find_from_props(self@, id@, 0);
                }
                assert(old(self)@[i as int].wf());
                let mut rec = self.items.remove(i);
                rec.logs.push(entry.clone());
                self.items.insert(i, rec);
                proof {
                    assert(forall|j: int|
                        0 <= j < old(self)@.len() && j != i ==> final(self)@[j] == old(self)@[j]);
                    lemma_registry_wf_replace(old(self)@, self@, i as int);
                }
                Some(entry)
            },
            None => None,
        }
    }

    /// Move the child handle out of the record: the waiter does this
    /// exactly once and becomes responsible for `wait()`.
    pub fn take_child(&mut self, id: &str) -> (r: Option<tokio::process::Child>)
        requires
            old(self).wf(),
        ensures
            final(self).wf(),
            match spec_lookup(old(self)@, id@) {
                Some(i) => {
                    &&& r == old(self)@[i].child
                    &&& final(self)@ == old(self)@.update(
                        i,
                        ProcessRecord { child: None, ..old(self)@[i] },
                    )
                },
                None => r is None && final(self)@ == old(self)@,
            },
    {
        match self.find_idx(id) {
            Some(i) => {
                proof {
                    lemma_find_from_props(self@, id@, 0);
                }
                assert(old(self)@[i as int].wf());
                let mut rec = self.items.remove(i);
                let child = rec.child.take();
                self.items.insert(i, rec);
                proof {
                    assert(self@ =~= old(self)@.update(
                        i as int,
                        ProcessRecord { child: None, ..old(self)@[i as int] },
                    ));
                    lemma_registry_wf_replace(old(self)@, self@, i as int);
                }
                child
            },
            None => None,
        }
    }

    /// Write the waiter's result back: end time, exit code and — unless a
    /// kill already made the record terminal — the dictated terminal
    /// status. A missing id is ignored.
    pub fn apply_wait(&mut self, id: &str, outcome: &WaitOutcome, now: u64)
        requires
            old(self).wf(),
            outcome.wf(),
        ensures
            final(self).wf(),
            match spec_lookup(old(self)@, id@) {
                Some(i) => final(self)@ == old(self)@.update(
                    i,
                    wait_update_spec(old(self)@[i], *outcome, now),
                ),
                None => final(self)@ == old(self)@,
            },
    {
        match self.find_idx(id) {
            Some(i) => {
                proof {
                    lemma_find_from_props(self@, id@, 0);
                }
                assert(old(self)@[i as int].wf());
                let mut rec = self.items.remove(i);
                if rec.status.is_running() {
                    rec.status = match outcome {
                        WaitOutcome::Exited { code, signal } => {
                            if *code == Some(0i32) {
                                ProcStatus::Completed
                            } else if signal.is_some() {
                                ProcStatus::Killed
                            } else {
                                ProcStatus::Failed
                            }
                        },
                        WaitOutcome::WaitFailed => ProcStatus::Failed,
                    };
                }
                rec.exit_code = match outcome {
                    WaitOutcome::Exited { code, signal } => match code {
                        Some(c) => Some(*c),
                        None => match signal {
                            Some(s) => Some(128 + *s),
                            None => None,
                        },
                    },
                    WaitOutcome::WaitFailed => rec.exit_code,
                };
                rec.end_time = Some(now);
                self.items.insert(i, rec);
                proof {
                    assert(self@ =~= old(self)@.update(
                        i as int,
                        wait_update_spec(old(self)@[i as int], *outcome, now),
                    ));
                    lemma_registry_wf_replace(old(self)@, self@, i as int);
                }
            },
            None => {},
        }
    }

    /// Deliver a signal to the record's process. Rejected with
    /// `not-found` for an unknown id or a record whose pid is gone, and
    /// with `conflict` for a record that is not running. Where the OS
    /// refuses delivery the registry is unchanged and the error is
    /// internal; a delivered `SIGKILL` marks the record `killed` at once.
    pub fn kill(&mut self, id: &str, signal: Option<&str>) -> (r: Result<
        ProcessOperationResponse,
        AppError,
    >)
        requires
            old(self).wf(),
        ensures
            final(self).wf(),
            match spec_lookup(old(self)@, id@) {
                None => r matches Err(AppError::NotFound(_)) && final(self)@ == old(self)@,
                Some(i) => {
                    let rec = old(self)@[i];
                    let sig = signal_of_name(match signal {
                        Some(s) => Some(s@),
                        None => None,
                    });
                    if !(rec.status is Running) {
                        r matches Err(AppError::Conflict(_)) && final(self)@ == old(self)@
                    } else if rec.pid is None {
                        r matches Err(AppError::NotFound(_)) && final(self)@ == old(self)@
                    } else {
                        &&& (r matches Ok(resp) ==> resp.success && final(self)@ == old(
                            self,
                        )@.update(i, kill_update_spec(rec, sig)))
                        &&& (r is Err ==> (r matches Err(AppError::InternalServerError(_))
                            && final(self)@ == old(self)@))
                    }
                },
            },
    {
        let sig = parse_signal_name(signal);
        match self.find_idx(id) {
            Some(i) => {
                proof {
                    lemma_find_from_props(self@, id@, 0);
                }
                if !self.items[i].status.is_running() {
                    return Err(AppError::Conflict(String::from_str("Process is not running")));
                }
                let pid = match self.items[i].pid {
                    Some(p) => p,
                    None => {
                        return Err(AppError::NotFound(String::from_str(
                            "Process PID not found (process might have exited)",
                        )));
                    },
                };
                match send_signal(pid, sig) {
                    Ok(_) => {},
                    Err(errno) => {
                        let mut m = String::from_str("Failed to signal process: errno ");
                        let e64: u64 = if errno >= 0 {
                            errno as u64
                        } else {
                            0
                        };
                        m.append(crate::num::u64_to_dec(e64).as_str());
                        return Err(AppError::InternalServerError(m));
                    },
                }
                assert(old(self)@[i as int].wf());
                if matches!(sig, SignalName::Kill) {
                    let mut rec = self.items.remove(i);
                    rec.status = ProcStatus::Killed;
                    self.items.insert(i, rec);
                    proof {
                        assert(self@ =~= old(self)@.update(
                            i as int,
                            kill_update_spec(old(self)@[i as int], sig),
                        ));
                        lemma_registry_wf_replace(old(self)@, self@, i as int);
                    }
                } else {
                    proof {
                        assert(self@ =~= old(self)@.update(
                            i as int,
                            kill_update_spec(old(self)@[i as int], sig),
                        ));
                    }
                }
                Ok(ProcessOperationResponse { success: true })
            },
            None => Err(AppError::NotFound(String::from_str("Process not found"))),
        }
    }

    /// The log snapshot for `id`: the last `tail` ring lines — all of
    /// them without a tail bound — beside the record's status fields.
    pub fn logs_snapshot(&self, id: &str, tail: Option<usize>) -> (r: Result<
        ProcessLogsResponse,
        AppError,
    >)
        ensures
            match spec_lookup(self@, id@) {
                Some(i) => {
                    let rec = self@[i];
                    let shown = match tail {
                        Some(t) => if t < rec.logs@.len() {
                            rec.logs@.skip(rec.logs@.len() - t)
                        } else {
                            rec.logs@
                        },
                        None => rec.logs@,
                    };
                    r matches Ok(resp) && {
                        &&& resp.process_id@ == rec.id@
                        &&& resp.pid == rec.pid
                        &&& resp.process_status@ == rec.status.name_spec()
                        &&& resp.exit_code == rec.exit_code
                        &&& resp.logs@.map_values(|s: String| s@) == shown
                    }
                },
                None => r matches Err(AppError::NotFound(_)),
            },
    {
        match self.find_idx(id) {
            Some(i) => {
                let rec = &self.items[i];
                let logs = match tail {
                    Some(t) => {
                        let r = rec.logs.tail(t);
                        proof {
                            if t >= rec.logs@.len() {
                                assert(rec.logs@.subrange(0, rec.logs@.len() as int)
                                    =~= rec.logs@);
                            } else {
                                assert(rec.logs@.subrange(
                                    rec.logs@.len() - t,
                                    rec.logs@.len() as int,
                                ) =~= rec.logs@.skip(rec.logs@.len() - t));
                            }
                        }
                        r
                    },
                    None => rec.logs.snapshot(),
                };
                Ok(ProcessLogsResponse {
                    process_id: rec.id.clone(),
                    pid: rec.pid,
                    process_status: rec.status.name().to_owned(),
                    exit_code: rec.exit_code,
                    logs,
                })
            },
            None => Err(AppError::NotFound(String::from_str("Process not found"))),
        }
    }
}

impl ProcStatus {
    fn is_running(&self) -> (r: bool)
        ensures
            r == (*self is Running),
    {
        matches!(self, ProcStatus::Running)
    }
}


/// A single legal move of a record's status: staying put, or leaving
/// `running` for a terminal status.
pub open spec fn legal_status_step(a: ProcStatus, b: ProcStatus) -> bool {
    a == b || (a == ProcStatus::Running && b.is_terminal())
}

/// Every operation of the engine moves a record's status legally: the
/// waiter's write and a delivered kill each either keep the status or
/// take `running` to a terminal status.
pub proof fn lemma_ops_move_status_legally(
    rec: ProcessRecord,
    o: WaitOutcome,
    now: u64,
    sig: SignalName,
    line: Seq<char>,
    post: ProcessRecord,
)
    ensures
        legal_status_step(rec.status, wait_update_spec(rec, o, now).status),
        rec.status is Running ==> legal_status_step(rec.status, kill_update_spec(rec, sig).status),
        record_with_pushed_line(rec, post, line) ==> legal_status_step(rec.status, post.status),
{
}

/// Along any chain of legal status moves that begins at `running`, a
/// terminal status, once reached, never changes: there is no way back to
/// `running` and no move between terminal statuses.
pub proof fn lemma_no_escape_from_terminal(c: Seq<ProcStatus>)
    requires
        forall|i: int| 0 <= i < c.len() - 1 ==> legal_status_step(#[trigger] c[i], c[i + 1]),
    ensures
        forall|i: int, j: int|
            0 <= i <= j < c.len() && c[i].is_terminal() ==> c[j] == c[i],
{
    assert forall|i: int, j: int|
        0 <= i <= j < c.len() && c[i].is_terminal() implies c[j] == c[i] by {
        lemma_terminal_stays(c, i, j);
    }
}

proof fn lemma_terminal_stays(c: Seq<ProcStatus>, i: int, j: int)
    requires
        forall|k: int| 0 <= k < c.len() - 1 ==> legal_status_step(#[trigger] c[k], c[k + 1]),
        0 <= i <= j < c.len(),
        c[i].is_terminal(),
    ensures
        c[j] == c[i],
    decreases j - i,
{
    if i < j {
        assert(legal_status_step(c[i], c[i + 1]));
        lemma_terminal_stays(c, i + 1, j);
    }
}

/// Once a `SIGKILL` has been delivered through `kill`, the record is
/// `killed`, so a second kill on the same id meets the `conflict` case
/// of `kill`'s contract: it can only be rejected.
pub proof fn lemma_second_kill_conflicts(s: Seq<ProcessRecord>, i: int, id: Seq<char>)
    requires
        registry_wf(s),
        spec_lookup(s, id) == Some(i),
        0 <= i < s.len(),
        s[i].status is Running,
    ensures
        ({
            let s2 = s.update(i, kill_update_spec(s[i], SignalName::Kill));
            &&& spec_lookup(s2, id) == Some(i)
            &&& !(s2[i].status is Running)
        }),
{
    let rec2 = kill_update_spec(s[i], SignalName::Kill);
    lemma_find_from_props(s, id, 0);
    lemma_lookup_after_update(s, i, rec2, id);
}


/// The default time limit of a synchronous execution, in seconds.
pub const DEFAULT_SYNC_EXEC_TIMEOUT_SECS: u64 = 30;

/// The default time limit of a streaming synchronous execution, in
/// seconds.
pub const DEFAULT_SYNC_STREAM_TIMEOUT_SECS: u64 = 300;

/// How long a terminated process record is kept before cleanup, in
/// seconds.
pub const PROCESS_RETENTION_SECS: u64 = 14400;

/// How long a terminated session record is kept before cleanup, in
/// seconds.
pub const SESSION_RETENTION_SECS: u64 = 1800;

/// The stderr text reported when the requested binary cannot be found.
pub fn exec_not_found_stderr(command: &str) -> (r: String)
    ensures
        r@ == "exec: \""@ + command@ + "\": executable file not found in $PATH"@,
{
    let mut s = String::from_str("exec: \"");
    s.append(command);
    s.append("\": executable file not found in $PATH");
    s
}

/// The error a synchronous execution answers with when the spawn itself
/// failed: an operation error whose data carries exit code 127, an empty
/// stdout, and — for a missing binary — the `$PATH` message.
pub fn sync_spawn_failure(
    command: &str,
    not_found: bool,
    err_text: &str,
    duration_ms: u128,
    start_time: String,
    end_time: String,
) -> (r: AppError)
    ensures
        ({
            r matches AppError::OperationError(m, crate::error::OperationData::SyncExec(resp)) && {
                &&& m@ == Seq::<char>::empty()
                &&& resp.stdout@ == Seq::<char>::empty()
                &&& resp.stderr@ == (if not_found {
                    "exec: \""@ + command@ + "\": executable file not found in $PATH"@
                } else {
                    err_text@
                })
                &&& resp.exit_code == Some(127i32)
                &&& resp.duration_ms == duration_ms
                &&& resp.start_time == start_time
                &&& resp.end_time == end_time
            }
        }),
{
    proof {
        reveal_strlit("");
    }
    let stderr: String = if not_found {
        exec_not_found_stderr(command)
    } else {
        err_text.to_owned()
    };
    let resp = crate::api::SyncExecutionResponse {
        stdout: String::new(),
        stderr,
        exit_code: Some(127),
        duration_ms,
        start_time,
        end_time,
    };
    AppError::OperationError(String::new(), crate::error::OperationData::SyncExec(resp))
}


/// A child that was killed at its deadline converges to a terminal
/// status with a non-zero exit code: a reported terminating signal
/// means `killed` with `128 + signal`, and a non-zero exit code without
/// a signal means `failed` with that code.
pub proof fn lemma_deadline_kill_outcome(o: WaitOutcome, old_code: Option<i32>)
    requires
        o.wf(),
    ensures
        match o {
            WaitOutcome::Exited { code, signal } => match (code, signal) {
                (None, Some(s)) => s >= 1 ==> (status_after_wait(o) == ProcStatus::Killed && (
                exit_code_after_wait(o, old_code) matches Some(c) && c != 0)),
                (Some(c), None) => c != 0 ==> (status_after_wait(o) == ProcStatus::Failed
                    && exit_code_after_wait(o, old_code) == Some(c)),
                _ => true,
            },
            WaitOutcome::WaitFailed => true,
        },
{
}


/// The immediate reply to an asynchronous exec: the fresh id and pid,
/// with the record reported `running`.
pub fn exec_started_response(process_id: String, pid: Option<u32>) -> (r: ExecProcessResponse)
    ensures
        r.process_id == process_id,
        r.pid == pid,
        r.process_status@ == "running"@,
{
    ExecProcessResponse { process_id, pid, process_status: ProcStatus::Running.name().to_owned() }
}

} // verus!
