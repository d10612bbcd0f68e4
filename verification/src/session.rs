//! The session engine's state: interactive shells whose standard input
//! stays open, their environment and working directory, and the registry
//! that holds them. Commands are injected as lines on the shell's stdin;
//! their output arrives through the same log substrate as processes.

use vstd::prelude::*;
use crate::api::{CreateSessionResponse, SessionExecResponse, SessionLogsResponse,
    SessionOperationResponse, SessionStatus};
use crate::error::AppError;
use crate::level;
use crate::os::{send_signal, SignalName};
use crate::paths;
use crate::process::StreamKind;
use crate::ring::{ring_push_spec, LogRing};
use crate::text;
use crate::timefmt;
use crate::MAX_LOG_LINES;

verus! {

#[derive(Clone, Copy, Debug, PartialEq, Eq, Structural)]
pub enum SessStatus {
    Active,
    Terminated,
}

impl SessStatus {
    pub open spec fn name_spec(self) -> Seq<char> {
        match self {
            SessStatus::Active => "active"@,
            SessStatus::Terminated => "terminated"@,
        }
    }

    pub fn name(self) -> (r: &'static str)
        ensures
            r@ == self.name_spec(),
    {
        match self {
            SessStatus::Active => "active",
            SessStatus::Terminated => "terminated",
        }
    }
}

/// The first index holding key `k`, at or after `from`.
pub open spec fn env_find_from(s: Seq<(String, String)>, k: Seq<char>, from: int) -> Option<int>
    decreases s.len() - from,
{
    if from < 0 || from >= s.len() {
        None
    } else if s[from].0@ == k {
        Some(from)
    } else {
        env_find_from(s, k, from + 1)
    }
}

/// Setting one variable: an existing key is overwritten in place, a new
/// one goes on the end.
pub open spec fn env_set_spec(s: Seq<(String, String)>, kv: (String, String)) -> Seq<
    (String, String),
> {
    match env_find_from(s, kv.0@, 0) {
        Some(i) => s.update(i, kv),
        None => s.push(kv),
    }
}

/// Merging a list of updates, first to last.
pub open spec fn env_merge_spec(s: Seq<(String, String)>, pairs: Seq<(String, String)>) -> Seq<
    (String, String),
>
    decreases pairs.len(),
{
    if pairs.len() == 0 {
        s
    } else {
        env_set_spec(env_merge_spec(s, pairs.drop_last()), pairs.last())
    }
}

proof fn lemma_env_find_from_props(s: Seq<(String, String)>, k: Seq<char>, from: int)
    requires
        0 <= from <= s.len(),
    ensures
        match env_find_from(s, k, from) {
            Some(i) => from <= i < s.len() && s[i].0@ == k,
            None => forall|j: int| from <= j < s.len() ==> s[j].0@ != k,
        },
    decreases s.len() - from,
{
    if from < s.len() && s[from].0@ != k {
        lemma_env_find_from_props(s, k, from + 1);
    }
}

/// An exact copy of an environment list.
pub fn clone_env(env: &Vec<(String, String)>) -> (r: Vec<(String, String)>)
    ensures
        r@ == env@,
{
    let mut out: Vec<(String, String)> = Vec::new();
    let n = env.len();
    let mut i: usize = 0;
    while i < n
        invariant
            n == env@.len(),
            i <= n,
            out@ == env@.subrange(0, i as int),
        decreases n - i,
    {
        let k = env[i].0.clone();
        let v = env[i].1.clone();
        out.push((k, v));
        proof {
            assert((k, v) == env@[i as int]);
            assert(out@ =~= env@.subrange(0, i + 1 as int));
        }
        i += 1;
    }
    proof {
        assert(env@.subrange(0, n as int) =~= env@);
    }
    out
}

/// One interactive shell as the registry holds it.
pub struct SessionRecord {
    pub id: String,
    pub pid: Option<u32>,
    /// The OS child handle; the waiter takes it out exactly once.
    pub child: Option<tokio::process::Child>,
    /// The shell's standard input, kept open for the session's life; the
    /// driver borrows it to write injected lines.
    pub stdin: Option<tokio::process::ChildStdin>,
    pub shell: String,
    pub cwd: String,
    pub env: Vec<(String, String)>,
    pub status: SessStatus,
    pub created_at: u64,
    pub last_used_at: u64,
    pub logs: LogRing,
}

/// The status view of a session record, as `to_status` renders it.
pub open spec fn session_status_matches(st: SessionStatus, rec: SessionRecord) -> bool {
    &&& st.session_id@ == rec.id@
    &&& st.shell@ == rec.shell@
    &&& st.cwd@ == rec.cwd@
    &&& st.env@ == rec.env@
    &&& st.session_status@ == rec.status.name_spec()
    &&& st.created_at@ == timefmt::format_time_spec(rec.created_at as nat)
    &&& st.last_used_at@ == timefmt::format_time_spec(rec.last_used_at as nat)
}

impl SessionRecord {
    pub open spec fn wf(&self) -> bool {
        self.logs.wf() && self.logs.cap() == MAX_LOG_LINES as nat
    }

    /// A fresh record for a shell spawned at `now`: status `active`, both
    /// timestamps at `now`, an empty log ring.
    pub fn new(
        id: String,
        pid: Option<u32>,
        shell: String,
        cwd: String,
        env: Vec<(String, String)>,
        child: Option<tokio::process::Child>,
        stdin: Option<tokio::process::ChildStdin>,
        now: u64,
    ) -> (r: SessionRecord)
        ensures
            r.wf(),
            r.id == id,
            r.pid == pid,
            r.shell == shell,
            r.cwd == cwd,
            r.env == env,
            r.status == SessStatus::Active,
            r.created_at == now,
            r.last_used_at == now,
            r.logs@ == Seq::<Seq<char>>::empty(),
    {
        SessionRecord {
            id,
            pid,
            child,
            stdin,
            shell,
            cwd,
            env,
            status: SessStatus::Active,
            created_at: now,
            last_used_at: now,
            logs: LogRing::new(MAX_LOG_LINES),
        }
    }

    pub fn to_status(&self) -> (r: SessionStatus)
        ensures
            session_status_matches(r, *self),
    {
        SessionStatus {
            session_id: self.id.clone(),
            shell: self.shell.clone(),
            cwd: self.cwd.clone(),
            env: clone_env(&self.env),
            session_status: self.status.name().to_owned(),
            created_at: timefmt::format_time(self.created_at),
            last_used_at: timefmt::format_time(self.last_used_at),
        }
    }
}

/// `post` is `pre` with exactly `line` appended to its log ring.
pub open spec fn session_with_pushed_line(
    pre: SessionRecord,
    post: SessionRecord,
    line: Seq<char>,
) -> bool {
    &&& post.id == pre.id
    &&& post.pid == pre.pid
    &&& post.child == pre.child
    &&& post.stdin == pre.stdin
    &&& post.shell == pre.shell
    &&& post.cwd == pre.cwd
    &&& post.env == pre.env
    &&& post.status == pre.status
    &&& post.created_at == pre.created_at
    &&& post.last_used_at == pre.last_used_at
    &&& post.logs.cap() == pre.logs.cap()
    &&& post.logs@ == ring_push_spec(pre.logs@, pre.logs.cap(), line)
}

pub open spec fn sess_find_from(s: Seq<SessionRecord>, id: Seq<char>, from: int) -> Option<int>
    decreases s.len() - from,
{
    if from < 0 || from >= s.len() {
        None
    } else if s[from].id@ == id {
        Some(from)
    } else {
        sess_find_from(s, id, from + 1)
    }
}

pub open spec fn sess_lookup(s: Seq<SessionRecord>, id: Seq<char>) -> Option<int> {
    sess_find_from(s, id, 0)
}

pub proof fn lemma_sess_find_from_props(s: Seq<SessionRecord>, id: Seq<char>, from: int)
    requires
        0 <= from <= s.len(),
    ensures
        match sess_find_from(s, id, from) {
            Some(i) => from <= i < s.len() && s[i].id@ == id && (forall|j: int|
                from <= j < i ==> s[j].id@ != id),
            None => forall|j: int| from <= j < s.len() ==> s[j].id@ != id,
        },
    decreases s.len() - from,
{
    if from < s.len() && s[from].id@ != id {
        lemma_sess_find_from_props(s, id, from + 1);
    }
}

pub open spec fn sess_registry_wf(s: Seq<SessionRecord>) -> bool {
    &&& forall|i: int, j: int| 0 <= i < j < s.len() ==> s[i].id@ != s[j].id@
    &&& forall|i: int| 0 <= i < s.len() ==> #[trigger] s[i].wf()
}

proof fn lemma_sess_registry_wf_replace(s1: Seq<SessionRecord>, s2: Seq<SessionRecord>, i: int)
    requires
        sess_registry_wf(s1),
        0 <= i < s1.len(),
        s2.len() == s1.len(),
        forall|j: int| 0 <= j < s1.len() && j != i ==> s2[j] == s1[j],
        s2[i].id@ == s1[i].id@,
        s2[i].wf(),
    ensures
        sess_registry_wf(s2),
{
    assert forall|a: int, b: int| 0 <= a < b < s2.len() implies s2[a].id@ != s2[b].id@ by {
        assert(s1[a].id@ != s1[b].id@);
    }
    assert forall|a: int| 0 <= a < s2.len() implies #[trigger] s2[a].wf() by {
        assert(s1[a].wf());
    }
}

proof fn lemma_sess_registry_wf_remove(s: Seq<SessionRecord>, i: int)
    requires
        sess_registry_wf(s),
        0 <= i < s.len(),
    ensures
        sess_registry_wf(s.remove(i)),
{
    let s2 = s.remove(i);
    assert forall|a: int, b: int| 0 <= a < b < s2.len() implies s2[a].id@ != s2[b].id@ by {
        let a1 = if a < i { a } else { a + 1 };
        let b1 = if b < i { b } else { b + 1 };
        assert(s2[a] == s[a1]);
        assert(s2[b] == s[b1]);
        assert(s[a1].id@ != s[b1].id@);
    }
    assert forall|a: int| 0 <= a < s2.len() implies #[trigger] s2[a].wf() by {
        let a1 = if a < i { a } else { a + 1 };
        assert(s2[a] == s[a1]);
        assert(s[a1].wf());
    }
}

proof fn lemma_sess_registry_wf_push(s: Seq<SessionRecord>, rec: SessionRecord)
    requires
        sess_registry_wf(s),
        rec.wf(),
        forall|j: int| 0 <= j < s.len() ==> s[j].id@ != rec.id@,
    ensures
        sess_registry_wf(s.push(rec)),
{
    let s2 = s.push(rec);
    assert forall|a: int, b: int| 0 <= a < b < s2.len() implies s2[a].id@ != s2[b].id@ by {
        if b < s.len() {
            assert(s[a].id@ != s[b].id@);
        } else {
            assert(s2[b] == rec);
            assert(s[a].id@ != rec.id@);
        }
    }
    assert forall|a: int| 0 <= a < s2.len() implies #[trigger] s2[a].wf() by {
        if a < s.len() {
            assert(s[a].wf());
        }
    }
}

/// After its record is removed — the cleanup step half an hour past
/// termination — a session's id no longer resolves, so `cd`, `exec` and
/// `env-update` all meet the `not-found` case of their contracts.
pub proof fn lemma_removed_session_not_found(s: Seq<SessionRecord>, i: int, id: Seq<char>)
    requires
        sess_registry_wf(s),
        sess_lookup(s, id) == Some(i),
        0 <= i < s.len(),
    ensures
        sess_lookup(s.remove(i), id) is None,
{
    lemma_sess_find_from_props(s, id, 0);
    let s2 = s.remove(i);
    assert forall|j: int| 0 <= j < s2.len() implies s2[j].id@ != id by {
        let j1 = if j < i { j } else { j + 1 };
        assert(s2[j] == s[j1]);
        assert(s[i].id@ == id);
        if j1 != i {
            if j1 < i {
                assert(s[j1].id@ != s[i].id@);
            } else {
                assert(s[i].id@ != s[j1].id@);
            }
        }
    }
    lemma_sess_find_from_props(s2, id, 0);
    match sess_lookup(s2, id) {
        Some(k) => {
            assert(s2[k].id@ == id);
            assert(false);
        },
        None => {},
    }
}


/// The line written to the shell to inject a command: the command and a
/// newline.
pub fn command_line(command: &str) -> (r: String)
    ensures
        r@ == command@ + "\n"@,
{
    let mut s = command.to_owned();
    s.append("\n");
    s
}

/// The line written to the shell for one environment update:
/// `export K=V` and a newline.
pub fn export_line(key: &str, value: &str) -> (r: String)
    ensures
        r@ == "export "@ + key@ + "="@ + value@ + "\n"@,
{
    let mut s = String::from_str("export ");
    s.append(key);
    s.append("=");
    s.append(value);
    s.append("\n");
    s
}

/// The line written to the shell for a directory change: `cd <path>` and
/// a newline.
pub fn cd_line(path: &str) -> (r: String)
    ensures
        r@ == "cd "@ + path@ + "\n"@,
{
    let mut s = String::from_str("cd ");
    s.append(path);
    s.append("\n");
    s
}

/// The stub result a session `exec` answers with: the real output
/// arrives through the log stream, never here.
pub fn session_exec_stub() -> (r: SessionExecResponse)
    ensures
        r.exit_code == 0,
        r.stdout@ == Seq::<char>::empty(),
        r.stderr@ == Seq::<char>::empty(),
        r.duration == 0,
{
    proof {
        reveal_strlit("");
    }
    SessionExecResponse {
        exit_code: 0,
        stdout: String::new(),
        stderr: String::new(),
        duration: 0,
    }
}

/// The session registry: all live sessions, keyed by their identifier.
pub struct SessionRegistry {
    items: Vec<SessionRecord>,
}

impl SessionRegistry {
    pub closed spec fn view(&self) -> Seq<SessionRecord> {
        self.items@
    }

    pub open spec fn wf(&self) -> bool {
        sess_registry_wf(self@)
    }

    pub fn new() -> (r: SessionRegistry)
        ensures
            r.wf(),
            r@ == Seq::<SessionRecord>::empty(),
    {
        SessionRegistry { items: Vec::new() }
    }

    fn find_idx(&self, id: &str) -> (r: Option<usize>)
        ensures
            match r {
                Some(i) => i < self@.len() && sess_lookup(self@, id@) == Some(i as int),
                None => sess_lookup(self@, id@) is None,
            },
    {
        let n = self.items.len();
        let mut k: usize = 0;
        while k < n
            invariant
                n == self@.len(),
                k <= n,
                sess_find_from(self@, id@, 0) == sess_find_from(self@, id@, k as int),
            decreases n - k,
        {
            if text::str_eq(self.items[k].id.as_str(), id) {
                return Some(k);
            }
            k += 1;
        }
        None
    }

    /// Put a fresh record in; a record under the same id is replaced.
    pub fn register(&mut self, rec: SessionRecord)
        requires
            old(self).wf(),
            rec.wf(),
        ensures
            final(self).wf(),
            match sess_lookup(old(self)@, rec.id@) {
                Some(i) => final(self)@ == old(self)@.update(i, rec),
                None => final(self)@ == old(self)@.push(rec),
            },
    {
        proof {
            lemma_sess_find_from_props(self@, rec.id@, 0);
        }
        match self.find_idx(rec.id.as_str()) {
            Some(i) => {
                self.items.remove(i);
                self.items.insert(i, rec);
                proof {
                    assert(self@ =~= old(self)@.update(i as int, rec));
                    lemma_sess_registry_wf_replace(old(self)@, self@, i as int);
                }
            },
            None => {
                let ghost grec = rec;
                self.items.push(rec);
                proof {
                    lemma_sess_registry_wf_push(old(self)@, grec);
                }
            },
        }
    }

    /// Drop the record under `id`, if any: the cleanup step half an hour
    /// after termination.
    pub fn remove(&mut self, id: &str)
        requires
            old(self).wf(),
        ensures
            final(self).wf(),
            match sess_lookup(old(self)@, id@) {
                Some(i) => final(self)@ == old(self)@.remove(i),
                None => final(self)@ == old(self)@,
            },
    {
        match self.find_idx(id) {
            Some(i) => {
                self.items.remove(i);
                proof {
                    lemma_sess_registry_wf_remove(old(self)@, i as int);
                }
            },
            None => {},
        }
    }

    /// The status views of every session, in registry order.
    pub fn list(&self) -> (r: Vec<SessionStatus>)
        ensures
            r@.len() == self@.len(),
            forall|i: int|
                0 <= i < r@.len() ==> session_status_matches(#[trigger] r@[i], self@[i]),
    {
        let n = self.items.len();
        let mut out: Vec<SessionStatus> = Vec::new();
        let mut k: usize = 0;
        while k < n
            invariant
                n == self@.len(),
                k <= n,
                out@.len() == k,
                forall|i: int|
                    0 <= i < k ==> session_status_matches(#[trigger] out@[i], self@[i]),
            decreases n - k,
        {
            out.push(self.items[k].to_status());
            k += 1;
        }
        out
    }

    /// The status view of the session under `id`, or `not-found`.
    pub fn status_of(&self, id: &str) -> (r: Result<SessionStatus, AppError>)
        ensures
            match sess_lookup(self@, id@) {
                Some(i) => r matches Ok(st) && session_status_matches(st, self@[i]),
                None => r matches Err(AppError::NotFound(_)),
            },
    {
        match self.find_idx(id) {
            Some(i) => Ok(self.items[i].to_status()),
            None => Err(AppError::NotFound(String::from_str("Session not found"))),
        }
    }

    /// Append one line of shell output to the session's ring, tagged with
    /// its stream, and hand the tagged entry back for broadcasting.
    pub fn append_line(&mut self, id: &str, kind: StreamKind, line: &str) -> (r: Option<String>)
        requires
            old(self).wf(),
        ensures
            final(self).wf(),
            match sess_lookup(old(self)@, id@) {
                Some(i) => {
                    &&& r matches Some(e) && e@ == level::tagged_line_spec(
                        crate::process::stream_tag(kind),
                        line@,
                    )
                    &&& final(self)@.len() == old(self)@.len()
                    &&& (forall|j: int|
                        0 <= j < old(self)@.len() && j != i ==> final(self)@[j] == old(self)@[j])
                    &&& session_with_pushed_line(
                        old(self)@[i],
                        final(self)@[i],
                        level::tagged_line_spec(crate::process::stream_tag(kind), line@),
                    )
                },
                None => r is None && final(self)@ == old(self)@,
            },
    {
        let entry = match kind {
            StreamKind::Stdout => level::tag_stdout_line(line),
            StreamKind::Stderr => level::tag_stderr_line(line),
        };
        match self.find_idx(id) {
            Some(i) => {
                proof {
                    lemma_sess_find_from_props(self@, id@, 0);
                }
                assert(old(self)@[i as int].wf());
                let mut rec = self.items.remove(i);
                rec.logs.push(entry.clone());
                self.items.insert(i, rec);
                proof {
                    assert(forall|j: int|
                        0 <= j < old(self)@.len() && j != i ==> final(self)@[j] == old(self)@[j]);
                    lemma_sess_registry_wf_replace(old(self)@, self@, i as int);
                }
                Some(entry)
            },
            None => None,
        }
    }

    /// Move the child handle out of the record: the waiter does this
    /// exactly once and becomes responsible for `wait()`.
    pub fn take_child(&mut self, id: &str) -> (r: Option<tokio::process::Child>)
        requires
            old(self).wf(),
        ensures
            final(self).wf(),
            match sess_lookup(old(self)@, id@) {
                Some(i) => {
                    &&& r == old(self)@[i].child
                    &&& final(self)@ == old(self)@.update(
                        i,
                        SessionRecord { child: None, ..old(self)@[i] },
                    )
                },
                None => r is None && final(self)@ == old(self)@,
            },
    {
        match self.find_idx(id) {
            Some(i) => {
                proof {
                    lemma_sess_find_from_props(self@, id@, 0);
                }
                assert(old(self)@[i as int].wf());
                let mut rec = self.items.remove(i);
                let child = rec.child.take();
                self.items.insert(i, rec);
                proof {
                    assert(self@ =~= old(self)@.update(
                        i as int,
                        SessionRecord { child: None, ..old(self)@[i as int] },
                    ));
                    lemma_sess_registry_wf_replace(old(self)@, self@, i as int);
                }
                child
            },
            None => None,
        }
    }

    /// Borrow the shell's standard input away from the record so the
    /// driver can write a line to it; `put_stdin` returns it.
    pub fn take_stdin(&mut self, id: &str) -> (r: Option<tokio::process::ChildStdin>)
        requires
            old(self).wf(),
        ensures
            final(self).wf(),
            match sess_lookup(old(self)@, id@) {
                Some(i) => {
                    &&& r == old(self)@[i].stdin
                    &&& final(self)@ == old(self)@.update(
                        i,
                        SessionRecord { stdin: None, ..old(self)@[i] },
                    )
                },
                None => r is None && final(self)@ == old(self)@,
            },
    {
        match self.find_idx(id) {
            Some(i) => {
                proof {
                    lemma_sess_find_from_props(self@, id@, 0);
                }
                assert(old(self)@[i as int].wf());
                let mut rec = self.items.remove(i);
                let stdin = rec.stdin.take();
                self.items.insert(i, rec);
                proof {
                    assert(self@ =~= old(self)@.update(
                        i as int,
                        SessionRecord { stdin: None, ..old(self)@[i as int] },
                    ));
                    lemma_sess_registry_wf_replace(old(self)@, self@, i as int);
                }
                stdin
            },
            None => None,
        }
    }

    /// Hand the shell's standard input back after a write.
    pub fn put_stdin(&mut self, id: &str, stdin: tokio::process::ChildStdin)
        requires
            old(self).wf(),
        ensures
            final(self).wf(),
            match sess_lookup(old(self)@, id@) {
                Some(i) => final(self)@ == old(self)@.update(
                    i,
                    SessionRecord { stdin: Some(stdin), ..old(self)@[i] },
                ),
                None => final(self)@ == old(self)@,
            },
    {
        match self.find_idx(id) {
            Some(i) => {
                proof {
                    lemma_sess_find_from_props(self@, id@, 0);
                }
                assert(old(self)@[i as int].wf());
                let mut rec = self.items.remove(i);
                rec.stdin = Some(stdin);
                self.items.insert(i, rec);
                proof {
                    assert(self@ =~= old(self)@.update(
                        i as int,
                        SessionRecord { stdin: Some(stdin), ..old(self)@[i as int] },
                    ));
                    lemma_sess_registry_wf_replace(old(self)@, self@, i as int);
                }
            },
            None => {},
        }
    }

    /// Merge environment updates into the session and mark it used now;
    /// the returned lines — one `export K=V` per pair, in request
    /// order — are what the driver writes to the shell's stdin.
    pub fn update_env(&mut self, id: &str, pairs: &Vec<(String, String)>, now: u64) -> (r: Result<
        Vec<String>,
        AppError,
    >)
        requires
            old(self).wf(),
        ensures
            final(self).wf(),
            match sess_lookup(old(self)@, id@) {
                Some(i) => {
                    &&& r matches Ok(lines)
                    &&& lines@.len() == pairs@.len()
                    &&& (forall|j: int|
                        0 <= j < pairs@.len() ==> (#[trigger] lines@[j])@ == "export "@
                            + pairs@[j].0@ + "="@ + pairs@[j].1@ + "\n"@)
                    &&& final(self)@.len() == old(self)@.len()
                    &&& (forall|j: int|
                        0 <= j < old(self)@.len() && j != i ==> final(self)@[j] == old(self)@[j])
                    &&& final(self)@[i].env@ == env_merge_spec(old(self)@[i].env@, pairs@)
                    &&& final(self)@[i].last_used_at == now
                    &&& final(self)@[i].id == old(self)@[i].id
                    &&& final(self)@[i].pid == old(self)@[i].pid
                    &&& final(self)@[i].child == old(self)@[i].child
                    &&& final(self)@[i].stdin == old(self)@[i].stdin
                    &&& final(self)@[i].shell == old(self)@[i].shell
                    &&& final(self)@[i].status == old(self)@[i].status
                    &&& final(self)@[i].cwd == old(self)@[i].cwd
                    &&& final(self)@[i].created_at == old(self)@[i].created_at
                    &&& final(self)@[i].logs == old(self)@[i].logs
                },
                None => r matches Err(AppError::NotFound(_)) && final(self)@ == old(self)@,
            },
    {
        match self.find_idx(id) {
            Some(i) => {
                proof {
                    lemma_sess_find_from_props(self@, id@, 0);
                }
                assert(old(self)@[i as int].wf());
                let mut rec = self.items.remove(i);
                let ghost rec0 = old(self)@[i as int];
                let n = pairs.len();
                let mut lines: Vec<String> = Vec::new();
                let mut k: usize = 0;
                while k < n
                    invariant
                        n == pairs@.len(),
                        k <= n,
                        rec.id == rec0.id,
                        rec.pid == rec0.pid,
                        rec.child == rec0.child,
                        rec.stdin == rec0.stdin,
                        rec.shell == rec0.shell,
                        rec.cwd == rec0.cwd,
                        rec.status == rec0.status,
                        rec.created_at == rec0.created_at,
                        rec.last_used_at == rec0.last_used_at,
                        rec.logs == rec0.logs,
                        rec.env@ == env_merge_spec(rec0.env@, pairs@.subrange(0, k as int)),
                        lines@.len() == k,
                        forall|j: int|
                            0 <= j < k ==> (#[trigger] lines@[j])@ == "export "@ + pairs@[j].0@
                                + "="@ + pairs@[j].1@ + "\n"@,
                    decreases n - k,
                {
                    let key = pairs[k].0.clone();
                    let value = pairs[k].1.clone();
                    lines.push(export_line(key.as_str(), value.as_str()));
                    env_set(&mut rec.env, (key, value));
                    proof {
                        assert(pairs@.subrange(0, k + 1 as int).drop_last() =~= pairs@.subrange(
                            0,
                            k as int,
                        ));
                        assert((pairs@[k as int].0, pairs@[k as int].1) == pairs@[k as int]);
                    }
                    k += 1;
                }
                proof {
                    assert(pairs@.subrange(0, n as int) =~= pairs@);
                }
                rec.last_used_at = now;
                self.items.insert(i, rec);
                proof {
                    assert(forall|j: int|
                        0 <= j < old(self)@.len() && j != i ==> final(self)@[j] == old(self)@[j]);
                    lemma_sess_registry_wf_replace(old(self)@, self@, i as int);
                }
                Ok(lines)
            },
            None => Err(AppError::NotFound(String::from_str("Session not found"))),
        }
    }

    /// Whether the session exists and still holds its stdin handle; the
    /// driver asks before injecting a line. `not-found` for unknown ids.
    pub fn has_stdin(&self, id: &str) -> (r: Result<bool, AppError>)
        ensures
            match sess_lookup(self@, id@) {
                Some(i) => r matches Ok(b) && b == (self@[i].stdin is Some),
                None => r matches Err(AppError::NotFound(_)),
            },
    {
        match self.find_idx(id) {
            Some(i) => Ok(self.items[i].stdin.is_some()),
            None => Err(AppError::NotFound(String::from_str("Session not found"))),
        }
    }

    /// Record an injected command after the driver has written it to the
    /// shell: the ring gains a `[exec] <command>` line, returned for
    /// broadcasting.
    pub fn log_exec(&mut self, id: &str, command: &str) -> (r: Option<String>)
        requires
            old(self).wf(),
        ensures
            final(self).wf(),
            match sess_lookup(old(self)@, id@) {
                Some(i) => {
                    &&& r matches Some(e) && e@ == level::tagged_line_spec(
                        level::tag_exec(),
                        command@,
                    )
                    &&& final(self)@.len() == old(self)@.len()
                    &&& (forall|j: int|
                        0 <= j < old(self)@.len() && j != i ==> final(self)@[j] == old(self)@[j])
                    &&& session_with_pushed_line(
                        old(self)@[i],
                        final(self)@[i],
                        level::tagged_line_spec(level::tag_exec(), command@),
                    )
                },
                None => r is None && final(self)@ == old(self)@,
            },
    {
        let entry = level::tag_exec_line(command);
        match self.find_idx(id) {
            Some(i) => {
                proof {
                    lemma_sess_find_from_props(self@, id@, 0);
                }
                assert(old(self)@[i as int].wf());
                let mut rec = self.items.remove(i);
                rec.logs.push(entry.clone());
                self.items.insert(i, rec);
                proof {
                    assert(forall|j: int|
                        0 <= j < old(self)@.len() && j != i ==> final(self)@[j] == old(self)@[j]);
                    lemma_sess_registry_wf_replace(old(self)@, self@, i as int);
                }
                Some(entry)
            },
            None => None,
        }
    }

    /// Resolve a directory-change request: a relative path against the
    /// session's current directory, an absolute one against the
    /// workspace root. Nothing is changed yet; the driver writes the
    /// returned `cd` line to the shell first.
    pub fn cd_plan(&self, id: &str, path: &str, workspace: &str) -> (r: Result<String, AppError>)
        ensures
            match sess_lookup(self@, id@) {
                Some(i) => r matches Ok(resolved) && resolved@ == (if paths::is_absolute(path@) {
                    paths::validate_path_spec(workspace@, path@)
                } else {
                    paths::validate_path_spec(self@[i].cwd@, path@)
                }),
                None => r matches Err(AppError::NotFound(_)),
            },
    {
        match self.find_idx(id) {
            Some(i) => {
                let p_len = path.unicode_len();
                let absolute = p_len > 0 && path.get_char(0) == '/';
                if absolute {
                    Ok(paths::validate_path(workspace, path))
                } else {
                    Ok(paths::validate_path(self.items[i].cwd.as_str(), path))
                }
            },
            None => Err(AppError::NotFound(String::from_str("Session not found"))),
        }
    }

    /// Commit a directory change after the driver has written the `cd`
    /// line: the session's cwd becomes the resolved path and the ring
    /// gains a `[cd] <path>` line, returned for broadcasting.
    pub fn cd_commit(&mut self, id: &str, resolved: &str) -> (r: Option<String>)
        requires
            old(self).wf(),
        ensures
            final(self).wf(),
            match sess_lookup(old(self)@, id@) {
                Some(i) => {
                    &&& r matches Some(e) && e@ == level::tagged_line_spec(
                        level::tag_cd(),
                        resolved@,
                    )
                    &&& final(self)@.len() == old(self)@.len()
                    &&& (forall|j: int|
                        0 <= j < old(self)@.len() && j != i ==> final(self)@[j] == old(self)@[j])
                    &&& final(self)@[i].cwd@ == resolved@
                    &&& final(self)@[i].id == old(self)@[i].id
                    &&& final(self)@[i].status == old(self)@[i].status
                    &&& final(self)@[i].env == old(self)@[i].env
                    &&& final(self)@[i].stdin == old(self)@[i].stdin
                    &&& final(self)@[i].child == old(self)@[i].child
                    &&& final(self)@[i].logs.cap() == old(self)@[i].logs.cap()
                    &&& final(self)@[i].logs@ == ring_push_spec(
                        old(self)@[i].logs@,
                        old(self)@[i].logs.cap(),
                        level::tagged_line_spec(level::tag_cd(), resolved@),
                    )
                },
                None => r is None && final(self)@ == old(self)@,
            },
    {
        let entry = level::tag_cd_line(resolved);
        match self.find_idx(id) {
            Some(i) => {
                proof {
                    lemma_sess_find_from_props(self@, id@, 0);
                }
                assert(old(self)@[i as int].wf());
                let mut rec = self.items.remove(i);
                rec.cwd = resolved.to_owned();
                rec.logs.push(entry.clone());
                self.items.insert(i, rec);
                proof {
                    assert(forall|j: int|
                        0 <= j < old(self)@.len() && j != i ==> final(self)@[j] == old(self)@[j]);
                    lemma_sess_registry_wf_replace(old(self)@, self@, i as int);
                }
                Some(entry)
            },
            None => None,
        }
    }

    /// Deliver `SIGKILL` to the session's shell and mark the session
    /// `terminated`. Rejected with `not-found` for an unknown id or a
    /// record whose pid is gone; where the OS refuses delivery the
    /// registry is unchanged and the error is internal.
    pub fn terminate(&mut self, id: &str) -> (r: Result<SessionOperationResponse, AppError>)
        requires
            old(self).wf(),
        ensures
            final(self).wf(),
            match sess_lookup(old(self)@, id@) {
                None => r matches Err(AppError::NotFound(_)) && final(self)@ == old(self)@,
                Some(i) => {
                    if old(self)@[i].pid is None {
                        r matches Err(AppError::NotFound(_)) && final(self)@ == old(self)@
                    } else {
                        &&& (r matches Ok(resp) ==> resp.success && final(self)@ == old(
                            self,
                        )@.update(
                            i,
                            SessionRecord { status: SessStatus::Terminated, ..old(self)@[i] },
                        ))
                        &&& (r is Err ==> (r matches Err(AppError::InternalServerError(_))
                            && final(self)@ == old(self)@))
                    }
                },
            },
    {
        match self.find_idx(id) {
            Some(i) => {
                proof {
                    lemma_sess_find_from_props(self@, id@, 0);
                }
                let pid = match self.items[i].pid {
                    Some(p) => p,
                    None => {
                        return Err(AppError::NotFound(String::from_str(
                            "Session PID not found (session might have exited)",
                        )));
                    },
                };
                match send_signal(pid, SignalName::Kill) {
                    Ok(_) => {},
                    Err(errno) => {
                        let mut m = String::from_str("Failed to kill session: errno ");
                        let e64: u64 = if errno >= 0 {
                            errno as u64
                        } else {
                            0
                        };
                        m.append(crate::num::u64_to_dec(e64).as_str());
                        return Err(AppError::InternalServerError(m));
                    },
                }
                assert(old(self)@[i as int].wf());
                let mut rec = self.items.remove(i);
                rec.status = SessStatus::Terminated;
                self.items.insert(i, rec);
                proof {
                    assert(self@ =~= old(self)@.update(
                        i as int,
                        SessionRecord { status: SessStatus::Terminated, ..old(self)@[i as int] },
                    ));
                    lemma_sess_registry_wf_replace(old(self)@, self@, i as int);
                }
                Ok(SessionOperationResponse { success: true })
            },
            None => Err(AppError::NotFound(String::from_str("Session not found"))),
        }
    }

    /// Record that the shell child exited: the waiter flips the session
    /// to `terminated`. A missing id is ignored.
    pub fn apply_exit(&mut self, id: &str)
        requires
            old(self).wf(),
        ensures
            final(self).wf(),
            match sess_lookup(old(self)@, id@) {
                Some(i) => final(self)@ == old(self)@.update(
                    i,
                    SessionRecord { status: SessStatus::Terminated, ..old(self)@[i] },
                ),
                None => final(self)@ == old(self)@,
            },
    {
        match self.find_idx(id) {
            Some(i) => {
                proof {
                    lemma_sess_find_from_props(self@, id@, 0);
                }
                assert(old(self)@[i as int].wf());
                let mut rec = self.items.remove(i);
                rec.status = SessStatus::Terminated;
                self.items.insert(i, rec);
                proof {
                    assert(self@ =~= old(self)@.update(
                        i as int,
                        SessionRecord { status: SessStatus::Terminated, ..old(self)@[i as int] },
                    ));
                    lemma_sess_registry_wf_replace(old(self)@, self@, i as int);
                }
            },
            None => {},
        }
    }

    /// The log snapshot for `id`: the last `tail` ring lines — all of
    /// them without a tail bound.
    pub fn logs_snapshot(&self, id: &str, tail: Option<usize>) -> (r: Result<
        SessionLogsResponse,
        AppError,
    >)
        ensures
            match sess_lookup(self@, id@) {
                Some(i) => {
                    let rec = self@[i];
                    let shown = match tail {
                        Some(t) => if t < rec.logs@.len() {
                            rec.logs@.skip(rec.logs@.len() - t)
                        } else {
                            rec.logs@
                        },
                        None => rec.logs@,
                    };
                    r matches Ok(resp) && {
                        &&& resp.session_id@ == rec.id@
                        &&& resp.logs@.map_values(|s: String| s@) == shown
                    }
                },
                None => r matches Err(AppError::NotFound(_)),
            },
    {
        match self.find_idx(id) {
            Some(i) => {
                let rec = &self.items[i];
                let logs = match tail {
                    Some(t) => {
                        let r = rec.logs.tail(t);
                        proof {
                            if t >= rec.logs@.len() {
                                assert(rec.logs@.subrange(0, rec.logs@.len() as int)
                                    =~= rec.logs@);
                            } else {
                                assert(rec.logs@.subrange(
                                    rec.logs@.len() - t,
                                    rec.logs@.len() as int,
                                ) =~= rec.logs@.skip(rec.logs@.len() - t));
                            }
                        }
                        r
                    },
                    None => rec.logs.snapshot(),
                };
                Ok(SessionLogsResponse { session_id: rec.id.clone(), logs })
            },
            None => Err(AppError::NotFound(String::from_str("Session not found"))),
        }
    }
}

/// Overwrite or add one variable in an environment list.
pub fn env_set(env: &mut Vec<(String, String)>, kv: (String, String))
    ensures
        final(env)@ == env_set_spec(old(env)@, kv),
{
    let ghost k = kv.0@;
    let n = env.len();
    let mut i: usize = 0;
    while i < n
        invariant
            n == env@.len(),
            i <= n,
            env@ == old(env)@,
            env_find_from(env@, k, 0) == env_find_from(env@, k, i as int),
            k == kv.0@,
        decreases n - i,
    {
        if text::str_eq(env[i].0.as_str(), kv.0.as_str()) {
            env.remove(i);
            env.insert(i, kv);
            proof {
                assert(final(env)@ =~= old(env)@.update(i as int, kv));
            }
            return;
        }
        i += 1;
    }
    env.push(kv);
}


/// The reply to a session create: the fresh id, the shell and working
/// directory in use, and the session reported `active`.
pub fn session_created_response(session_id: String, shell: String, cwd: String) -> (r:
    CreateSessionResponse)
    ensures
        r.session_id == session_id,
        r.shell == shell,
        r.cwd == cwd,
        r.session_status@ == "active"@,
{
    CreateSessionResponse {
        session_id,
        shell,
        cwd,
        session_status: SessStatus::Active.name().to_owned(),
    }
}

} // verus!
