//! The download queue: which jobs wait, which run, which are paused and which
//! finished, and how each command and each finished job changes that.
//!
//! The queue is a state machine. `DownloadQueueHandle` holds its state; every
//! command is a method whose contract is a relation between the state before
//! and after (the `*_post` predicates below). The program around it runs the
//! jobs, announces the state and carries the commands to it.

use std::collections::VecDeque;
use vstd::prelude::*;
use crate::payload::{ExtrasDownloadPayload, QueueJobPayload, payload_id, payload_name};
use crate::text::{chars_of, decimal, push_decimal, string_from};

verus! {

/// How many finished jobs the history keeps.
pub const HISTORY_LIMIT: usize = 25;

/// What a queued job does.
#[derive(Clone, Copy, Debug, PartialEq, Eq, Structural)]
pub enum QueueJobKind {
    GameDownload,
    GameUpdate,
    GamePreload,
    GameRepair,
    RunnerDownload,
    SteamrtDownload,
    Steamrt4Download,
    XxmiDownload,
    ExtrasDownload,
}

/// Where a job stands.
#[derive(Clone, Copy, Debug, PartialEq, Eq, Structural)]
pub enum QueueJobStatus {
    Queued,
    Running,
    Completed,
    Failed,
    Cancelled,
    Paused,
}

/// How a running job ended.
#[derive(Clone, Copy, Debug, PartialEq, Eq, Structural)]
pub enum QueueJobOutcome {
    Completed,
    Failed,
    Cancelled,
}

/// A job: its id, its kind and what it works on.
pub struct QueueJob {
    pub id: String,
    pub kind: QueueJobKind,
    pub payload: QueueJobPayload,
}

impl Clone for QueueJob {
    fn clone(&self) -> (r: Self)
        ensures
            r == *self,
    {
        QueueJob { id: self.id.clone(), kind: self.kind, payload: self.payload.clone() }
    }
}

/// How a job is shown: id, kind, the install it belongs to, its name and status.
pub struct QueueJobView {
    pub id: String,
    pub kind: QueueJobKind,
    pub install_id: String,
    pub name: String,
    pub status: QueueJobStatus,
}

impl Clone for QueueJobView {
    fn clone(&self) -> (r: Self)
        ensures
            r == *self,
    {
        QueueJobView {
            id: self.id.clone(),
            kind: self.kind,
            install_id: self.install_id.clone(),
            name: self.name.clone(),
            status: self.status,
        }
    }
}

/// A snapshot of the whole queue, as it is announced.
pub struct QueueStatePayload {
    pub max_concurrent: usize,
    pub paused: bool,
    pub auto_paused: bool,
    pub running: Vec<QueueJobView>,
    pub queued: Vec<QueueJobView>,
    pub completed: Vec<QueueJobView>,
    pub paused_jobs: Vec<QueueJobView>,
    pub pausing_installs: Vec<String>,
}

/// A job together with the way it is shown.
pub struct QueueEntry {
    pub job: QueueJob,
    pub view: QueueJobView,
}

impl Clone for QueueEntry {
    fn clone(&self) -> (r: Self)
        ensures
            r == *self,
    {
        QueueEntry { job: self.job.clone(), view: self.view.clone() }
    }
}

/// The state of the download queue.
pub struct DownloadQueueHandle {
    max_concurrent: usize,
    paused: bool,
    auto_paused: bool,
    activating: bool,
    queued: VecDeque<QueueEntry>,
    active: Vec<QueueEntry>,
    completed: VecDeque<QueueJobView>,
    paused_jobs: Vec<QueueEntry>,
    pausing_installs: Vec<String>,
    next_job: u64,
    wrapped: Ghost<bool>,
}

// ---------------------------------------------------------------------------
// Lookups
// ---------------------------------------------------------------------------

/// The first position in `q` of the job with id `id`, or -1.
pub open spec fn job_index(q: Seq<QueueEntry>, id: Seq<char>) -> int
    decreases q.len(),
{
    if q.len() == 0 {
        -1
    } else if q[0].job.id@ == id {
        0
    } else {
        let r = job_index(q.drop_first(), id);
        if r < 0 {
            -1
        } else {
            r + 1
        }
    }
}

/// The first position in `q` of an entry of install `id`, or -1.
pub open spec fn install_index(q: Seq<QueueEntry>, id: Seq<char>) -> int
    decreases q.len(),
{
    if q.len() == 0 {
        -1
    } else if q[0].view.install_id@ == id {
        0
    } else {
        let r = install_index(q.drop_first(), id);
        if r < 0 {
            -1
        } else {
            r + 1
        }
    }
}

/// The first position in `v` of the string `s`, or -1.
pub open spec fn text_index(v: Seq<String>, s: Seq<char>) -> int
    decreases v.len(),
{
    if v.len() == 0 {
        -1
    } else if v[0]@ == s {
        0
    } else {
        let r = text_index(v.drop_first(), s);
        if r < 0 {
            -1
        } else {
            r + 1
        }
    }
}

/// `job_index` is the least position holding the id, or -1 when none does.
#[verifier::spinoff_prover]
pub proof fn lemma_job_index(q: Seq<QueueEntry>, id: Seq<char>)
    ensures
        -1 <= job_index(q, id) < q.len(),
        job_index(q, id) >= 0 ==> q[job_index(q, id)].job.id@ == id,
        forall|j: int| 0 <= j < q.len() && (job_index(q, id) < 0 || j < job_index(q, id)) ==> #[trigger] q[j].job.id@ != id,
    decreases q.len(),
{
    if q.len() > 0 {
        lemma_job_index(q.drop_first(), id);
        assert forall|j: int| 0 < j < q.len() implies q[j] == q.drop_first()[j - 1] by {}
    }
}

/// `install_index` is the least position holding the install, or -1 when none does.
pub proof fn lemma_install_index(q: Seq<QueueEntry>, id: Seq<char>)
    ensures
        -1 <= install_index(q, id) < q.len(),
        install_index(q, id) >= 0 ==> q[install_index(q, id)].view.install_id@ == id,
        forall|j: int| 0 <= j < q.len() && (install_index(q, id) < 0 || j < install_index(q, id)) ==> #[trigger] q[j].view.install_id@ != id,
    decreases q.len(),
{
    if q.len() > 0 {
        let t = q.drop_first();
        lemma_install_index(t, id);
        let k = install_index(q, id);
        let r = install_index(t, id);
        if q[0].view.install_id@ == id {
            assert(k == 0);
        } else {
            assert(k == if r < 0 { -1 } else { r + 1 });
        }
        assert forall|j: int| 0 <= j < q.len() && (k < 0 || j < k) implies #[trigger] q[j].view.install_id@ != id by {
            if j > 0 {
                assert(q[j] == t[j - 1]);
                assert(r < 0 || j - 1 < r);
                assert(t[j - 1].view.install_id@ != id);
            }
        }
    }
}

/// `text_index` is the least position holding the string, or -1 when none does.
pub proof fn lemma_text_index(v: Seq<String>, s: Seq<char>)
    ensures
        -1 <= text_index(v, s) < v.len(),
        text_index(v, s) >= 0 ==> v[text_index(v, s)]@ == s,
        forall|j: int| 0 <= j < v.len() && (text_index(v, s) < 0 || j < text_index(v, s)) ==> #[trigger] v[j]@ != s,
    decreases v.len(),
{
    if v.len() > 0 {
        lemma_text_index(v.drop_first(), s);
        assert forall|j: int| 0 < j < v.len() implies v[j] == v.drop_first()[j - 1] by {}
    }
}

/// A position before which no entry holds the id, and which holds it (or is
/// the end), is what `job_index` gives.
proof fn lemma_job_index_at(q: Seq<QueueEntry>, id: Seq<char>, i: int)
    requires
        0 <= i <= q.len(),
        forall|j: int| 0 <= j < i ==> #[trigger] q[j].job.id@ != id,
        i < q.len() ==> q[i].job.id@ == id,
    ensures
        job_index(q, id) == (if i < q.len() { i } else { -1 }),
{
    lemma_job_index(q, id);
    let k = job_index(q, id);
    if k >= 0 && k < i {
        assert(q[k].job.id@ != id);
    }
    if i < q.len() && (k < 0 || i < k) {
        assert(q[i].job.id@ != id);
    }
}

proof fn lemma_install_index_at(q: Seq<QueueEntry>, id: Seq<char>, i: int)
    requires
        0 <= i <= q.len(),
        forall|j: int| 0 <= j < i ==> #[trigger] q[j].view.install_id@ != id,
        i < q.len() ==> q[i].view.install_id@ == id,
    ensures
        install_index(q, id) == (if i < q.len() { i } else { -1 }),
{
    lemma_install_index(q, id);
    let k = install_index(q, id);
    if k >= 0 && k < i {
        assert(q[k].view.install_id@ != id);
    }
    if i < q.len() && (k < 0 || i < k) {
        assert(q[i].view.install_id@ != id);
    }
}

proof fn lemma_text_index_at(v: Seq<String>, s: Seq<char>, i: int)
    requires
        0 <= i <= v.len(),
        forall|j: int| 0 <= j < i ==> #[trigger] v[j]@ != s,
        i < v.len() ==> v[i]@ == s,
    ensures
        text_index(v, s) == (if i < v.len() { i } else { -1 }),
{
    lemma_text_index(v, s);
    let k = text_index(v, s);
    if k >= 0 && k < i {
        assert(v[k]@ != s);
    }
    if i < v.len() && (k < 0 || i < k) {
        assert(v[i]@ != s);
    }
}

/// The position of the job `id` among the waiting jobs, if it waits.
fn find_queued(q: &VecDeque<QueueEntry>, id: &String) -> (r: Option<usize>)
    ensures
        r matches Some(i) ==> job_index(q@, id@) == i,
        r is None ==> job_index(q@, id@) == -1,
{
    let mut i: usize = 0;
    while i < q.len()
        invariant
            i <= q@.len(),
            forall|j: int| 0 <= j < i ==> #[trigger] q@[j].job.id@ != id@,
        decreases q@.len() - i,
    {
        if q[i].job.id == *id {
            proof {
                lemma_job_index_at(q@, id@, i as int);
            }
            return Some(i);
        }
        i = i + 1;
    }
    proof {
        lemma_job_index_at(q@, id@, q@.len() as int);
    }
    None
}

/// The position of the job `id` among the running jobs, if it runs.
fn find_job(q: &Vec<QueueEntry>, id: &String) -> (r: Option<usize>)
    ensures
        r matches Some(i) ==> job_index(q@, id@) == i,
        r is None ==> job_index(q@, id@) == -1,
{
    let mut i: usize = 0;
    while i < q.len()
        invariant
            i <= q.len(),
            forall|j: int| 0 <= j < i ==> #[trigger] q@[j].job.id@ != id@,
        decreases q.len() - i,
    {
        if q[i].job.id == *id {
            proof {
                lemma_job_index_at(q@, id@, i as int);
            }
            return Some(i);
        }
        i = i + 1;
    }
    proof {
        lemma_job_index_at(q@, id@, q.len() as int);
    }
    None
}

/// The position of the first entry of install `id` in `q`.
fn find_install(q: &Vec<QueueEntry>, id: &String) -> (r: Option<usize>)
    ensures
        r matches Some(i) ==> install_index(q@, id@) == i,
        r is None ==> install_index(q@, id@) == -1,
{
    let mut i: usize = 0;
    while i < q.len()
        invariant
            i <= q.len(),
            forall|j: int| 0 <= j < i ==> #[trigger] q@[j].view.install_id@ != id@,
        decreases q.len() - i,
    {
        if q[i].view.install_id == *id {
            proof {
                lemma_install_index_at(q@, id@, i as int);
            }
            return Some(i);
        }
        i = i + 1;
    }
    proof {
        lemma_install_index_at(q@, id@, q.len() as int);
    }
    None
}

/// The position of the string `s` in `v`.
fn find_text(v: &Vec<String>, s: &String) -> (r: Option<usize>)
    ensures
        r matches Some(i) ==> text_index(v@, s@) == i,
        r is None ==> text_index(v@, s@) == -1,
{
    let mut i: usize = 0;
    while i < v.len()
        invariant
            i <= v.len(),
            forall|j: int| 0 <= j < i ==> #[trigger] v@[j]@ != s@,
        decreases v.len() - i,
    {
        if v[i] == *s {
            proof {
                lemma_text_index_at(v@, s@, i as int);
            }
            return Some(i);
        }
        i = i + 1;
    }
    proof {
        lemma_text_index_at(v@, s@, v.len() as int);
    }
    None
}

// ---------------------------------------------------------------------------
// Spec helpers
// ---------------------------------------------------------------------------

/// `e` with its shown status changed to `st`.
pub open spec fn with_status(e: QueueEntry, st: QueueJobStatus) -> QueueEntry {
    QueueEntry { job: e.job, view: QueueJobView { status: st, ..e.view } }
}

/// Every entry of `p`, in order, with status `st`.
pub open spec fn all_with_status(p: Seq<QueueEntry>, st: QueueJobStatus) -> Seq<QueueEntry>
    decreases p.len(),
{
    if p.len() == 0 {
        p
    } else {
        all_with_status(p.drop_last(), st).push(with_status(p.last(), st))
    }
}

/// The entries of `q` whose payload belongs to an install other than `id`.
pub open spec fn keep_other_payloads(q: Seq<QueueEntry>, id: Seq<char>) -> Seq<QueueEntry>
    decreases q.len(),
{
    if q.len() == 0 {
        q
    } else if payload_id(q.last().job.payload) == id {
        keep_other_payloads(q.drop_last(), id)
    } else {
        keep_other_payloads(q.drop_last(), id).push(q.last())
    }
}

/// The ids of the jobs of `q` whose payload belongs to install `id`.
pub open spec fn ids_of_payloads(q: Seq<QueueEntry>, id: Seq<char>) -> Seq<String>
    decreases q.len(),
{
    if q.len() == 0 {
        Seq::empty()
    } else if payload_id(q.last().job.payload) == id {
        ids_of_payloads(q.drop_last(), id).push(q.last().job.id)
    } else {
        ids_of_payloads(q.drop_last(), id)
    }
}

/// The entries of `q` shown under an install other than `id`.
pub open spec fn keep_other_installs(q: Seq<QueueEntry>, id: Seq<char>) -> Seq<QueueEntry>
    decreases q.len(),
{
    if q.len() == 0 {
        q
    } else if q.last().view.install_id@ == id {
        keep_other_installs(q.drop_last(), id)
    } else {
        keep_other_installs(q.drop_last(), id).push(q.last())
    }
}

/// The job ids of the entries of `q` shown under install `id`.
pub open spec fn ids_of_installs(q: Seq<QueueEntry>, id: Seq<char>) -> Seq<String>
    decreases q.len(),
{
    if q.len() == 0 {
        Seq::empty()
    } else if q.last().view.install_id@ == id {
        ids_of_installs(q.drop_last(), id).push(q.last().job.id)
    } else {
        ids_of_installs(q.drop_last(), id)
    }
}

/// The views of `c` of an install other than `id`.
pub open spec fn keep_other_views(c: Seq<QueueJobView>, id: Seq<char>) -> Seq<QueueJobView>
    decreases c.len(),
{
    if c.len() == 0 {
        c
    } else if c.last().install_id@ == id {
        keep_other_views(c.drop_last(), id)
    } else {
        keep_other_views(c.drop_last(), id).push(c.last())
    }
}

/// The job ids of the views of `c` of install `id`.
pub open spec fn ids_of_views(c: Seq<QueueJobView>, id: Seq<char>) -> Seq<String>
    decreases c.len(),
{
    if c.len() == 0 {
        Seq::empty()
    } else if c.last().install_id@ == id {
        ids_of_views(c.drop_last(), id).push(c.last().id)
    } else {
        ids_of_views(c.drop_last(), id)
    }
}

/// The views of a sequence of entries.
pub open spec fn views_of(q: Seq<QueueEntry>) -> Seq<QueueJobView>
    decreases q.len(),
{
    if q.len() == 0 {
        Seq::empty()
    } else {
        views_of(q.drop_last()).push(q.last().view)
    }
}

/// The history after a finished job's view `v` is put in front of `c`, cut
/// to the history limit.
pub open spec fn history_after(c: Seq<QueueJobView>, v: QueueJobView) -> Seq<QueueJobView> {
    let h = seq![v] + c;
    if h.len() > HISTORY_LIMIT {
        h.take(HISTORY_LIMIT as int)
    } else {
        h
    }
}

/// Some entry of `q` is shown under install `id`.
pub open spec fn has_install(q: Seq<QueueEntry>, id: Seq<char>) -> bool {
    exists|i: int| 0 <= i < q.len() && #[trigger] q[i].view.install_id@ == id
}

/// The id that the job counter's value `n` gives a new job.
pub open spec fn job_id_for(n: u64) -> Seq<char> {
    "job_"@ + decimal(n as nat)
}

/// The job counter after one step; it wraps around as a 64-bit counter does.
pub open spec fn counter_after(n: u64) -> u64 {
    if n == u64::MAX {
        0
    } else {
        (n + 1) as u64
    }
}

/// The shown form of a freshly queued job.
pub open spec fn fresh_view(v: QueueJobView, job: QueueJob, name: Seq<char>) -> bool {
    &&& v.id == job.id
    &&& v.kind == job.kind
    &&& v.install_id@ == payload_id(job.payload)
    &&& v.name@ == name
    &&& v.status == QueueJobStatus::Queued
}

/// No two entries of `s` have the same job id.
pub open spec fn distinct_job_ids(s: Seq<QueueEntry>) -> bool {
    forall|i: int, j: int|
        #![trigger s[i], s[j]]
        0 <= i < j < s.len() ==> s[i].job.id@ != s[j].job.id@
}

/// No two entries of `s` are shown under the same install.
pub open spec fn distinct_installs(s: Seq<QueueEntry>) -> bool {
    forall|i: int, j: int|
        #![trigger s[i], s[j]]
        0 <= i < j < s.len() ==> s[i].view.install_id@ != s[j].view.install_id@
}

/// No string occurs twice in `s`.
pub open spec fn distinct_texts(s: Seq<String>) -> bool {
    forall|i: int, j: int| #![trigger s[i], s[j]] 0 <= i < j < s.len() ==> s[i]@ != s[j]@
}

/// Every entry of `s` is shown with status `st`.
pub open spec fn all_have_status(s: Seq<QueueEntry>, st: QueueJobStatus) -> bool {
    forall|i: int| 0 <= i < s.len() ==> (#[trigger] s[i]).view.status == st
}

/// Every entry of `s` is shown under its own job id and under the install its
/// payload belongs to.
pub open spec fn shown_as_payload(s: Seq<QueueEntry>) -> bool {
    forall|i: int|
        0 <= i < s.len() ==> (#[trigger] s[i]).view.install_id@ == payload_id(s[i].job.payload) && s[i].view.id@
            == s[i].job.id@
}

/// Every view of `c` is of a job that completed or failed.
pub open spec fn all_finished(c: Seq<QueueJobView>) -> bool {
    forall|i: int|
        0 <= i < c.len() ==> (#[trigger] c[i]).status == QueueJobStatus::Completed || c[i].status
            == QueueJobStatus::Failed
}

proof fn lemma_history_after_finished(c: Seq<QueueJobView>, v: QueueJobView)
    requires
        all_finished(c),
        v.status == QueueJobStatus::Completed || v.status == QueueJobStatus::Failed,
    ensures
        all_finished(history_after(c, v)),
{
    let h = seq![v] + c;
    assert forall|i: int| 0 <= i < h.len() implies (#[trigger] h[i]).status == QueueJobStatus::Completed
        || h[i].status == QueueJobStatus::Failed by {
        if i > 0 {
            assert(h[i] == c[i - 1]);
        }
    }
    if h.len() > HISTORY_LIMIT {
        let t = h.take(HISTORY_LIMIT as int);
        assert forall|i: int| 0 <= i < t.len() implies (#[trigger] t[i]).status == QueueJobStatus::Completed
            || t[i].status == QueueJobStatus::Failed by {
            assert(t[i] == h[i]);
        }
    }
}

/// How many entries of `s` carry the job id `x`.
pub open spec fn id_count(s: Seq<QueueEntry>, x: Seq<char>) -> nat
    decreases s.len(),
{
    if s.len() == 0 {
        0
    } else {
        id_count(s.drop_last(), x) + one_if(s.last(), x)
    }
}

/// One when entry `e` carries the job id `x`, else zero.
pub open spec fn one_if(e: QueueEntry, x: Seq<char>) -> nat {
    if e.job.id@ == x {
        1
    } else {
        0
    }
}

// ---------------------------------------------------------------------------
// The state and its invariant
// ---------------------------------------------------------------------------

impl DownloadQueueHandle {
    /// How many jobs may run at once.
    pub closed spec fn max_jobs(&self) -> nat {
        self.max_concurrent as nat
    }

    /// Whether starting new jobs is paused.
    pub closed spec fn is_paused(&self) -> bool {
        self.paused
    }

    /// Whether the pause was set because the connection was lost.
    pub closed spec fn is_auto_paused_now(&self) -> bool {
        self.auto_paused
    }

    /// Whether a job is being brought to the front, so that jobs cancelled
    /// meanwhile go back to the queue instead of being paused.
    pub closed spec fn is_activating(&self) -> bool {
        self.activating
    }

    /// The waiting jobs, first to start first.
    pub closed spec fn queue_entries(&self) -> Seq<QueueEntry> {
        self.queued@
    }

    /// The running jobs.
    pub closed spec fn active_entries(&self) -> Seq<QueueEntry> {
        self.active@
    }

    /// The finished jobs, most recent first.
    pub closed spec fn history(&self) -> Seq<QueueJobView> {
        self.completed@
    }

    /// The jobs paused by the user, at most one per install.
    pub closed spec fn paused_entries(&self) -> Seq<QueueEntry> {
        self.paused_jobs@
    }

    /// The installs whose download is being paused.
    pub closed spec fn pausing(&self) -> Seq<String> {
        self.pausing_installs@
    }

    /// The value from which the next job id is made.
    pub closed spec fn job_counter(&self) -> u64 {
        self.next_job
    }

    /// Whether the job counter has run through all of its 2^64 values, so
    /// that ids it gives may repeat earlier ones.
    pub closed spec fn counter_wrapped(&self) -> bool {
        self.wrapped@
    }

    /// How many waiting, running and paused jobs carry the id `x`.
    pub open spec fn job_count(&self, x: Seq<char>) -> nat {
        id_count(self.queue_entries(), x) + id_count(self.active_entries(), x) + id_count(
            self.paused_entries(),
            x,
        )
    }

    /// Until the counter wraps, every waiting, running or paused job carries
    /// an id that no other of them carries, made from a counter value that
    /// was already handed out.
    pub open spec fn ids_issued(&self) -> bool {
        !self.counter_wrapped() ==> forall|x: Seq<char>| #[trigger]
            self.job_count(x) > 0 ==> self.job_count(x) == 1 && exists|k: u64|
                k < self.job_counter() && x == #[trigger] job_id_for(k)
    }

    /// The queue's invariant: at least one job may run and no more than that
    /// many run, the history is bounded and holds only completed or failed
    /// jobs, running jobs are keyed by job id, paused jobs and pausing
    /// installs by install, every job is shown under its own id and its
    /// payload's install, and job ids are issued once.
    pub open spec fn wf(&self) -> bool {
        &&& self.max_jobs() >= 1
        &&& self.active_entries().len() <= self.max_jobs()
        &&& self.history().len() <= HISTORY_LIMIT
        &&& all_finished(self.history())
        &&& self.ids_issued()
        &&& distinct_job_ids(self.active_entries())
        &&& distinct_installs(self.paused_entries())
        &&& distinct_texts(self.pausing())
        &&& shown_as_payload(self.queue_entries())
        &&& shown_as_payload(self.active_entries())
        &&& shown_as_payload(self.paused_entries())
        &&& all_have_status(self.queue_entries(), QueueJobStatus::Queued)
        &&& all_have_status(self.active_entries(), QueueJobStatus::Running)
        &&& all_have_status(self.paused_entries(), QueueJobStatus::Paused)
    }

    /// Whether install `id` has a job waiting, running or paused.
    pub open spec fn has_job_spec(&self, id: Seq<char>) -> bool {
        has_install(self.queue_entries(), id) || has_install(self.active_entries(), id)
            || install_index(self.paused_entries(), id) >= 0
    }
}


// ---------------------------------------------------------------------------
// Facts about the sequence operations the queue uses
// ---------------------------------------------------------------------------

proof fn lemma_shown_push(s: Seq<QueueEntry>, e: QueueEntry)
    requires
        shown_as_payload(s),
        e.view.install_id@ == payload_id(e.job.payload),
        e.view.id@ == e.job.id@,
    ensures
        shown_as_payload(s.push(e)),
{
    assert forall|i: int| 0 <= i < s.push(e).len() implies #[trigger] s.push(e)[i].view.install_id@
        == payload_id(s.push(e)[i].job.payload) by {
        if i < s.len() {
            assert(s.push(e)[i] == s[i]);
        }
    }
}

proof fn lemma_shown_insert(s: Seq<QueueEntry>, k: int, e: QueueEntry)
    requires
        shown_as_payload(s),
        0 <= k <= s.len(),
        e.view.install_id@ == payload_id(e.job.payload),
        e.view.id@ == e.job.id@,
    ensures
        shown_as_payload(s.insert(k, e)),
{
    let t = s.insert(k, e);
    assert forall|i: int| 0 <= i < t.len() implies #[trigger] t[i].view.install_id@ == payload_id(
        t[i].job.payload,
    ) by {
        if i < k {
            assert(t[i] == s[i]);
        } else if i > k {
            assert(t[i] == s[i - 1]);
        } else {
            assert(t[i] == e);
        }
    }
}

proof fn lemma_shown_remove(s: Seq<QueueEntry>, k: int)
    requires
        shown_as_payload(s),
        0 <= k < s.len(),
    ensures
        shown_as_payload(s.remove(k)),
{
    let t = s.remove(k);
    assert forall|i: int| 0 <= i < t.len() implies #[trigger] t[i].view.install_id@ == payload_id(
        t[i].job.payload,
    ) by {
        if i < k {
            assert(t[i] == s[i]);
        } else {
            assert(t[i] == s[i + 1]);
        }
    }
}

proof fn lemma_distinct_ids_remove(s: Seq<QueueEntry>, k: int)
    requires
        distinct_job_ids(s),
        0 <= k < s.len(),
    ensures
        distinct_job_ids(s.remove(k)),
        forall|i: int| 0 <= i < s.remove(k).len() ==> #[trigger] s.remove(k)[i].job.id@ != s[k].job.id@,
{
    let t = s.remove(k);
    assert forall|i: int, j: int| #![trigger t[i], t[j]] 0 <= i < j < t.len() implies t[i].job.id@
        != t[j].job.id@ by {
        let a = if i < k { i } else { i + 1 };
        let b = if j < k { j } else { j + 1 };
        assert(t[i] == s[a]);
        assert(t[j] == s[b]);
        assert(s[a].job.id@ != s[b].job.id@);
    }
    assert forall|i: int| 0 <= i < t.len() implies #[trigger] t[i].job.id@ != s[k].job.id@ by {
        let a = if i < k { i } else { i + 1 };
        assert(t[i] == s[a]);
        if a < k {
            assert(s[a].job.id@ != s[k].job.id@);
        } else {
            assert(s[k].job.id@ != s[a].job.id@);
        }
    }
}

proof fn lemma_distinct_installs_remove(s: Seq<QueueEntry>, k: int)
    requires
        distinct_installs(s),
        0 <= k < s.len(),
    ensures
        distinct_installs(s.remove(k)),
        forall|i: int| 0 <= i < s.remove(k).len() ==> #[trigger] s.remove(k)[i].view.install_id@ != s[k].view.install_id@,
{
    let t = s.remove(k);
    assert forall|i: int, j: int| #![trigger t[i], t[j]] 0 <= i < j < t.len() implies t[i].view.install_id@
        != t[j].view.install_id@ by {
        let a = if i < k { i } else { i + 1 };
        let b = if j < k { j } else { j + 1 };
        assert(t[i] == s[a]);
        assert(t[j] == s[b]);
        assert(s[a].view.install_id@ != s[b].view.install_id@);
    }
    assert forall|i: int| 0 <= i < t.len() implies #[trigger] t[i].view.install_id@ != s[k].view.install_id@ by {
        let a = if i < k { i } else { i + 1 };
        assert(t[i] == s[a]);
        if a < k {
            assert(s[a].view.install_id@ != s[k].view.install_id@);
        } else {
            assert(s[k].view.install_id@ != s[a].view.install_id@);
        }
    }
}

proof fn lemma_distinct_texts_remove(s: Seq<String>, k: int)
    requires
        distinct_texts(s),
        0 <= k < s.len(),
    ensures
        distinct_texts(s.remove(k)),
        forall|i: int| 0 <= i < s.remove(k).len() ==> #[trigger] s.remove(k)[i]@ != s[k]@,
{
    let t = s.remove(k);
    assert forall|i: int, j: int| #![trigger t[i], t[j]] 0 <= i < j < t.len() implies t[i]@ != t[j]@ by {
        let a = if i < k { i } else { i + 1 };
        let b = if j < k { j } else { j + 1 };
        assert(t[i] == s[a]);
        assert(t[j] == s[b]);
        assert(s[a]@ != s[b]@);
    }
    assert forall|i: int| 0 <= i < t.len() implies #[trigger] t[i]@ != s[k]@ by {
        let a = if i < k { i } else { i + 1 };
        assert(t[i] == s[a]);
        if a < k {
            assert(s[a]@ != s[k]@);
        } else {
            assert(s[k]@ != s[a]@);
        }
    }
}

/// Entries taken from `s`, all of one status, have that status.
proof fn lemma_status_of_contained(s: Seq<QueueEntry>, t: Seq<QueueEntry>, st: QueueJobStatus)
    requires
        all_have_status(s, st),
        forall|j: int| 0 <= j < t.len() ==> s.contains(#[trigger] t[j]),
    ensures
        all_have_status(t, st),
{
    assert forall|j: int| 0 <= j < t.len() implies (#[trigger] t[j]).view.status == st by {
        assert(s.contains(t[j]));
        let k = choose|k: int| 0 <= k < s.len() && s[k] == t[j];
        assert(s[k].view.status == st);
    }
}

/// What `keep_other_payloads` keeps: entries of `q`, none of install `id`.
#[verifier::spinoff_prover]
proof fn lemma_keep_payloads(q: Seq<QueueEntry>, id: Seq<char>)
    ensures
        keep_other_payloads(q, id).len() <= q.len(),
        forall|j: int| 0 <= j < keep_other_payloads(q, id).len() ==> q.contains(#[trigger] keep_other_payloads(q, id)[j]),
        forall|j: int| 0 <= j < keep_other_payloads(q, id).len() ==> payload_id(#[trigger] keep_other_payloads(q, id)[j].job.payload) != id,
    decreases q.len(),
{
    if q.len() > 0 {
        let p = q.drop_last();
        lemma_keep_payloads(p, id);
        let r = keep_other_payloads(q, id);
        assert forall|j: int| 0 <= j < r.len() implies q.contains(#[trigger] r[j]) by {
            if j < keep_other_payloads(p, id).len() {
                let x = keep_other_payloads(p, id)[j];
                assert(r[j] == x);
                assert(p.contains(x));
                let k = choose|k: int| 0 <= k < p.len() && p[k] == x;
                assert(q[k] == x);
            } else {
                assert(r[j] == q.last());
                assert(q[q.len() - 1] == q.last());
            }
        }
    }
}

/// What `keep_other_installs` keeps: entries of `q`, none of install `id`,
/// with distinct job ids when `q` has them.
proof fn lemma_keep_installs(q: Seq<QueueEntry>, id: Seq<char>)
    ensures
        keep_other_installs(q, id).len() <= q.len(),
        forall|j: int| 0 <= j < keep_other_installs(q, id).len() ==> q.contains(#[trigger] keep_other_installs(q, id)[j]),
        forall|j: int| 0 <= j < keep_other_installs(q, id).len() ==> (#[trigger] keep_other_installs(q, id)[j]).view.install_id@ != id,
        distinct_job_ids(q) ==> distinct_job_ids(keep_other_installs(q, id)),
    decreases q.len(),
{
    if q.len() > 0 {
        let p = q.drop_last();
        lemma_keep_installs(p, id);
        let kp = keep_other_installs(p, id);
        let r = keep_other_installs(q, id);
        assert forall|j: int| 0 <= j < r.len() implies q.contains(#[trigger] r[j]) by {
            if j < kp.len() {
                let x = kp[j];
                assert(r[j] == x);
                assert(p.contains(x));
                let k = choose|k: int| 0 <= k < p.len() && p[k] == x;
                assert(q[k] == x);
            } else {
                assert(r[j] == q.last());
                assert(q[q.len() - 1] == q.last());
            }
        }
        if distinct_job_ids(q) {
            assert(distinct_job_ids(p)) by {
                assert forall|i: int, j: int| #![trigger p[i], p[j]] 0 <= i < j < p.len() implies p[i].job.id@
                    != p[j].job.id@ by {
                    assert(p[i] == q[i]);
                    assert(p[j] == q[j]);
                }
            }
            if q.last().view.install_id@ != id {
                assert forall|i: int, j: int| #![trigger r[i], r[j]] 0 <= i < j < r.len() implies r[i].job.id@
                    != r[j].job.id@ by {
                    if j < kp.len() {
                        assert(r[i] == kp[i]);
                        assert(r[j] == kp[j]);
                    } else {
                        assert(r[i] == kp[i]);
                        assert(r[j] == q.last());
                        assert(p.contains(kp[i]));
                        let k = choose|k: int| 0 <= k < p.len() && p[k] == kp[i];
                        assert(q[k] == p[k]);
                        assert(q[q.len() - 1] == q.last());
                        assert(q[k].job.id@ != q[q.len() - 1].job.id@);
                    }
                }
            }
        }
    }
}

/// What `keep_other_views` keeps: at most as many views, none of install `id`.
proof fn lemma_keep_views(c: Seq<QueueJobView>, id: Seq<char>)
    ensures
        keep_other_views(c, id).len() <= c.len(),
        all_finished(c) ==> all_finished(keep_other_views(c, id)),
        forall|j: int| 0 <= j < keep_other_views(c, id).len() ==> (#[trigger] keep_other_views(c, id)[j]).install_id@ != id,
    decreases c.len(),
{
    if c.len() > 0 {
        let d = c.drop_last();
        lemma_keep_views(d, id);
        if all_finished(c) {
            assert forall|i: int| 0 <= i < d.len() implies (#[trigger] d[i]).status == QueueJobStatus::Completed
                || d[i].status == QueueJobStatus::Failed by {
                assert(d[i] == c[i]);
            }
            assert(c.last() == c[c.len() - 1]);
        }
    }
}

proof fn lemma_shown_keep_payloads(q: Seq<QueueEntry>, id: Seq<char>)
    requires
        shown_as_payload(q),
    ensures
        shown_as_payload(keep_other_payloads(q, id)),
{
    lemma_keep_payloads(q, id);
    let r = keep_other_payloads(q, id);
    assert forall|j: int| 0 <= j < r.len() implies #[trigger] r[j].view.install_id@ == payload_id(
        r[j].job.payload,
    ) by {
        assert(q.contains(r[j]));
        let k = choose|k: int| 0 <= k < q.len() && q[k] == r[j];
        assert(q[k].view.install_id@ == payload_id(q[k].job.payload));
    }
}

proof fn lemma_shown_keep_installs(q: Seq<QueueEntry>, id: Seq<char>)
    requires
        shown_as_payload(q),
    ensures
        shown_as_payload(keep_other_installs(q, id)),
{
    lemma_keep_installs(q, id);
    let r = keep_other_installs(q, id);
    assert forall|j: int| 0 <= j < r.len() implies #[trigger] r[j].view.install_id@ == payload_id(
        r[j].job.payload,
    ) by {
        assert(q.contains(r[j]));
        let k = choose|k: int| 0 <= k < q.len() && q[k] == r[j];
        assert(q[k].view.install_id@ == payload_id(q[k].job.payload));
    }
}

pub proof fn lemma_views_of(q: Seq<QueueEntry>)
    ensures
        views_of(q).len() == q.len(),
        forall|i: int| 0 <= i < q.len() ==> #[trigger] views_of(q)[i] == q[i].view,
    decreases q.len(),
{
    if q.len() > 0 {
        lemma_views_of(q.drop_last());
        assert forall|i: int| 0 <= i < q.len() implies #[trigger] views_of(q)[i] == q[i].view by {
            if i < q.len() - 1 {
                assert(q.drop_last()[i] == q[i]);
            }
        }
    }
}

/// The views of `q`, copied.
fn copy_views(q: &Vec<QueueEntry>) -> (r: Vec<QueueJobView>)
    ensures
        r@ == views_of(q@),
{
    let mut r: Vec<QueueJobView> = Vec::new();
    let mut i: usize = 0;
    while i < q.len()
        invariant
            i <= q.len(),
            r@ == views_of(q@.take(i as int)),
        decreases q.len() - i,
    {
        let v = q[i].view.clone();
        r.push(v);
        i = i + 1;
        assert(q@.take(i as int).drop_last() =~= q@.take(i - 1));
    }
    assert(q@.take(q.len() as int) =~= q@);
    r
}

/// The views of the waiting jobs, copied.
fn copy_queued_views(q: &VecDeque<QueueEntry>) -> (r: Vec<QueueJobView>)
    ensures
        r@ == views_of(q@),
{
    let mut r: Vec<QueueJobView> = Vec::new();
    let mut i: usize = 0;
    while i < q.len()
        invariant
            i <= q@.len(),
            r@ == views_of(q@.take(i as int)),
        decreases q@.len() - i,
    {
        let v = q[i].view.clone();
        r.push(v);
        i = i + 1;
        assert(q@.take(i as int).drop_last() =~= q@.take(i - 1));
    }
    assert(q@.take(q@.len() as int) =~= q@);
    r
}

/// A copy of the history.
fn copy_history(c: &VecDeque<QueueJobView>) -> (r: Vec<QueueJobView>)
    ensures
        r@ == c@,
{
    let mut r: Vec<QueueJobView> = Vec::new();
    let mut i: usize = 0;
    while i < c.len()
        invariant
            i <= c@.len(),
            r@ == c@.take(i as int),
        decreases c.len() - i,
    {
        r.push(c[i].clone());
        i = i + 1;
        assert(r@ =~= c@.take(i as int));
    }
    assert(c@.take(c@.len() as int) =~= c@);
    r
}

/// A copy of a vector of strings.
fn copy_strings(c: &Vec<String>) -> (r: Vec<String>)
    ensures
        r@ == c@,
{
    let mut r: Vec<String> = Vec::new();
    let mut i: usize = 0;
    while i < c.len()
        invariant
            i <= c.len(),
            r@ == c@.take(i as int),
        decreases c.len() - i,
    {
        r.push(c[i].clone());
        i = i + 1;
        assert(r@ =~= c@.take(i as int));
    }
    assert(c@.take(c.len() as int) =~= c@);
    r
}


// ---------------------------------------------------------------------------
// Counting job ids
// ---------------------------------------------------------------------------

pub proof fn lemma_count_concat(s: Seq<QueueEntry>, t: Seq<QueueEntry>, x: Seq<char>)
    ensures
        id_count(s + t, x) == id_count(s, x) + id_count(t, x),
    decreases t.len(),
{
    if t.len() == 0 {
        assert(s + t =~= s);
    } else {
        lemma_count_concat(s, t.drop_last(), x);
        assert((s + t).drop_last() =~= s + t.drop_last());
        assert((s + t).last() == t.last());
    }
}

proof fn lemma_count_single(e: QueueEntry, x: Seq<char>)
    ensures
        id_count(seq![e], x) == one_if(e, x),
{
    assert(seq![e].drop_last() =~= Seq::<QueueEntry>::empty());
    assert(seq![e].last() == e);
    assert(id_count(Seq::<QueueEntry>::empty(), x) == 0);
}

proof fn lemma_count_push(s: Seq<QueueEntry>, e: QueueEntry)
    ensures
        forall|x: Seq<char>| #[trigger] id_count(s.push(e), x) == id_count(s, x) + one_if(e, x),
{
    assert(s.push(e).drop_last() =~= s);
}

proof fn lemma_count_front(e: QueueEntry, s: Seq<QueueEntry>)
    ensures
        forall|x: Seq<char>| #[trigger] id_count(seq![e] + s, x) == id_count(s, x) + one_if(e, x),
{
    assert forall|x: Seq<char>| #[trigger] id_count(seq![e] + s, x) == id_count(s, x) + one_if(e, x) by {
        lemma_count_concat(seq![e], s, x);
        lemma_count_single(e, x);
    }
}

proof fn lemma_count_remove(s: Seq<QueueEntry>, k: int)
    requires
        0 <= k < s.len(),
    ensures
        forall|x: Seq<char>| #[trigger] id_count(s.remove(k), x) + one_if(s[k], x) == id_count(s, x),
{
    assert forall|x: Seq<char>| #[trigger] id_count(s.remove(k), x) + one_if(s[k], x) == id_count(s, x) by {
        assert(s =~= s.take(k) + seq![s[k]] + s.skip(k + 1));
        assert(s.remove(k) =~= s.take(k) + s.skip(k + 1));
        lemma_count_concat(s.take(k) + seq![s[k]], s.skip(k + 1), x);
        lemma_count_concat(s.take(k), seq![s[k]], x);
        lemma_count_concat(s.take(k), s.skip(k + 1), x);
        lemma_count_single(s[k], x);
    }
}

proof fn lemma_count_insert(s: Seq<QueueEntry>, k: int, e: QueueEntry)
    requires
        0 <= k <= s.len(),
    ensures
        forall|x: Seq<char>| #[trigger] id_count(s.insert(k, e), x) == id_count(s, x) + one_if(e, x),
{
    assert forall|x: Seq<char>| #[trigger] id_count(s.insert(k, e), x) == id_count(s, x) + one_if(e, x) by {
        assert(s =~= s.take(k) + s.skip(k));
        assert(s.insert(k, e) =~= s.take(k) + seq![e] + s.skip(k));
        lemma_count_concat(s.take(k) + seq![e], s.skip(k), x);
        lemma_count_concat(s.take(k), seq![e], x);
        lemma_count_concat(s.take(k), s.skip(k), x);
        lemma_count_single(e, x);
    }
}

proof fn lemma_count_update(s: Seq<QueueEntry>, k: int, e: QueueEntry)
    requires
        0 <= k < s.len(),
    ensures
        forall|x: Seq<char>| #[trigger] id_count(s.update(k, e), x) + one_if(s[k], x) == id_count(s, x) + one_if(e, x),
{
    assert(s.update(k, e) =~= s.remove(k).insert(k, e));
    lemma_count_remove(s, k);
    lemma_count_insert(s.remove(k), k, e);
}

proof fn lemma_count_with_status(p: Seq<QueueEntry>, st: QueueJobStatus)
    ensures
        forall|x: Seq<char>| #[trigger] id_count(all_with_status(p, st), x) == id_count(p, x),
    decreases p.len(),
{
    if p.len() > 0 {
        lemma_count_with_status(p.drop_last(), st);
        lemma_count_push(all_with_status(p.drop_last(), st), with_status(p.last(), st));
    }
}

proof fn lemma_count_keep_payloads(q: Seq<QueueEntry>, id: Seq<char>)
    ensures
        forall|x: Seq<char>| #[trigger] id_count(keep_other_payloads(q, id), x) <= id_count(q, x),
    decreases q.len(),
{
    if q.len() > 0 {
        lemma_count_keep_payloads(q.drop_last(), id);
        lemma_count_push(keep_other_payloads(q.drop_last(), id), q.last());
    }
}

proof fn lemma_count_keep_installs(q: Seq<QueueEntry>, id: Seq<char>)
    ensures
        forall|x: Seq<char>| #[trigger] id_count(keep_other_installs(q, id), x) <= id_count(q, x),
    decreases q.len(),
{
    if q.len() > 0 {
        lemma_count_keep_installs(q.drop_last(), id);
        lemma_count_push(keep_other_installs(q.drop_last(), id), q.last());
    }
}

/// An id that some entry of `s` carries is counted at least once.
proof fn lemma_count_positive(s: Seq<QueueEntry>, i: int)
    requires
        0 <= i < s.len(),
    ensures
        id_count(s, s[i].job.id@) >= 1,
    decreases s.len(),
{
    if i < s.len() - 1 {
        lemma_count_positive(s.drop_last(), i);
        assert(s.drop_last()[i] == s[i]);
    }
}

/// Entries whose ids are each counted at most once have distinct ids.
pub proof fn lemma_counted_once_distinct(s: Seq<QueueEntry>)
    requires
        forall|x: Seq<char>| #[trigger] id_count(s, x) <= 1,
    ensures
        distinct_job_ids(s),
{
    assert forall|i: int, j: int| #![trigger s[i], s[j]] 0 <= i < j < s.len() implies s[i].job.id@
        != s[j].job.id@ by {
        if s[i].job.id@ == s[j].job.id@ {
            let x = s[i].job.id@;
            assert(s =~= s.take(j) + s.skip(j));
            lemma_count_concat(s.take(j), s.skip(j), x);
            assert(s.take(j)[i] == s[i]);
            lemma_count_positive(s.take(j), i);
            assert(s.skip(j)[0] == s[j]);
            lemma_count_positive(s.skip(j), 0);
            assert(id_count(s, x) <= 1);
        }
    }
}

impl DownloadQueueHandle {
    /// A step that only drops job ids, with the counter left as it was,
    /// keeps the ids issued once.
    proof fn lemma_ids_kept(a: Self, b: Self)
        requires
            a.ids_issued(),
            b.job_counter() == a.job_counter(),
            b.counter_wrapped() == a.counter_wrapped(),
            forall|x: Seq<char>| #[trigger] b.job_count(x) <= a.job_count(x),
        ensures
            b.ids_issued(),
    {
        if !b.counter_wrapped() {
            assert forall|x: Seq<char>| #[trigger] b.job_count(x) > 0 implies b.job_count(x) == 1
                && exists|k: u64| k < b.job_counter() && x == #[trigger] job_id_for(k) by {
                assert(a.job_count(x) > 0);
            }
        }
    }

    /// A step that leaves the job lists and the counter as they were keeps
    /// the ids issued once.
    proof fn lemma_ids_same(a: Self, b: Self)
        requires
            a.ids_issued(),
            b.job_counter() == a.job_counter(),
            b.counter_wrapped() == a.counter_wrapped(),
            b.queue_entries() == a.queue_entries(),
            b.active_entries() == a.active_entries(),
            b.paused_entries() == a.paused_entries(),
        ensures
            b.ids_issued(),
    {
        Self::lemma_ids_kept(a, b);
    }
}

// ---------------------------------------------------------------------------
// Commands
// ---------------------------------------------------------------------------

impl DownloadQueueHandle {
    /// The settings and counters of `a` and `b` agree.
    pub open spec fn same_settings(a: Self, b: Self) -> bool {
        &&& a.max_jobs() == b.max_jobs()
        &&& a.is_paused() == b.is_paused()
        &&& a.is_auto_paused_now() == b.is_auto_paused_now()
        &&& a.is_activating() == b.is_activating()
        &&& a.job_counter() == b.job_counter()
        &&& a.counter_wrapped() == b.counter_wrapped()
    }

    /// The job lists of `a` and `b` agree.
    pub open spec fn same_jobs(a: Self, b: Self) -> bool {
        &&& a.queue_entries() == b.queue_entries()
        &&& a.active_entries() == b.active_entries()
        &&& a.history() == b.history()
        &&& a.paused_entries() == b.paused_entries()
        &&& a.pausing() == b.pausing()
    }

    /// Everything but the waiting jobs agrees.
    pub open spec fn same_but_queue(a: Self, b: Self) -> bool {
        &&& Self::same_settings(a, b)
        &&& a.active_entries() == b.active_entries()
        &&& a.history() == b.history()
        &&& a.paused_entries() == b.paused_entries()
        &&& a.pausing() == b.pausing()
    }

    /// A new, empty queue that runs at most `initial_max_concurrent` jobs at
    /// once (at least one), with job numbering starting at 1.
    pub fn new(initial_max_concurrent: usize) -> (q: Self)
        ensures
            q.wf(),
            q.max_jobs() == if initial_max_concurrent < 1 { 1 } else { initial_max_concurrent },
            !q.is_paused(),
            !q.is_auto_paused_now(),
            !q.is_activating(),
            q.queue_entries().len() == 0,
            q.active_entries().len() == 0,
            q.history().len() == 0,
            q.paused_entries().len() == 0,
            q.pausing().len() == 0,
            q.job_counter() == 1,
    {
        DownloadQueueHandle {
            max_concurrent: if initial_max_concurrent < 1 { 1 } else { initial_max_concurrent },
            paused: false,
            auto_paused: false,
            activating: false,
            queued: VecDeque::new(),
            active: Vec::new(),
            completed: VecDeque::new(),
            paused_jobs: Vec::new(),
            pausing_installs: Vec::new(),
            next_job: 1,
            wrapped: Ghost(false),
        }
    }

    /// Puts `job` at the back of the queue. It is shown under its payload's
    /// install and under `name` where one was looked up, else under the
    /// payload's own name.
    fn enqueue_job(&mut self, job: QueueJob, name: Option<String>)
        requires
            old(self).wf(),
            old(self).counter_wrapped() || (old(self).job_count(job.id@) == 0 && exists|k: u64|
                k < old(self).job_counter() && job.id@ == #[trigger] job_id_for(k)),
        ensures
            final(self).wf(),
            Self::same_but_queue(*old(self), *final(self)),
            final(self).queue_entries().len() == old(self).queue_entries().len() + 1,
            final(self).queue_entries().drop_last() == old(self).queue_entries(),
            final(self).queue_entries().last().job == job,
            fresh_view(
                final(self).queue_entries().last().view,
                job,
                match name {
                    Some(n) => n@,
                    None => payload_name(job.payload),
                },
            ),
    {
        let install_id = job.payload.get_id();
        let shown = match name {
            Some(n) => n,
            None => job.payload.get_name(),
        };
        let view = QueueJobView {
            id: job.id.clone(),
            kind: job.kind,
            install_id,
            name: shown,
            status: QueueJobStatus::Queued,
        };
        let ghost pre = self.queued@;
        let ghost before = *self;
        let e = QueueEntry { job, view };
        proof {
            lemma_shown_push(pre, e);
            lemma_count_push(pre, e);
        }
        self.queued.push_back(e);
        assert(self.queued@.drop_last() =~= pre);
        proof {
            if !self.counter_wrapped() {
                assert forall|x: Seq<char>| #[trigger] self.job_count(x) > 0 implies self.job_count(x) == 1
                    && exists|k: u64| k < self.job_counter() && x == #[trigger] job_id_for(k) by {
                    if x != e.job.id@ {
                        assert(self.job_count(x) == before.job_count(x));
                    } else {
                        assert(self.job_count(x) == before.job_count(x) + 1);
                    }
                }
            }
        }
    }

    /// Makes a new job of `kind` for `payload`, named by the job counter
    /// (`job_1`, `job_2`, ...), and queues it under `name` where one was
    /// looked up. Returns the new job's id.
    pub fn enqueue_named(&mut self, kind: QueueJobKind, payload: QueueJobPayload, name: Option<String>) -> (id: String)
        requires
            old(self).wf(),
        ensures
            final(self).wf(),
            id@ == job_id_for(old(self).job_counter()),
            final(self).job_counter() == counter_after(old(self).job_counter()),
            final(self).counter_wrapped() == (old(self).counter_wrapped() || old(self).job_counter() == u64::MAX),
            final(self).max_jobs() == old(self).max_jobs(),
            final(self).is_paused() == old(self).is_paused(),
            final(self).is_auto_paused_now() == old(self).is_auto_paused_now(),
            final(self).is_activating() == old(self).is_activating(),
            final(self).active_entries() == old(self).active_entries(),
            final(self).history() == old(self).history(),
            final(self).paused_entries() == old(self).paused_entries(),
            final(self).pausing() == old(self).pausing(),
            final(self).queue_entries().len() == old(self).queue_entries().len() + 1,
            final(self).queue_entries().drop_last() == old(self).queue_entries(),
            final(self).queue_entries().last().job == (QueueJob { id, kind, payload }),
            fresh_view(
                final(self).queue_entries().last().view,
                QueueJob { id, kind, payload },
                match name {
                    Some(n) => n@,
                    None => payload_name(payload),
                },
            ),
    {
        let mut digits = chars_of("job_");
        push_decimal(self.next_job, &mut digits);
        let id = string_from(digits.as_slice());
        let ghost before = *self;
        let ghost n = self.next_job;
        if self.next_job == u64::MAX {
            self.wrapped = Ghost(true);
        }
        self.next_job = self.next_job.wrapping_add(1);
        proof {
            assert(id@ == job_id_for(n));
            if !self.counter_wrapped() {
                assert forall|x: Seq<char>| #[trigger] self.job_count(x) > 0 implies self.job_count(x) == 1
                    && exists|k: u64| k < self.job_counter() && x == #[trigger] job_id_for(k) by {
                    assert(before.job_count(x) > 0);
                    let k = choose|k: u64| k < before.job_counter() && x == #[trigger] job_id_for(k);
                    assert(k < self.job_counter());
                }
                if before.job_count(id@) > 0 {
                    let k = choose|k: u64| k < before.job_counter() && id@ == #[trigger] job_id_for(k);
                    crate::queue_laws::lemma_job_id_injective(k, n);
                }
                assert(self.job_count(id@) == before.job_count(id@));
                assert(n < self.job_counter());
            }
        }
        let job = QueueJob { id: id.clone(), kind, payload };
        self.enqueue_job(job, name);
        id
    }

    /// Makes a new job of `kind` for `payload` and queues it under the
    /// payload's own name. Returns the new job's id.
    pub fn enqueue(&mut self, kind: QueueJobKind, payload: QueueJobPayload) -> (id: String)
        requires
            old(self).wf(),
        ensures
            final(self).wf(),
            id@ == job_id_for(old(self).job_counter()),
            final(self).job_counter() == counter_after(old(self).job_counter()),
            final(self).counter_wrapped() == (old(self).counter_wrapped() || old(self).job_counter() == u64::MAX),
            final(self).max_jobs() == old(self).max_jobs(),
            final(self).is_paused() == old(self).is_paused(),
            final(self).is_auto_paused_now() == old(self).is_auto_paused_now(),
            final(self).is_activating() == old(self).is_activating(),
            final(self).active_entries() == old(self).active_entries(),
            final(self).history() == old(self).history(),
            final(self).paused_entries() == old(self).paused_entries(),
            final(self).pausing() == old(self).pausing(),
            final(self).queue_entries().len() == old(self).queue_entries().len() + 1,
            final(self).queue_entries().drop_last() == old(self).queue_entries(),
            final(self).queue_entries().last().job == (QueueJob { id, kind, payload }),
            fresh_view(
                final(self).queue_entries().last().view,
                QueueJob { id, kind, payload },
                payload_name(payload),
            ),
    {
        self.enqueue_named(kind, payload, None)
    }

    /// Queues the download of an extra tool's package, unless a job for that
    /// package is already waiting, running or paused; gives the new job's id, or
    /// nothing (the queue unchanged) where one was there already.
    pub fn enqueue_extras(
        &mut self,
        path: String,
        package_id: String,
        package_type: String,
        update_mode: bool,
    ) -> (r: Option<String>)
        requires
            old(self).wf(),
        ensures
            final(self).wf(),
            r is None <==> old(self).has_job_spec(package_type@),
            r is None ==> *final(self) == *old(self),
            r matches Some(id) ==> {
                &&& id@ == job_id_for(old(self).job_counter())
                &&& final(self).job_counter() == counter_after(old(self).job_counter())
                &&& final(self).queue_entries().len() == old(self).queue_entries().len() + 1
                &&& final(self).queue_entries().drop_last() == old(self).queue_entries()
                &&& final(self).queue_entries().last().job == (QueueJob {
                    id,
                    kind: QueueJobKind::ExtrasDownload,
                    payload: QueueJobPayload::Extras(ExtrasDownloadPayload { path, package_id, package_type, update_mode }),
                })
                &&& final(self).active_entries() == old(self).active_entries()
                &&& final(self).paused_entries() == old(self).paused_entries()
                &&& final(self).history() == old(self).history()
            },
    {
        if self.has_job_for_id(package_type.clone()) {
            return None;
        }
        let payload = QueueJobPayload::Extras(ExtrasDownloadPayload { path, package_id, package_type, update_mode });
        Some(self.enqueue(QueueJobKind::ExtrasDownload, payload))
    }

    /// Pauses or unpauses the queue by hand; unpausing also ends an
    /// automatic pause.
    pub fn set_paused(&mut self, paused: bool)
        requires
            old(self).wf(),
        ensures
            final(self).wf(),
            final(self).is_paused() == paused,
            final(self).is_auto_paused_now() == (paused && old(self).is_auto_paused_now()),
            Self::same_jobs(*old(self), *final(self)),
            final(self).max_jobs() == old(self).max_jobs(),
            final(self).is_activating() == old(self).is_activating(),
            final(self).job_counter() == old(self).job_counter(),
    {
        let ghost before = *self;
        self.paused = paused;
        if !paused {
            self.auto_paused = false;
        }
        proof {
            Self::lemma_ids_same(before, *self);
        }
    }

    /// Marks install `install_id` as being paused, or clears that mark.
    pub fn set_pausing(&mut self, install_id: String, is_pausing: bool)
        requires
            old(self).wf(),
        ensures
            final(self).wf(),
            Self::same_settings(*old(self), *final(self)),
            final(self).queue_entries() == old(self).queue_entries(),
            final(self).active_entries() == old(self).active_entries(),
            final(self).history() == old(self).history(),
            final(self).paused_entries() == old(self).paused_entries(),
            ({
                let p = old(self).pausing();
                let k = text_index(p, install_id@);
                final(self).pausing() == if is_pausing {
                    if k >= 0 {
                        p
                    } else {
                        p.push(install_id)
                    }
                } else {
                    if k >= 0 {
                        p.remove(k)
                    } else {
                        p
                    }
                }
            }),
    {
        let ghost p = self.pausing_installs@;
        let ghost before = *self;
        proof {
            lemma_text_index(p, install_id@);
        }
        match find_text(&self.pausing_installs, &install_id) {
            Some(k) => {
                if !is_pausing {
                    proof {
                        lemma_distinct_texts_remove(p, k as int);
                    }
                    self.pausing_installs.remove(k);
                }
            },
            None => {
                if is_pausing {
                    self.pausing_installs.push(install_id);
                    assert forall|i: int, j: int|
                        #![trigger self.pausing_installs@[i], self.pausing_installs@[j]]
                        0 <= i < j < self.pausing_installs@.len() implies self.pausing_installs@[i]@
                        != self.pausing_installs@[j]@ by {
                        if j == p.len() {
                            assert(p[i]@ != install_id@);
                        } else {
                            assert(p[i] == self.pausing_installs@[i]);
                            assert(p[j] == self.pausing_installs@[j]);
                        }
                    }
                }
            },
        }
        proof {
            Self::lemma_ids_same(before, *self);
        }
    }

    /// Moves the waiting job `job_id` one place towards the front. Refused
    /// (false) when no such job waits or it is already first.
    pub fn move_up(&mut self, job_id: String) -> (r: bool)
        requires
            old(self).wf(),
        ensures
            final(self).wf(),
            Self::same_but_queue(*old(self), *final(self)),
            ({
                let q = old(self).queue_entries();
                let i = job_index(q, job_id@);
                &&& r == (i > 0)
                &&& r ==> final(self).queue_entries() == q.update(i - 1, q[i]).update(i, q[i - 1])
                &&& !r ==> final(self).queue_entries() == q
            }),
    {
        let ghost q = self.queued@;
        let ghost before = *self;
        proof {
            lemma_job_index(q, job_id@);
        }
        match find_queued(&self.queued, &job_id) {
            Some(i) => {
                if i > 0 {
                    let e = self.queued.remove(i).unwrap();
                    self.queued.insert(i - 1, e);
                    proof {
                        let k = i as int;
                        assert(self.queued@ =~= q.update(k - 1, q[k]).update(k, q[k - 1]));
                        lemma_shown_remove(q, k);
                        lemma_shown_insert(q.remove(k), k - 1, q[k]);
                        let q1 = q.update(k - 1, q[k]);
                        lemma_count_update(q, k - 1, q[k]);
                        lemma_count_update(q1, k, q[k - 1]);
                        assert(q1[k] == q[k]);
                        Self::lemma_ids_kept(before, *self);
                    }
                    true
                } else {
                    proof {
                        Self::lemma_ids_same(before, *self);
                    }
                    false
                }
            },
            None => {
                proof {
                    Self::lemma_ids_same(before, *self);
                }
                false
            },
        }
    }

    /// Moves the waiting job `job_id` one place towards the back. Refused
    /// (false) when no such job waits or it is already last.
    pub fn move_down(&mut self, job_id: String) -> (r: bool)
        requires
            old(self).wf(),
        ensures
            final(self).wf(),
            Self::same_but_queue(*old(self), *final(self)),
            ({
                let q = old(self).queue_entries();
                let i = job_index(q, job_id@);
                &&& r == (0 <= i && i + 1 < q.len())
                &&& r ==> final(self).queue_entries() == q.update(i + 1, q[i]).update(i, q[i + 1])
                &&& !r ==> final(self).queue_entries() == q
            }),
    {
        let ghost q = self.queued@;
        let ghost before = *self;
        proof {
            lemma_job_index(q, job_id@);
        }
        match find_queued(&self.queued, &job_id) {
            Some(i) => {
                let last = if self.queued.len() == 0 { 0 } else { self.queued.len() - 1 };
                if i < last {
                    let e = self.queued.remove(i).unwrap();
                    self.queued.insert(i + 1, e);
                    proof {
                        let k = i as int;
                        assert(self.queued@ =~= q.update(k + 1, q[k]).update(k, q[k + 1]));
                        lemma_shown_remove(q, k);
                        lemma_shown_insert(q.remove(k), k + 1, q[k]);
                        let q1 = q.update(k + 1, q[k]);
                        lemma_count_update(q, k + 1, q[k]);
                        lemma_count_update(q1, k, q[k + 1]);
                        assert(q1[k] == q[k]);
                        Self::lemma_ids_kept(before, *self);
                    }
                    true
                } else {
                    proof {
                        Self::lemma_ids_same(before, *self);
                    }
                    false
                }
            },
            None => {
                proof {
                    Self::lemma_ids_same(before, *self);
                }
                false
            },
        }
    }

    /// Takes the waiting job `job_id` out of the queue. Refused (false) when
    /// no such job waits.
    pub fn remove(&mut self, job_id: String) -> (r: bool)
        requires
            old(self).wf(),
        ensures
            final(self).wf(),
            Self::same_but_queue(*old(self), *final(self)),
            ({
                let q = old(self).queue_entries();
                let i = job_index(q, job_id@);
                &&& r == (i >= 0)
                &&& r ==> final(self).queue_entries() == q.remove(i)
                &&& !r ==> final(self).queue_entries() == q
            }),
    {
        let ghost q = self.queued@;
        let ghost before = *self;
        proof {
            lemma_job_index(q, job_id@);
        }
        match find_queued(&self.queued, &job_id) {
            Some(i) => {
                proof {
                    lemma_shown_remove(q, i as int);
                    lemma_count_remove(q, i as int);
                }
                self.queued.remove(i);
                proof {
                    Self::lemma_ids_kept(before, *self);
                }
                true
            },
            None => {
                proof {
                    Self::lemma_ids_same(before, *self);
                }
                false
            },
        }
    }

    /// Moves the waiting job `job_id` to position `new_position`, or to the
    /// back when that is past the end. Refused (false) when no such job waits.
    pub fn reorder(&mut self, job_id: String, new_position: usize) -> (r: bool)
        requires
            old(self).wf(),
        ensures
            final(self).wf(),
            Self::same_but_queue(*old(self), *final(self)),
            ({
                let q = old(self).queue_entries();
                let i = job_index(q, job_id@);
                let pos = if new_position < q.len() - 1 { new_position as int } else { q.len() - 1 };
                &&& r == (i >= 0)
                &&& r ==> final(self).queue_entries() == q.remove(i).insert(pos, q[i])
                &&& !r ==> final(self).queue_entries() == q
            }),
    {
        let ghost q = self.queued@;
        let ghost before = *self;
        proof {
            lemma_job_index(q, job_id@);
        }
        match find_queued(&self.queued, &job_id) {
            Some(i) => {
                let e = self.queued.remove(i).unwrap();
                let len = self.queued.len();
                let pos = if new_position < len { new_position } else { len };
                proof {
                    lemma_shown_remove(q, i as int);
                    lemma_shown_insert(q.remove(i as int), pos as int, q[i as int]);
                    lemma_count_remove(q, i as int);
                    lemma_count_insert(q.remove(i as int), pos as int, q[i as int]);
                }
                self.queued.insert(pos, e);
                proof {
                    Self::lemma_ids_kept(before, *self);
                }
                true
            },
            None => {
                proof {
                    Self::lemma_ids_same(before, *self);
                }
                false
            },
        }
    }

    /// Pauses the queue because the connection was lost, unless it is paused
    /// already. Returns whether it paused.
    pub fn auto_pause(&mut self) -> (r: bool)
        requires
            old(self).wf(),
        ensures
            final(self).wf(),
            r == !old(self).is_paused(),
            final(self).is_paused(),
            final(self).is_auto_paused_now() == (r || old(self).is_auto_paused_now()),
            Self::same_jobs(*old(self), *final(self)),
            final(self).max_jobs() == old(self).max_jobs(),
            final(self).is_activating() == old(self).is_activating(),
            final(self).job_counter() == old(self).job_counter(),
    {
        let ghost before = *self;
        let r = if !self.paused {
            self.paused = true;
            self.auto_paused = true;
            true
        } else {
            false
        };
        proof {
            Self::lemma_ids_same(before, *self);
        }
        r
    }

    /// Unpauses the queue when the pause was automatic; a pause set by hand
    /// stays. Returns whether it unpaused.
    pub fn auto_resume(&mut self) -> (r: bool)
        requires
            old(self).wf(),
        ensures
            final(self).wf(),
            r == old(self).is_auto_paused_now(),
            r ==> !final(self).is_paused() && !final(self).is_auto_paused_now(),
            !r ==> final(self).is_paused() == old(self).is_paused()
                && !final(self).is_auto_paused_now(),
            Self::same_jobs(*old(self), *final(self)),
            final(self).max_jobs() == old(self).max_jobs(),
            final(self).is_activating() == old(self).is_activating(),
            final(self).job_counter() == old(self).job_counter(),
    {
        let ghost before = *self;
        let r = if self.auto_paused {
            self.auto_paused = false;
            self.paused = false;
            true
        } else {
            false
        };
        proof {
            Self::lemma_ids_same(before, *self);
        }
        r
    }

    /// Whether the queue is paused because the connection was lost.
    pub fn is_auto_paused(&self) -> (r: bool)
        ensures
            r == self.is_auto_paused_now(),
    {
        self.auto_paused
    }

    /// Empties the history of finished jobs.
    pub fn clear_completed(&mut self)
        requires
            old(self).wf(),
        ensures
            final(self).wf(),
            final(self).history().len() == 0,
            Self::same_settings(*old(self), *final(self)),
            final(self).queue_entries() == old(self).queue_entries(),
            final(self).active_entries() == old(self).active_entries(),
            final(self).paused_entries() == old(self).paused_entries(),
            final(self).pausing() == old(self).pausing(),
    {
        let ghost before = *self;
        self.completed = VecDeque::new();
        proof {
            Self::lemma_ids_same(before, *self);
        }
    }

    /// Whether install `install_id` has a job waiting, running or paused.
    pub fn has_job_for_id(&self, install_id: String) -> (r: bool)
        requires
            self.wf(),
        ensures
            r == self.has_job_spec(install_id@),
    {
        let mut i: usize = 0;
        while i < self.queued.len()
            invariant
                i <= self.queued@.len(),
                forall|j: int| 0 <= j < i ==> #[trigger] self.queued@[j].view.install_id@ != install_id@,
            decreases self.queued.len() - i,
        {
            if self.queued[i].view.install_id == install_id {
                assert(has_install(self.queue_entries(), install_id@));
                return true;
            }
            i = i + 1;
        }
        let mut k: usize = 0;
        while k < self.active.len()
            invariant
                k <= self.active@.len(),
                forall|j: int| 0 <= j < k ==> #[trigger] self.active@[j].view.install_id@ != install_id@,
            decreases self.active.len() - k,
        {
            if self.active[k].view.install_id == install_id {
                assert(has_install(self.active_entries(), install_id@));
                return true;
            }
            k = k + 1;
        }
        let found = find_install(&self.paused_jobs, &install_id).is_some();
        found
    }

    /// A snapshot of the queue: its settings, the shown form of every
    /// running, waiting, finished and paused job, and the installs being paused.
    pub fn get_state(&self) -> (p: QueueStatePayload)
        ensures
            p.max_concurrent == self.max_jobs(),
            p.paused == self.is_paused(),
            p.auto_paused == self.is_auto_paused_now(),
            p.running@ == views_of(self.active_entries()),
            p.queued@ == views_of(self.queue_entries()),
            p.completed@ == self.history(),
            p.paused_jobs@ == views_of(self.paused_entries()),
            p.pausing_installs@ == self.pausing(),
    {
        QueueStatePayload {
            max_concurrent: self.max_concurrent,
            paused: self.paused,
            auto_paused: self.auto_paused,
            running: copy_views(&self.active),
            queued: copy_queued_views(&self.queued),
            completed: copy_history(&self.completed),
            paused_jobs: copy_views(&self.paused_jobs),
            pausing_installs: copy_strings(&self.pausing_installs),
        }
    }
}


proof fn lemma_distinct_installs_update(s: Seq<QueueEntry>, k: int, e: QueueEntry)
    requires
        distinct_installs(s),
        0 <= k < s.len(),
        e.view.install_id@ == s[k].view.install_id@,
    ensures
        distinct_installs(s.update(k, e)),
{
    let t = s.update(k, e);
    assert forall|i: int, j: int| #![trigger t[i], t[j]] 0 <= i < j < t.len() implies t[i].view.install_id@
        != t[j].view.install_id@ by {
        assert(s[i].view.install_id@ != s[j].view.install_id@);
    }
}

proof fn lemma_distinct_installs_push(s: Seq<QueueEntry>, e: QueueEntry)
    requires
        distinct_installs(s),
        install_index(s, e.view.install_id@) == -1,
    ensures
        distinct_installs(s.push(e)),
{
    lemma_install_index(s, e.view.install_id@);
    let t = s.push(e);
    assert forall|i: int, j: int| #![trigger t[i], t[j]] 0 <= i < j < t.len() implies t[i].view.install_id@
        != t[j].view.install_id@ by {
        assert(t[i] == s[i]);
        if j == s.len() {
            assert(s[i].view.install_id@ != e.view.install_id@);
        } else {
            assert(t[j] == s[j]);
        }
    }
}

proof fn lemma_distinct_ids_update(s: Seq<QueueEntry>, k: int, e: QueueEntry)
    requires
        distinct_job_ids(s),
        0 <= k < s.len(),
        e.job.id@ == s[k].job.id@,
    ensures
        distinct_job_ids(s.update(k, e)),
{
    let t = s.update(k, e);
    assert forall|i: int, j: int| #![trigger t[i], t[j]] 0 <= i < j < t.len() implies t[i].job.id@
        != t[j].job.id@ by {
        assert(s[i].job.id@ != s[j].job.id@);
    }
}

proof fn lemma_distinct_ids_push(s: Seq<QueueEntry>, e: QueueEntry)
    requires
        distinct_job_ids(s),
        job_index(s, e.job.id@) == -1,
    ensures
        distinct_job_ids(s.push(e)),
{
    lemma_job_index(s, e.job.id@);
    let t = s.push(e);
    assert forall|i: int, j: int| #![trigger t[i], t[j]] 0 <= i < j < t.len() implies t[i].job.id@
        != t[j].job.id@ by {
        assert(t[i] == s[i]);
        if j == s.len() {
            assert(s[i].job.id@ != e.job.id@);
        } else {
            assert(t[j] == s[j]);
        }
    }
}

proof fn lemma_shown_update(s: Seq<QueueEntry>, k: int, e: QueueEntry)
    requires
        shown_as_payload(s),
        0 <= k < s.len(),
        e.view.install_id@ == payload_id(e.job.payload),
        e.view.id@ == e.job.id@,
    ensures
        shown_as_payload(s.update(k, e)),
{
    let t = s.update(k, e);
    assert forall|i: int| 0 <= i < t.len() implies (#[trigger] t[i]).view.install_id@ == payload_id(
        t[i].job.payload,
    ) by {
        if i != k {
            assert(t[i] == s[i]);
        }
    }
}

/// Some view of `c` is of install `id`.
pub open spec fn views_have_install(c: Seq<QueueJobView>, id: Seq<char>) -> bool {
    exists|j: int| 0 <= j < c.len() && #[trigger] c[j].install_id@ == id
}

proof fn lemma_ids_of_payloads_nonempty(q: Seq<QueueEntry>, x: Seq<char>)
    requires
        shown_as_payload(q),
    ensures
        (ids_of_payloads(q, x).len() > 0) == has_install(q, x),
    decreases q.len(),
{
    if q.len() > 0 {
        let d = q.drop_last();
        assert(shown_as_payload(d)) by {
            assert forall|i: int| 0 <= i < d.len() implies (#[trigger] d[i]).view.install_id@ == payload_id(d[i].job.payload) by {
                assert(d[i] == q[i]);
            }
        }
        lemma_ids_of_payloads_nonempty(d, x);
        assert(q.last() == q[q.len() - 1]);
        if has_install(d, x) {
            let i = choose|i: int| 0 <= i < d.len() && #[trigger] d[i].view.install_id@ == x;
            assert(q[i] == d[i]);
        }
        if has_install(q, x) && !has_install(d, x) {
            let i = choose|i: int| 0 <= i < q.len() && #[trigger] q[i].view.install_id@ == x;
            if i < q.len() - 1 {
                assert(d[i] == q[i]);
            }
        }
    }
}

proof fn lemma_ids_of_installs_nonempty(q: Seq<QueueEntry>, x: Seq<char>)
    ensures
        (ids_of_installs(q, x).len() > 0) == has_install(q, x),
    decreases q.len(),
{
    if q.len() > 0 {
        let d = q.drop_last();
        lemma_ids_of_installs_nonempty(d, x);
        assert(q.last() == q[q.len() - 1]);
        if has_install(d, x) {
            let i = choose|i: int| 0 <= i < d.len() && #[trigger] d[i].view.install_id@ == x;
            assert(q[i] == d[i]);
        }
        if has_install(q, x) && !has_install(d, x) {
            let i = choose|i: int| 0 <= i < q.len() && #[trigger] q[i].view.install_id@ == x;
            if i < q.len() - 1 {
                assert(d[i] == q[i]);
            }
        }
    }
}

proof fn lemma_ids_of_views_nonempty(c: Seq<QueueJobView>, x: Seq<char>)
    ensures
        (ids_of_views(c, x).len() > 0) == views_have_install(c, x),
    decreases c.len(),
{
    if c.len() > 0 {
        let d = c.drop_last();
        lemma_ids_of_views_nonempty(d, x);
        assert(c.last() == c[c.len() - 1]);
        if views_have_install(d, x) {
            let i = choose|i: int| 0 <= i < d.len() && #[trigger] d[i].install_id@ == x;
            assert(c[i] == d[i]);
        }
        if views_have_install(c, x) && !views_have_install(d, x) {
            let i = choose|i: int| 0 <= i < c.len() && #[trigger] c[i].install_id@ == x;
            if i < c.len() - 1 {
                assert(d[i] == c[i]);
            }
        }
    }
}

impl DownloadQueueHandle {
    /// Takes every job of install `install_id` out of the queue: the waiting
    /// ones, the paused one, the finished ones in the history and the running
    /// ones. Returns the ids of the jobs taken out, in that order (each is
    /// announced as removed).
    pub fn remove_jobs_of_install(&mut self, install_id: String) -> (removed: Vec<String>)
        requires
            old(self).wf(),
        ensures
            final(self).wf(),
            Self::same_settings(*old(self), *final(self)),
            final(self).pausing() == old(self).pausing(),
            final(self).queue_entries() == keep_other_payloads(old(self).queue_entries(), install_id@),
            final(self).active_entries() == keep_other_installs(old(self).active_entries(), install_id@),
            final(self).history() == keep_other_views(old(self).history(), install_id@),
            ({
                let p = old(self).paused_entries();
                let k = install_index(p, install_id@);
                &&& final(self).paused_entries() == if k >= 0 { p.remove(k) } else { p }
                &&& removed@ == ids_of_payloads(old(self).queue_entries(), install_id@) + (if k >= 0 {
                    seq![p[k].view.id]
                } else {
                    Seq::<String>::empty()
                }) + ids_of_views(old(self).history(), install_id@) + ids_of_installs(
                    old(self).active_entries(),
                    install_id@,
                )
            }),
    {
        let ghost q = self.queued@;
        let ghost a = self.active@;
        let ghost c = self.completed@;
        let ghost p = self.paused_jobs@;
        let ghost before = *self;
        // Waiting jobs.
        let mut removed: Vec<String> = Vec::new();
        let mut kept: VecDeque<QueueEntry> = VecDeque::new();
        let mut i: usize = 0;
        while i < self.queued.len()
            invariant
                self.queued@ == q,
                i <= q.len(),
                kept@ == keep_other_payloads(q.take(i as int), install_id@),
                removed@ == ids_of_payloads(q.take(i as int), install_id@),
            decreases q.len() - i,
        {
            proof {
                assert(q.take(i + 1).drop_last() =~= q.take(i as int));
            }
            let pid = self.queued[i].job.payload.get_id();
            if pid == install_id {
                removed.push(self.queued[i].job.id.clone());
            } else {
                kept.push_back(self.queued[i].clone());
            }
            i = i + 1;
        }
        proof {
            assert(q.take(q.len() as int) =~= q);
            lemma_shown_keep_payloads(q, install_id@);
            lemma_keep_payloads(q, install_id@);
            lemma_status_of_contained(q, keep_other_payloads(q, install_id@), QueueJobStatus::Queued);
        }
        self.queued = kept;
        // The paused job.
        let mut from_paused: Vec<String> = Vec::new();
        proof {
            lemma_install_index(p, install_id@);
        }
        match find_install(&self.paused_jobs, &install_id) {
            Some(k) => {
                proof {
                    lemma_distinct_installs_remove(p, k as int);
                    lemma_shown_remove(p, k as int);
                    lemma_count_remove(p, k as int);
                }
                let e = self.paused_jobs.remove(k);
                proof {
                    let t = p.remove(k as int);
                    assert forall|m: int| 0 <= m < t.len() implies (#[trigger] t[m]).view.status == QueueJobStatus::Paused by {
                        if m < k {
                            assert(t[m] == p[m]);
                        } else {
                            assert(t[m] == p[m + 1]);
                        }
                    }
                }
                from_paused.push(e.view.id);
            },
            None => {},
        }
        // The history.
        let mut from_history: Vec<String> = Vec::new();
        let mut kept_views: VecDeque<QueueJobView> = VecDeque::new();
        let mut j: usize = 0;
        while j < self.completed.len()
            invariant
                self.completed@ == c,
                j <= c.len(),
                kept_views@ == keep_other_views(c.take(j as int), install_id@),
                from_history@ == ids_of_views(c.take(j as int), install_id@),
            decreases c.len() - j,
        {
            proof {
                assert(c.take(j + 1).drop_last() =~= c.take(j as int));
            }
            if self.completed[j].install_id == install_id {
                from_history.push(self.completed[j].id.clone());
            } else {
                kept_views.push_back(self.completed[j].clone());
            }
            j = j + 1;
        }
        proof {
            assert(c.take(c.len() as int) =~= c);
            lemma_keep_views(c, install_id@);
        }
        self.completed = kept_views;
        // Running jobs.
        let mut from_active: Vec<String> = Vec::new();
        let mut kept_active: Vec<QueueEntry> = Vec::new();
        let mut m: usize = 0;
        while m < self.active.len()
            invariant
                self.active@ == a,
                m <= a.len(),
                kept_active@ == keep_other_installs(a.take(m as int), install_id@),
                from_active@ == ids_of_installs(a.take(m as int), install_id@),
            decreases a.len() - m,
        {
            proof {
                assert(a.take(m + 1).drop_last() =~= a.take(m as int));
            }
            if self.active[m].view.install_id == install_id {
                from_active.push(self.active[m].job.id.clone());
            } else {
                kept_active.push(self.active[m].clone());
            }
            m = m + 1;
        }
        proof {
            assert(a.take(a.len() as int) =~= a);
            lemma_keep_installs(a, install_id@);
            lemma_shown_keep_installs(a, install_id@);
            lemma_status_of_contained(a, keep_other_installs(a, install_id@), QueueJobStatus::Running);
        }
        self.active = kept_active;
        proof {
            lemma_count_keep_payloads(q, install_id@);
            lemma_count_keep_installs(a, install_id@);
            Self::lemma_ids_kept(before, *self);
        }
        removed.append(&mut from_paused);
        removed.append(&mut from_history);
        removed.append(&mut from_active);
        removed
    }

    /// Takes every job of install `install_id` out of the queue, as
    /// `remove_jobs_of_install` does; true exactly when some job of the
    /// install was waiting, running, paused or in the history.
    pub fn remove_by_install_id(&mut self, install_id: String) -> (r: bool)
        requires
            old(self).wf(),
        ensures
            final(self).wf(),
            r == (old(self).has_job_spec(install_id@) || views_have_install(old(self).history(), install_id@)),
            Self::same_settings(*old(self), *final(self)),
            final(self).pausing() == old(self).pausing(),
            final(self).queue_entries() == keep_other_payloads(old(self).queue_entries(), install_id@),
            final(self).active_entries() == keep_other_installs(old(self).active_entries(), install_id@),
            final(self).history() == keep_other_views(old(self).history(), install_id@),
            ({
                let p = old(self).paused_entries();
                let k = install_index(p, install_id@);
                final(self).paused_entries() == if k >= 0 { p.remove(k) } else { p }
            }),
    {
        proof {
            lemma_ids_of_payloads_nonempty(self.queue_entries(), install_id@);
            lemma_ids_of_installs_nonempty(self.active_entries(), install_id@);
            lemma_ids_of_views_nonempty(self.history(), install_id@);
            lemma_install_index(self.paused_entries(), install_id@);
        }
        let removed = self.remove_jobs_of_install(install_id);
        removed.len() > 0
    }

    /// Brings the waiting job `job_id` to the front and unpauses the queue:
    /// the paused jobs first go back to the end of the queue as waiting jobs,
    /// and the queue remembers that a job is being activated. Returns the
    /// job's install, or nothing (and changes nothing) when no such job waits.
    pub fn activate_job(&mut self, job_id: String) -> (r: Option<String>)
        requires
            old(self).wf(),
        ensures
            final(self).wf(),
            ({
                let q = old(self).queue_entries();
                let i = job_index(q, job_id@);
                let grown = q + all_with_status(old(self).paused_entries(), QueueJobStatus::Queued);
                &&& r is Some == (i >= 0)
                &&& r is None ==> *final(self) == *old(self)
                &&& r matches Some(s) ==> {
                    &&& s@ == q[i].view.install_id@
                    &&& final(self).queue_entries() == seq![q[i]] + grown.remove(i)
                    &&& final(self).paused_entries().len() == 0
                    &&& final(self).is_activating()
                    &&& !final(self).is_paused()
                    &&& final(self).is_auto_paused_now() == old(self).is_auto_paused_now()
                    &&& final(self).max_jobs() == old(self).max_jobs()
                    &&& final(self).job_counter() == old(self).job_counter()
                    &&& final(self).active_entries() == old(self).active_entries()
                    &&& final(self).history() == old(self).history()
                    &&& final(self).pausing() == old(self).pausing()
                }
            }),
    {
        let ghost q = self.queued@;
        let ghost p = self.paused_jobs@;
        let ghost before = *self;
        proof {
            lemma_job_index(q, job_id@);
        }
        match find_queued(&self.queued, &job_id) {
            None => None,
            Some(i) => {
                let mut moved: Vec<QueueEntry> = Vec::new();
                std::mem::swap(&mut moved, &mut self.paused_jobs);
                let mut j: usize = 0;
                while j < moved.len()
                    invariant
                        moved@ == p,
                        j <= p.len(),
                        self.paused_jobs@.len() == 0,
                        self.active@ == old(self).active@,
                        self.completed@ == old(self).completed@,
                        self.pausing_installs@ == old(self).pausing_installs@,
                        self.max_concurrent == old(self).max_concurrent,
                        self.paused == old(self).paused,
                        self.auto_paused == old(self).auto_paused,
                        self.activating == old(self).activating,
                        self.next_job == old(self).next_job,
                        self.wrapped == old(self).wrapped,
                        0 <= i < q.len(),
                        q == old(self).queued@,
                        p == old(self).paused_jobs@,
                        self.queued@ == q + all_with_status(p.take(j as int), QueueJobStatus::Queued),
                        shown_as_payload(self.queued@),
                        shown_as_payload(p),
                        all_have_status(self.queued@, QueueJobStatus::Queued),
                    decreases p.len() - j,
                {
                    let mut e = moved[j].clone();
                    e.view.status = QueueJobStatus::Queued;
                    proof {
                        assert(p.take(j + 1).drop_last() =~= p.take(j as int));
                        assert(p[j as int].view.install_id@ == payload_id(p[j as int].job.payload));
                        lemma_shown_push(self.queued@, e);
                    }
                    self.queued.push_back(e);
                    j = j + 1;
                    assert(self.queued@ =~= q + all_with_status(p.take(j as int), QueueJobStatus::Queued));
                }
                proof {
                    assert(p.take(p.len() as int) =~= p);
                }
                let ghost grown = self.queued@;
                let e = self.queued.remove(i).unwrap();
                let install = e.view.install_id.clone();
                proof {
                    assert(grown[i as int] == q[i as int]);
                    lemma_shown_remove(grown, i as int);
                    lemma_shown_insert(grown.remove(i as int), 0, q[i as int]);
                }
                self.queued.insert(0, e);
                assert(self.queued@ =~= seq![q[i as int]] + grown.remove(i as int));
                proof {
                    let n = self.queued@;
                    assert forall|m: int| 0 <= m < n.len() implies (#[trigger] n[m]).view.status == QueueJobStatus::Queued by {
                        if m == 0 {
                            assert(n[m] == grown[i as int]);
                        } else if m - 1 < i {
                            assert(n[m] == grown[m - 1]);
                        } else {
                            assert(n[m] == grown[m]);
                        }
                    }
                }
                self.activating = true;
                self.paused = false;
                proof {
                    lemma_count_front(q[i as int], grown.remove(i as int));
                    lemma_count_remove(grown, i as int);
                    lemma_count_with_status(p, QueueJobStatus::Queued);
                    assert forall|x: Seq<char>| #[trigger] id_count(grown, x) == id_count(q, x) + id_count(p, x) by {
                        lemma_count_concat(q, all_with_status(p, QueueJobStatus::Queued), x);
                    }
                    assert(self.paused_jobs@.len() == 0);
                    Self::lemma_ids_kept(before, *self);
                }
                Some(install)
            },
        }
    }

    /// Puts the paused job of install `install_id` back at the front of the
    /// queue and unpauses the queue. Refused (false, nothing changes) when the
    /// install has no paused job.
    pub fn resume_job(&mut self, install_id: String) -> (r: bool)
        requires
            old(self).wf(),
        ensures
            final(self).wf(),
            ({
                let p = old(self).paused_entries();
                let k = install_index(p, install_id@);
                &&& r == (k >= 0)
                &&& !r ==> *final(self) == *old(self)
                &&& r ==> {
                    &&& final(self).queue_entries() == seq![with_status(p[k], QueueJobStatus::Queued)]
                        + old(self).queue_entries()
                    &&& final(self).paused_entries() == p.remove(k)
                    &&& !final(self).is_paused()
                    &&& final(self).is_auto_paused_now() == old(self).is_auto_paused_now()
                    &&& final(self).is_activating() == old(self).is_activating()
                    &&& final(self).max_jobs() == old(self).max_jobs()
                    &&& final(self).job_counter() == old(self).job_counter()
                    &&& final(self).active_entries() == old(self).active_entries()
                    &&& final(self).history() == old(self).history()
                    &&& final(self).pausing() == old(self).pausing()
                }
            }),
    {
        let ghost p = self.paused_jobs@;
        let ghost q = self.queued@;
        let ghost before = *self;
        proof {
            lemma_install_index(p, install_id@);
        }
        match find_install(&self.paused_jobs, &install_id) {
            None => false,
            Some(k) => {
                proof {
                    lemma_distinct_installs_remove(p, k as int);
                    lemma_shown_remove(p, k as int);
                }
                let mut e = self.paused_jobs.remove(k);
                e.view.status = QueueJobStatus::Queued;
                proof {
                    assert(p[k as int].view.install_id@ == payload_id(p[k as int].job.payload));
                    lemma_shown_insert(q, 0, e);
                }
                self.queued.insert(0, e);
                assert(self.queued@ =~= seq![with_status(p[k as int], QueueJobStatus::Queued)] + q);
                self.paused = false;
                proof {
                    lemma_count_front(with_status(p[k as int], QueueJobStatus::Queued), q);
                    lemma_count_remove(p, k as int);
                    Self::lemma_ids_kept(before, *self);
                }
                true
            },
        }
    }

    /// Records how the running job `job_id` ended. A completed or failed job
    /// goes to the front of the history, which keeps the most recent
    /// `HISTORY_LIMIT`. A cancelled job goes back to the second place of the
    /// queue while a job is being activated; otherwise it becomes the paused
    /// job of its install, its install is no longer being paused, and the
    /// queue pauses. Nothing changes when no such job runs.
    pub fn job_finished(&mut self, job_id: String, outcome: QueueJobOutcome)
        requires
            old(self).wf(),
        ensures
            final(self).wf(),
            ({
                let a = old(self).active_entries();
                let i = job_index(a, job_id@);
                let e = a[i];
                let q = old(self).queue_entries();
                let p = old(self).paused_entries();
                let t = text_index(old(self).pausing(), e.view.install_id@);
                let k = install_index(p, e.view.install_id@);
                &&& i < 0 ==> *final(self) == *old(self)
                &&& i >= 0 ==> {
                    &&& final(self).active_entries() == a.remove(i)
                    &&& final(self).max_jobs() == old(self).max_jobs()
                    &&& final(self).is_auto_paused_now() == old(self).is_auto_paused_now()
                    &&& final(self).is_activating() == old(self).is_activating()
                    &&& final(self).job_counter() == old(self).job_counter()
                    &&& match outcome {
                        QueueJobOutcome::Completed => {
                            &&& final(self).history() == history_after(
                                old(self).history(),
                                with_status(e, QueueJobStatus::Completed).view,
                            )
                            &&& final(self).queue_entries() == q
                            &&& final(self).paused_entries() == p
                            &&& final(self).pausing() == old(self).pausing()
                            &&& final(self).is_paused() == old(self).is_paused()
                        },
                        QueueJobOutcome::Failed => {
                            &&& final(self).history() == history_after(
                                old(self).history(),
                                with_status(e, QueueJobStatus::Failed).view,
                            )
                            &&& final(self).queue_entries() == q
                            &&& final(self).paused_entries() == p
                            &&& final(self).pausing() == old(self).pausing()
                            &&& final(self).is_paused() == old(self).is_paused()
                        },
                        QueueJobOutcome::Cancelled => {
                            &&& final(self).history() == old(self).history()
                            &&& old(self).is_activating() ==> {
                                &&& final(self).queue_entries() == q.insert(
                                    if q.len() < 1 { q.len() as int } else { 1 },
                                    with_status(e, QueueJobStatus::Queued),
                                )
                                &&& final(self).paused_entries() == p
                                &&& final(self).pausing() == old(self).pausing()
                                &&& final(self).is_paused() == old(self).is_paused()
                            }
                            &&& !old(self).is_activating() ==> {
                                &&& final(self).queue_entries() == q
                                &&& final(self).is_paused()
                                &&& final(self).pausing() == if t >= 0 {
                                    old(self).pausing().remove(t)
                                } else {
                                    old(self).pausing()
                                }
                                &&& final(self).paused_entries() == if k >= 0 {
                                    p.update(k, with_status(e, QueueJobStatus::Paused))
                                } else {
                                    p.push(with_status(e, QueueJobStatus::Paused))
                                }
                            }
                        },
                    }
                }
            }),
    {
        let ghost a = self.active@;
        let ghost q = self.queued@;
        let ghost p = self.paused_jobs@;
        let ghost c = self.completed@;
        let ghost pz = self.pausing_installs@;
        let ghost before = *self;
        proof {
            lemma_job_index(a, job_id@);
        }
        let i = match find_job(&self.active, &job_id) {
            None => {
                return ;
            },
            Some(i) => i,
        };
        proof {
            lemma_distinct_ids_remove(a, i as int);
            lemma_shown_remove(a, i as int);
            assert(a[i as int].view.install_id@ == payload_id(a[i as int].job.payload));
        }
        let mut e = self.active.remove(i);
        match outcome {
            QueueJobOutcome::Completed => {
                e.view.status = QueueJobStatus::Completed;
                self.completed.insert(0, e.view);
                if self.completed.len() > HISTORY_LIMIT {
                    self.completed.truncate(HISTORY_LIMIT);
                }
                assert(self.completed@ =~= history_after(c, with_status(a[i as int], QueueJobStatus::Completed).view));
                proof {
                    lemma_history_after_finished(c, with_status(a[i as int], QueueJobStatus::Completed).view);
                }
            },
            QueueJobOutcome::Failed => {
                e.view.status = QueueJobStatus::Failed;
                self.completed.insert(0, e.view);
                if self.completed.len() > HISTORY_LIMIT {
                    self.completed.truncate(HISTORY_LIMIT);
                }
                assert(self.completed@ =~= history_after(c, with_status(a[i as int], QueueJobStatus::Failed).view));
                proof {
                    lemma_history_after_finished(c, with_status(a[i as int], QueueJobStatus::Failed).view);
                }
            },
            QueueJobOutcome::Cancelled => {
                if self.activating {
                    e.view.status = QueueJobStatus::Queued;
                    let pos: usize = if self.queued.len() < 1 { self.queued.len() } else { 1 };
                    proof {
                        lemma_shown_insert(q, pos as int, e);
                        lemma_count_insert(q, pos as int, e);
                    }
                    self.queued.insert(pos, e);
                } else {
                    self.paused = true;
                    e.view.status = QueueJobStatus::Paused;
                    let install = e.view.install_id.clone();
                    proof {
                        lemma_text_index(pz, install@);
                        lemma_install_index(p, install@);
                    }
                    match find_text(&self.pausing_installs, &install) {
                        Some(t) => {
                            proof {
                                lemma_distinct_texts_remove(pz, t as int);
                            }
                            self.pausing_installs.remove(t);
                        },
                        None => {},
                    }
                    match find_install(&self.paused_jobs, &install) {
                        Some(k) => {
                            proof {
                                lemma_distinct_installs_update(p, k as int, e);
                                lemma_shown_update(p, k as int, e);
                                lemma_count_update(p, k as int, e);
                            }
                            self.paused_jobs.set(k, e);
                        },
                        None => {
                            proof {
                                lemma_distinct_installs_push(p, e);
                                lemma_shown_push(p, e);
                                lemma_count_push(p, e);
                            }
                            self.paused_jobs.push(e);
                        },
                    }
                }
            },
        }
        proof {
            lemma_count_remove(a, i as int);
            Self::lemma_ids_kept(before, *self);
        }
    }

    /// Starts the job at the front of the queue, unless the queue is paused,
    /// as many jobs run as may, or none waits. The started job is shown as
    /// running and the activation in progress, if any, is over. Returns the
    /// job to run.
    pub fn start_next_job(&mut self) -> (r: Option<QueueJob>)
        requires
            old(self).wf(),
        ensures
            final(self).wf(),
            ({
                let q = old(self).queue_entries();
                let a = old(self).active_entries();
                let can = !old(self).is_paused() && a.len() < old(self).max_jobs() && q.len() > 0;
                let e = with_status(q[0], QueueJobStatus::Running);
                let k = job_index(a, q[0].job.id@);
                &&& r is Some == can
                &&& !can ==> *final(self) == *old(self)
                &&& can ==> {
                    &&& r == Some(q[0].job)
                    &&& final(self).queue_entries() == q.drop_first()
                    &&& final(self).active_entries() == if k >= 0 {
                        a.update(k, e)
                    } else {
                        a.push(e)
                    }
                    &&& !final(self).is_activating()
                    &&& final(self).is_paused() == old(self).is_paused()
                    &&& final(self).is_auto_paused_now() == old(self).is_auto_paused_now()
                    &&& final(self).max_jobs() == old(self).max_jobs()
                    &&& final(self).job_counter() == old(self).job_counter()
                    &&& final(self).history() == old(self).history()
                    &&& final(self).paused_entries() == old(self).paused_entries()
                    &&& final(self).pausing() == old(self).pausing()
                }
            }),
    {
        if self.paused || self.active.len() >= self.max_concurrent || self.queued.len() == 0 {
            return None;
        }
        let ghost q = self.queued@;
        let ghost a = self.active@;
        let ghost before = *self;
        proof {
            lemma_count_remove(q, 0);
            lemma_shown_remove(q, 0);
            assert(q.remove(0) =~= q.drop_first());
            assert(q[0].view.install_id@ == payload_id(q[0].job.payload));
        }
        let mut e = self.queued.remove(0).unwrap();
        e.view.status = QueueJobStatus::Running;
        let job = e.job.clone();
        proof {
            lemma_job_index(a, e.job.id@);
        }
        match find_job(&self.active, &e.job.id) {
            Some(k) => {
                proof {
                    lemma_distinct_ids_update(a, k as int, e);
                    lemma_shown_update(a, k as int, e);
                    lemma_count_update(a, k as int, e);
                }
                self.active.set(k, e);
            },
            None => {
                proof {
                    lemma_distinct_ids_push(a, e);
                    lemma_shown_push(a, e);
                    lemma_count_push(a, e);
                }
                self.active.push(e);
            },
        }
        self.activating = false;
        proof {
            Self::lemma_ids_kept(before, *self);
        }
        Some(job)
    }
}

} // verus!
