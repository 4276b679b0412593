//! Properties of the download queue that span several of its commands.

use vstd::prelude::*;
use crate::payload::payload_id;
use crate::queue::{
    DownloadQueueHandle, QueueEntry, QueueJob, QueueJobStatus, QueueJobView, HISTORY_LIMIT,
    all_with_status, counter_after, distinct_installs, fresh_view, has_install, install_index,
    job_id_for, job_index, keep_other_installs, keep_other_payloads, keep_other_views,
    lemma_install_index, lemma_job_index, shown_as_payload, with_status, views_of, id_count,
    lemma_views_of, lemma_count_concat, lemma_counted_once_distinct, distinct_job_ids,
};
use crate::text::decimal;

verus! {

/// Moving a job up and then down again restores the queue: after a
/// successful `move_up`, the job is found one place earlier, `move_down`
/// succeeds for it, and its swap gives back the order the queue had.
#[verifier::spinoff_prover]
pub proof fn law_move_up_then_down(q: Seq<QueueEntry>, id: Seq<char>)
    requires
        job_index(q, id) > 0,
    ensures
        ({
            let i = job_index(q, id);
            let q1 = q.update(i - 1, q[i]).update(i, q[i - 1]);
            let j = job_index(q1, id);
            &&& j == i - 1
            &&& 0 <= j && j + 1 < q1.len()
            &&& q1.update(j + 1, q1[j]).update(j, q1[j + 1]) == q
        }),
{
    let i = job_index(q, id);
    lemma_job_index(q, id);
    let q1 = q.update(i - 1, q[i]).update(i, q[i - 1]);
    lemma_job_index(q1, id);
    let j = job_index(q1, id);
    assert(q1[i - 1] == q[i]);
    if j < i - 1 {
        assert(q1[j] == q[j]);
    }
    if j < 0 || j > i - 1 {
        assert(q1[i - 1].job.id@ != id);
    }
    assert(j == i - 1);
    assert(q1[i] == q[i - 1]);
    assert(q1.update(j + 1, q1[j]).update(j, q1[j + 1]) =~= q);
}

/// Reordering a job keeps the same jobs: the queue after `reorder` is a
/// permutation of the queue before.
pub proof fn law_reorder_permutes(q: Seq<QueueEntry>, i: int, pos: int)
    requires
        0 <= i < q.len(),
        0 <= pos <= q.len() - 1,
    ensures
        q.remove(i).insert(pos, q[i]).to_multiset() == q.to_multiset(),
        q.remove(i).insert(pos, q[i]).len() == q.len(),
{
    broadcast use vstd::seq_lib::group_to_multiset_ensures;
    let r = q.remove(i);
    assert(r.to_multiset() == q.to_multiset().remove(q[i])) by {
        vstd::seq_lib::to_multiset_remove(q, i);
    }
    vstd::seq_lib::to_multiset_insert(r, pos, q[i]);
    assert(q.to_multiset().contains(q[i]));
    assert(q.to_multiset().remove(q[i]).insert(q[i]) =~= q.to_multiset());
}

/// A job that was just queued is found by `has_job_for_id` under its
/// payload's install.
pub proof fn law_enqueued_job_is_found(a: DownloadQueueHandle, b: DownloadQueueHandle, job: QueueJob, name: Seq<char>)
    requires
        b.queue_entries().len() == a.queue_entries().len() + 1,
        b.queue_entries().last().job == job,
        fresh_view(b.queue_entries().last().view, job, name),
    ensures
        b.has_job_spec(payload_id(job.payload)),
{
    let k = b.queue_entries().len() - 1;
    assert(b.queue_entries()[k].view.install_id@ == payload_id(job.payload));
}

/// After `remove_by_install_id(x)` (or `remove_jobs_of_install(x)`), no job of install `x` is waiting,
/// running or paused any more, and the history holds none of its jobs.
pub proof fn law_removed_install_has_no_jobs(a: DownloadQueueHandle, b: DownloadQueueHandle, x: Seq<char>)
    requires
        a.wf(),
        b.queue_entries() == keep_other_payloads(a.queue_entries(), x),
        b.active_entries() == keep_other_installs(a.active_entries(), x),
        b.history() == keep_other_views(a.history(), x),
        ({
            let p = a.paused_entries();
            let k = install_index(p, x);
            b.paused_entries() == if k >= 0 { p.remove(k) } else { p }
        }),
    ensures
        !b.has_job_spec(x),
        forall|j: int| 0 <= j < b.history().len() ==> (#[trigger] b.history()[j]).install_id@ != x,
{
    lemma_keep_payloads_no_install(a.queue_entries(), x);
    lemma_keep_installs_no_install(a.active_entries(), x);
    lemma_keep_views_no_install(a.history(), x);
    let p = a.paused_entries();
    lemma_install_index(p, x);
    let k = install_index(p, x);
    if k >= 0 {
        let t = p.remove(k);
        assert forall|j: int| 0 <= j < t.len() implies #[trigger] t[j].view.install_id@ != x by {
            let m = if j < k { j } else { j + 1 };
            assert(t[j] == p[m]);
            if m < k {
                assert(p[m].view.install_id@ != p[k].view.install_id@);
            } else {
                assert(p[k].view.install_id@ != p[m].view.install_id@);
            }
        }
        lemma_install_index(t, x);
    } else {
        lemma_install_index(p, x);
    }
}

proof fn lemma_keep_payloads_no_install(q: Seq<QueueEntry>, x: Seq<char>)
    requires
        shown_as_payload(q),
    ensures
        !has_install(keep_other_payloads(q, x), x),
    decreases q.len(),
{
    if q.len() > 0 {
        let p = q.drop_last();
        assert(shown_as_payload(p)) by {
            assert forall|i: int| 0 <= i < p.len() implies (#[trigger] p[i]).view.install_id@ == payload_id(
                p[i].job.payload,
            ) by {
                assert(p[i] == q[i]);
            }
        }
        lemma_keep_payloads_no_install(p, x);
        let r = keep_other_payloads(q, x);
        if payload_id(q.last().job.payload) != x {
            assert(q[q.len() - 1] == q.last());
            assert forall|i: int| 0 <= i < r.len() implies #[trigger] r[i].view.install_id@ != x by {
                if i < r.len() - 1 {
                    assert(r[i] == keep_other_payloads(p, x)[i]);
                }
            }
        }
    }
}

proof fn lemma_keep_installs_no_install(q: Seq<QueueEntry>, x: Seq<char>)
    ensures
        !has_install(keep_other_installs(q, x), x),
    decreases q.len(),
{
    if q.len() > 0 {
        let p = q.drop_last();
        lemma_keep_installs_no_install(p, x);
        let r = keep_other_installs(q, x);
        if q.last().view.install_id@ != x {
            assert forall|i: int| 0 <= i < r.len() implies #[trigger] r[i].view.install_id@ != x by {
                if i < r.len() - 1 {
                    assert(r[i] == keep_other_installs(p, x)[i]);
                }
            }
        }
    }
}

proof fn lemma_keep_views_no_install(c: Seq<QueueJobView>, x: Seq<char>)
    ensures
        forall|j: int| 0 <= j < keep_other_views(c, x).len() ==> (#[trigger] keep_other_views(c, x)[j]).install_id@ != x,
    decreases c.len(),
{
    if c.len() > 0 {
        let p = c.drop_last();
        lemma_keep_views_no_install(p, x);
        let r = keep_other_views(c, x);
        if c.last().install_id@ != x {
            assert forall|i: int| 0 <= i < r.len() implies (#[trigger] r[i]).install_id@ != x by {
                if i < r.len() - 1 {
                    assert(r[i] == keep_other_views(p, x)[i]);
                }
            }
        }
    }
}

/// What a snapshot of any state the queue can reach shows (`get_state` gives
/// these views): at least one job may run and no more jobs run than may; the
/// history holds at most `HISTORY_LIMIT` jobs, each completed or failed;
/// every waiting job is shown as waiting, every running one as running and
/// every paused one as paused; and, until the job counter has wrapped around
/// (after 2^64 jobs), no job id is shown twice among the waiting, running and
/// paused jobs.
pub proof fn law_snapshot_consistent(q: DownloadQueueHandle)
    requires
        q.wf(),
    ensures
        q.max_jobs() >= 1,
        views_of(q.active_entries()).len() <= q.max_jobs(),
        q.history().len() <= HISTORY_LIMIT,
        forall|i: int|
            0 <= i < q.history().len() ==> (#[trigger] q.history()[i]).status == QueueJobStatus::Completed
                || q.history()[i].status == QueueJobStatus::Failed,
        forall|i: int|
            0 <= i < views_of(q.queue_entries()).len() ==> (#[trigger] views_of(q.queue_entries())[i]).status
                == QueueJobStatus::Queued,
        forall|i: int|
            0 <= i < views_of(q.active_entries()).len() ==> (#[trigger] views_of(q.active_entries())[i]).status
                == QueueJobStatus::Running,
        forall|i: int|
            0 <= i < views_of(q.paused_entries()).len() ==> (#[trigger] views_of(q.paused_entries())[i]).status
                == QueueJobStatus::Paused,
        !q.counter_wrapped() ==> distinct_job_ids(q.queue_entries() + q.active_entries() + q.paused_entries()),
        !q.counter_wrapped() ==> ({
            let shown = views_of(q.queue_entries()) + views_of(q.active_entries()) + views_of(q.paused_entries());
            forall|i: int, j: int| #![trigger shown[i], shown[j]] 0 <= i < j < shown.len() ==> shown[i].id@ != shown[j].id@
        }),
{
    let qq = q.queue_entries();
    let aa = q.active_entries();
    let pp = q.paused_entries();
    lemma_views_of(qq);
    lemma_views_of(aa);
    lemma_views_of(pp);
    if !q.counter_wrapped() {
        let all = qq + aa + pp;
        assert forall|x: Seq<char>| #[trigger] id_count(all, x) <= 1 by {
            lemma_count_concat(qq + aa, pp, x);
            lemma_count_concat(qq, aa, x);
            assert(id_count(all, x) == q.job_count(x));
        }
        lemma_counted_once_distinct(all);
        let shown = views_of(qq) + views_of(aa) + views_of(pp);
        assert forall|i: int| 0 <= i < shown.len() implies #[trigger] shown[i] == all[i].view by {
            if i < qq.len() {
                assert(all[i] == qq[i]);
            } else if i < qq.len() + aa.len() {
                assert(all[i] == aa[i - qq.len()]);
            } else {
                assert(all[i] == pp[i - qq.len() - aa.len()]);
            }
        }
        assert forall|i: int| 0 <= i < all.len() implies (#[trigger] all[i]).view.id@ == all[i].job.id@ by {
            if i < qq.len() {
                assert(all[i] == qq[i]);
            } else if i < qq.len() + aa.len() {
                assert(all[i] == aa[i - qq.len()]);
            } else {
                assert(all[i] == pp[i - qq.len() - aa.len()]);
            }
        }
        assert forall|i: int, j: int| #![trigger shown[i], shown[j]] 0 <= i < j < shown.len() implies shown[i].id@
            != shown[j].id@ by {
            assert(all[i].job.id@ != all[j].job.id@);
        }
    }
}

/// A job paused by cancellation (outside an activation) can be resumed: the
/// install's paused entry is then the job, shown as paused, and resuming it
/// puts it at the front of the queue, shown as waiting.
pub proof fn law_cancelled_job_resumes_first(e: QueueEntry, p: Seq<QueueEntry>)
    requires
        distinct_installs(p),
    ensures
        ({
            let k = install_index(p, e.view.install_id@);
            let p1 = if k >= 0 {
                p.update(k, with_status(e, QueueJobStatus::Paused))
            } else {
                p.push(with_status(e, QueueJobStatus::Paused))
            };
            let k1 = install_index(p1, e.view.install_id@);
            &&& k1 >= 0
            &&& p1[k1].job == e.job
            &&& with_status(p1[k1], QueueJobStatus::Queued) == with_status(e, QueueJobStatus::Queued)
        }),
{
    let x = e.view.install_id@;
    lemma_install_index(p, x);
    let k = install_index(p, x);
    let pe = with_status(e, QueueJobStatus::Paused);
    if k >= 0 {
        let p1 = p.update(k, pe);
        lemma_install_index(p1, x);
        let k1 = install_index(p1, x);
        if k1 != k {
            if k1 < 0 || k < k1 {
                assert(p1[k].view.install_id@ != x);
            } else {
                assert(p1[k1] == p[k1]);
            }
        }
    } else {
        let p1 = p.push(pe);
        lemma_install_index(p1, x);
        let k1 = install_index(p1, x);
        if k1 != p.len() {
            if k1 < 0 {
                assert(p1[p.len() as int].view.install_id@ != x);
            } else {
                assert(p1[k1] == p[k1]);
            }
        }
    }
}

/// A pause set by hand survives the connection coming back: when the queue
/// was paused, and not automatically, `auto_pause` changes nothing and the
/// following `auto_resume` leaves it paused. When the queue was running, the
/// two together leave it running again. (`b` is the state after
/// `auto_pause` returned `r1`, `c` the state after `auto_resume` returned `r2`.)
pub proof fn law_auto_pause_respects_manual_pause(
    a: DownloadQueueHandle,
    b: DownloadQueueHandle,
    c: DownloadQueueHandle,
    r1: bool,
    r2: bool,
)
    requires
        r1 == !a.is_paused(),
        b.is_paused(),
        b.is_auto_paused_now() == (r1 || a.is_auto_paused_now()),
        r2 == b.is_auto_paused_now(),
        r2 ==> !c.is_paused() && !c.is_auto_paused_now(),
        !r2 ==> c.is_paused() == b.is_paused() && !c.is_auto_paused_now(),
    ensures
        (a.is_paused() && !a.is_auto_paused_now()) ==> !r1 && !r2 && c.is_paused(),
        !a.is_paused() ==> r1 && r2 && !c.is_paused(),
{
}

/// The job just activated is the next to start: it stands at the front of
/// an unpaused queue.
pub proof fn law_activated_job_starts_next(q: Seq<QueueEntry>, paused: Seq<QueueEntry>, id: Seq<char>)
    requires
        job_index(q, id) >= 0,
    ensures
        ({
            let i = job_index(q, id);
            let grown = q + all_with_status(paused, QueueJobStatus::Queued);
            let q1 = seq![q[i]] + grown.remove(i);
            &&& q1.len() == q.len() + paused.len()
            &&& q1[0] == q[i]
            &&& q1[0].job.id@ == id
        }),
{
    lemma_job_index(q, id);
    lemma_all_with_status_len(paused, QueueJobStatus::Queued);
}

proof fn lemma_all_with_status_len(p: Seq<QueueEntry>, st: QueueJobStatus)
    ensures
        all_with_status(p, st).len() == p.len(),
    decreases p.len(),
{
    if p.len() > 0 {
        lemma_all_with_status_len(p.drop_last(), st);
    }
}

/// Two jobs made one after the other get different ids (the counter is
/// only reused after 2^64 jobs).
pub proof fn law_successive_job_ids_differ(n: u64)
    ensures
        job_id_for(n) != job_id_for(counter_after(n)),
{
    let m = counter_after(n);
    if job_id_for(n) == job_id_for(m) {
        lemma_job_id_injective(n, m);
    }
}

/// Different counter values give different job ids.
pub proof fn lemma_job_id_injective(n: u64, m: u64)
    requires
        job_id_for(n) == job_id_for(m),
    ensures
        n == m,
{
    reveal_strlit("job_");
    assert("job_"@.len() == 4);
    assert(decimal(n as nat) =~= job_id_for(n).skip(4));
    assert(decimal(m as nat) =~= job_id_for(m).skip(4));
    lemma_decimal_injective(n as nat, m as nat);
}

/// Different numbers have different decimal spellings.
pub proof fn lemma_decimal_injective(n: nat, m: nat)
    requires
        decimal(n) == decimal(m),
    ensures
        n == m,
    decreases n,
{
    lemma_decimal_len(n);
    lemma_decimal_len(m);
    if n < 10 && m < 10 {
        assert(decimal(n) == seq![crate::text::digit_char(n)]);
        assert(decimal(m) == seq![crate::text::digit_char(m)]);
        assert(decimal(n)[0] == decimal(m)[0]);
        assert(seq![crate::text::digit_char(n)][0] == crate::text::digit_char(n));
        assert(seq![crate::text::digit_char(m)][0] == crate::text::digit_char(m));
        assert(crate::text::digit_char(n) == crate::text::digit_char(m));
        lemma_digit_char_injective(n, m);
    } else if n >= 10 && m >= 10 {
        assert(decimal(n) == decimal(n / 10).push(crate::text::digit_char(n % 10)));
        assert(decimal(m) == decimal(m / 10).push(crate::text::digit_char(m % 10)));
        let dn = decimal(n / 10).push(crate::text::digit_char(n % 10));
        let dm = decimal(m / 10).push(crate::text::digit_char(m % 10));
        assert(dn.last() == crate::text::digit_char(n % 10));
        assert(dm.last() == crate::text::digit_char(m % 10));
        assert(dn.len() == dm.len());
        assert(dn[dn.len() - 1] == dm[dm.len() - 1]);
        assert(crate::text::digit_char(n % 10) == crate::text::digit_char(m % 10));
        lemma_digit_char_injective(n % 10, m % 10);
        assert(decimal(n).drop_last() =~= decimal(n / 10));
        assert(decimal(m).drop_last() =~= decimal(m / 10));
        lemma_decimal_injective(n / 10, m / 10);
    }
}

proof fn lemma_decimal_len(n: nat)
    ensures
        decimal(n).len() >= 1,
        n < 10 <==> decimal(n).len() == 1,
    decreases n,
{
    if n >= 10 {
        lemma_decimal_len(n / 10);
    }
}

proof fn lemma_digit_char_injective(a: nat, b: nat)
    requires
        a < 10,
        b < 10,
        crate::text::digit_char(a) == crate::text::digit_char(b),
    ensures
        a == b,
{
}

} // verus!
