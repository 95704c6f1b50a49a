//! What holds of the copy engine, whatever the tile stores answer.

use crate::engine_model::{find_transfer, ActionView, EngineView, TransferView};
use crate::grid::ExtentInt;
use crate::grid_iterator::lemma_pyramid_ascending;
use crate::job::{backoff_ms, lemma_next_in_part, next_in_part, over_threshold, part_count, CopyJob};
use crate::message::TileError;
use vstd::prelude::*;

verus! {

/// The place that `find_transfer` gives holds a transfer with the id and
/// phase asked for, and no place before it does.
pub proof fn lemma_find_transfer(chains: Seq<TransferView>, id: nat, putting: bool, from: int)
    requires
        0 <= from <= chains.len(),
    ensures
        from <= find_transfer(chains, id, putting, from) <= chains.len(),
        find_transfer(chains, id, putting, from) < chains.len() ==> {
            &&& chains[find_transfer(chains, id, putting, from)].id == id
            &&& chains[find_transfer(chains, id, putting, from)].putting == putting
        },
        forall|j: int|
            from <= j < find_transfer(chains, id, putting, from) ==> !((#[trigger] chains[j]).id
                == id && chains[j].putting == putting),
    decreases chains.len() - from,
{
    if from < chains.len() && !(chains[from].id == id && chains[from].putting == putting) {
        lemma_find_transfer(chains, id, putting, from + 1);
    }
}

/// Where a transfer with the id and phase asked for stands and none stands
/// before it, there `find_transfer` finds it.
pub proof fn lemma_find_transfer_first(chains: Seq<TransferView>, id: nat, putting: bool, k: int)
    requires
        0 <= k < chains.len(),
        chains[k].id == id,
        chains[k].putting == putting,
        forall|j: int|
            0 <= j < k ==> !((#[trigger] chains[j]).id == id && chains[j].putting == putting),
    ensures
        find_transfer(chains, id, putting, 0) == k,
{
    lemma_find_transfer(chains, id, putting, 0);
    let f = find_transfer(chains, id, putting, 0);
    if f < k {
        assert(!(chains[f].id == id && chains[f].putting == putting));
    }
}

/// A job that has not started is as the engine should be.
pub proof fn lemma_init_wf(job: CopyJob, limits: Seq<ExtentInt>)
    requires
        job.wf(),
    ensures
        EngineView::init(job, limits).wf(),
{
    assert(2 * job.retry * 0 == 0) by (nonlinear_arith);
}

/// Starting and cancelling keep the engine as it should be.
pub proof fn lemma_start_cancel_wf(s: EngineView, stores_ready: bool)
    requires
        s.wf(),
    ensures
        s.start(stores_ready).wf(),
        s.cancel().wf(),
{
}

/// Asking for the next action keeps the engine as it should be. So a
/// transfer is only started while fewer tiles are in transfer than the
/// job's concurrency allows, and never more are.
pub proof fn lemma_next_action_wf(s: EngineView)
    requires
        s.wf(),
    ensures
        s.next_action().0.wf(),
        s.next_action().0.in_flight.len() <= s.job.concurrency,
        s.next_action().1 is Get ==> s.in_flight.len() < s.job.concurrency,
        s.next_action().1 is Finished ==> !(s.next_action().0.state is Running),
        s.next_action().1 is Finished ==> !(s.next_action().0.state is Idle),
{
    let n = s.next_action().0;
    if s.state is Running && !s.stopping && s.in_flight.len() < s.job.concurrency {
        let len = s.tiles().len();
        lemma_next_in_part(s.job.part, s.position, len);
        let i = next_in_part(s.job.part, s.position, len);
        if i < len {
            assert forall|j: int| 0 <= j < n.in_flight.len() implies n.transfer_wf(
                #[trigger] n.in_flight[j],
            ) by {
                if j < s.in_flight.len() {
                    assert(s.transfer_wf(s.in_flight[j]));
                }
            }
        } else {
            assert forall|j: int| 0 <= j < n.in_flight.len() implies n.transfer_wf(
                #[trigger] n.in_flight[j],
            ) by {
                assert(s.transfer_wf(s.in_flight[j]));
            }
        }
    }
}

proof fn lemma_settle_wf(s: EngineView, k: int, n: EngineView)
    requires
        s.wf(),
        0 <= k < s.in_flight.len(),
        n.job == s.job,
        n.limits == s.limits,
        n.state == s.state,
        n.position == s.position,
        n.in_flight == s.in_flight.remove(k),
        n.settled() == s.settled() + 1,
        n.retried == s.retried + s.in_flight[k].retries,
    ensures
        n.wf(),
{
    let t = s.in_flight[k];
    assert(s.transfer_wf(t));
    assert(n.retried <= 2 * n.job.retry * n.settled()) by (nonlinear_arith)
        requires
            s.retried <= 2 * s.job.retry * s.settled(),
            n.retried == s.retried + t.retries,
            t.retries <= 2 * s.job.retry,
            n.settled() == s.settled() + 1,
            n.job.retry == s.job.retry,
    ;
    assert forall|j: int| 0 <= j < n.in_flight.len() implies n.transfer_wf(
        #[trigger] n.in_flight[j],
    ) by {
        if j < k {
            assert(s.transfer_wf(s.in_flight[j]));
        } else {
            assert(s.transfer_wf(s.in_flight[j + 1]));
        }
    }
}

/// A fault keeps the engine as it should be.
pub proof fn lemma_fail_wf(s: EngineView, k: int, e: TileError)
    requires
        s.wf(),
        0 <= k < s.in_flight.len(),
    ensures
        s.fail(k, e).0.wf(),
{
    let n = s.fail(k, e).0;
    let t = s.in_flight[k];
    assert(s.transfer_wf(t));
    if e.retryable() && t.attempt < s.job.retry {
        assert forall|j: int| 0 <= j < n.in_flight.len() implies n.transfer_wf(
            #[trigger] n.in_flight[j],
        ) by {
            if j != k {
                assert(s.transfer_wf(s.in_flight[j]));
            }
        }
    } else {
        lemma_settle_wf(s, k, n);
    }
}

/// An answer of the source keeps the engine as it should be.
pub proof fn lemma_on_get_wf(s: EngineView, id: nat, result: Result<Seq<u8>, TileError>)
    requires
        s.wf(),
    ensures
        s.on_get(id, result).0.wf(),
{
    let n = s.on_get(id, result).0;
    lemma_find_transfer(s.in_flight, id, false, 0);
    let k = find_transfer(s.in_flight, id, false, 0);
    if k < s.in_flight.len() {
        match result {
            Ok(data) => {
                assert(s.transfer_wf(s.in_flight[k]));
                assert forall|j: int| 0 <= j < n.in_flight.len() implies n.transfer_wf(
                    #[trigger] n.in_flight[j],
                ) by {
                    if j != k {
                        assert(s.transfer_wf(s.in_flight[j]));
                    }
                }
            },
            Err(e) => {
                lemma_fail_wf(s, k, e);
            },
        }
    }
}

/// An answer of the sink keeps the engine as it should be.
pub proof fn lemma_on_put_wf(s: EngineView, id: nat, result: Result<(), TileError>)
    requires
        s.wf(),
    ensures
        s.on_put(id, result).0.wf(),
{
    let n = s.on_put(id, result).0;
    lemma_find_transfer(s.in_flight, id, true, 0);
    let k = find_transfer(s.in_flight, id, true, 0);
    if k < s.in_flight.len() {
        match result {
            Ok(_) => {
                lemma_settle_wf(s, k, n);
            },
            Err(e) => {
                lemma_fail_wf(s, k, e);
            },
        }
    }
}

/// A tile is handed to the sink only after the source gave it, and with
/// the bytes that the source gave: asking for the next action never gives a
/// `put`, an answer of the source gives one only if the answer holds bytes,
/// and then with those bytes, and an answer of the sink gives one only for
/// the tile that it answers for, with the bytes that were sent before.
pub proof fn lemma_put_follows_get(
    s: EngineView,
    id: nat,
    got: Result<Seq<u8>, TileError>,
    put: Result<(), TileError>,
)
    requires
        s.wf(),
    ensures
        !(s.next_action().1 is Put),
        s.on_get(id, got).1 matches ActionView::Put { id: i, data, .. } ==> i == id && got == Ok::<
            Seq<u8>,
            TileError,
        >(data),
        s.on_put(id, put).1 matches ActionView::Put { id: i, tile, data, .. } ==> {
            let k = find_transfer(s.in_flight, id, true, 0);
            &&& i == id
            &&& k < s.in_flight.len()
            &&& s.in_flight[k].data == data
            &&& s.in_flight[k].tile == tile
        },
        !(s.on_put(id, put).1 is Get),
{
    lemma_find_transfer(s.in_flight, id, false, 0);
    lemma_find_transfer(s.in_flight, id, true, 0);
}

/// A job that is stopping starts no transfer: once it was cancelled, or
/// more tiles failed than it bears, asking for the next action gives no
/// `get`.
pub proof fn lemma_stopping_starts_nothing(s: EngineView)
    requires
        s.wf(),
    ensures
        s.stopping ==> !(s.next_action().1 is Get),
        !(s.cancel().next_action().1 is Get),
        s.cancel().in_flight == s.in_flight,
{
}

/// No tile is in transfer twice: two transfers differ in their ids and in
/// their tiles.
pub proof fn lemma_transfers_distinct(s: EngineView, i: int, j: int)
    requires
        s.wf(),
        0 <= i < j < s.in_flight.len(),
    ensures
        s.in_flight[i].id < s.in_flight[j].id,
        s.in_flight[i].tile != s.in_flight[j].tile,
{
    assert(s.transfer_wf(s.in_flight[i]));
    assert(s.transfer_wf(s.in_flight[j]));
    lemma_pyramid_ascending(
        s.job.minzoom,
        s.job.maxzoom,
        s.limits,
        s.in_flight[i].id as int,
        s.in_flight[j].id as int,
    );
}

/// At no time are more tiles in transfer than the job's concurrency
/// allows, and a job that is not running has none in transfer.
pub proof fn lemma_concurrency_bound(s: EngineView)
    requires
        s.wf(),
    ensures
        s.in_flight.len() <= s.job.concurrency,
        !(s.state is Running) ==> s.in_flight.len() == 0,
{
}

/// When a job has ended, every tile of its part that the walk has passed
/// is counted once: as copied, as skipped or as failed. For a completed
/// job those are all the tiles of its part.
pub proof fn lemma_ended_job_counts(s: EngineView)
    requires
        s.wf(),
        s.state is Completed || s.state is Aborted,
    ensures
        s.copied + s.skipped + s.failed == part_count(s.job.part, s.position),
        s.state is Completed ==> s.copied + s.skipped + s.failed == part_count(
            s.job.part,
            s.tiles().len(),
        ),
{
}

/// A source that answers each `get` of a tile with a fault that may pass
/// is asked again `job.retry` times, each time after a longer delay, and no
/// more: the fault that follows the last repetition ends the transfer. The
/// tile is then counted as failed, with `job.retry` repetitions, and the
/// job runs on; it stops starting transfers only if the job bears no more
/// failures.
///
/// Together with the `get` that started the transfer that makes
/// `job.retry + 1` requests for the tile.
pub proof fn lemma_faulty_source_exhausts_retries(s: EngineView, id: nat, e: TileError, n: nat)
    requires
        s.wf(),
        e.retryable(),
        find_transfer(s.in_flight, id, false, 0) < s.in_flight.len(),
        s.in_flight[find_transfer(s.in_flight, id, false, 0)].attempt == 0,
        n <= s.job.retry,
    ensures
        ({
            let k = find_transfer(s.in_flight, id, false, 0);
            let t = s.in_flight[k];
            let now = TransferView { attempt: n, retries: n, ..t };
            let sn = s.after_get_faults(id, e, n);
            &&& sn == EngineView { in_flight: s.in_flight.update(k, now), ..s }
            &&& sn.wf()
            &&& n < s.job.retry ==> sn.on_get(id, Err(e)).1 == ActionView::Get {
                id,
                tile: t.tile,
                delay_ms: backoff_ms(n + 1),
            }
            &&& n == s.job.retry ==> sn.on_get(id, Err(e)).1 == ActionView::Wait
            &&& n == s.job.retry ==> sn.on_get(id, Err(e)).0 == EngineView {
                in_flight: s.in_flight.remove(k),
                failed: s.failed + 1,
                retried: s.retried + s.job.retry as nat,
                stopping: s.stopping || over_threshold(s.job.max_failures, s.failed + 1),
                ..s
            }
        }),
    decreases n,
{
    lemma_find_transfer(s.in_flight, id, false, 0);
    let k = find_transfer(s.in_flight, id, false, 0);
    let t = s.in_flight[k];
    assert(s.transfer_wf(t));
    let now = TransferView { attempt: n, retries: n, ..t };
    let sn = s.after_get_faults(id, e, n);
    if n == 0 {
        assert(now == t);
        assert(s.in_flight.update(k, now) =~= s.in_flight);
    } else {
        let m = (n - 1) as nat;
        lemma_faulty_source_exhausts_retries(s, id, e, m);
        let before = TransferView { attempt: m, retries: m, ..t };
        let sm = s.after_get_faults(id, e, m);
        assert(sm.in_flight[k] == before);
        assert forall|j: int| 0 <= j < k implies !((#[trigger] sm.in_flight[j]).id == id
            && sm.in_flight[j].putting == false) by {
            assert(sm.in_flight[j] == s.in_flight[j]);
        }
        lemma_find_transfer_first(sm.in_flight, id, false, k);
        assert(sn == sm.on_get(id, Err(e)).0);
        assert(sm.in_flight.update(k, now) =~= s.in_flight.update(k, now));
        lemma_on_get_wf(sm, id, Err(e));
    }
    assert(sn.in_flight[k] == now);
    assert forall|j: int| 0 <= j < k implies !((#[trigger] sn.in_flight[j]).id == id
        && sn.in_flight[j].putting == false) by {
        assert(sn.in_flight[j] == s.in_flight[j]);
    }
    lemma_find_transfer_first(sn.in_flight, id, false, k);
    if n == s.job.retry {
        assert(sn.in_flight.remove(k) =~= s.in_flight.remove(k));
    }
}

} // verus!
