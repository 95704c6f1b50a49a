//! Tile operations.

use crate::clock::{clock_now, millis_between};
use crate::engine::{get_result_view, Action, CopyEngine};
use crate::engine_laws::{
    lemma_ended_job_counts, lemma_find_transfer_first, lemma_next_action_wf, lemma_on_get_wf,
    lemma_on_put_wf,
};
use crate::engine_model::{ActionView, EngineState, EngineView};
use crate::grid::ExtentInt;
use crate::grid_iterator::pyramid_tiles;
use crate::job::{
    lemma_next_in_part, lemma_part_count_bounds, over_threshold, part_count, CopyJob, JobSummary,
};
use crate::message::TileError;
use crate::tilesink::Tilesink;
use crate::tilesource::Tilesource;
use vstd::prelude::*;

verus! {

/// Where tiles come from: sets up the source of a job.
pub trait TileInput {
    type Source: Tilesource;

    /// Sets up the source. An error aborts the job before any tile is
    /// looked at.
    fn open(&self) -> Result<Self::Source, TileError>;
}

/// Where tiles go: sets up the sink of a job.
pub trait TileOutput {
    type Sink: Tilesink;

    /// Sets up the sink. An error aborts the job before any tile is looked
    /// at.
    fn open(&self) -> Result<Self::Sink, TileError>;
}

/// How a job ended.
#[derive(Clone, Copy, Debug)]
pub struct JobReport {
    /// `Completed` or `Aborted`.
    pub state: EngineState,
    /// What the job did.
    pub summary: JobSummary,
}

/// What is left to do for the one tile in transfer: first its `get`, then
/// its `put`, each with the repetitions that the job still allows.
spec fn transfer_phase(s: EngineView) -> int {
    if s.in_flight.len() == 0 {
        0
    } else if s.in_flight[0].putting {
        1
    } else {
        2
    }
}

spec fn transfer_budget(s: EngineView) -> int {
    if s.in_flight.len() == 0 {
        0
    } else {
        s.job.retry - s.in_flight[0].attempt
    }
}

/// The action in hand is the request of the one tile in transfer, or there
/// is nothing to send and no tile in transfer.
spec fn in_step(s: EngineView, action: ActionView) -> bool {
    match action {
        ActionView::Get { id, .. } => s.in_flight.len() == 1 && s.in_flight[0].id == id
            && !s.in_flight[0].putting,
        ActionView::Put { id, .. } => s.in_flight.len() == 1 && s.in_flight[0].id == id
            && s.in_flight[0].putting,
        ActionView::Wait => s.in_flight.len() == 0,
        ActionView::Finished => false,
    }
}

/// Copies the tiles of a pyramid from a source to a sink, one after the
/// other, and says how that went.
///
/// The pyramid reaches from `job.minzoom` to `job.maxzoom`, with the tile
/// range of each zoom level in `limits`, indexed by zoom. The tiles are
/// taken in the order of the walk; of a job with a part, only the tiles of
/// that part. Each tile is read from the source and, if that succeeded,
/// stored in the sink with the bytes that were read; requests are repeated
/// as the engine says, after `pause` was called with the delay in
/// milliseconds.
///
/// The source is set up first, and the sink only if there is a source. If
/// one of them cannot be set up the job is aborted with nothing done. Else
/// it runs until every tile of its part is counted as copied, skipped or
/// failed, unless more tiles fail than the job bears.
///
/// This driver waits for each answer, however long it takes, and does not
/// read `job.timeout`: the window is kept by the stores, which answer
/// `TileError::Timeout` for a request that they give up. Of
/// `job.concurrency` it uses one: no second tile is in transfer.
pub fn tile_copy<I: TileInput, O: TileOutput, P: Fn(u64)>(
    src: &I,
    dst: &O,
    job: CopyJob,
    limits: Vec<ExtentInt>,
    pause: P,
) -> (report: JobReport)
    requires
        job.wf(),
        forall|ms: u64| call_requires(pause, (ms,)),
    ensures
        report.state is Completed || report.state is Aborted,
        report.state is Completed ==> report.summary.settled() == part_count(
            job.part,
            pyramid_tiles(job.minzoom, job.maxzoom, limits@).len(),
        ),
        report.state is Aborted ==> report.summary.settled() == 0 || over_threshold(
            job.max_failures,
            report.summary.failed as nat,
        ),
        report.summary.settled() <= part_count(
            job.part,
            pyramid_tiles(job.minzoom, job.maxzoom, limits@).len(),
        ),
        report.summary.retried <= 2 * job.retry * report.summary.settled(),
{
    let started = clock_now();
    let report = match src.open() {
        Ok(source) => match dst.open() {
            Ok(sink) => copy_tiles(Some((&source, &sink)), job, limits, &pause),
            Err(_) => copy_tiles::<I::Source, O::Sink, P>(None, job, limits, &pause),
        },
        Err(_) => copy_tiles::<I::Source, O::Sink, P>(None, job, limits, &pause),
    };
    JobReport {
        state: report.state,
        summary: JobSummary {
            copied: report.summary.copied,
            skipped_not_found: report.summary.skipped_not_found,
            failed: report.summary.failed,
            retried: report.summary.retried,
            elapsed_ms: millis_between(&started, &clock_now()),
        },
    }
}

/// Copies the tiles of a pyramid between the stores of a job, if it has
/// them: `stores` holds the source and the sink, or nothing if one of them
/// could not be set up.
///
/// Without stores the job is aborted with nothing done. With them it
/// completes, and every tile of its part is then counted as copied, skipped
/// or failed; or it is aborted because more tiles failed than the job
/// bears.
///
/// As in `tile_copy`, the window of `job.timeout` is kept by the stores and
/// not by this driver, and one tile is in transfer at a time.
pub fn copy_tiles<S: Tilesource, D: Tilesink, P: Fn(u64)>(
    stores: Option<(&S, &D)>,
    job: CopyJob,
    limits: Vec<ExtentInt>,
    pause: &P,
) -> (report: JobReport)
    requires
        job.wf(),
        forall|ms: u64| call_requires(*pause, (ms,)),
    ensures
        stores is None ==> report.state is Aborted && report.summary.settled() == 0
            && report.summary.retried == 0,
        stores is Some ==> report.state is Completed || (report.state is Aborted
            && over_threshold(job.max_failures, report.summary.failed as nat)),
        report.state is Completed ==> report.summary.settled() == part_count(
            job.part,
            pyramid_tiles(job.minzoom, job.maxzoom, limits@).len(),
        ),
        report.summary.settled() <= part_count(
            job.part,
            pyramid_tiles(job.minzoom, job.maxzoom, limits@).len(),
        ),
        report.summary.retried <= 2 * job.retry * report.summary.settled(),
{
    let started = clock_now();
    let ghost tiles = pyramid_tiles(job.minzoom, job.maxzoom, limits@);
    let mut engine = CopyEngine::new(job, limits);
    match stores {
        None => {
            engine.start(false);
        },
        Some((source, sink)) => {
            engine.start(true);
            run(&mut engine, source, sink, pause);
        },
    }
    proof {
        engine.lemma_view_wf();
        lemma_ended_job_counts(engine@);
        lemma_part_count_bounds(job.part, engine@.position, tiles.len());
    }
    let elapsed_ms: u128 = millis_between(&started, &clock_now());
    JobReport { state: engine.state(), summary: engine.summary(elapsed_ms) }
}

/// Runs a started job to its end, one tile in transfer at a time.
fn run<S: Tilesource, D: Tilesink, P: Fn(u64)>(
    engine: &mut CopyEngine,
    source: &S,
    sink: &D,
    pause: &P,
)
    requires
        old(engine).wf(),
        old(engine)@.state is Running,
        old(engine)@.in_flight.len() == 0,
        !old(engine)@.stopping,
        forall|ms: u64| call_requires(*pause, (ms,)),
    ensures
        final(engine).wf(),
        final(engine)@.job == old(engine)@.job,
        final(engine)@.limits == old(engine)@.limits,
        final(engine)@.state is Completed || final(engine)@.state is Aborted,
        final(engine)@.state is Aborted ==> over_threshold(
            final(engine)@.job.max_failures,
            final(engine)@.failed,
        ),
{
    loop
        invariant_except_break
            engine@.state is Running,
            engine@.in_flight.len() == 0,
        invariant
            engine.wf(),
            engine@.job == old(engine)@.job,
            engine@.limits == old(engine)@.limits,
            engine@.stopping ==> over_threshold(engine@.job.max_failures, engine@.failed),
            forall|ms: u64| call_requires(*pause, (ms,)),
        ensures
            engine@.state is Completed || engine@.state is Aborted,
            engine@.state is Aborted ==> over_threshold(engine@.job.max_failures, engine@.failed),
        decreases engine@.tiles().len() - engine@.position,
    {
        let ghost before = engine@;
        proof {
            engine.lemma_view_wf();
            lemma_next_action_wf(before);
            lemma_next_in_part(before.job.part, before.position, before.tiles().len());
        }
        let first = engine.next_action();
        let mut action = match first {
            Action::Finished => {
                break ;
            },
            other => other,
        };
        assert(action@ is Get);
        assert(in_step(engine@, action@));
        let ghost position = engine@.position;
        loop
            invariant_except_break
                in_step(engine@, action@),
                !(action@ is Wait),
            invariant
                engine.wf(),
                engine@.job == old(engine)@.job,
                engine@.limits == old(engine)@.limits,
                engine@.state is Running,
                engine@.position == position,
                engine@.stopping ==> over_threshold(engine@.job.max_failures, engine@.failed),
                forall|ms: u64| call_requires(*pause, (ms,)),
            ensures
                engine@.in_flight.len() == 0,
            decreases transfer_phase(engine@), transfer_budget(engine@),
        {
            let ghost s = engine@;
            proof {
                engine.lemma_view_wf();
            }
            match action {
                Action::Get { id, get, delay_ms } => {
                    if delay_ms > 0 {
                        pause(delay_ms);
                    }
                    let answer = source.get_tile(get.z, get.x, get.y);
                    proof {
                        lemma_find_transfer_first(s.in_flight, id as nat, false, 0);
                        lemma_on_get_wf(s, id as nat, get_result_view(answer));
                    }
                    action = engine.on_get(id, answer);
                },
                Action::Put { id, put, delay_ms } => {
                    if delay_ms > 0 {
                        pause(delay_ms);
                    }
                    let answer = sink.put_tile(put.z, put.x, put.y, put.data);
                    proof {
                        lemma_find_transfer_first(s.in_flight, id as nat, true, 0);
                        lemma_on_put_wf(s, id as nat, answer);
                    }
                    action = engine.on_put(id, answer);
                },
                Action::Wait => {
                    break ;
                },
                Action::Finished => {
                    break ;
                },
            }
            if let Action::Wait = action {
                break ;
            }
        }
    }
}

} // verus!
