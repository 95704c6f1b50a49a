//! The copy engine.
//!
//! The engine decides; it neither reads nor writes a tile itself. Whoever
//! drives it asks for the next action, performs it against the source or the
//! sink, and hands the outcome back. For each tile of the walk that belongs
//! to the job's part the engine asks for a `get` and then, only if that
//! succeeded, for a `put` of the bytes that came back.
//!
//! Each method does to the engine what the rule of the same name in
//! `engine_model` says.

use crate::engine_laws::{
    lemma_fail_wf, lemma_find_transfer, lemma_init_wf, lemma_next_action_wf, lemma_on_get_wf,
    lemma_on_put_wf, lemma_start_cancel_wf,
};
use crate::engine_model::{
    find_transfer, ActionView, EngineState, EngineView, TransferView,
};
use crate::grid::ExtentInt;
use crate::grid_iterator::{lemma_pyramid_bound, max_pyramid_cells, GridIterator};
use crate::job::{backoff_delay, lemma_part_count_bounds, next_in_part, CopyJob, JobSummary};
use crate::message::{GetTile, GetTileResult, PutTile, PutTileResult, TileError};
use vstd::prelude::*;

verus! {

/// What the driver is to do next.
#[derive(Debug)]
pub enum Action {
    /// Wait `delay_ms` milliseconds, then send `get` to the source and hand
    /// the answer to `on_get` under `id`.
    Get { id: u128, get: GetTile, delay_ms: u64 },
    /// Wait `delay_ms` milliseconds, then send `put` to the sink and hand
    /// the answer to `on_put` under `id`.
    Put { id: u128, put: PutTile, delay_ms: u64 },
    /// Nothing to send now: hand over an answer that is still due, or, after
    /// one was handed over, ask for the next action.
    Wait,
    /// The job has ended.
    Finished,
}

impl View for Action {
    type V = ActionView;

    open spec fn view(&self) -> ActionView {
        match *self {
            Action::Get { id, get, delay_ms } => ActionView::Get {
                id: id as nat,
                tile: (get.z, get.x, get.y),
                delay_ms: delay_ms as nat,
            },
            Action::Put { id, put, delay_ms } => ActionView::Put {
                id: id as nat,
                tile: (put.z, put.x, put.y),
                data: put.data@,
                delay_ms: delay_ms as nat,
            },
            Action::Wait => ActionView::Wait,
            Action::Finished => ActionView::Finished,
        }
    }
}

/// The answer of a source as a mathematical value.
pub open spec fn get_result_view(result: GetTileResult) -> Result<Seq<u8>, TileError> {
    match result {
        Ok(data) => Ok(data@),
        Err(e) => Err(e),
    }
}

/// A tile in transfer.
struct Transfer {
    id: u128,
    z: u8,
    x: u32,
    y: u32,
    putting: bool,
    attempt: u32,
    retries: u64,
    data: Vec<u8>,
}

impl View for Transfer {
    type V = TransferView;

    closed spec fn view(&self) -> TransferView {
        TransferView {
            id: self.id as nat,
            tile: (self.z, self.x, self.y),
            putting: self.putting,
            attempt: self.attempt as nat,
            retries: self.retries as nat,
            data: self.data@,
        }
    }
}

impl Transfer {
    /// The request that is under way for the tile.
    fn request(&self, delay_ms: u64) -> (action: Action)
        ensures
            action@ == self@.request(delay_ms as nat),
    {
        if self.putting {
            Action::Put {
                id: self.id,
                put: PutTile { z: self.z, x: self.x, y: self.y, data: self.data.clone() },
                delay_ms,
            }
        } else {
            Action::Get { id: self.id, get: GetTile { z: self.z, x: self.x, y: self.y }, delay_ms }
        }
    }
}

/// The copy engine of one job.
pub struct CopyEngine {
    job: CopyJob,
    limits: Ghost<Seq<ExtentInt>>,
    state: EngineState,
    stopping: bool,
    iter: GridIterator,
    position: u128,
    in_flight: Vec<Transfer>,
    copied: u128,
    skipped: u128,
    failed: u128,
    retried: u128,
}

impl View for CopyEngine {
    type V = EngineView;

    closed spec fn view(&self) -> EngineView {
        EngineView {
            job: self.job,
            limits: self.limits@,
            state: self.state,
            stopping: self.stopping,
            position: self.position as nat,
            in_flight: self.in_flight@.map_values(|t: Transfer| t@),
            copied: self.copied as nat,
            skipped: self.skipped as nat,
            failed: self.failed as nat,
            retried: self.retried as nat,
        }
    }
}

impl CopyEngine {
    /// The engine is as it should be, and its iterator stands where the
    /// engine has looked up to.
    pub closed spec fn wf(&self) -> bool {
        &&& self@.wf()
        &&& self.iter.wf()
        &&& self.iter.remaining() == self@.tiles().skip(self.position as int)
    }

    /// An engine that is as it should be is so as a mathematical value.
    pub proof fn lemma_view_wf(&self)
        requires
            self.wf(),
        ensures
            self@.wf(),
    {
    }

    /// An engine for `job` over the pyramid whose tile ranges are `limits`,
    /// one per zoom level and indexed by zoom. The job is not started.
    pub fn new(job: CopyJob, limits: Vec<ExtentInt>) -> (engine: CopyEngine)
        requires
            job.wf(),
        ensures
            engine.wf(),
            engine@.wf(),
            engine@ == EngineView::init(job, limits@),
    {
        let ghost spec_limits = limits@;
        let iter = GridIterator::new(job.minzoom, job.maxzoom, limits);
        let engine = CopyEngine {
            job,
            limits: Ghost(spec_limits),
            state: EngineState::Idle,
            stopping: false,
            iter,
            position: 0,
            in_flight: Vec::new(),
            copied: 0,
            skipped: 0,
            failed: 0,
            retried: 0,
        };
        proof {
            lemma_init_wf(job, spec_limits);
            assert(engine@.in_flight =~= Seq::empty());
            assert(engine@.tiles().skip(0) =~= engine@.tiles());
        }
        engine
    }

    /// Starts the job. `stores_ready` says whether both the source and the
    /// sink could be set up; if not, the job is aborted at once.
    pub fn start(&mut self, stores_ready: bool)
        requires
            old(self).wf(),
        ensures
            final(self).wf(),
            final(self)@.wf(),
            final(self)@ == old(self)@.start(stores_ready),
    {
        proof {
            lemma_start_cancel_wf(self@, stores_ready);
        }
        if self.state == EngineState::Idle {
            if stores_ready {
                self.state = EngineState::Running;
            } else {
                self.state = EngineState::Aborted;
            }
        }
    }

    /// Cancels the job: no new transfer is started. The job ends once the
    /// tiles in transfer have come to their end.
    pub fn cancel(&mut self)
        requires
            old(self).wf(),
        ensures
            final(self).wf(),
            final(self)@.wf(),
            final(self)@ == old(self)@.cancel(),
    {
        proof {
            lemma_start_cancel_wf(self@, true);
        }
        match self.state {
            EngineState::Idle => {
                self.state = EngineState::Aborted;
            },
            EngineState::Running => {
                self.stopping = true;
            },
            _ => {},
        }
    }

    /// Where the job stands.
    pub fn state(&self) -> (state: EngineState)
        ensures
            state == self@.state,
    {
        self.state
    }

    /// Number of tiles in transfer.
    pub fn in_flight(&self) -> (n: usize)
        ensures
            n == self@.in_flight.len(),
    {
        self.in_flight.len()
    }

    /// The counts so far, with the time that the driver has measured.
    pub fn summary(&self, elapsed_ms: u128) -> (summary: JobSummary)
        ensures
            summary.copied == self@.copied,
            summary.skipped_not_found == self@.skipped,
            summary.failed == self@.failed,
            summary.retried == self@.retried,
            summary.elapsed_ms == elapsed_ms,
    {
        JobSummary {
            copied: self.copied,
            skipped_not_found: self.skipped,
            failed: self.failed,
            retried: self.retried,
            elapsed_ms,
        }
    }

    /// Says what to do next: see `EngineView::next_action`.
    pub fn next_action(&mut self) -> (action: Action)
        requires
            old(self).wf(),
        ensures
            final(self).wf(),
            final(self)@.wf(),
            final(self)@ == old(self)@.next_action().0,
            action@ == old(self)@.next_action().1,
    {
        proof {
            lemma_next_action_wf(self@);
        }
        match self.state {
            EngineState::Idle => {
                return Action::Wait;
            },
            EngineState::Completed => {
                return Action::Finished;
            },
            EngineState::Aborted => {
                return Action::Finished;
            },
            EngineState::Running => {},
        }
        if self.stopping {
            if self.in_flight.len() == 0 {
                self.state = EngineState::Aborted;
                return Action::Finished;
            } else {
                return Action::Wait;
            }
        }
        if self.in_flight.len() >= self.job.concurrency {
            return Action::Wait;
        }
        let ghost tiles = self@.tiles();
        let ghost start = self@;
        proof {
            lemma_pyramid_bound(self.job.minzoom, self.job.maxzoom, self.limits@);
        }
        loop
            invariant
                self.iter.wf(),
                self.iter.remaining() == tiles.skip(self.position as int),
                tiles == start.tiles(),
                tiles.len() <= max_pyramid_cells(),
                max_pyramid_cells() < 0x1_00_0000_0000_0000_0000,
                start.position <= self.position <= tiles.len(),
                next_in_part(start.job.part, start.position, tiles.len()) == next_in_part(
                    start.job.part,
                    self.position as nat,
                    tiles.len(),
                ),
                self@ == (EngineView { position: self.position as nat, ..start }),
                start.wf(),
                start == old(self)@,
                start.state is Running,
                !start.stopping,
                start.in_flight.len() < start.job.concurrency,
                start.next_action().0.wf(),
            decreases tiles.len() - self.position,
        {
            match self.iter.next() {
                None => {
                    proof {
                        assert(tiles.skip(self.position as int).len() == 0);
                    }
                    if self.in_flight.len() == 0 {
                        self.state = EngineState::Completed;
                        return Action::Finished;
                    } else {
                        return Action::Wait;
                    }
                },
                Some(tile) => {
                    proof {
                        assert(tiles.skip(self.position as int).len() > 0);
                        assert(tile == tiles.skip(self.position as int)[0]);
                        assert(tiles.skip(self.position as int).skip(1) =~= tiles.skip(
                            self.position + 1,
                        ));
                    }
                    let id: u128 = self.position;
                    self.position = id + 1;
                    if self.job.takes(id) {
                        let transfer = Transfer {
                            id,
                            z: tile.0,
                            x: tile.1,
                            y: tile.2,
                            putting: false,
                            attempt: 0,
                            retries: 0,
                            data: Vec::new(),
                        };
                        let action = transfer.request(0);
                        self.in_flight.push(transfer);
                        proof {
                            assert(self@.in_flight =~= start.in_flight.push(transfer@));
                        }
                        return action;
                    }
                },
            }
        }
    }

    /// The place of the first transfer with this id and in this phase, or
    /// the number of transfers if there is none.
    fn find(&self, id: u128, putting: bool) -> (k: usize)
        ensures
            k == find_transfer(self@.in_flight, id as nat, putting, 0),
            k <= self.in_flight@.len(),
    {
        let mut k: usize = 0;
        proof {
            lemma_find_transfer(self@.in_flight, id as nat, putting, 0);
        }
        while k < self.in_flight.len()
            invariant
                k <= self.in_flight@.len(),
                self@.in_flight.len() == self.in_flight@.len(),
                find_transfer(self@.in_flight, id as nat, putting, 0) == find_transfer(
                    self@.in_flight,
                    id as nat,
                    putting,
                    k as int,
                ),
            decreases self.in_flight@.len() - k,
        {
            if self.in_flight[k].id == id && self.in_flight[k].putting == putting {
                proof {
                    assert(self@.in_flight[k as int] == self.in_flight@[k as int]@);
                }
                return k;
            }
            proof {
                assert(self@.in_flight[k as int] == self.in_flight@[k as int]@);
            }
            k = k + 1;
        }
        k
    }

    /// Ends the transfer at place `k` and gives it back.
    fn settle(&mut self, k: usize) -> (t: Transfer)
        requires
            old(self).wf(),
            k < old(self)@.in_flight.len(),
        ensures
            t@ == old(self)@.in_flight[k as int],
            final(self)@ == old(self)@.settle(k as int),
            final(self).iter == old(self).iter,
            final(self)@.settled() + 1 <= max_pyramid_cells(),
            max_pyramid_cells() < 0x1_00_0000_0000_0000_0000,
    {
        let t = self.in_flight.remove(k);
        proof {
            let s = old(self)@;
            assert(s.in_flight[k as int] == t@);
            assert(s.transfer_wf(t@));
            lemma_pyramid_bound(self.job.minzoom, self.job.maxzoom, self.limits@);
            lemma_part_count_bounds(s.job.part, 0, s.position);
            assert(s.retried + t@.retries <= 0x2_0000_0000 * 0x1_00_0000_0000_0000_0000)
                by (nonlinear_arith)
                requires
                    s.retried <= 2 * s.job.retry * s.settled(),
                    t@.retries <= 2 * s.job.retry,
                    s.settled() + 1 <= 0x1_00_0000_0000_0000_0000,
                    s.job.retry <= 0xffff_ffff,
            ;
        }
        self.retried = self.retried + t.retries as u128;
        proof {
            assert(self@.in_flight =~= old(self)@.in_flight.remove(k as int));
        }
        t
    }

    /// Deals with a fault for the transfer at place `k`.
    fn fail(&mut self, k: usize, e: TileError) -> (action: Action)
        requires
            old(self).wf(),
            k < old(self)@.in_flight.len(),
        ensures
            final(self).wf(),
            final(self)@ == old(self)@.fail(k as int, e).0,
            action@ == old(self)@.fail(k as int, e).1,
    {
        proof {
            lemma_fail_wf(self@, k as int, e);
            assert(self@.in_flight[k as int] == self.in_flight@[k as int]@);
            assert(self@.transfer_wf(self@.in_flight[k as int]));
        }
        if e.is_retryable() && self.in_flight[k].attempt < self.job.retry {
            let mut t = self.in_flight.remove(k);
            t.attempt = t.attempt + 1;
            t.retries = t.retries + 1;
            let action = t.request(backoff_delay(t.attempt));
            proof {
                assert(self.in_flight@.insert(k as int, t).map_values(|t: Transfer| t@)
                    =~= old(self)@.in_flight.update(k as int, t@));
            }
            self.in_flight.insert(k, t);
            action
        } else {
            let t = self.settle(k);
            let not_found: bool = match e {
                TileError::NotFound => true,
                _ => false,
            };
            if not_found && !t.putting {
                self.skipped = self.skipped + 1;
            } else {
                self.failed = self.failed + 1;
                if self.job.gives_up_at(self.failed) {
                    self.stopping = true;
                }
            }
            Action::Wait
        }
    }

    /// Takes the answer of the source to the `get` that was asked for under
    /// `id`, and says what follows: see `EngineView::on_get`.
    pub fn on_get(&mut self, id: u128, result: GetTileResult) -> (action: Action)
        requires
            old(self).wf(),
        ensures
            final(self).wf(),
            final(self)@.wf(),
            final(self)@ == old(self)@.on_get(id as nat, get_result_view(result)).0,
            action@ == old(self)@.on_get(id as nat, get_result_view(result)).1,
    {
        proof {
            lemma_on_get_wf(self@, id as nat, get_result_view(result));
        }
        let k = self.find(id, false);
        if k >= self.in_flight.len() {
            return Action::Wait;
        }
        match result {
            Ok(data) => {
                let mut t = self.in_flight.remove(k);
                proof {
                    assert(old(self)@.in_flight[k as int] == t@);
                }
                t.putting = true;
                t.attempt = 0;
                t.data = data;
                let action = t.request(0);
                proof {
                    assert(self.in_flight@.insert(k as int, t).map_values(|t: Transfer| t@)
                        =~= old(self)@.in_flight.update(k as int, t@));
                }
                self.in_flight.insert(k, t);
                action
            },
            Err(e) => self.fail(k, e),
        }
    }

    /// Takes the answer of the sink to the `put` that was asked for under
    /// `id`, and says what follows: see `EngineView::on_put`.
    pub fn on_put(&mut self, id: u128, result: PutTileResult) -> (action: Action)
        requires
            old(self).wf(),
        ensures
            final(self).wf(),
            final(self)@.wf(),
            final(self)@ == old(self)@.on_put(id as nat, result).0,
            action@ == old(self)@.on_put(id as nat, result).1,
    {
        proof {
            lemma_on_put_wf(self@, id as nat, result);
        }
        let k = self.find(id, true);
        if k >= self.in_flight.len() {
            return Action::Wait;
        }
        match result {
            Ok(_) => {
                let _ = self.settle(k);
                self.copied = self.copied + 1;
                Action::Wait
            },
            Err(e) => self.fail(k, e),
        }
    }
}

} // verus!
