//! The rules of the copy engine.
//!
//! `EngineView` is the engine as a mathematical value, and its functions say
//! what each step of a job does to it. The executable engine follows them
//! step by step.

use crate::grid::ExtentInt;
use crate::grid_iterator::{pyramid_tiles, TileIndex};
use crate::job::{backoff_ms, in_part, next_in_part, over_threshold, part_count, CopyJob};
use crate::message::TileError;
use vstd::prelude::*;

verus! {

/// Where a job stands.
#[derive(PartialEq, Eq, Structural, Clone, Copy, Debug)]
pub enum EngineState {
    /// Not started.
    Idle,
    /// Started, and not yet at an end.
    Running,
    /// Every tile of the job has been dealt with.
    Completed,
    /// Ended early: a tile store could not be set up, too many tiles
    /// failed, or the job was cancelled.
    Aborted,
}

/// A tile in transfer, as a mathematical value.
pub struct TransferView {
    /// Index of the tile in the walk of the pyramid.
    pub id: nat,
    /// The tile.
    pub tile: TileIndex,
    /// False while the tile is being read, true while it is being stored.
    pub putting: bool,
    /// How often the request now under way has been repeated.
    pub attempt: nat,
    /// How often a request for this tile has been repeated.
    pub retries: nat,
    /// The bytes that the source gave, once it has given them.
    pub data: Seq<u8>,
}

/// What the driver is to do next, as a mathematical value.
pub enum ActionView {
    /// Wait `delay_ms` milliseconds, then ask the source for the tile.
    Get { id: nat, tile: TileIndex, delay_ms: nat },
    /// Wait `delay_ms` milliseconds, then hand the tile to the sink.
    Put { id: nat, tile: TileIndex, data: Seq<u8>, delay_ms: nat },
    /// Nothing to send now.
    Wait,
    /// The job has ended.
    Finished,
}

impl TransferView {
    /// The request that is under way for the tile.
    pub open spec fn request(self, delay_ms: nat) -> ActionView {
        if self.putting {
            ActionView::Put { id: self.id, tile: self.tile, data: self.data, delay_ms }
        } else {
            ActionView::Get { id: self.id, tile: self.tile, delay_ms }
        }
    }
}

/// The place in `chains` of the first transfer from `from` on with this id
/// and in this phase, or the length of `chains` if there is none.
pub open spec fn find_transfer(chains: Seq<TransferView>, id: nat, putting: bool, from: int) -> int
    decreases chains.len() - from,
{
    if from < 0 || from >= chains.len() {
        chains.len() as int
    } else if chains[from].id == id && chains[from].putting == putting {
        from
    } else {
        find_transfer(chains, id, putting, from + 1)
    }
}

/// The engine as a mathematical value.
pub struct EngineView {
    /// The job.
    pub job: CopyJob,
    /// The tile range of each zoom level, indexed by zoom.
    pub limits: Seq<ExtentInt>,
    /// Where the job stands.
    pub state: EngineState,
    /// True once no new transfer is to be started.
    pub stopping: bool,
    /// How many tiles of the walk have been looked at.
    pub position: nat,
    /// The tiles in transfer, in the order in which they were started.
    pub in_flight: Seq<TransferView>,
    /// Tiles read from the source and stored in the sink.
    pub copied: nat,
    /// Tiles that the source does not have.
    pub skipped: nat,
    /// Tiles given up after a fault.
    pub failed: nat,
    /// Requests repeated for the tiles that are no longer in transfer.
    pub retried: nat,
}

impl EngineView {
    /// The walk of the job's pyramid.
    pub open spec fn tiles(self) -> Seq<TileIndex> {
        pyramid_tiles(self.job.minzoom, self.job.maxzoom, self.limits)
    }

    /// Number of tiles that the job has dealt with.
    pub open spec fn settled(self) -> nat {
        self.copied + self.skipped + self.failed
    }

    /// What holds of a tile in transfer: it is a tile of the job's part that
    /// the walk has passed, and no request for it was repeated more often
    /// than the job allows.
    pub open spec fn transfer_wf(self, t: TransferView) -> bool {
        &&& t.id < self.position
        &&& t.tile == self.tiles()[t.id as int]
        &&& in_part(self.job.part, t.id as int)
        &&& t.attempt <= self.job.retry
        &&& if t.putting {
            t.retries <= self.job.retry + t.attempt
        } else {
            t.retries == t.attempt
        }
    }

    /// What holds of the engine at all times. Among it: no more tiles are
    /// in transfer than the job's concurrency allows, the tiles in transfer
    /// stand in the order of the walk, and each tile of the part that the
    /// walk has passed is either in transfer or counted once as copied,
    /// skipped or failed.
    pub open spec fn wf(self) -> bool {
        &&& self.job.wf()
        &&& self.position <= self.tiles().len()
        &&& self.in_flight.len() <= self.job.concurrency
        &&& (!(self.state is Running) ==> self.in_flight.len() == 0)
        &&& (self.state is Idle ==> self.position == 0 && !self.stopping)
        &&& (self.state is Completed ==> self.position == self.tiles().len())
        &&& (forall|i: int|
            0 <= i < self.in_flight.len() ==> self.transfer_wf(#[trigger] self.in_flight[i]))
        &&& (forall|i: int, j: int|
            0 <= i < j < self.in_flight.len() ==> (#[trigger] self.in_flight[i]).id
                < (#[trigger] self.in_flight[j]).id)
        &&& self.settled() + self.in_flight.len() == part_count(self.job.part, self.position)
        &&& self.retried <= 2 * self.job.retry * self.settled()
    }

    /// The engine of a job that has not started.
    pub open spec fn init(job: CopyJob, limits: Seq<ExtentInt>) -> EngineView {
        EngineView {
            job,
            limits,
            state: EngineState::Idle,
            stopping: false,
            position: 0,
            in_flight: Seq::empty(),
            copied: 0,
            skipped: 0,
            failed: 0,
            retried: 0,
        }
    }

    /// Starting the job: it runs if both tile stores could be set up, and is
    /// aborted before any tile is looked at if one could not.
    pub open spec fn start(self, stores_ready: bool) -> EngineView {
        if self.state is Idle {
            EngineView {
                state: if stores_ready {
                    EngineState::Running
                } else {
                    EngineState::Aborted
                },
                ..self
            }
        } else {
            self
        }
    }

    /// Cancelling the job: a job that has not started is aborted, a running
    /// one starts no new transfer from now on.
    pub open spec fn cancel(self) -> EngineView {
        match self.state {
            EngineState::Idle => EngineView { state: EngineState::Aborted, ..self },
            EngineState::Running => EngineView { stopping: true, ..self },
            _ => self,
        }
    }

    /// Asking for the next action.
    ///
    /// A running job that is not stopping and has room for another transfer
    /// starts one for the next tile of its part, and asks for that tile's
    /// `get`. Without room, or with tiles still in transfer when the walk or
    /// the job is at an end, there is nothing to send. With no tile left in
    /// transfer the job ends: completed when the walk is at its end,
    /// aborted when the job was stopping.
    pub open spec fn next_action(self) -> (EngineView, ActionView) {
        match self.state {
            EngineState::Idle => (self, ActionView::Wait),
            EngineState::Completed => (self, ActionView::Finished),
            EngineState::Aborted => (self, ActionView::Finished),
            EngineState::Running => {
                if self.stopping {
                    if self.in_flight.len() == 0 {
                        (EngineView { state: EngineState::Aborted, ..self }, ActionView::Finished)
                    } else {
                        (self, ActionView::Wait)
                    }
                } else if self.in_flight.len() >= self.job.concurrency {
                    (self, ActionView::Wait)
                } else {
                    let i = next_in_part(self.job.part, self.position, self.tiles().len());
                    if i < self.tiles().len() {
                        let t = TransferView {
                            id: i,
                            tile: self.tiles()[i as int],
                            putting: false,
                            attempt: 0,
                            retries: 0,
                            data: Seq::empty(),
                        };
                        (
                            EngineView {
                                position: i + 1,
                                in_flight: self.in_flight.push(t),
                                ..self
                            },
                            t.request(0),
                        )
                    } else if self.in_flight.len() == 0 {
                        (
                            EngineView { position: i, state: EngineState::Completed, ..self },
                            ActionView::Finished,
                        )
                    } else {
                        (EngineView { position: i, ..self }, ActionView::Wait)
                    }
                }
            },
        }
    }

    /// The transfer at place `k` ends: its tile is no longer in transfer,
    /// and the repetitions made for it are added to the count.
    pub open spec fn settle(self, k: int) -> EngineView {
        EngineView {
            in_flight: self.in_flight.remove(k),
            retried: self.retried + self.in_flight[k].retries,
            ..self
        }
    }

    /// A request for the transfer at place `k` came back with a fault.
    ///
    /// After a fault that may pass the request is repeated, with a delay
    /// that grows, unless it has been repeated as often as the job allows.
    /// Otherwise the transfer ends: a tile that the source does not have is
    /// counted as skipped, any other as failed. With more failures than the
    /// job bears the job stops starting transfers.
    pub open spec fn fail(self, k: int, e: TileError) -> (EngineView, ActionView) {
        let t = self.in_flight[k];
        if e.retryable() && t.attempt < self.job.retry {
            let again = TransferView { attempt: t.attempt + 1, retries: t.retries + 1, ..t };
            (
                EngineView { in_flight: self.in_flight.update(k, again), ..self },
                again.request(backoff_ms(again.attempt)),
            )
        } else if e is NotFound && !t.putting {
            (EngineView { skipped: self.skipped + 1, ..self.settle(k) }, ActionView::Wait)
        } else {
            (
                EngineView {
                    failed: self.failed + 1,
                    stopping: self.stopping || over_threshold(
                        self.job.max_failures,
                        self.failed + 1,
                    ),
                    ..self.settle(k)
                },
                ActionView::Wait,
            )
        }
    }

    /// The source answered the `get` of the tile with this id.
    ///
    /// With bytes, the tile goes on to its `put`, which carries exactly
    /// those bytes. With a fault, see `fail`. An answer for a tile that is
    /// not being read changes nothing.
    pub open spec fn on_get(self, id: nat, result: Result<Seq<u8>, TileError>) -> (
        EngineView,
        ActionView,
    ) {
        let k = find_transfer(self.in_flight, id, false, 0);
        if k >= self.in_flight.len() {
            (self, ActionView::Wait)
        } else {
            match result {
                Ok(data) => {
                    let t = TransferView {
                        putting: true,
                        attempt: 0,
                        data,
                        ..self.in_flight[k]
                    };
                    (EngineView { in_flight: self.in_flight.update(k, t), ..self }, t.request(0))
                },
                Err(e) => self.fail(k, e),
            }
        }
    }

    /// The sink answered the `put` of the tile with this id.
    ///
    /// On success the tile is counted as copied and its transfer ends. With
    /// a fault, see `fail`. An answer for a tile that is not being stored
    /// changes nothing.
    pub open spec fn on_put(self, id: nat, result: Result<(), TileError>) -> (
        EngineView,
        ActionView,
    ) {
        let k = find_transfer(self.in_flight, id, true, 0);
        if k >= self.in_flight.len() {
            (self, ActionView::Wait)
        } else {
            match result {
                Ok(_) => (
                    EngineView { copied: self.copied + 1, ..self.settle(k) },
                    ActionView::Wait,
                ),
                Err(e) => self.fail(k, e),
            }
        }
    }

    /// The state after `n` faults in a row, each of the kind `e`, from the
    /// source for the tile with this id.
    pub open spec fn after_get_faults(self, id: nat, e: TileError, n: nat) -> EngineView
        decreases n,
    {
        if n == 0 {
            self
        } else {
            self.after_get_faults(id, e, (n - 1) as nat).on_get(id, Err(e)).0
        }
    }
}

} // verus!
