//! Request and result types exchanged with tile stores.

use vstd::prelude::*;

verus! {

/// Why a tile store did not serve a request.
#[derive(PartialEq, Eq, Structural, Clone, Copy, Debug)]
pub enum TileError {
    /// The store has no such tile. Expected of a source, and not a failure.
    NotFound,
    /// An I/O fault that may pass: the request is worth repeating.
    TransientIO,
    /// A fault that will not pass: bad URI, unsupported scheme, a store in
    /// an unrecoverable state.
    PermanentIO,
    /// No response within the job's window. Handled like `TransientIO`.
    Timeout,
}

/// The kinds of fault of the operating system that a tile store tells
/// apart.
#[derive(PartialEq, Eq, Structural, Clone, Copy, Debug)]
pub enum IoFault {
    /// `std::io::ErrorKind::NotFound`
    NotFound,
    /// `std::io::ErrorKind::TimedOut`
    TimedOut,
    /// `std::io::ErrorKind::Interrupted`
    Interrupted,
    /// `std::io::ErrorKind::WouldBlock`
    WouldBlock,
    /// Every other kind.
    Other,
}

/// The kinds of fault of a database that a tile store tells apart.
#[derive(PartialEq, Eq, Structural, Clone, Copy, Debug)]
pub enum DbFault {
    /// The query gave no row.
    NoRows,
    /// The database is busy.
    Busy,
    /// The database, or a table in it, is locked.
    Locked,
    /// Every other kind.
    Other,
}

/// The kinds of fault of a request to a store that answers through a
/// mailbox.
#[derive(PartialEq, Eq, Structural, Clone, Copy, Debug)]
pub enum MailboxFault {
    /// No answer came within the window of the request.
    TimedOut,
    /// The mailbox has closed.
    Closed,
}

impl TileError {
    /// What a fault of a database means for a tile: without a row the tile
    /// is not there, a busy or locked database may be free next time, and
    /// nothing else will pass.
    pub open spec fn of_db_fault(fault: DbFault) -> TileError {
        match fault {
            DbFault::NoRows => TileError::NotFound,
            DbFault::Busy => TileError::TransientIO,
            DbFault::Locked => TileError::TransientIO,
            DbFault::Other => TileError::PermanentIO,
        }
    }

    /// What a fault of a database means for a tile.
    pub fn from_db_fault(fault: DbFault) -> (e: TileError)
        ensures
            e == TileError::of_db_fault(fault),
    {
        match fault {
            DbFault::NoRows => TileError::NotFound,
            DbFault::Busy => TileError::TransientIO,
            DbFault::Locked => TileError::TransientIO,
            DbFault::Other => TileError::PermanentIO,
        }
    }

    /// What a fault of a mailbox means for a tile: a request without an
    /// answer timed out, and a store whose mailbox has closed will not
    /// answer again.
    pub open spec fn of_mailbox_fault(fault: MailboxFault) -> TileError {
        match fault {
            MailboxFault::TimedOut => TileError::Timeout,
            MailboxFault::Closed => TileError::PermanentIO,
        }
    }

    /// What a fault of a mailbox means for a tile.
    pub fn from_mailbox_fault(fault: MailboxFault) -> (e: TileError)
        ensures
            e == TileError::of_mailbox_fault(fault),
    {
        match fault {
            MailboxFault::TimedOut => TileError::Timeout,
            MailboxFault::Closed => TileError::PermanentIO,
        }
    }

    /// What a fault of the operating system means for a tile: a missing
    /// file is a tile that is not there, a call that was interrupted or
    /// would have had to wait may succeed next time, and nothing else will.
    pub open spec fn of_fault(fault: IoFault) -> TileError {
        match fault {
            IoFault::NotFound => TileError::NotFound,
            IoFault::TimedOut => TileError::Timeout,
            IoFault::Interrupted => TileError::TransientIO,
            IoFault::WouldBlock => TileError::TransientIO,
            IoFault::Other => TileError::PermanentIO,
        }
    }

    /// What a fault of the operating system means for a tile.
    pub fn from_fault(fault: IoFault) -> (e: TileError)
        ensures
            e == TileError::of_fault(fault),
    {
        match fault {
            IoFault::NotFound => TileError::NotFound,
            IoFault::TimedOut => TileError::Timeout,
            IoFault::Interrupted => TileError::TransientIO,
            IoFault::WouldBlock => TileError::TransientIO,
            IoFault::Other => TileError::PermanentIO,
        }
    }

    /// True of the faults after which a request is repeated.
    pub open spec fn retryable(self) -> bool {
        self is TransientIO || self is Timeout
    }

    /// True of the faults after which a request is repeated.
    pub fn is_retryable(&self) -> (r: bool)
        ensures
            r == self.retryable(),
    {
        match self {
            TileError::TransientIO => true,
            TileError::Timeout => true,
            TileError::NotFound => false,
            TileError::PermanentIO => false,
        }
    }
}

/// Asks a source for a tile. Parameters are in XYZ format.
#[derive(PartialEq, Eq, Structural, Clone, Copy, Debug)]
pub struct GetTile {
    pub z: u8,
    pub x: u32,
    pub y: u32,
}

pub type GetTileResult = Result<Vec<u8>, TileError>;

/// Stores a tile into the data store. Parameters are in XYZ format.
/// `data` must contain the compressed image.
#[derive(Debug)]
pub struct PutTile {
    pub z: u8,
    pub x: u32,
    pub y: u32,
    pub data: Vec<u8>,
}

pub type PutTileResult = Result<(), TileError>;

} // verus!
