//! The decisions of the splice phase: two copiers, client to backend and
//! backend to client, each of which shuts its destination down when its
//! source ends, so that the other copier sees its own source end in turn.

use vstd::prelude::*;

verus! {

/// Which copier.
#[derive(Debug, Clone, Copy, PartialEq, Eq, Structural)]
pub enum Direction {
    /// Reads the client, writes the backend.
    ClientToBackend,
    /// Reads the backend, writes the client.
    BackendToClient,
}

/// What a copier's read from its source gave.
#[derive(Debug, Clone, Copy, PartialEq, Eq, Structural)]
pub enum ReadOutcome {
    /// This many bytes; zero means the source ended.
    Data(usize),
    /// The source ended.
    Eof,
    /// The read failed.
    Failed,
}

/// What the copier is to do with what it read.
#[derive(Debug, Clone, Copy, PartialEq, Eq, Structural)]
pub enum PumpAction {
    /// Write the bytes read to the destination and read again.
    Write(usize),
    /// Shut the destination socket down (both ways) and stop.
    ShutdownDestination,
    /// Nothing: this copier has already stopped.
    Idle,
}

/// Which copiers still run and which sockets were shut down.
#[derive(Debug, Clone, Copy, PartialEq, Eq, Structural)]
pub struct Splice {
    pub client_to_backend: bool,
    pub backend_to_client: bool,
    pub client_shut: bool,
    pub backend_shut: bool,
}

/// The splice as it starts: both copiers running, both sockets open.
pub open spec fn splice_start() -> Splice {
    Splice { client_to_backend: true, backend_to_client: true, client_shut: false, backend_shut: false }
}

/// Whether copier `d` still runs.
pub open spec fn running(s: Splice, d: Direction) -> bool {
    match d {
        Direction::ClientToBackend => s.client_to_backend,
        Direction::BackendToClient => s.backend_to_client,
    }
}

/// Whether the source of copier `d` was shut down.
pub open spec fn source_shut(s: Splice, d: Direction) -> bool {
    match d {
        Direction::ClientToBackend => s.client_shut,
        Direction::BackendToClient => s.backend_shut,
    }
}

/// Both copiers stopped.
pub open spec fn finished(s: Splice) -> bool {
    !s.client_to_backend && !s.backend_to_client
}

/// The state and action after copier `d` read `o`.
pub open spec fn splice_next(s: Splice, d: Direction, o: ReadOutcome) -> (Splice, PumpAction) {
    if !running(s, d) {
        (s, PumpAction::Idle)
    } else {
        match o {
            ReadOutcome::Data(n) if n > 0 => (s, PumpAction::Write(n)),
            _ => match d {
                Direction::ClientToBackend => (
                    Splice { client_to_backend: false, backend_shut: true, ..s },
                    PumpAction::ShutdownDestination,
                ),
                Direction::BackendToClient => (
                    Splice { backend_to_client: false, client_shut: true, ..s },
                    PumpAction::ShutdownDestination,
                ),
            },
        }
    }
}

impl Splice {
    /// The splice as it starts.
    pub fn new() -> (r: Splice)
        ensures
            r == splice_start(),
    {
        Splice { client_to_backend: true, backend_to_client: true, client_shut: false, backend_shut: false }
    }

    /// Both copiers stopped.
    pub fn is_finished(&self) -> (r: bool)
        ensures
            r == finished(*self),
    {
        !self.client_to_backend && !self.backend_to_client
    }

    /// Records what copier `d` read and says what it is to do.
    pub fn on_read(&mut self, d: Direction, o: ReadOutcome) -> (r: PumpAction)
        ensures
            (*final(self), r) == splice_next(*old(self), d, o),
    {
        let is_running = match d {
            Direction::ClientToBackend => self.client_to_backend,
            Direction::BackendToClient => self.backend_to_client,
        };
        if !is_running {
            return PumpAction::Idle;
        }
        if let ReadOutcome::Data(n) = o {
            if n > 0 {
                return PumpAction::Write(n);
            }
        }
        match d {
            Direction::ClientToBackend => {
                self.client_to_backend = false;
                self.backend_shut = true;
            },
            Direction::BackendToClient => {
                self.backend_to_client = false;
                self.client_shut = true;
            },
        }
        PumpAction::ShutdownDestination
    }
}

/// A copier stops exactly on the first read that brings no data, and then
/// shuts its destination; a stopped copier does nothing more.
pub proof fn lemma_copier_stops(s: Splice, d: Direction, o: ReadOutcome)
    ensures
        running(s, d) && !(o matches ReadOutcome::Data(n) && n > 0) ==> {
            &&& !running(splice_next(s, d, o).0, d)
            &&& splice_next(s, d, o).1 == PumpAction::ShutdownDestination
        },
        !running(s, d) ==> splice_next(s, d, o) == (s, PumpAction::Idle),
{
}

/// When the backend closes first, the copier toward the client shuts the
/// client socket on that read, so the client sees the end at once; the
/// other copier's source is that socket, so its next read brings no data,
/// and after it both copiers have stopped: two iterations in all.
pub proof fn lemma_backend_close_ends_splice(o: ReadOutcome)
    requires
        !(o matches ReadOutcome::Data(n) && n > 0),
    ensures
        splice_next(splice_start(), Direction::BackendToClient, ReadOutcome::Eof).1 == PumpAction::ShutdownDestination,
        splice_next(splice_start(), Direction::BackendToClient, ReadOutcome::Eof).0.client_shut,
        source_shut(splice_next(splice_start(), Direction::BackendToClient, ReadOutcome::Eof).0, Direction::ClientToBackend),
        finished(
            splice_next(
                splice_next(splice_start(), Direction::BackendToClient, ReadOutcome::Eof).0,
                Direction::ClientToBackend,
                o,
            ).0,
        ),
{
}

} // verus!
