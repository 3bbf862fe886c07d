//! The server's handling of one accepted connection.
//!
//! A connection is served in phases: the request frame is received, a
//! workspace is staged with the archive, the build tool runs, the artifact is
//! sent back, and the workspace is removed.  The work itself (reading the
//! socket, writing files, running the tool) is the caller's; this module
//! decides what comes next.  The caller starts with [`Connection::new`],
//! reports what happened with [`Connection::step`], and carries out the
//! [`Action`] it gets back, until that action is [`Action::Close`].

use vstd::prelude::*;
use crate::error::{ProtocolError, RelayError};
use crate::executor::{log_file_name, simple_text};
use crate::history::{lemma_occurrences_push, occurrences};
use crate::workspace::Lease;

verus! {

/// The largest archive, in bytes, that the server accepts.
pub const MAX_ARCHIVE_LENGTH: u64 = 100_000_000;

/// How long the server waits for the next bytes of a request, in seconds.
/// The limit bounds the receiving phase and no other.
pub const RECEIVE_TIMEOUT_SECONDS: u64 = 300;

/// The phases of a connection.
#[derive(Clone, Copy, Debug, PartialEq, Eq, Structural)]
pub enum Phase {
    /// The connection was accepted; nothing has been read.
    Accepted,
    /// The request frame is being read.
    Receiving,
    /// The archive has arrived; a workspace is created and filled.
    Staged,
    /// The build tool is running against the workspace.
    Building,
    /// The artifact is being sent back.
    Responding,
    /// The workspace is being removed; the connection is as good as over.
    Closing,
    /// The connection is over.
    Closed,
}

/// What the caller reports back after carrying out an [`Action`].
#[derive(Clone, Copy, Debug, PartialEq, Eq, Structural)]
pub enum Event {
    /// The connection is set up and ready to be read.
    Ready,
    /// The request frame arrived whole; `length` is that of its payload.
    ArchiveReceived { length: u64 },
    /// The request frame broke the framing discipline.
    ReceiveFailed(ProtocolError),
    /// The workspace directory was created.
    WorkspaceAcquired,
    /// The archive was written into the workspace and unpacked there.
    ArchiveStaged,
    /// The build tool returned.  `exit_success` is its exit status,
    /// `artifact_present` whether the artifact file exists afterwards.
    BuildFinished { exit_success: bool, artifact_present: bool },
    /// The response frame was written and flushed.
    ArtifactSent,
    /// The workspace directory was removed.
    WorkspaceReleased,
    /// The action last ordered could not be carried out.
    Failed,
}

/// What the caller is to do next.
#[derive(Clone, Copy, Debug, PartialEq, Eq, Structural)]
pub enum Action {
    /// Prepare the connection: give it a correlation identifier and set
    /// the read timeout.
    Prepare,
    /// Read one frame whose payload is at most `max_length` bytes.
    ReceiveArchive { max_length: u64 },
    /// Create a fresh, uniquely named workspace directory.
    AcquireWorkspace,
    /// Write the archive into the workspace and unpack it there.
    StageArchive,
    /// Run the build tool against the workspace.
    RunBuild,
    /// Send the artifact as one frame.
    SendArtifact,
    /// Remove the workspace directory with all it holds.
    ReleaseWorkspace,
    /// Close the connection; nothing more is to be done.
    Close,
}

/// The state of a connection, as the contracts speak of it.
#[derive(Clone, Copy, Debug, PartialEq, Eq, Structural)]
pub struct ConnectionState {
    /// The phase the connection is in.
    pub phase: Phase,
    /// Where the connection's workspace stands.
    pub lease: Lease,
    /// The first error that occurred, if any.
    pub verdict: Option<RelayError>,
}

impl ConnectionState {
    /// The state of a connection that was just accepted.
    pub open spec fn initial() -> ConnectionState {
        ConnectionState { phase: Phase::Accepted, lease: Lease::Unclaimed, verdict: None }
    }

    /// The states that a connection can be in: phase, lease and verdict
    /// agree with one another.  In particular a workspace is held in the
    /// phases that work on it and in no other, and never once the
    /// connection is closed.
    pub open spec fn wf(self) -> bool {
        match self.phase {
            Phase::Accepted | Phase::Receiving => self.lease == Lease::Unclaimed
                && self.verdict is None,
            Phase::Staged => self.lease != Lease::Released && self.verdict is None,
            Phase::Building | Phase::Responding => self.lease == Lease::Held
                && self.verdict is None,
            Phase::Closing => self.lease == Lease::Released,
            Phase::Closed => self.lease != Lease::Held && (self.lease == Lease::Unclaimed
                ==> self.verdict is Some),
        }
    }

    /// The error that `event` amounts to when it does not let the
    /// connection go on.  A request that breaks the framing or announces
    /// too much is a protocol error; a workspace that cannot be created or
    /// removed is a resource error; a build tool that cannot be run, that
    /// fails or that leaves no artifact is an executor error; everything
    /// else is an I/O error.
    pub open spec fn failure_kind(self, event: Event) -> RelayError {
        match self.phase {
            Phase::Receiving => match event {
                Event::ReceiveFailed(p) => RelayError::Protocol(p),
                Event::ArchiveReceived { length } => RelayError::Protocol(
                    ProtocolError::Oversized { declared: length, limit: MAX_ARCHIVE_LENGTH },
                ),
                _ => RelayError::Io,
            },
            Phase::Staged => if self.lease == Lease::Held {
                RelayError::Io
            } else {
                RelayError::Resource
            },
            Phase::Building => RelayError::Executor,
            Phase::Closing => RelayError::Resource,
            _ => RelayError::Io,
        }
    }

    /// The state after a failure with error `error`: a workspace that is
    /// held is released before the connection closes.
    pub open spec fn abort(self, error: RelayError) -> ConnectionState {
        let verdict = if self.verdict is Some {
            self.verdict
        } else {
            Some(error)
        };
        if self.lease == Lease::Held {
            ConnectionState { phase: Phase::Closing, lease: Lease::Released, verdict }
        } else {
            ConnectionState { phase: Phase::Closed, lease: self.lease, verdict }
        }
    }

    /// Whether `event` is the report that this state waits for, and lets
    /// the connection go on.
    pub open spec fn advances(self, event: Event) -> bool {
        match (self.phase, event) {
            (Phase::Accepted, Event::Ready) => true,
            (Phase::Receiving, Event::ArchiveReceived { .. }) => admits(event),
            (Phase::Staged, Event::WorkspaceAcquired) => self.lease == Lease::Unclaimed,
            (Phase::Staged, Event::ArchiveStaged) => self.lease == Lease::Held,
            (Phase::Building, Event::BuildFinished { exit_success, artifact_present }) =>
                exit_success && artifact_present,
            (Phase::Responding, Event::ArtifactSent) => true,
            (Phase::Closing, Event::WorkspaceReleased) => true,
            _ => false,
        }
    }

    /// The action that a connection in this state waits to see carried out.
    pub open spec fn pending(self) -> Action {
        match self.phase {
            Phase::Accepted => Action::Prepare,
            Phase::Receiving => Action::ReceiveArchive { max_length: MAX_ARCHIVE_LENGTH },
            Phase::Staged => if self.lease == Lease::Held {
                Action::StageArchive
            } else {
                Action::AcquireWorkspace
            },
            Phase::Building => Action::RunBuild,
            Phase::Responding => Action::SendArtifact,
            Phase::Closing => Action::ReleaseWorkspace,
            Phase::Closed => Action::Close,
        }
    }

    /// Whether the connection ended with the artifact delivered and the
    /// workspace removed.
    pub open spec fn succeeded(self) -> bool {
        self.phase == Phase::Closed && self.verdict is None
    }

    /// The state that follows when the report that this state waits for
    /// has come.
    pub open spec fn advanced(self) -> ConnectionState {
        match self.phase {
            Phase::Accepted => ConnectionState { phase: Phase::Receiving, ..self },
            Phase::Receiving => ConnectionState { phase: Phase::Staged, ..self },
            Phase::Staged => if self.lease == Lease::Held {
                ConnectionState { phase: Phase::Building, ..self }
            } else {
                ConnectionState { lease: Lease::Held, ..self }
            },
            Phase::Building => ConnectionState { phase: Phase::Responding, ..self },
            Phase::Responding => ConnectionState {
                phase: Phase::Closing,
                lease: Lease::Released,
                ..self
            },
            _ => ConnectionState { phase: Phase::Closed, ..self },
        }
    }

    /// The state that follows when `event` is reported in this state.  The
    /// action that follows is the one that the new state waits for.
    pub open spec fn next(self, event: Event) -> ConnectionState {
        if self.phase == Phase::Closed {
            self
        } else if self.advances(event) {
            self.advanced()
        } else {
            self.abort(self.failure_kind(event))
        }
    }
}

/// One connection as the server handles it.
pub struct Connection {
    id: u128,
    state: ConnectionState,
}

impl View for Connection {
    type V = ConnectionState;

    closed spec fn view(&self) -> ConnectionState {
        self.state
    }
}

impl Connection {
    #[verifier::type_invariant]
    spec fn inv(self) -> bool {
        self.state.wf()
    }

    /// The correlation identifier of the connection.  It serves
    /// diagnostics and is no part of the protocol.
    pub closed spec fn correlation(&self) -> u128 {
        self.id
    }

    /// A connection that was just accepted, with the correlation
    /// identifier `id`.  It waits for [`Action::Prepare`].
    pub fn new(id: u128) -> (connection: Connection)
        ensures
            connection@ == ConnectionState::initial(),
            connection.correlation() == id,
    {
        Connection {
            id,
            state: ConnectionState { phase: Phase::Accepted, lease: Lease::Unclaimed, verdict: None },
        }
    }

    /// The correlation identifier of the connection.
    pub fn id(&self) -> (id: u128)
        ensures
            id == self.correlation(),
    {
        self.id
    }

    /// The name of the file that takes the output of the build tool for
    /// this connection.
    pub fn build_log_name(&self) -> (name: String)
        ensures
            name@ == simple_text(self.correlation()) + ".log"@,
    {
        log_file_name(self.id)
    }

    /// The state of the connection.
    pub fn state(&self) -> (state: ConnectionState)
        ensures
            state == self@,
            state.wf(),
    {
        proof {
            use_type_invariant(self);
        }
        self.state
    }

    /// The action that the connection waits to see carried out.
    pub fn pending(&self) -> (action: Action)
        ensures
            action == self@.pending(),
    {
        match self.state.phase {
            Phase::Accepted => Action::Prepare,
            Phase::Receiving => Action::ReceiveArchive { max_length: MAX_ARCHIVE_LENGTH },
            Phase::Staged => {
                if self.state.lease.is_held() {
                    Action::StageArchive
                } else {
                    Action::AcquireWorkspace
                }
            },
            Phase::Building => Action::RunBuild,
            Phase::Responding => Action::SendArtifact,
            Phase::Closing => Action::ReleaseWorkspace,
            Phase::Closed => Action::Close,
        }
    }

    /// Whether the connection is over.
    pub fn is_closed(&self) -> (closed: bool)
        ensures
            closed == (self@.phase == Phase::Closed),
    {
        match self.state.phase {
            Phase::Closed => true,
            _ => false,
        }
    }

    /// How the connection ended: `None` while it is not closed, then
    /// `Ok` if the artifact was delivered, else the first error.
    pub fn outcome(&self) -> (outcome: Option<Result<(), RelayError>>)
        ensures
            outcome is None <==> self@.phase != Phase::Closed,
            outcome == Some(Ok::<(), RelayError>(())) <==> self@.succeeded(),
            forall|e: RelayError|
                outcome == Some(Err::<(), RelayError>(e)) <==> self@.phase == Phase::Closed
                    && self@.verdict == Some(e),
    {
        match self.state.phase {
            Phase::Closed => match self.state.verdict {
                None => Some(Ok(())),
                Some(e) => Some(Err(e)),
            },
            _ => None,
        }
    }

    /// Takes the report of what happened to the pending action, moves the
    /// connection on and returns what is to be done next.
    pub fn step(&mut self, event: Event) -> (action: Action)
        ensures
            final(self)@ == old(self)@.next(event),
            final(self)@.wf(),
            final(self).correlation() == old(self).correlation(),
            action == final(self)@.pending(),
    {
        proof {
            use_type_invariant(&*self);
        }
        let state = self.state;
        let next = match (state.phase, event) {
            (Phase::Closed, _) => state,
            (Phase::Accepted, Event::Ready) => ConnectionState { phase: Phase::Receiving, ..state },
            (Phase::Receiving, Event::ArchiveReceived { length }) => {
                if length <= MAX_ARCHIVE_LENGTH {
                    ConnectionState { phase: Phase::Staged, ..state }
                } else {
                    let oversized = ProtocolError::Oversized {
                        declared: length,
                        limit: MAX_ARCHIVE_LENGTH,
                    };
                    Self::aborted(state, RelayError::Protocol(oversized))
                }
            },
            (Phase::Receiving, Event::ReceiveFailed(p)) => Self::aborted(
                state,
                RelayError::Protocol(p),
            ),
            (Phase::Staged, Event::WorkspaceAcquired) => {
                if state.lease.is_held() {
                    Self::aborted(state, RelayError::Io)
                } else {
                    ConnectionState { lease: state.lease.acquire(), ..state }
                }
            },
            (Phase::Staged, Event::ArchiveStaged) => {
                if state.lease.is_held() {
                    ConnectionState { phase: Phase::Building, ..state }
                } else {
                    Self::aborted(state, RelayError::Resource)
                }
            },
            (Phase::Staged, _) => {
                if state.lease.is_held() {
                    Self::aborted(state, RelayError::Io)
                } else {
                    Self::aborted(state, RelayError::Resource)
                }
            },
            (Phase::Building, Event::BuildFinished { exit_success: true, artifact_present: true }) => {
                ConnectionState { phase: Phase::Responding, ..state }
            },
            (Phase::Building, _) => Self::aborted(state, RelayError::Executor),
            (Phase::Responding, Event::ArtifactSent) => ConnectionState {
                phase: Phase::Closing,
                lease: state.lease.release(),
                ..state
            },
            (Phase::Closing, Event::WorkspaceReleased) => ConnectionState {
                phase: Phase::Closed,
                ..state
            },
            (Phase::Closing, _) => Self::aborted(state, RelayError::Resource),
            _ => Self::aborted(state, RelayError::Io),
        };
        self.state = next;
        self.pending()
    }

    /// The state after a failure with error `error`.
    fn aborted(state: ConnectionState, error: RelayError) -> (next: ConnectionState)
        ensures
            next == state.abort(error),
    {
        let verdict = match state.verdict {
            Some(first) => Some(first),
            None => Some(error),
        };
        if state.lease.is_held() {
            ConnectionState { phase: Phase::Closing, lease: state.lease.release(), verdict }
        } else {
            ConnectionState { phase: Phase::Closed, lease: state.lease, verdict }
        }
    }
}

/// Whether `event` reports a request frame of a length that the server
/// accepts.
pub open spec fn admits(event: Event) -> bool {
    match event {
        Event::ArchiveReceived { length } => length <= MAX_ARCHIVE_LENGTH,
        _ => false,
    }
}

/// Whether `events` reports a request frame that the server accepts.
pub open spec fn archive_admitted(events: Seq<Event>) -> bool {
    exists|i: int| 0 <= i < events.len() && admits(#[trigger] events[i])
}

/// Whether `events` reports a build that ended well and left its artifact.
pub open spec fn build_succeeded(events: Seq<Event>) -> bool {
    exists|i: int|
        0 <= i < events.len() && #[trigger] events[i] == (Event::BuildFinished {
            exit_success: true,
            artifact_present: true,
        })
}

impl ConnectionState {
    /// The state after `events` have been reported one after the other,
    /// starting in this state.
    pub open spec fn run(self, events: Seq<Event>) -> ConnectionState
        decreases events.len(),
    {
        if events.len() == 0 {
            self
        } else {
            self.run(events.drop_last()).next(events.last())
        }
    }

    /// The actions ordered in answer to `events`, one for each, starting in
    /// this state.
    pub open spec fn trace(self, events: Seq<Event>) -> Seq<Action>
        decreases events.len(),
    {
        if events.len() == 0 {
            Seq::empty()
        } else {
            self.trace(events.drop_last()).push(self.run(events).pending())
        }
    }
}

/// One step keeps the books straight: the state stays well-formed, a lease
/// never moves backwards, the removal of the workspace is ordered exactly
/// when a held lease is given up, a lease is only taken when the creation
/// of the workspace is reported, and a closed connection holds no
/// workspace.
pub proof fn lemma_step_discipline(state: ConnectionState, event: Event)
    requires
        state.wf(),
    ensures
        state.next(event).wf(),
        state.lease.rank() <= state.next(event).lease.rank(),
        state.phase != Phase::Closing && state.next(event).pending() == Action::ReleaseWorkspace
            <==> state.lease == Lease::Held && state.next(event).lease == Lease::Released,
        state.next(event).lease == Lease::Held && state.lease != Lease::Held ==> event
            == Event::WorkspaceAcquired,
        state.next(event).phase == Phase::Closed ==> state.next(event).lease != Lease::Held,
{
}

/// A failure in any phase that holds a workspace orders its removal before
/// anything else, and a failure in any other phase closes the connection at
/// once.
pub proof fn lemma_failure_releases(state: ConnectionState, event: Event)
    requires
        state.wf(),
        state.phase != Phase::Closed,
        !state.advances(event),
    ensures
        state.next(event).verdict is Some,
        state.lease == Lease::Held ==> state.next(event).phase == Phase::Closing && state.next(
            event,
        ).lease == Lease::Released && state.next(event).pending() == Action::ReleaseWorkspace,
        state.lease != Lease::Held ==> state.next(event).phase == Phase::Closed && state.next(
            event,
        ).pending() == Action::Close,
{
}

/// A frame that announces more than the server accepts, or that breaks the
/// framing in another way, closes the connection with a protocol error
/// before any workspace exists.
pub proof fn lemma_bad_frame_closes(event: Event)
    requires
        event is ReceiveFailed || (event is ArchiveReceived && !admits(event)),
    ensures
        ({
            let state = ConnectionState::initial().next(Event::Ready);
            let closed = state.next(event);
            &&& state.phase == Phase::Receiving
            &&& closed.pending() == Action::Close
            &&& closed.phase == Phase::Closed
            &&& closed.lease == Lease::Unclaimed
            &&& closed.verdict matches Some(RelayError::Protocol(_))
        }),
{
}

/// A build tool that fails, or that leaves no artifact, ends the
/// connection with an executor error: the removal of the workspace is
/// ordered next and no response is sent.
pub proof fn lemma_failed_build_sends_nothing(state: ConnectionState, event: Event)
    requires
        state.wf(),
        state.phase == Phase::Building,
        event != (Event::BuildFinished { exit_success: true, artifact_present: true }),
    ensures
        state.next(event).pending() == Action::ReleaseWorkspace,
        state.next(event).verdict == Some(RelayError::Executor),
        state.next(event).next(Event::WorkspaceReleased).phase == Phase::Closed,
        state.next(event).next(Event::WorkspaceReleased).lease == Lease::Released,
{
}

/// However a connection is driven, its state stays well-formed.
pub proof fn lemma_run_wf(events: Seq<Event>)
    ensures
        ConnectionState::initial().run(events).wf(),
    decreases events.len(),
{
    if events.len() > 0 {
        lemma_run_wf(events.drop_last());
        lemma_step_discipline(ConnectionState::initial().run(events.drop_last()), events.last());
    }
}

/// The last step of a run, spelled out.
proof fn lemma_last_step(events: Seq<Event>, action: Action)
    requires
        events.len() > 0,
    ensures
        ({
            let start = ConnectionState::initial();
            let state = start.run(events.drop_last());
            &&& state.wf()
            &&& start.run(events) == state.next(events.last())
            &&& start.run(events).wf()
            &&& occurrences(start.trace(events), action) == occurrences(
                start.trace(events.drop_last()),
                action,
            ) + if state.next(events.last()).pending() == action {
                1nat
            } else {
                0nat
            }
        }),
{
    let start = ConnectionState::initial();
    let state = start.run(events.drop_last());
    lemma_run_wf(events.drop_last());
    lemma_run_wf(events);
    lemma_occurrences_push(
        start.trace(events.drop_last()),
        state.next(events.last()).pending(),
        action,
    );
}

/// What was reported stays reported when more events follow.
proof fn lemma_reports_stay(events: Seq<Event>)
    requires
        events.len() > 0,
    ensures
        archive_admitted(events.drop_last()) ==> archive_admitted(events),
        build_succeeded(events.drop_last()) ==> build_succeeded(events),
        admits(events.last()) ==> archive_admitted(events),
        events.last() == (Event::BuildFinished { exit_success: true, artifact_present: true })
            ==> build_succeeded(events),
{
    let earlier = events.drop_last();
    if archive_admitted(earlier) {
        let i = choose|i: int| 0 <= i < earlier.len() && admits(#[trigger] earlier[i]);
        assert(events[i] == earlier[i]);
    }
    if build_succeeded(earlier) {
        let i = choose|i: int|
            0 <= i < earlier.len() && #[trigger] earlier[i] == (Event::BuildFinished {
                exit_success: true,
                artifact_present: true,
            });
        assert(events[i] == earlier[i]);
    }
    assert(events[events.len() - 1] == events.last());
}

/// How far a run has come tells what was reported and what was ordered: a
/// connection is past the receiving phase only if a request frame was
/// admitted, and is responding, or over without an error, only if the build
/// succeeded; and each action is ordered once at most, while the connection
/// is in the phase that it belongs to.
proof fn lemma_run_in_turn(events: Seq<Event>)
    ensures
        ({
            let end = ConnectionState::initial().run(events);
            let actions = ConnectionState::initial().trace(events);
            let staged = end.phase == Phase::Staged || end.phase == Phase::Building || end.phase
                == Phase::Responding || end.lease != Lease::Unclaimed;
            let answered = end.phase == Phase::Responding || ((end.phase == Phase::Closing
                || end.phase == Phase::Closed) && end.verdict is None);
            &&& staged ==> archive_admitted(events)
            &&& answered ==> build_succeeded(events)
            &&& occurrences(actions, Action::AcquireWorkspace) <= 1
            &&& occurrences(actions, Action::AcquireWorkspace) > 0 ==> archive_admitted(events)
            &&& end.phase == Phase::Accepted || end.phase == Phase::Receiving ==> occurrences(
                actions,
                Action::AcquireWorkspace,
            ) == 0
            &&& occurrences(actions, Action::StageArchive) == if end.lease == Lease::Unclaimed {
                0nat
            } else {
                1nat
            }
            &&& occurrences(actions, Action::RunBuild) <= 1
            &&& occurrences(actions, Action::RunBuild) > 0 ==> end.lease != Lease::Unclaimed
            &&& end.phase == Phase::Staged ==> occurrences(actions, Action::RunBuild) == 0
            &&& occurrences(actions, Action::SendArtifact) <= 1
            &&& occurrences(actions, Action::SendArtifact) > 0 ==> build_succeeded(events)
                && archive_admitted(events)
            &&& answered ==> occurrences(actions, Action::SendArtifact) == 1
            &&& end.phase == Phase::Accepted || end.phase == Phase::Receiving || end.phase
                == Phase::Staged || end.phase == Phase::Building ==> occurrences(
                actions,
                Action::SendArtifact,
            ) == 0
            &&& occurrences(actions, Action::ReleaseWorkspace) == if end.lease == Lease::Released {
                1nat
            } else {
                0nat
            }
        }),
    decreases events.len(),
{
    if events.len() > 0 {
        let earlier = events.drop_last();
        lemma_run_in_turn(earlier);
        lemma_reports_stay(events);
        lemma_last_step(events, Action::AcquireWorkspace);
        lemma_last_step(events, Action::StageArchive);
        lemma_last_step(events, Action::RunBuild);
        lemma_last_step(events, Action::SendArtifact);
        lemma_last_step(events, Action::ReleaseWorkspace);
    }
}

/// However a connection is driven, the workspace is created at most once
/// and its removal is ordered exactly once if it was created and not at all
/// if it was not.  Once the connection is closed, no workspace is held.
pub proof fn lemma_workspace_released_once(events: Seq<Event>)
    ensures
        ({
            let end = ConnectionState::initial().run(events);
            let actions = ConnectionState::initial().trace(events);
            &&& occurrences(actions, Action::AcquireWorkspace) <= 1
            &&& occurrences(actions, Action::StageArchive) == if end.lease == Lease::Unclaimed {
                0nat
            } else {
                1nat
            }
            &&& occurrences(actions, Action::ReleaseWorkspace) == if end.lease == Lease::Released {
                1nat
            } else {
                0nat
            }
            &&& end.phase == Phase::Closed ==> end.lease != Lease::Held
        }),
{
    lemma_run_in_turn(events);
    lemma_run_wf(events);
}

/// However a connection is driven, nothing is done out of turn: a workspace
/// is created and the build tool is run only after a request frame of
/// admissible length has arrived whole, and the artifact is sent only after
/// the build tool has succeeded and left its artifact, and only once.
pub proof fn lemma_nothing_out_of_turn(events: Seq<Event>)
    ensures
        ({
            let actions = ConnectionState::initial().trace(events);
            &&& occurrences(actions, Action::AcquireWorkspace) > 0 ==> archive_admitted(events)
            &&& occurrences(actions, Action::RunBuild) > 0 ==> archive_admitted(events)
            &&& occurrences(actions, Action::SendArtifact) > 0 ==> archive_admitted(events)
                && build_succeeded(events)
            &&& occurrences(actions, Action::RunBuild) <= 1
            &&& occurrences(actions, Action::SendArtifact) <= 1
        }),
{
    lemma_run_in_turn(events);
    lemma_run_wf(events);
}

} // verus!
