//! The client's side of one submission.
//!
//! A session checks that the project has its manifest marker, packs the
//! project into an archive inside a scratch directory, sends the archive as
//! one frame, receives the artifact as one frame and writes it out.  No
//! step is ever tried twice: the first failure ends the session, after the
//! scratch directory has been removed.  The work itself is the caller's;
//! this module decides what comes next.  The caller starts with
//! [`ClientSession::new`], reports what happened with
//! [`ClientSession::step`], and carries out the [`SessionAction`] it gets
//! back, until that action is [`SessionAction::Finish`].

use vstd::prelude::*;
use vstd::string::StringExecFns;
use crate::error::{ProtocolError, RelayError};
use crate::history::{lemma_occurrences_push, occurrences};
use crate::workspace::Lease;

verus! {

/// The largest artifact, in bytes, that the client accepts.  It equals the
/// largest archive that the server accepts.
pub const MAX_ARTIFACT_LENGTH: u64 = 100_000_000;

/// What a session says of a directory that lacks the manifest marker:
/// the directory in single quotes, and that it is no valid project.
pub open spec fn invalid_project_text(source_folder: Seq<char>) -> Seq<char> {
    "'"@ + source_folder + "' is not a valid SPTCloud project"@
}

/// The message of the error that ends a session on a directory without
/// the manifest marker.
pub fn invalid_project_message(source_folder: &str) -> (message: String)
    ensures
        message@ == invalid_project_text(source_folder@),
{
    String::from_str("'").concat(source_folder).concat("' is not a valid SPTCloud project")
}

/// The phases of a session.
#[derive(Clone, Copy, Debug, PartialEq, Eq, Structural)]
pub enum SessionPhase {
    /// The project directory is looked at.
    Validating,
    /// The scratch directory is created.
    Preparing,
    /// The project is packed into an archive.
    Packing,
    /// The connection to the server is opened.
    Connecting,
    /// The request frame is sent.
    Sending,
    /// The response frame is read.
    Receiving,
    /// The artifact is written to the output directory.
    Writing,
    /// The scratch directory is removed; the session is as good as over.
    Closing,
    /// The session is over.
    Closed,
}

/// What the caller reports back after carrying out a [`SessionAction`].
#[derive(Clone, Copy, Debug, PartialEq, Eq, Structural)]
pub enum SessionEvent {
    /// The manifest marker exists at the root of the project.
    ManifestFound,
    /// The manifest marker is missing or cannot be opened.
    ManifestMissing,
    /// The scratch directory was created.
    ScratchAcquired,
    /// The archive was built.
    Packed,
    /// The archiver refused the project or failed.
    PackFailed(RelayError),
    /// The connection is open.
    Connected,
    /// The request frame was written and flushed.
    ArchiveSent,
    /// The response frame arrived whole; `length` is that of its payload.
    ArtifactReceived { length: u64 },
    /// The response frame broke the framing discipline.
    ReceiveFailed(ProtocolError),
    /// The artifact was written out.
    ArtifactWritten,
    /// The scratch directory was removed.
    ScratchReleased,
    /// The action last ordered could not be carried out.
    Failed,
}

/// What the caller is to do next.
#[derive(Clone, Copy, Debug, PartialEq, Eq, Structural)]
pub enum SessionAction {
    /// Look for the manifest marker at the root of the project.
    CheckManifest,
    /// Create a fresh scratch directory.
    AcquireScratch,
    /// Walk the project and pack it into an archive in the scratch
    /// directory.
    PackProject,
    /// Open a connection to the server.
    Connect,
    /// Send the archive as one frame and flush.
    SendArchive,
    /// Read one frame whose payload is at most `max_length` bytes.
    ReceiveArtifact { max_length: u64 },
    /// Create the output directory if it is missing and write the artifact
    /// into it.
    WriteArtifact,
    /// Remove the scratch directory with all it holds.
    ReleaseScratch,
    /// Report the outcome; nothing more is to be done.
    Finish,
}

/// The state of a session, as the contracts speak of it.
#[derive(Clone, Copy, Debug, PartialEq, Eq, Structural)]
pub struct SessionState {
    /// The phase the session is in.
    pub phase: SessionPhase,
    /// Where the session's scratch directory stands.
    pub lease: Lease,
    /// The first error that occurred, if any.
    pub verdict: Option<RelayError>,
}

/// Whether `event` reports an artifact of a length that the client accepts.
pub open spec fn accepts(event: SessionEvent) -> bool {
    match event {
        SessionEvent::ArtifactReceived { length } => length <= MAX_ARTIFACT_LENGTH,
        _ => false,
    }
}

impl SessionState {
    /// The state of a session that has not begun.
    pub open spec fn initial() -> SessionState {
        SessionState { phase: SessionPhase::Validating, lease: Lease::Unclaimed, verdict: None }
    }

    /// The states that a session can be in: phase, lease and verdict agree
    /// with one another.  A scratch directory is held in the phases that
    /// work with it and in no other, and never once the session is closed.
    pub open spec fn wf(self) -> bool {
        match self.phase {
            SessionPhase::Validating | SessionPhase::Preparing => self.lease == Lease::Unclaimed
                && self.verdict is None,
            SessionPhase::Closing => self.lease == Lease::Released,
            SessionPhase::Closed => self.lease != Lease::Held && (self.lease == Lease::Unclaimed
                ==> self.verdict is Some),
            _ => self.lease == Lease::Held && self.verdict is None,
        }
    }

    /// The action that a session in this state waits to see carried out.
    pub open spec fn pending(self) -> SessionAction {
        match self.phase {
            SessionPhase::Validating => SessionAction::CheckManifest,
            SessionPhase::Preparing => SessionAction::AcquireScratch,
            SessionPhase::Packing => SessionAction::PackProject,
            SessionPhase::Connecting => SessionAction::Connect,
            SessionPhase::Sending => SessionAction::SendArchive,
            SessionPhase::Receiving => SessionAction::ReceiveArtifact {
                max_length: MAX_ARTIFACT_LENGTH,
            },
            SessionPhase::Writing => SessionAction::WriteArtifact,
            SessionPhase::Closing => SessionAction::ReleaseScratch,
            SessionPhase::Closed => SessionAction::Finish,
        }
    }

    /// Whether the session ended with the artifact written out and the
    /// scratch directory removed.
    pub open spec fn succeeded(self) -> bool {
        self.phase == SessionPhase::Closed && self.verdict is None
    }

    /// Whether `event` is the report that this state waits for, and lets
    /// the session go on.
    pub open spec fn advances(self, event: SessionEvent) -> bool {
        match (self.phase, event) {
            (SessionPhase::Validating, SessionEvent::ManifestFound) => true,
            (SessionPhase::Preparing, SessionEvent::ScratchAcquired) => true,
            (SessionPhase::Packing, SessionEvent::Packed) => true,
            (SessionPhase::Connecting, SessionEvent::Connected) => true,
            (SessionPhase::Sending, SessionEvent::ArchiveSent) => true,
            (SessionPhase::Receiving, SessionEvent::ArtifactReceived { .. }) => accepts(event),
            (SessionPhase::Writing, SessionEvent::ArtifactWritten) => true,
            (SessionPhase::Closing, SessionEvent::ScratchReleased) => true,
            _ => false,
        }
    }

    /// The state that follows when the report that this state waits for
    /// has come.
    pub open spec fn advanced(self) -> SessionState {
        match self.phase {
            SessionPhase::Validating => SessionState { phase: SessionPhase::Preparing, ..self },
            SessionPhase::Preparing => SessionState {
                phase: SessionPhase::Packing,
                lease: Lease::Held,
                ..self
            },
            SessionPhase::Packing => SessionState { phase: SessionPhase::Connecting, ..self },
            SessionPhase::Connecting => SessionState { phase: SessionPhase::Sending, ..self },
            SessionPhase::Sending => SessionState { phase: SessionPhase::Receiving, ..self },
            SessionPhase::Receiving => SessionState { phase: SessionPhase::Writing, ..self },
            SessionPhase::Writing => SessionState {
                phase: SessionPhase::Closing,
                lease: Lease::Released,
                ..self
            },
            _ => SessionState { phase: SessionPhase::Closed, ..self },
        }
    }

    /// The error that `event` amounts to when it does not let the session
    /// go on.  A project without its manifest marker is invalid input, and
    /// so is one that the archiver refuses; a scratch directory that
    /// cannot be created or removed is a resource error; a response that
    /// breaks the framing or announces too much is a protocol error;
    /// everything else is an I/O error.
    pub open spec fn failure_kind(self, event: SessionEvent) -> RelayError {
        match self.phase {
            SessionPhase::Validating => RelayError::InvalidInput,
            SessionPhase::Preparing | SessionPhase::Closing => RelayError::Resource,
            SessionPhase::Packing => match event {
                SessionEvent::PackFailed(RelayError::InvalidInput) => RelayError::InvalidInput,
                _ => RelayError::Io,
            },
            SessionPhase::Receiving => match event {
                SessionEvent::ReceiveFailed(p) => RelayError::Protocol(p),
                SessionEvent::ArtifactReceived { length } => RelayError::Protocol(
                    ProtocolError::Oversized { declared: length, limit: MAX_ARTIFACT_LENGTH },
                ),
                _ => RelayError::Io,
            },
            _ => RelayError::Io,
        }
    }

    /// The state after a failure with error `error`: a scratch directory
    /// that is held is released before the session closes.
    pub open spec fn abort(self, error: RelayError) -> SessionState {
        let verdict = if self.verdict is Some {
            self.verdict
        } else {
            Some(error)
        };
        if self.lease == Lease::Held {
            SessionState { phase: SessionPhase::Closing, lease: Lease::Released, verdict }
        } else {
            SessionState { phase: SessionPhase::Closed, lease: self.lease, verdict }
        }
    }

    /// The state that follows when `event` is reported in this state.  The
    /// action that follows is the one that the new state waits for.
    pub open spec fn next(self, event: SessionEvent) -> SessionState {
        if self.phase == SessionPhase::Closed {
            self
        } else if self.advances(event) {
            self.advanced()
        } else {
            self.abort(self.failure_kind(event))
        }
    }
}

/// One submission as the client runs it.
pub struct ClientSession {
    state: SessionState,
}

impl View for ClientSession {
    type V = SessionState;

    closed spec fn view(&self) -> SessionState {
        self.state
    }
}

impl ClientSession {
    #[verifier::type_invariant]
    spec fn inv(self) -> bool {
        self.state.wf()
    }

    /// A session that has not begun.  It waits for
    /// [`SessionAction::CheckManifest`].
    pub fn new() -> (session: ClientSession)
        ensures
            session@ == SessionState::initial(),
    {
        ClientSession {
            state: SessionState {
                phase: SessionPhase::Validating,
                lease: Lease::Unclaimed,
                verdict: None,
            },
        }
    }

    /// The state of the session.
    pub fn state(&self) -> (state: SessionState)
        ensures
            state == self@,
            state.wf(),
    {
        proof {
            use_type_invariant(self);
        }
        self.state
    }

    /// The action that the session waits to see carried out.
    pub fn pending(&self) -> (action: SessionAction)
        ensures
            action == self@.pending(),
    {
        match self.state.phase {
            SessionPhase::Validating => SessionAction::CheckManifest,
            SessionPhase::Preparing => SessionAction::AcquireScratch,
            SessionPhase::Packing => SessionAction::PackProject,
            SessionPhase::Connecting => SessionAction::Connect,
            SessionPhase::Sending => SessionAction::SendArchive,
            SessionPhase::Receiving => SessionAction::ReceiveArtifact {
                max_length: MAX_ARTIFACT_LENGTH,
            },
            SessionPhase::Writing => SessionAction::WriteArtifact,
            SessionPhase::Closing => SessionAction::ReleaseScratch,
            SessionPhase::Closed => SessionAction::Finish,
        }
    }

    /// Whether the session is over.
    pub fn is_closed(&self) -> (closed: bool)
        ensures
            closed == (self@.phase == SessionPhase::Closed),
    {
        match self.state.phase {
            SessionPhase::Closed => true,
            _ => false,
        }
    }

    /// How the session ended: `None` while it is not closed, then `Ok` if
    /// the artifact was written out, else the first error.
    pub fn outcome(&self) -> (outcome: Option<Result<(), RelayError>>)
        ensures
            outcome is None <==> self@.phase != SessionPhase::Closed,
            outcome == Some(Ok::<(), RelayError>(())) <==> self@.succeeded(),
            forall|e: RelayError|
                outcome == Some(Err::<(), RelayError>(e)) <==> self@.phase == SessionPhase::Closed
                    && self@.verdict == Some(e),
    {
        match self.state.phase {
            SessionPhase::Closed => match self.state.verdict {
                None => Some(Ok(())),
                Some(e) => Some(Err(e)),
            },
            _ => None,
        }
    }

    /// Takes the report of what happened to the pending action, moves the
    /// session on and returns what is to be done next.
    pub fn step(&mut self, event: SessionEvent) -> (action: SessionAction)
        ensures
            final(self)@ == old(self)@.next(event),
            final(self)@.wf(),
            action == final(self)@.pending(),
    {
        proof {
            use_type_invariant(&*self);
        }
        let state = self.state;
        let next = match (state.phase, event) {
            (SessionPhase::Closed, _) => state,
            (SessionPhase::Validating, SessionEvent::ManifestFound) => SessionState {
                phase: SessionPhase::Preparing,
                ..state
            },
            (SessionPhase::Validating, _) => Self::aborted(state, RelayError::InvalidInput),
            (SessionPhase::Preparing, SessionEvent::ScratchAcquired) => SessionState {
                phase: SessionPhase::Packing,
                lease: state.lease.acquire(),
                ..state
            },
            (SessionPhase::Preparing, _) => Self::aborted(state, RelayError::Resource),
            (SessionPhase::Packing, SessionEvent::Packed) => SessionState {
                phase: SessionPhase::Connecting,
                ..state
            },
            (SessionPhase::Packing, SessionEvent::PackFailed(RelayError::InvalidInput)) => {
                Self::aborted(state, RelayError::InvalidInput)
            },
            (SessionPhase::Connecting, SessionEvent::Connected) => SessionState {
                phase: SessionPhase::Sending,
                ..state
            },
            (SessionPhase::Sending, SessionEvent::ArchiveSent) => SessionState {
                phase: SessionPhase::Receiving,
                ..state
            },
            (SessionPhase::Receiving, SessionEvent::ArtifactReceived { length }) => {
                if length <= MAX_ARTIFACT_LENGTH {
                    SessionState { phase: SessionPhase::Writing, ..state }
                } else {
                    let oversized = ProtocolError::Oversized {
                        declared: length,
                        limit: MAX_ARTIFACT_LENGTH,
                    };
                    Self::aborted(state, RelayError::Protocol(oversized))
                }
            },
            (SessionPhase::Receiving, SessionEvent::ReceiveFailed(p)) => Self::aborted(
                state,
                RelayError::Protocol(p),
            ),
            (SessionPhase::Writing, SessionEvent::ArtifactWritten) => SessionState {
                phase: SessionPhase::Closing,
                lease: state.lease.release(),
                ..state
            },
            (SessionPhase::Closing, SessionEvent::ScratchReleased) => SessionState {
                phase: SessionPhase::Closed,
                ..state
            },
            (SessionPhase::Closing, _) => Self::aborted(state, RelayError::Resource),
            _ => Self::aborted(state, RelayError::Io),
        };
        self.state = next;
        self.pending()
    }

    /// The state after a failure with error `error`.
    fn aborted(state: SessionState, error: RelayError) -> (next: SessionState)
        ensures
            next == state.abort(error),
    {
        let verdict = match state.verdict {
            Some(first) => Some(first),
            None => Some(error),
        };
        if state.lease.is_held() {
            SessionState { phase: SessionPhase::Closing, lease: state.lease.release(), verdict }
        } else {
            SessionState { phase: SessionPhase::Closed, lease: state.lease, verdict }
        }
    }
}

/// Whether `events` reports that the manifest marker was found.
pub open spec fn manifest_found(events: Seq<SessionEvent>) -> bool {
    exists|i: int| 0 <= i < events.len() && #[trigger] events[i] == SessionEvent::ManifestFound
}

/// Whether `events` reports an artifact that the client accepts.
pub open spec fn artifact_accepted(events: Seq<SessionEvent>) -> bool {
    exists|i: int| 0 <= i < events.len() && accepts(#[trigger] events[i])
}

impl SessionState {
    /// The state after `events` have been reported one after the other,
    /// starting in this state.
    pub open spec fn run(self, events: Seq<SessionEvent>) -> SessionState
        decreases events.len(),
    {
        if events.len() == 0 {
            self
        } else {
            self.run(events.drop_last()).next(events.last())
        }
    }

    /// The actions ordered in answer to `events`, one for each, starting in
    /// this state.
    pub open spec fn trace(self, events: Seq<SessionEvent>) -> Seq<SessionAction>
        decreases events.len(),
    {
        if events.len() == 0 {
            Seq::empty()
        } else {
            self.trace(events.drop_last()).push(self.run(events).pending())
        }
    }
}

/// One step keeps the books straight: the state stays well-formed, a lease
/// never moves backwards, the removal of the scratch directory is ordered
/// exactly when a held lease is given up, a lease is only taken when the
/// creation of the directory is reported, and a closed session holds no
/// scratch directory.
pub proof fn lemma_session_discipline(state: SessionState, event: SessionEvent)
    requires
        state.wf(),
    ensures
        state.next(event).wf(),
        state.lease.rank() <= state.next(event).lease.rank(),
        state.phase != SessionPhase::Closing && state.next(event).pending()
            == SessionAction::ReleaseScratch <==> state.lease == Lease::Held && state.next(
            event,
        ).lease == Lease::Released,
        state.next(event).lease == Lease::Held && state.lease != Lease::Held ==> event
            == SessionEvent::ScratchAcquired,
        state.next(event).phase == SessionPhase::Closed ==> state.next(event).lease
            != Lease::Held,
{
}

/// A project without its manifest marker ends the session at once as
/// invalid input: nothing was created, nothing is sent, and the next
/// action is to report the outcome.
pub proof fn lemma_missing_manifest_closes(event: SessionEvent)
    requires
        event != SessionEvent::ManifestFound,
    ensures
        ({
            let closed = SessionState::initial().next(event);
            &&& closed.phase == SessionPhase::Closed
            &&& closed.verdict == Some(RelayError::InvalidInput)
            &&& closed.lease == Lease::Unclaimed
            &&& closed.pending() == SessionAction::Finish
        }),
{
}

/// The first failure ends the session: whatever is reported but the one
/// thing that the session waits for, the session closes with an error,
/// after the removal of the scratch directory if one is held, and orders
/// nothing else.
pub proof fn lemma_no_retry(state: SessionState, event: SessionEvent)
    requires
        state.wf(),
        state.phase != SessionPhase::Closed,
        !state.advances(event),
    ensures
        state.next(event).verdict is Some,
        state.lease == Lease::Held ==> state.next(event).phase == SessionPhase::Closing
            && state.next(event).pending() == SessionAction::ReleaseScratch,
        state.lease != Lease::Held ==> state.next(event).phase == SessionPhase::Closed
            && state.next(event).pending() == SessionAction::Finish,
{
}

/// However a session is driven, its state stays well-formed.
pub proof fn lemma_session_wf(events: Seq<SessionEvent>)
    ensures
        SessionState::initial().run(events).wf(),
    decreases events.len(),
{
    if events.len() > 0 {
        lemma_session_wf(events.drop_last());
        lemma_session_discipline(SessionState::initial().run(events.drop_last()), events.last());
    }
}

/// The last step of a run, spelled out.
proof fn lemma_last_step(events: Seq<SessionEvent>, action: SessionAction)
    requires
        events.len() > 0,
    ensures
        ({
            let start = SessionState::initial();
            let state = start.run(events.drop_last());
            &&& state.wf()
            &&& start.run(events) == state.next(events.last())
            &&& start.run(events).wf()
            &&& occurrences(start.trace(events), action) == occurrences(
                start.trace(events.drop_last()),
                action,
            ) + if state.next(events.last()).pending() == action {
                1nat
            } else {
                0nat
            }
        }),
{
    let start = SessionState::initial();
    let state = start.run(events.drop_last());
    lemma_session_wf(events.drop_last());
    lemma_session_wf(events);
    lemma_occurrences_push(
        start.trace(events.drop_last()),
        state.next(events.last()).pending(),
        action,
    );
}

/// What was reported stays reported when more events follow.
proof fn lemma_reports_stay(events: Seq<SessionEvent>)
    requires
        events.len() > 0,
    ensures
        manifest_found(events.drop_last()) ==> manifest_found(events),
        artifact_accepted(events.drop_last()) ==> artifact_accepted(events),
        events.last() == SessionEvent::ManifestFound ==> manifest_found(events),
        accepts(events.last()) ==> artifact_accepted(events),
{
    let earlier = events.drop_last();
    if manifest_found(earlier) {
        let i = choose|i: int|
            0 <= i < earlier.len() && #[trigger] earlier[i] == SessionEvent::ManifestFound;
        assert(events[i] == earlier[i]);
    }
    if artifact_accepted(earlier) {
        let i = choose|i: int| 0 <= i < earlier.len() && accepts(#[trigger] earlier[i]);
        assert(events[i] == earlier[i]);
    }
    assert(events[events.len() - 1] == events.last());
}

/// The place of a phase in the order in which a session passes through
/// them.
pub open spec fn progress(phase: SessionPhase) -> nat {
    match phase {
        SessionPhase::Validating => 0,
        SessionPhase::Preparing => 1,
        SessionPhase::Packing => 2,
        SessionPhase::Connecting => 3,
        SessionPhase::Sending => 4,
        SessionPhase::Receiving => 5,
        SessionPhase::Writing => 6,
        SessionPhase::Closing => 7,
        SessionPhase::Closed => 8,
    }
}

/// How far a run has come tells what was reported and what was ordered.
proof fn lemma_run_in_turn(events: Seq<SessionEvent>)
    ensures
        ({
            let end = SessionState::initial().run(events);
            let actions = SessionState::initial().trace(events);
            let ahead = progress(end.phase);
            &&& (1 <= ahead <= 6 || end.lease != Lease::Unclaimed) ==> manifest_found(events)
            &&& (ahead == 6 || (ahead >= 7 && end.verdict is None)) ==> artifact_accepted(events)
            &&& occurrences(actions, SessionAction::AcquireScratch) <= 1
            &&& ahead == 0 ==> occurrences(actions, SessionAction::AcquireScratch) == 0
            &&& occurrences(actions, SessionAction::AcquireScratch) > 0 ==> manifest_found(events)
            &&& occurrences(actions, SessionAction::PackProject) == if end.lease
                == Lease::Unclaimed {
                0nat
            } else {
                1nat
            }
            &&& occurrences(actions, SessionAction::Connect) <= 1
            &&& ahead <= 2 ==> occurrences(actions, SessionAction::Connect) == 0
            &&& 3 <= ahead <= 6 ==> occurrences(actions, SessionAction::Connect) == 1
            &&& occurrences(actions, SessionAction::Connect) > 0 ==> end.lease != Lease::Unclaimed
            &&& occurrences(actions, SessionAction::SendArchive) <= 1
            &&& ahead <= 3 ==> occurrences(actions, SessionAction::SendArchive) == 0
            &&& 4 <= ahead <= 6 ==> occurrences(actions, SessionAction::SendArchive) == 1
            &&& occurrences(actions, SessionAction::SendArchive) > 0 ==> occurrences(
                actions,
                SessionAction::Connect,
            ) > 0
            &&& occurrences(actions, SessionAction::WriteArtifact) <= 1
            &&& ahead <= 5 ==> occurrences(actions, SessionAction::WriteArtifact) == 0
            &&& occurrences(actions, SessionAction::WriteArtifact) > 0 ==> artifact_accepted(
                events,
            ) && occurrences(actions, SessionAction::SendArchive) > 0
            &&& occurrences(actions, SessionAction::ReleaseScratch) == if end.lease
                == Lease::Released {
                1nat
            } else {
                0nat
            }
        }),
    decreases events.len(),
{
    if events.len() > 0 {
        let earlier = events.drop_last();
        lemma_run_in_turn(earlier);
        lemma_reports_stay(events);
        lemma_last_step(events, SessionAction::AcquireScratch);
        lemma_last_step(events, SessionAction::PackProject);
        lemma_last_step(events, SessionAction::Connect);
        lemma_last_step(events, SessionAction::SendArchive);
        lemma_last_step(events, SessionAction::WriteArtifact);
        lemma_last_step(events, SessionAction::ReleaseScratch);
    }
}

/// However a session is driven, the scratch directory is created at most
/// once and its removal is ordered exactly once if it was created and not
/// at all if it was not.  Once the session is closed, no scratch directory
/// is held.
pub proof fn lemma_scratch_released_once(events: Seq<SessionEvent>)
    ensures
        ({
            let end = SessionState::initial().run(events);
            let actions = SessionState::initial().trace(events);
            &&& occurrences(actions, SessionAction::AcquireScratch) <= 1
            &&& occurrences(actions, SessionAction::PackProject) == if end.lease
                == Lease::Unclaimed {
                0nat
            } else {
                1nat
            }
            &&& occurrences(actions, SessionAction::ReleaseScratch) == if end.lease
                == Lease::Released {
                1nat
            } else {
                0nat
            }
            &&& end.phase == SessionPhase::Closed ==> end.lease != Lease::Held
        }),
{
    lemma_run_in_turn(events);
    lemma_session_wf(events);
}

/// However a session is driven, nothing is tried twice and nothing is done
/// out of turn: nothing is created and no connection is opened unless the
/// manifest marker was found, the archive is sent only over a connection
/// that was opened, and the artifact is written out only after the request
/// was sent and a response of admissible length has arrived whole.
pub proof fn lemma_session_in_turn(events: Seq<SessionEvent>)
    ensures
        ({
            let actions = SessionState::initial().trace(events);
            &&& occurrences(actions, SessionAction::AcquireScratch) <= 1
            &&& occurrences(actions, SessionAction::Connect) <= 1
            &&& occurrences(actions, SessionAction::SendArchive) <= 1
            &&& occurrences(actions, SessionAction::WriteArtifact) <= 1
            &&& occurrences(actions, SessionAction::AcquireScratch) > 0 ==> manifest_found(events)
            &&& occurrences(actions, SessionAction::Connect) > 0 ==> manifest_found(events)
            &&& occurrences(actions, SessionAction::SendArchive) > 0 ==> occurrences(
                actions,
                SessionAction::Connect,
            ) > 0
            &&& occurrences(actions, SessionAction::WriteArtifact) > 0 ==> artifact_accepted(
                events,
            ) && occurrences(actions, SessionAction::SendArchive) > 0
        }),
{
    lemma_run_in_turn(events);
    lemma_session_wf(events);
}

} // verus!
