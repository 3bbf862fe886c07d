use sptcloud::client::{
    invalid_project_message, ClientSession, SessionAction, SessionEvent, SessionPhase,
    SessionState, MAX_ARTIFACT_LENGTH,
};
use sptcloud::error::{ProtocolError, RelayError};
use sptcloud::server::MAX_ARCHIVE_LENGTH;
use sptcloud::workspace::Lease;

fn drive(events: &[SessionEvent]) -> (ClientSession, Vec<SessionAction>) {
    let mut session = ClientSession::new();
    let mut actions = Vec::new();
    for event in events {
        actions.push(session.step(*event));
    }
    (session, actions)
}

fn count(actions: &[SessionAction], action: SessionAction) -> usize {
    actions.iter().filter(|other| **other == action).count()
}

fn happy_path() -> Vec<SessionEvent> {
    vec![
        SessionEvent::ManifestFound,
        SessionEvent::ScratchAcquired,
        SessionEvent::Packed,
        SessionEvent::Connected,
        SessionEvent::ArchiveSent,
        SessionEvent::ArtifactReceived { length: 4321 },
        SessionEvent::ArtifactWritten,
        SessionEvent::ScratchReleased,
    ]
}

#[test]
fn client_accepts_what_the_server_accepts() {
    assert_eq!(MAX_ARTIFACT_LENGTH, 100_000_000);
    assert_eq!(MAX_ARTIFACT_LENGTH, MAX_ARCHIVE_LENGTH);
}

#[test]
fn new_session_waits_for_the_manifest_check() {
    let session = ClientSession::new();
    assert_eq!(
        session.state(),
        SessionState { phase: SessionPhase::Validating, lease: Lease::Unclaimed, verdict: None }
    );
    assert_eq!(session.pending(), SessionAction::CheckManifest);
    assert!(!session.is_closed());
    assert_eq!(session.outcome(), None);
}

#[test]
fn session_passes_through_its_phases() {
    let mut session = ClientSession::new();
    let mut seen = Vec::new();
    for event in happy_path() {
        let action = session.step(event);
        assert_eq!(action, session.pending());
        seen.push((action, session.state().phase, session.state().lease));
    }
    assert_eq!(
        seen,
        vec![
            (SessionAction::AcquireScratch, SessionPhase::Preparing, Lease::Unclaimed),
            (SessionAction::PackProject, SessionPhase::Packing, Lease::Held),
            (SessionAction::Connect, SessionPhase::Connecting, Lease::Held),
            (SessionAction::SendArchive, SessionPhase::Sending, Lease::Held),
            (
                SessionAction::ReceiveArtifact { max_length: 100_000_000 },
                SessionPhase::Receiving,
                Lease::Held
            ),
            (SessionAction::WriteArtifact, SessionPhase::Writing, Lease::Held),
            (SessionAction::ReleaseScratch, SessionPhase::Closing, Lease::Released),
            (SessionAction::Finish, SessionPhase::Closed, Lease::Released),
        ]
    );
    assert_eq!(session.outcome(), Some(Ok(())));
}

#[test]
fn project_without_manifest_fails_before_any_connection() {
    let (mut session, actions) = drive(&[SessionEvent::ManifestMissing]);
    assert_eq!(actions, vec![SessionAction::Finish]);
    assert_eq!(session.outcome(), Some(Err(RelayError::InvalidInput)));
    assert_eq!(session.state().lease, Lease::Unclaimed);
    let mut later = Vec::new();
    for event in happy_path() {
        later.push(session.step(event));
    }
    assert_eq!(count(&later, SessionAction::Finish), later.len());
    assert_eq!(session.outcome(), Some(Err(RelayError::InvalidInput)));
}

#[test]
fn manifest_that_cannot_be_opened_is_invalid_input() {
    let (session, actions) = drive(&[SessionEvent::Failed]);
    assert_eq!(actions, vec![SessionAction::Finish]);
    assert_eq!(session.outcome(), Some(Err(RelayError::InvalidInput)));
}

#[test]
fn failure_in_each_phase_has_its_kind_and_is_not_retried() {
    let path = happy_path();
    let expected = [
        RelayError::InvalidInput,
        RelayError::Resource,
        RelayError::Io,
        RelayError::Io,
        RelayError::Io,
        RelayError::Io,
        RelayError::Io,
        RelayError::Resource,
    ];
    for (done, error) in expected.iter().enumerate() {
        let mut events = path[..done].to_vec();
        events.push(SessionEvent::Failed);
        let (mut session, actions) = drive(&events);
        let held = (2..=6).contains(&done);
        if held {
            assert_eq!(*actions.last().unwrap(), SessionAction::ReleaseScratch, "after {}", done);
            assert_eq!(session.outcome(), None);
            assert_eq!(session.step(SessionEvent::ScratchReleased), SessionAction::Finish);
        } else {
            assert_eq!(*actions.last().unwrap(), SessionAction::Finish, "after {}", done);
        }
        assert_eq!(session.outcome(), Some(Err(*error)), "after {}", done);
        assert_ne!(session.state().lease, Lease::Held);
        assert_eq!(session.step(path[done]), SessionAction::Finish);
    }
}

#[test]
fn archiver_that_refuses_the_project_is_invalid_input() {
    let start = [SessionEvent::ManifestFound, SessionEvent::ScratchAcquired];
    for (reported, outcome) in [
        (RelayError::InvalidInput, RelayError::InvalidInput),
        (RelayError::Io, RelayError::Io),
        (RelayError::Executor, RelayError::Io),
    ] {
        let mut events = start.to_vec();
        events.push(SessionEvent::PackFailed(reported));
        events.push(SessionEvent::ScratchReleased);
        let (session, actions) = drive(&events);
        assert_eq!(actions[2], SessionAction::ReleaseScratch);
        assert_eq!(session.outcome(), Some(Err(outcome)));
        assert_eq!(count(&actions, SessionAction::Connect), 0);
    }
}

#[test]
fn oversized_response_is_a_protocol_error_and_nothing_is_written() {
    let mut events = happy_path()[..5].to_vec();
    events.push(SessionEvent::ArtifactReceived { length: 100_000_001 });
    events.push(SessionEvent::ScratchReleased);
    let (session, actions) = drive(&events);
    assert_eq!(
        session.outcome(),
        Some(Err(RelayError::Protocol(ProtocolError::Oversized {
            declared: 100_000_001,
            limit: 100_000_000
        })))
    );
    assert_eq!(count(&actions, SessionAction::WriteArtifact), 0);
    assert_eq!(count(&actions, SessionAction::ReleaseScratch), 1);
}

#[test]
fn short_response_is_a_protocol_error_and_nothing_is_written() {
    let short = ProtocolError::ShortLength { received: 3 };
    let mut events = happy_path()[..5].to_vec();
    events.push(SessionEvent::ReceiveFailed(short));
    events.push(SessionEvent::ScratchReleased);
    let (session, actions) = drive(&events);
    assert_eq!(session.outcome(), Some(Err(RelayError::Protocol(short))));
    assert_eq!(count(&actions, SessionAction::WriteArtifact), 0);
}

#[test]
fn every_short_run_keeps_the_scratch_discipline() {
    let alphabet = [
        SessionEvent::ManifestFound,
        SessionEvent::ManifestMissing,
        SessionEvent::ScratchAcquired,
        SessionEvent::Packed,
        SessionEvent::PackFailed(RelayError::InvalidInput),
        SessionEvent::Connected,
        SessionEvent::ArchiveSent,
        SessionEvent::ArtifactReceived { length: 7 },
        SessionEvent::ArtifactReceived { length: 200_000_000 },
        SessionEvent::ArtifactWritten,
        SessionEvent::ScratchReleased,
        SessionEvent::Failed,
    ];
    let length = 5;
    let mut indices = vec![0usize; length];
    loop {
        let events: Vec<SessionEvent> = indices.iter().map(|i| alphabet[*i]).collect();
        let (session, actions) = drive(&events);
        let state = session.state();
        for action in [
            SessionAction::AcquireScratch,
            SessionAction::Connect,
            SessionAction::SendArchive,
            SessionAction::WriteArtifact,
        ] {
            assert!(count(&actions, action) <= 1);
        }
        assert_eq!(
            count(&actions, SessionAction::ReleaseScratch),
            if state.lease == Lease::Released { 1 } else { 0 }
        );
        if state.phase == SessionPhase::Closed {
            assert_ne!(state.lease, Lease::Held);
        }
        if count(&actions, SessionAction::Connect) > 0 {
            assert_eq!(events[0], SessionEvent::ManifestFound);
        }
        let mut at = 0;
        while at < length {
            indices[at] += 1;
            if indices[at] < alphabet.len() {
                break;
            }
            indices[at] = 0;
            at += 1;
        }
        if at == length {
            break;
        }
    }
}

#[test]
fn message_names_the_directory_that_is_no_project() {
    assert_eq!(
        invalid_project_message("/nonexistent-project"),
        "'/nonexistent-project' is not a valid SPTCloud project"
    );
    assert_eq!(invalid_project_message("."), "'.' is not a valid SPTCloud project");
    assert_eq!(invalid_project_message(""), "'' is not a valid SPTCloud project");
}
