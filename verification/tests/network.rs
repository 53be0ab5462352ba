use t_ide::agent::approval::{ApprovalKind, ApprovalRepository, Decision};
use t_ide::agent::provider::ModelProviderRepository;
use t_ide::agent::session::{SessionRepository, SessionStatus};
use t_ide::agent::record;
use t_ide::config::{config_path, AppConfig, DEFAULT_APPROVAL_TIMEOUT_SECS, DEFAULT_PORT};
use t_ide::network::protocol::{ClientMessage, ConnectionState, ServerMessage};
use t_ide::network::server::{
    connection_turn, dispatch, finish_cancel, prepare_prompt, session_summaries, ConnectionEvent, Dispatched, TlsPaths,
};
use t_ide::storage::pairing::PairedDeviceRepository;
use t_ide::storage::projects::ProjectRepository;
use t_ide::storage::transcripts::EntryType;
use t_ide::storage::Database;
use t_ide::IdeError;

fn seeded() -> (tempfile::TempDir, Database, i64, i64) {
    let mut db = Database::open_in_memory().unwrap();
    let dir = tempfile::tempdir().unwrap();
    let path = dir.path().to_str().unwrap().to_string();
    let project = ProjectRepository::new(&mut db).create("demo", &path, true).unwrap();
    let provider = ModelProviderRepository::new(&mut db)
        .create("local", "local", "http://127.0.0.1:11434", "llama3")
        .unwrap();
    (dir, db, project.id, provider.id)
}

#[test]
fn maps_backend_errors_onto_protocol_codes() {
    let busy = ServerMessage::from_error(&IdeError::SessionBusy { project: "demo".into() });
    match busy {
        ServerMessage::Error { code, message, busy_project, resolved_by } => {
            assert_eq!(code, "SESSION_BUSY");
            assert_eq!(busy_project.as_deref(), Some("demo"));
            assert_eq!(message, "a session is already running for project demo");
            assert!(resolved_by.is_none());
        }
        other => panic!("expected an error frame, got {other:?}"),
    }

    let resolved = ServerMessage::from_error(&IdeError::AlreadyResolved { resolved_by: "phone".into() });
    match resolved {
        ServerMessage::Error { code, resolved_by, busy_project, .. } => {
            assert_eq!(code, "ALREADY_RESOLVED");
            assert_eq!(resolved_by.as_deref(), Some("phone"));
            assert!(busy_project.is_none());
        }
        other => panic!("expected an error frame, got {other:?}"),
    }
}

#[test]
fn every_error_has_its_code_and_message() {
    assert_eq!(IdeError::NotFound("session 4".into()).code(), "NOT_FOUND");
    assert_eq!(IdeError::NotFound("session 4".into()).message(), "session 4 not found");
    assert_eq!(IdeError::Validation("x".into()).code(), "INVALID_REQUEST");
    assert_eq!(IdeError::Validation("x".into()).message(), "invalid input: x");
    assert_eq!(IdeError::SandboxViolation { path: "../a".into() }.code(), "SANDBOX_VIOLATION");
    assert_eq!(
        IdeError::SandboxViolation { path: "../a".into() }.message(),
        "path ../a is outside the project folder"
    );
    assert_eq!(IdeError::SessionNotActive.code(), "SESSION_NOT_ACTIVE");
    assert_eq!(IdeError::SessionNotActive.message(), "session is not running");
    assert_eq!(IdeError::InvalidToken.code(), "INVALID_TOKEN");
    assert_eq!(IdeError::InvalidToken.message(), "auth token is invalid or revoked");
    assert_eq!(IdeError::Provider("down".into()).code(), "PROVIDER_ERROR");
    assert_eq!(IdeError::Provider("down".into()).message(), "model provider error: down");
    assert_eq!(IdeError::Protocol("bad".into()).code(), "INTERNAL_ERROR");
    assert_eq!(IdeError::Protocol("bad".into()).message(), "protocol error: bad");
    let json = serde_json::from_str::<serde_json::Value>("not json").unwrap_err();
    let err = IdeError::Serialization(json);
    assert_eq!(err.code(), "INTERNAL_ERROR");
    assert!(err.message().starts_with("serialization error: "));
    assert!(err.message().len() > "serialization error: ".len());
}

#[test]
fn tls_paths_derive_from_the_data_dir() {
    let dir = tempfile::tempdir().unwrap();
    let data_dir = dir.path().to_str().unwrap().to_string();
    let config = AppConfig::with_data_dir(&data_dir);
    let tls = TlsPaths::from_config(&config);
    assert!(!std::path::Path::new(&tls.certificate).is_file());
    assert_eq!(std::path::PathBuf::from(&tls.certificate), dir.path().join("tls/cert.pem"));
    assert_eq!(std::path::PathBuf::from(&tls.private_key), dir.path().join("tls/key.pem"));
}

#[test]
fn configuration_defaults_and_paths() {
    let config = AppConfig::with_data_dir("/var/lib/t-ide");
    assert_eq!(config.port, DEFAULT_PORT);
    assert_eq!(config.port, 8787);
    assert_eq!(config.approval_timeout_secs, DEFAULT_APPROVAL_TIMEOUT_SECS);
    assert_eq!(config.approval_timeout(), std::time::Duration::from_secs(300));
    assert_eq!(config.database_path(), "/var/lib/t-ide/t-ide.db");
    assert_eq!(config_path("/var/lib/t-ide/"), "/var/lib/t-ide/config.json");
    assert_eq!(config_path(""), "config.json");
}

#[test]
fn dispatch_acknowledges_connection_state_without_a_reply() {
    let mut db = Database::open_in_memory().unwrap();
    let reply = dispatch(&mut db, ClientMessage::ConnectionState { state: ConnectionState::Reconnecting }).unwrap();
    assert!(matches!(reply, Dispatched::Reply { reply: None }));
}

#[test]
fn dispatch_reports_unhandled_messages() {
    let mut db = Database::open_in_memory().unwrap();
    // Pairing handlers are not part of the server yet.
    let err = dispatch(&mut db, ClientMessage::DeviceList).unwrap_err();
    assert_eq!(err.code(), "INTERNAL_ERROR");
    assert!(err.message().contains("device.list"));
}

#[test]
fn dispatch_lists_sessions() {
    let mut db = Database::open_in_memory().unwrap();
    let reply = dispatch(&mut db, ClientMessage::SessionList).unwrap();
    assert!(matches!(
        reply,
        Dispatched::Reply { reply: Some(ServerMessage::SessionListResponse { ref sessions }) } if sessions.is_empty()
    ));
}

#[test]
fn summaries_name_the_project_newest_first() {
    let (_dir, mut db, project_id, provider_id) = seeded();
    let first = SessionRepository::new(&mut db).create(project_id, provider_id, "first", None).unwrap();
    let deadline = chrono::Utc::now() + chrono::Duration::milliseconds(2);
    while chrono::Utc::now() < deadline {}
    let second = SessionRepository::new(&mut db).create(project_id, provider_id, "second", None).unwrap();
    let summaries = session_summaries(&db).unwrap();
    assert_eq!(summaries.len(), 2);
    assert_eq!(summaries[0].id, second.id);
    assert_eq!(summaries[1].id, first.id);
    assert_eq!(summaries[0].project_name, "demo");
    assert_eq!(summaries[0].status, "idle");
    assert_eq!(summaries[1].prompt_text, "first");
}

#[test]
fn session_create_starts_a_run_and_answers_with_session_created() {
    let (_dir, mut db, project_id, provider_id) = seeded();
    let dispatched = dispatch(
        &mut db,
        ClientMessage::SessionCreate { project_id, provider_id, prompt: "nothing to do".into() },
    )
    .unwrap();
    match dispatched {
        Dispatched::Start { session_id, prompt, model, provider, reply } => {
            assert_eq!(prompt, "nothing to do");
            assert!(model.is_none());
            assert_eq!(provider.id, provider_id);
            assert_eq!(reply, ServerMessage::SessionCreated { session_id, status: "running".into() });
        }
        other => panic!("expected session.created, got {other:?}"),
    }
}

#[test]
fn a_second_session_is_refused_while_one_is_running() {
    let (_dir, mut db, project_id, provider_id) = seeded();
    let first = SessionRepository::new(&mut db).create(project_id, provider_id, "first", None).unwrap();
    SessionRepository::new(&mut db).update_status(first.id, SessionStatus::Running).unwrap();
    let err = dispatch(&mut db, ClientMessage::SessionCreate { project_id, provider_id, prompt: "second".into() })
        .unwrap_err();
    assert_eq!(err.code(), "SESSION_BUSY");
    match err {
        IdeError::SessionBusy { project } => assert_eq!(project, "demo"),
        other => panic!("expected SESSION_BUSY, got {other:?}"),
    }
    // The running session itself may take further prompts.
    assert_eq!(prepare_prompt(&db, first.id).unwrap().id, provider_id);
}

#[test]
fn prompt_send_is_refused_for_a_finished_session() {
    let (_dir, mut db, project_id, provider_id) = seeded();
    let session = SessionRepository::new(&mut db).create(project_id, provider_id, "done", None).unwrap();
    SessionRepository::new(&mut db).update_status(session.id, SessionStatus::Running).unwrap();
    SessionRepository::new(&mut db).update_status(session.id, SessionStatus::Complete).unwrap();
    let err = dispatch(
        &mut db,
        ClientMessage::PromptSend { session_id: session.id, text: "more work".into(), model: None },
    )
    .unwrap_err();
    assert_eq!(err.code(), "SESSION_NOT_ACTIVE");
}

#[test]
fn prompt_send_for_an_unknown_session_is_not_found() {
    let (_dir, mut db, _project_id, _provider_id) = seeded();
    let err = dispatch(&mut db, ClientMessage::PromptSend { session_id: 4242, text: "hello".into(), model: None })
        .unwrap_err();
    assert_eq!(err.code(), "NOT_FOUND");
}

#[test]
fn prompt_send_starts_a_run_with_the_chosen_model() {
    let (_dir, mut db, project_id, provider_id) = seeded();
    let session = SessionRepository::new(&mut db).create(project_id, provider_id, "initial", None).unwrap();
    match dispatch(
        &mut db,
        ClientMessage::PromptSend { session_id: session.id, text: "look around".into(), model: Some("llama3".into()) },
    )
    .unwrap()
    {
        Dispatched::Start { session_id, prompt, model, reply, .. } => {
            assert_eq!(session_id, session.id);
            assert_eq!(prompt, "look around");
            assert_eq!(model.as_deref(), Some("llama3"));
            assert_eq!(reply, ServerMessage::PromptSent { session_id: session.id });
        }
        other => panic!("expected prompt.sent, got {other:?}"),
    }
}

#[test]
fn cancelling_an_idle_session_interrupts_it_and_a_finished_one_is_an_error() {
    let (_dir, mut db, project_id, provider_id) = seeded();
    let session = SessionRepository::new(&mut db).create(project_id, provider_id, "quick", None).unwrap();
    let dispatched = dispatch(&mut db, ClientMessage::SessionCancel { session_id: session.id }).unwrap();
    assert!(matches!(dispatched, Dispatched::Cancel { session_id } if session_id == session.id));
    let reply = finish_cancel(&mut db, session.id, false).unwrap();
    assert_eq!(reply, ServerMessage::SessionCancelled { session_id: session.id });
    assert_eq!(SessionRepository::new(&mut db).get(session.id).unwrap().status, SessionStatus::Interrupted);

    let err = dispatch(&mut db, ClientMessage::SessionCancel { session_id: session.id }).unwrap_err();
    assert_eq!(err.code(), "SESSION_NOT_ACTIVE");
}

#[test]
fn an_approval_answered_from_the_desktop_is_reported() {
    let (_dir, mut db, project_id, provider_id) = seeded();
    let session = SessionRepository::new(&mut db).create(project_id, provider_id, "go", None).unwrap();
    let request = ApprovalRepository::new(&mut db)
        .create(session.id, ApprovalKind::Command, r#"{"command":"ls"}"#, std::time::Duration::from_secs(60))
        .unwrap();
    match dispatch(&mut db, ClientMessage::ApprovalRespond { request_id: request.id, decision: Decision::Approved })
        .unwrap()
    {
        Dispatched::Answered { request: answered, reply } => {
            assert_eq!(answered.resolution, Some(Decision::Approved));
            assert_eq!(
                reply,
                ServerMessage::ApprovalResponded {
                    request_id: request.id,
                    resolved_by_device_name: "desktop".into(),
                    decision: Decision::Approved,
                }
            );
        }
        other => panic!("expected approval.responded, got {other:?}"),
    }
    let err = dispatch(&mut db, ClientMessage::ApprovalRespond { request_id: request.id, decision: Decision::Denied })
        .unwrap_err();
    assert_eq!(err.code(), "ALREADY_RESOLVED");
}

#[test]
fn recorded_entries_are_streamed_with_the_device_name() {
    let (_dir, mut db, project_id, provider_id) = seeded();
    let session = SessionRepository::new(&mut db).create(project_id, provider_id, "go", None).unwrap();
    let phone = PairedDeviceRepository::new(&mut db).create("phone").unwrap();
    let frame = record(&mut db, session.id, EntryType::Prompt, Some(phone.id), r#"{"text":"hi"}"#).unwrap();
    match frame {
        ServerMessage::TranscriptEntryMessage { session_id, entry } => {
            assert_eq!(session_id, session.id);
            assert_eq!(entry.order_index, 0);
            assert_eq!(entry.entry_type, EntryType::Prompt);
            assert_eq!(entry.origin_device_name.as_deref(), Some("phone"));
            assert_eq!(entry.content, r#"{"text":"hi"}"#);
        }
        other => panic!("expected transcript.entry, got {other:?}"),
    }
    let second = record(&mut db, session.id, EntryType::Response, None, r#"{"text":"ok"}"#).unwrap();
    assert!(matches!(
        second,
        ServerMessage::TranscriptEntryMessage { ref entry, .. } if entry.order_index == 1 && entry.origin_device_name.is_none()
    ));
}

#[test]
fn connection_turns_answer_failures_and_close_on_request() {
    let streamed = ServerMessage::TranscriptComplete { session_id: 7 };
    assert_eq!(connection_turn(ConnectionEvent::Streamed { message: streamed.clone() }), (Some(streamed), false));
    assert_eq!(connection_turn(ConnectionEvent::Lagged), (None, false));
    assert_eq!(connection_turn(ConnectionEvent::StreamClosed), (None, true));
    assert_eq!(connection_turn(ConnectionEvent::Disconnect), (None, true));
    assert_eq!(connection_turn(ConnectionEvent::ClientClosed), (None, true));
    assert_eq!(connection_turn(ConnectionEvent::Ignored), (None, false));
    let (reply, close) = connection_turn(ConnectionEvent::Handled { outcome: Err(IdeError::SessionNotActive) });
    assert!(!close);
    assert!(matches!(reply, Some(ServerMessage::Error { ref code, .. }) if code == "SESSION_NOT_ACTIVE"));
    let (reply, close) = connection_turn(ConnectionEvent::Malformed { error: IdeError::Protocol("invalid message".into()) });
    assert!(!close);
    assert!(matches!(reply, Some(ServerMessage::Error { ref message, .. }) if message == "protocol error: invalid message"));
}

#[test]
fn prompt_send_runs_against_the_provider_of_the_session() {
    let (_dir, mut db, project_id, _provider_id) = seeded();
    let other = ModelProviderRepository::new(&mut db)
        .create("remote", "external", "https://api.example.com/v1", "gpt")
        .unwrap();
    let session = SessionRepository::new(&mut db).create(project_id, other.id, "initial", None).unwrap();
    match dispatch(&mut db, ClientMessage::PromptSend { session_id: session.id, text: "go".into(), model: None }).unwrap() {
        Dispatched::Start { provider, .. } => {
            assert_eq!(provider.id, other.id);
            assert_eq!(provider.name, "remote");
        }
        other => panic!("expected a run start, got {other:?}"),
    }
}

#[test]
fn a_prompt_for_another_session_while_one_runs_names_the_busy_project() {
    let (_dir, mut db, project_id, provider_id) = seeded();
    let first = SessionRepository::new(&mut db).create(project_id, provider_id, "first", None).unwrap();
    let second = SessionRepository::new(&mut db).create(project_id, provider_id, "second", None).unwrap();
    SessionRepository::new(&mut db).update_status(first.id, SessionStatus::Running).unwrap();
    match dispatch(&mut db, ClientMessage::PromptSend { session_id: second.id, text: "go".into(), model: None }) {
        Err(IdeError::SessionBusy { project }) => assert_eq!(project, "demo"),
        other => panic!("expected SESSION_BUSY, got {other:?}"),
    }
    match dispatch(&mut db, ClientMessage::SessionCancel { session_id: 777 }) {
        Err(e) => assert_eq!(e.code(), "NOT_FOUND"),
        other => panic!("expected NOT_FOUND, got {other:?}"),
    }
}

#[test]
fn an_answer_from_the_desktop_is_stored_and_later_answers_name_it() {
    let (_dir, mut db, project_id, provider_id) = seeded();
    let session = SessionRepository::new(&mut db).create(project_id, provider_id, "go", None).unwrap();
    let request = ApprovalRepository::new(&mut db)
        .create(session.id, ApprovalKind::Command, r#"{"command":"ls"}"#, std::time::Duration::from_secs(60))
        .unwrap();
    dispatch(&mut db, ClientMessage::ApprovalRespond { request_id: request.id, decision: Decision::Denied }).unwrap();
    let stored = ApprovalRepository::new(&mut db).get(request.id).unwrap();
    assert!(stored.resolved);
    assert_eq!(stored.resolution, Some(Decision::Denied));
    match dispatch(&mut db, ClientMessage::ApprovalRespond { request_id: request.id, decision: Decision::Approved }) {
        Err(IdeError::AlreadyResolved { resolved_by }) => assert_eq!(resolved_by, "desktop"),
        other => panic!("expected ALREADY_RESOLVED, got {other:?}"),
    }
    assert_eq!(ApprovalRepository::new(&mut db).get(request.id).unwrap().resolution, Some(Decision::Denied));
}

#[test]
fn recording_for_an_unknown_device_is_refused_by_the_foreign_key() {
    let (_dir, mut db, project_id, provider_id) = seeded();
    let session = SessionRepository::new(&mut db).create(project_id, provider_id, "go", None).unwrap();
    match record(&mut db, session.id, EntryType::Prompt, Some(9999), "hello") {
        Err(IdeError::Database(_)) => {}
        other => panic!("expected a database error, got {other:?}"),
    }
    let entries = t_ide::storage::transcripts::TranscriptRepository::new(&mut db).list(session.id).unwrap();
    assert!(entries.is_empty());
}
