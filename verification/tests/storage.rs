use t_ide::agent::approval::{instant_after, ApprovalKind, ApprovalRepository, ApprovalRequest, ApprovalRow, Decision};
use t_ide::agent::provider::{ModelProviderRepository, ProviderKind};
use t_ide::agent::session::{SessionRepository, SessionStatus};
use t_ide::storage::connections::ConnectionRepository;
use t_ide::storage::pairing::{generate_auth_token, PairedDeviceRepository, AUTH_TOKEN_BYTES};
use t_ide::storage::projects::ProjectRepository;
use t_ide::storage::transcripts::{EntryType, TranscriptRepository};
use t_ide::storage::Database;
use t_ide::IdeError;

fn db() -> Database {
    Database::open_in_memory().unwrap()
}

fn seed_project_and_provider(db: &mut Database) -> (tempfile::TempDir, i64, i64) {
    let dir = tempfile::tempdir().unwrap();
    let path = dir.path().to_str().unwrap().to_string();
    let project = ProjectRepository::new(db).create("demo", &path, true).unwrap();
    let provider = ModelProviderRepository::new(db)
        .create("local", "local", "http://127.0.0.1:11434", "llama3")
        .unwrap();
    (dir, project.id, provider.id)
}

fn seed_session(db: &mut Database) -> (tempfile::TempDir, i64) {
    let (dir, project_id, provider_id) = seed_project_and_provider(db);
    let session = SessionRepository::new(db)
        .create(project_id, provider_id, "do the thing", None)
        .unwrap();
    (dir, session.id)
}

const DETAILS: &str = r#"{"command":"npm install","cwd":"/tmp/project"}"#;

#[test]
fn migrations_create_all_entities_and_are_idempotent() {
    let mut db = db();
    db.migrate().unwrap();
    for table in [
        "projects",
        "model_providers",
        "paired_devices",
        "agent_sessions",
        "transcript_entries",
        "approval_requests",
        "session_client_connections",
    ] {
        let exists: bool = db.has_table(table).unwrap();
        assert!(exists, "missing table {table}");
    }
}

#[test]
fn creates_lists_and_renames_projects() {
    let dir = tempfile::tempdir().unwrap();
    let path = dir.path().to_str().unwrap().to_string();
    let mut db = db();
    let mut repo = ProjectRepository::new(&mut db);

    let project = repo.create("demo", &path, dir.path().is_dir()).unwrap();
    assert!(project.available);
    assert!(!project.auto_approve_read_only);
    assert_eq!(repo.list().unwrap().len(), 1);

    let renamed = repo.rename(project.id, "renamed").unwrap();
    assert_eq!(renamed.name, "renamed");

    let updated = repo.set_auto_approve_read_only(project.id, true).unwrap();
    assert!(updated.auto_approve_read_only);

    repo.remove(project.id).unwrap();
    assert!(repo.list().unwrap().is_empty());
}

#[test]
fn rejects_duplicate_paths_and_invalid_input() {
    let dir = tempfile::tempdir().unwrap();
    let path = dir.path().to_str().unwrap().to_string();
    let mut db = db();
    let mut repo = ProjectRepository::new(&mut db);

    repo.create("demo", &path, true).unwrap();
    assert!(matches!(repo.create("other", &path, true), Err(IdeError::Validation(_))));
    assert!(matches!(repo.create("", &path, true), Err(IdeError::Validation(_))));
    assert!(matches!(
        repo.create("relative", "not/absolute", std::path::Path::new("not/absolute").is_dir()),
        Err(IdeError::Validation(_))
    ));
}

#[test]
fn marks_missing_folder_unavailable() {
    let dir = tempfile::tempdir().unwrap();
    let path = dir.path().to_str().unwrap().to_string();
    let mut db = db();
    let mut repo = ProjectRepository::new(&mut db);
    let project = repo.create("demo", &path, true).unwrap();

    dir.close().unwrap();
    let is_directory = std::path::Path::new(&path).is_dir();
    let refreshed = repo.refresh_availability(project.id, is_directory).unwrap();
    assert!(!refreshed.available);
}

#[test]
fn creates_and_lists_providers() {
    let mut db = db();
    let mut repo = ModelProviderRepository::new(&mut db);

    let provider = repo
        .create("OpenAI", "external", "https://api.openai.com/v1", "gpt-4")
        .unwrap();
    assert_eq!(provider.kind, ProviderKind::External);
    assert_eq!(repo.list().unwrap().len(), 1);

    repo.remove(provider.id).unwrap();
    assert!(matches!(repo.get(provider.id), Err(IdeError::NotFound(_))));
}

#[test]
fn validates_input() {
    let mut db = db();
    let mut repo = ModelProviderRepository::new(&mut db);

    assert!(matches!(
        repo.create("", "external", "https://x", "gpt-4"),
        Err(IdeError::Validation(_))
    ));
    assert!(matches!(
        repo.create("p", "quantum", "https://x", "gpt-4"),
        Err(IdeError::Validation(_))
    ));
    assert!(matches!(
        repo.create("p", "local", "ftp://x", "gpt-4"),
        Err(IdeError::Validation(_))
    ));
}

#[test]
fn creates_and_advances_a_session() {
    let mut db = db();
    let (_dir, project_id, provider_id) = seed_project_and_provider(&mut db);
    let mut repo = SessionRepository::new(&mut db);

    let session = repo.create(project_id, provider_id, "build it", None).unwrap();
    assert_eq!(session.status, SessionStatus::Idle);

    let running = repo.update_status(session.id, SessionStatus::Running).unwrap();
    assert_eq!(running.status, SessionStatus::Running);
    assert_eq!(repo.active().unwrap().unwrap().id, session.id);

    let complete = repo.update_status(session.id, SessionStatus::Complete).unwrap();
    assert!(complete.completed_at.is_some());
    assert!(repo.active().unwrap().is_none());

    assert!(matches!(
        repo.update_status(session.id, SessionStatus::Running),
        Err(IdeError::Validation(_))
    ));
    assert!(matches!(
        repo.create(project_id, provider_id, "   ", None),
        Err(IdeError::Validation(_))
    ));
}

#[test]
fn refuses_a_second_active_session() {
    let mut db = db();
    let (_dir, project_id, provider_id) = seed_project_and_provider(&mut db);
    let mut repo = SessionRepository::new(&mut db);

    let first = repo.create(project_id, provider_id, "one", None).unwrap();
    let second = repo.create(project_id, provider_id, "two", None).unwrap();
    repo.update_status(first.id, SessionStatus::Running).unwrap();

    assert!(matches!(
        repo.update_status(second.id, SessionStatus::Running),
        Err(IdeError::SessionBusy { .. })
    ));

    repo.update_status(first.id, SessionStatus::Complete).unwrap();
    repo.update_status(second.id, SessionStatus::Running).unwrap();
}

#[test]
fn first_response_wins() {
    let mut db = db();
    let (_dir, session_id) = seed_session(&mut db);
    let phone = PairedDeviceRepository::new(&mut db).create("phone").unwrap();
    let mut repo = ApprovalRepository::new(&mut db);

    let request = repo
        .create(session_id, ApprovalKind::Command, DETAILS, std::time::Duration::from_secs(300))
        .unwrap();
    assert_eq!(repo.pending(session_id).unwrap().len(), 1);

    let resolved = repo.resolve(request.id, Decision::Approved, Some(phone.id)).unwrap();
    assert_eq!(resolved.resolution, Some(Decision::Approved));
    assert!(repo.pending(session_id).unwrap().is_empty());

    match repo.resolve(request.id, Decision::Denied, None) {
        Err(IdeError::AlreadyResolved { resolved_by }) => assert_eq!(resolved_by, "phone"),
        other => panic!("expected AlreadyResolved, got {other:?}"),
    }
    // The first decision is untouched.
    assert_eq!(repo.get(request.id).unwrap().resolution, Some(Decision::Approved));
}

#[test]
fn overdue_requests_are_denied() {
    let mut db = db();
    let (_dir, session_id) = seed_session(&mut db);
    let mut repo = ApprovalRepository::new(&mut db);

    let request = repo
        .create(
            session_id,
            ApprovalKind::FileChange,
            r#"{"operation":"update","path":"/tmp/project/a.txt"}"#,
            std::time::Duration::from_millis(1),
        )
        .unwrap();
    let later = (chrono::Utc::now() + chrono::Duration::seconds(1)).to_rfc3339();
    assert!(request.is_expired(&later));

    let deadline = chrono::Utc::now() + chrono::Duration::milliseconds(5);
    while chrono::Utc::now() < deadline {}
    let denied = repo.expire_overdue().unwrap();
    assert_eq!(denied.len(), 1);
    assert_eq!(denied[0].resolution, Some(Decision::Denied));
    assert!(repo.expire_overdue().unwrap().is_empty());
}

#[test]
fn rejects_non_positive_timeout() {
    let mut db = db();
    let (_dir, session_id) = seed_session(&mut db);
    let mut repo = ApprovalRepository::new(&mut db);
    assert!(matches!(
        repo.create(session_id, ApprovalKind::Command, DETAILS, std::time::Duration::ZERO),
        Err(IdeError::Validation(_))
    ));
}

#[test]
fn tracks_one_active_connection_per_device() {
    let mut db = db();
    let (_dir, session_id) = seed_session(&mut db);
    let device = PairedDeviceRepository::new(&mut db).create("phone").unwrap();
    let mut repo = ConnectionRepository::new(&mut db);

    repo.open(session_id, Some(device.id)).unwrap();
    let desktop = repo.open(session_id, None).unwrap();
    assert_eq!(repo.active(session_id).unwrap().len(), 2);

    // Reconnecting the phone replaces its previous connection.
    repo.open(session_id, Some(device.id)).unwrap();
    assert_eq!(repo.active(session_id).unwrap().len(), 2);

    repo.close(desktop.id).unwrap();
    assert_eq!(repo.active(session_id).unwrap().len(), 1);

    assert_eq!(repo.close_for_device(device.id).unwrap(), 1);
    assert!(repo.active(session_id).unwrap().is_empty());
}

#[test]
fn pairs_authenticates_and_revokes() {
    let mut db = db();
    let mut repo = PairedDeviceRepository::new(&mut db);

    let device = repo.create("phone").unwrap();
    assert_eq!(device.auth_token.len(), AUTH_TOKEN_BYTES * 2);
    assert!(!device.revoked);

    let authenticated = repo.authenticate(&device.auth_token).unwrap();
    assert_eq!(authenticated.id, device.id);

    repo.touch_last_seen(device.id).unwrap();
    assert!(repo.get(device.id).unwrap().last_seen_at.is_some());

    let revoked = repo.revoke(device.id).unwrap();
    assert!(revoked.revoked);
    assert!(revoked.revoked_at.is_some());
    assert!(matches!(repo.authenticate(&device.auth_token), Err(IdeError::InvalidToken)));
}

#[test]
fn rejects_unknown_tokens_and_empty_names() {
    let mut db = db();
    let mut repo = PairedDeviceRepository::new(&mut db);
    assert!(matches!(repo.authenticate("nope"), Err(IdeError::InvalidToken)));
    assert!(matches!(repo.create("  "), Err(IdeError::Validation(_))));
}

#[test]
fn tokens_are_unique() {
    assert_ne!(generate_auth_token().unwrap(), generate_auth_token().unwrap());
}

#[test]
fn appends_entries_in_order_and_supports_catchup() {
    let mut db = db();
    let (_project_dir, session_id) = seed_session(&mut db);
    let mut repo = TranscriptRepository::new(&mut db);

    let first = repo
        .append(session_id, EntryType::Prompt, None, r#"{"model":"llama3","text":"hi"}"#)
        .unwrap();
    let second = repo
        .append(session_id, EntryType::Response, None, r#"{"text":"hello"}"#)
        .unwrap();

    assert_eq!(first.order_index, 0);
    assert_eq!(second.order_index, 1);
    assert_eq!(repo.list(session_id).unwrap().len(), 2);

    let catchup = repo.list_from(session_id, 0).unwrap();
    assert_eq!(catchup.len(), 1);
    assert_eq!(catchup[0].id, second.id);
    let content: serde_json::Value = serde_json::from_str(&catchup[0].content).unwrap();
    assert_eq!(content["text"], "hello");
}

#[test]
fn an_expired_request_tells_a_late_answer_it_timed_out() {
    let mut db = db();
    let (_dir, session_id) = seed_session(&mut db);
    let mut repo = ApprovalRepository::new(&mut db);
    let request = repo
        .create(session_id, ApprovalKind::Command, r#"{"command":"ls"}"#, std::time::Duration::from_millis(1))
        .unwrap();
    let deadline = chrono::Utc::now() + chrono::Duration::milliseconds(5);
    while chrono::Utc::now() < deadline {}
    let denied = repo.expire_overdue().unwrap();
    assert_eq!(denied.len(), 1);
    assert_eq!(denied[0].id, request.id);
    assert!(denied[0].resolved);
    assert_eq!(denied[0].resolved_by_device_id, None);
    match repo.resolve(request.id, Decision::Approved, None) {
        Err(IdeError::AlreadyResolved { resolved_by }) => assert_eq!(resolved_by, "timeout"),
        other => panic!("expected AlreadyResolved, got {other:?}"),
    }
}

#[test]
fn a_desktop_denial_is_reported_as_the_desktop() {
    let mut db = db();
    let (_dir, session_id) = seed_session(&mut db);
    let mut repo = ApprovalRepository::new(&mut db);
    let request = repo
        .create(session_id, ApprovalKind::Command, r#"{"command":"ls"}"#, std::time::Duration::from_secs(600))
        .unwrap();
    repo.resolve(request.id, Decision::Denied, None).unwrap();
    match repo.resolve(request.id, Decision::Approved, None) {
        Err(IdeError::AlreadyResolved { resolved_by }) => assert_eq!(resolved_by, "desktop"),
        other => panic!("expected AlreadyResolved, got {other:?}"),
    }
}

#[test]
fn expiry_at_a_cutoff_denies_exactly_the_requests_due_by_then() {
    let mut db = db();
    let (_dir, session_id) = seed_session(&mut db);
    let mut repo = ApprovalRepository::new(&mut db);
    let soon = repo
        .create(session_id, ApprovalKind::Command, r#"{"command":"ls"}"#, std::time::Duration::from_secs(60))
        .unwrap();
    let late = repo
        .create(session_id, ApprovalKind::Command, r#"{"command":"pwd"}"#, std::time::Duration::from_secs(3600))
        .unwrap();
    let cutoff = (chrono::Utc::now() + chrono::Duration::seconds(120)).to_rfc3339();
    let denied = repo.expire_overdue_at(&cutoff).unwrap();
    assert_eq!(denied.len(), 1);
    assert_eq!(denied[0].id, soon.id);
    assert_eq!(denied[0].resolution, Some(Decision::Denied));
    let pending = repo.pending(session_id).unwrap();
    assert_eq!(pending.len(), 1);
    assert_eq!(pending[0].id, late.id);
    assert!(repo.expire_overdue_at(&cutoff).unwrap().is_empty());
}

#[test]
fn deleting_a_session_takes_its_transcript_and_requests_along() {
    let mut db = db();
    let (_dir, session_id) = seed_session(&mut db);
    let entry = TranscriptRepository::new(&mut db)
        .append(session_id, EntryType::Prompt, None, "hello")
        .unwrap();
    let request = ApprovalRepository::new(&mut db)
        .create(session_id, ApprovalKind::Command, r#"{"command":"ls"}"#, std::time::Duration::from_secs(60))
        .unwrap();
    SessionRepository::new(&mut db).delete(session_id).unwrap();
    assert!(matches!(TranscriptRepository::new(&mut db).get(entry.id), Err(IdeError::NotFound(_))));
    assert!(matches!(ApprovalRepository::new(&mut db).get(request.id), Err(IdeError::NotFound(_))));
    assert!(matches!(SessionRepository::new(&mut db).delete(session_id), Err(IdeError::NotFound(_))));
}

#[test]
fn approval_details_must_be_json() {
    let mut db = db();
    let (_dir, session_id) = seed_session(&mut db);
    let mut repo = ApprovalRepository::new(&mut db);
    assert!(matches!(
        repo.create(session_id, ApprovalKind::Command, "not json", std::time::Duration::from_secs(60)),
        Err(IdeError::Validation(_))
    ));
    let row = ApprovalRow {
        id: 1,
        session_id,
        request_type: "command".into(),
        details: "{oops".into(),
        expires_at: "2030-01-01T00:00:00+00:00".into(),
        resolved: false,
        resolved_by_device_id: None,
        resolution: None,
        timed_out: false,
        created_at: "2030-01-01T00:00:00+00:00".into(),
    };
    assert!(matches!(ApprovalRequest::from_row(row.clone()), Err(IdeError::Validation(_))));
    let good = ApprovalRow { details: r#"{"command":"ls"}"#.into(), ..row };
    assert_eq!(ApprovalRequest::from_row(good).unwrap().details, r#"{"command":"ls"}"#);
}

#[test]
fn an_expiry_is_the_current_instant_plus_the_timeout() {
    assert_eq!(instant_after((10, 500_000_000), 1_600_000_000), Some((12, 100_000_000)));
    assert_eq!(instant_after((-5, 0), 3_000_000_000), Some((-2, 0)));
    assert_eq!(instant_after((i64::MAX, 0), 1_000_000_000), None);
    assert_eq!(instant_after((0, 999_999_999), 1), Some((1, 0)));
}

#[test]
fn a_request_can_be_opened_with_a_given_expiry() {
    let mut db = db();
    let (_dir, session_id) = seed_session(&mut db);
    let mut repo = ApprovalRepository::new(&mut db);
    let at = "2030-01-01T00:00:00+00:00";
    let request = repo.create_expiring_at(session_id, ApprovalKind::Command, r#"{"command":"ls"}"#, at).unwrap();
    assert_eq!(request.expires_at, at);
    assert!(!request.resolved);
    assert_eq!(repo.get(request.id).unwrap().expires_at, at);
    assert!(request.is_expired("2030-01-01T00:00:01+00:00"));
    assert!(!request.is_expired("2029-12-31T23:59:59+00:00"));
    assert!(matches!(
        repo.create_expiring_at(session_id, ApprovalKind::Command, "nope", at),
        Err(IdeError::Validation(_))
    ));
}

#[test]
fn a_new_request_expires_after_its_timeout() {
    let mut db = db();
    let (_dir, session_id) = seed_session(&mut db);
    let mut repo = ApprovalRepository::new(&mut db);
    let before = chrono::Utc::now();
    let request = repo
        .create(session_id, ApprovalKind::Command, r#"{"command":"ls"}"#, std::time::Duration::from_secs(60))
        .unwrap();
    let expires = chrono::DateTime::parse_from_rfc3339(&request.expires_at).unwrap();
    assert!(expires >= before + chrono::Duration::seconds(60));
    assert!(expires <= chrono::Utc::now() + chrono::Duration::seconds(60));
}

#[test]
fn an_in_memory_database_holds_the_migration_records_table() {
    let db = db();
    assert!(db.has_table("schema_migrations").unwrap());
    assert!(!db.has_table("no_such_table").unwrap());
}

#[test]
fn renaming_trims_and_refuses_a_blank_name() {
    let mut db = db();
    let (_dir, project_id, _provider_id) = seed_project_and_provider(&mut db);
    let mut repo = ProjectRepository::new(&mut db);
    assert_eq!(repo.rename(project_id, "  shiny  ").unwrap().name, "shiny");
    assert!(matches!(repo.rename(project_id, "   "), Err(IdeError::Validation(_))));
    assert!(matches!(repo.rename(4242, "x"), Err(IdeError::NotFound(_))));
}
