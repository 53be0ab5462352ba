use t_ide::security::credentials::{account_for, CredentialStore, InMemoryCredentialStore, KeyringCredentialStore, SERVICE_NAME};
use t_ide::security::sandbox::{normalize, segments, Sandbox};
use t_ide::paths::join_all;
use t_ide::IdeError;

#[test]
fn stores_and_removes_secrets() {
    let mut store = InMemoryCredentialStore::new();
    assert!(store.get(1).unwrap().is_none());

    store.set(1, "sk-secret").unwrap();
    assert_eq!(store.get(1).unwrap().as_deref(), Some("sk-secret"));

    store.delete(1).unwrap();
    assert!(store.get(1).unwrap().is_none());
    // Deleting a missing secret is a no-op.
    store.delete(1).unwrap();
}

#[test]
fn rejects_empty_secrets() {
    let mut store = InMemoryCredentialStore::new();
    assert!(matches!(store.set(1, ""), Err(IdeError::Validation(_))));
}

#[test]
fn accounts_are_scoped_per_provider() {
    assert_ne!(account_for(1), account_for(2));
}

#[test]
fn account_names_carry_the_provider_id() {
    assert_eq!(account_for(42), "model-provider-42");
    assert_eq!(account_for(-3), "model-provider--3");
}

#[test]
fn secrets_of_other_providers_are_untouched() {
    let mut store = InMemoryCredentialStore::new();
    store.set(1, "one").unwrap();
    store.set(2, "two").unwrap();
    store.set(1, "uno").unwrap();
    store.delete(2).unwrap();
    assert_eq!(store.get(1).unwrap().as_deref(), Some("uno"));
    assert!(store.get(2).unwrap().is_none());
}

fn sandbox() -> Sandbox {
    Sandbox::new("/tmp/project", true, "/tmp/project").unwrap()
}

#[test]
fn allows_paths_inside_the_project() {
    let sandbox = sandbox();
    let candidate = sandbox.candidate("src/main.rs");
    assert_eq!(candidate, "/tmp/project/src/main.rs");
    let resolved = sandbox.resolve("src/main.rs", &candidate).unwrap();
    assert!(resolved.starts_with(sandbox.root()));
    let new_file = sandbox.candidate("/tmp/project/new-file.txt");
    assert!(sandbox.contains("/tmp/project/new-file.txt", &new_file));
}

#[test]
fn refuses_paths_outside_the_project() {
    let sandbox = sandbox();
    for path in ["/tmp/other/secret.txt", "../escape.txt", "nested/../../escape.txt", "/etc/passwd"] {
        let candidate = sandbox.candidate(path);
        match sandbox.resolve(path, &candidate) {
            Err(IdeError::SandboxViolation { path: refused }) => assert_eq!(refused, path),
            other => panic!("expected refusal for {path}, got {other:?}"),
        }
    }
}

#[test]
fn refuses_symlinks_that_resolve_outside() {
    // The file system resolved `link.txt` to a file of another folder.
    let sandbox = sandbox();
    assert!(matches!(
        sandbox.resolve("link.txt", "/tmp/outside/secret.txt"),
        Err(IdeError::SandboxViolation { .. })
    ));
}

#[test]
fn a_sibling_folder_with_a_common_prefix_is_outside() {
    let sandbox = sandbox();
    assert!(!sandbox.contains("/tmp/project2/a", "/tmp/project2/a"));
    assert!(sandbox.contains("/tmp/project", "/tmp/project"));
}

#[test]
fn rejects_non_directory_roots() {
    let file = tempfile::NamedTempFile::new().unwrap();
    let path = file.path().to_str().unwrap().to_string();
    match Sandbox::new(&path, file.path().is_dir(), &path) {
        Err(IdeError::Validation(message)) => {
            assert_eq!(message, format!("project path {path} is not a directory"))
        }
        other => panic!("expected a validation error, got {other:?}"),
    }
}

#[test]
fn normalizes_dots_lexically() {
    assert_eq!(normalize("/a/./b/../c"), "/a/c");
    assert_eq!(normalize("/a//b/"), "/a/b");
    assert_eq!(normalize("/.."), "/..");
    assert_eq!(normalize("/../.."), "/");
    assert_eq!(normalize("a/../../b"), "../b");
    assert_eq!(normalize(""), "");
    let parts = segments("/tmp//project/./x");
    assert_eq!(parts, vec!["tmp".to_string(), "project".to_string(), "x".to_string()]);
}

#[test]
fn normalizing_twice_changes_nothing() {
    for path in ["/a/./b/../c", "a/../../b", "/../x/..", "./x//y/", "../..", "/"] {
        let once = normalize(path);
        assert_eq!(normalize(&once), once, "normalizing {path}");
    }
}

#[test]
fn relative_requests_that_never_climb_stay_inside() {
    let sandbox = sandbox();
    for path in ["a/b/../c", "./x", "deep/down/../../file.txt", "a/./b/."] {
        let candidate = sandbox.candidate(path);
        assert!(sandbox.contains(path, &candidate), "{path} resolved to {candidate}");
    }
}

#[test]
fn names_are_appended_in_order() {
    assert_eq!(join_all("/home/dev/project", &vec!["src".to_string(), "new.rs".to_string()]), "/home/dev/project/src/new.rs");
    assert_eq!(join_all("/", &vec!["tmp".to_string()]), "/tmp");
    assert_eq!(join_all("/root", &Vec::new()), "/root");
}

#[test]
fn a_keychain_entry_is_made_for_the_account_of_its_provider() {
    match KeyringCredentialStore::entry(7) {
        Ok(entry) => {
            assert_eq!(entry.account, "model-provider-7");
            assert_eq!(entry.service, SERVICE_NAME);
        }
        Err(IdeError::Validation(message)) => assert!(message.starts_with("keychain unavailable: ")),
        Err(other) => panic!("unexpected error {other:?}"),
    }
}
