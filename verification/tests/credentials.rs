use codewhale_plugins::credentials::{
    canonicalize_existing_ancestor, is_owned_xai_oauth_file_name, is_valid_xai_oauth_generation,
    legacy_xai_oauth_path, owned_file_removal_outcome,
    plan_owned_file_removal, validate_xai_oauth_generation, xai_oauth_credentials_dir,
    xai_oauth_generation_path, CredentialError, OwnedFileProbe, PathComponent, ProbeOutcome,
    RemovalPlan, WalkStep, LEGACY_XAI_OAUTH_FILE_NAME,
};

fn path(parts: &[&str]) -> Vec<PathComponent> {
    let mut p = vec![PathComponent::RootDir];
    for part in parts {
        p.push(match *part {
            "." => PathComponent::CurDir,
            ".." => PathComponent::ParentDir,
            name => PathComponent::Normal(name.to_string()),
        });
    }
    p
}

fn names(p: &[PathComponent]) -> Vec<String> {
    p.iter()
        .map(|c| match c {
            PathComponent::RootDir => "/".to_string(),
            PathComponent::CurDir => ".".to_string(),
            PathComponent::ParentDir => "..".to_string(),
            PathComponent::Normal(n) | PathComponent::Prefix(n) => n.clone(),
        })
        .collect()
}

#[test]
fn generation_names_are_strict_basenames() {
    let valid = "xai-auth-0123456789abcdef0123456789abcdef.json";
    assert!(is_valid_xai_oauth_generation(valid));
    for invalid in [
        "../xai-auth-0123456789abcdef0123456789abcdef.json",
        "/tmp/xai-auth-0123456789abcdef0123456789abcdef.json",
        "xai-auth-0123456789ABCDEF0123456789ABCDEF.json",
        "xai-auth-short.json",
        "xai-auth.json",
    ] {
        assert!(!is_valid_xai_oauth_generation(invalid), "{invalid}");
    }
}

#[test]
fn credentials_directory_canonicalizes_only_the_existing_prefix() {
    // `/tmp/x` exists and canonicalizes to `/private/tmp/x`; the two
    // components below it are missing.
    let unresolved = path(&["tmp", "x", "missing", "credentials"]);
    let mut walk = canonicalize_existing_ancestor(unresolved).expect("resolve missing tail");
    assert_eq!(names(&walk.ancestor()), vec!["/", "tmp", "x", "missing", "credentials"]);
    assert!(matches!(walk.advance(ProbeOutcome::NotFound), WalkStep::Continue));
    assert_eq!(names(&walk.ancestor()), vec!["/", "tmp", "x", "missing"]);
    assert!(matches!(walk.advance(ProbeOutcome::NotFound), WalkStep::Continue));
    assert_eq!(names(&walk.ancestor()), vec!["/", "tmp", "x"]);
    let canonical = path(&["private", "tmp", "x"]);
    match walk.advance(ProbeOutcome::Found(canonical)) {
        WalkStep::Resolved(resolved) => assert_eq!(
            names(&resolved),
            vec!["/", "private", "tmp", "x", "missing", "credentials"]
        ),
        other => panic!("unexpected step {other:?}"),
    }
    assert!(
        canonicalize_existing_ancestor(path(&["private", "tmp", "x", "missing", "..", "escape"]))
            .is_err(),
        "owned credential roots must reject traversal components"
    );
}

#[test]
fn logout_cleanup_removes_only_owned_xai_files() {
    let generation = "xai-auth-0123456789abcdef0123456789abcdef.json";
    let entries = vec![
        Some(generation.to_string()),
        Some(LEGACY_XAI_OAUTH_FILE_NAME.to_string()),
        Some("other-provider.json".to_string()),
        None,
    ];
    let owned: Vec<String> = entries
        .iter()
        .flatten()
        .filter(|name| is_owned_xai_oauth_file_name(name))
        .cloned()
        .collect();
    assert_eq!(owned.len(), 2);
    assert_eq!(owned, vec![generation.to_string(), "xai-auth.json".to_string()]);
    assert!(!owned.contains(&"other-provider.json".to_string()));
}

#[test]
fn root_that_never_exists_cannot_be_resolved() {
    let mut walk = canonicalize_existing_ancestor(path(&["a"])).unwrap();
    assert!(matches!(walk.advance(ProbeOutcome::NotFound), WalkStep::Continue));
    assert!(matches!(
        walk.advance(ProbeOutcome::NotFound),
        WalkStep::Failed(CredentialError::Unresolvable(_))
    ));
}

#[test]
fn canonicalize_failure_is_reported_with_the_cause() {
    let mut walk = canonicalize_existing_ancestor(path(&["a", "b"])).unwrap();
    match walk.advance(ProbeOutcome::Failed("permission denied".to_string())) {
        WalkStep::Failed(CredentialError::ResolveFailed { path, cause }) => {
            assert_eq!(names(&path), vec!["/", "a", "b"]);
            assert_eq!(cause, "permission denied");
        }
        other => panic!("unexpected step {other:?}"),
    }
}

#[test]
fn current_directory_components_are_refused() {
    assert!(matches!(
        canonicalize_existing_ancestor(path(&["a", ".", "b"])),
        Err(CredentialError::NotNormalized(_))
    ));
}

#[test]
fn validated_generation_joins_under_the_credentials_directory() {
    let home = path(&["home", "me", ".codewhale"]);
    let dir = xai_oauth_credentials_dir(&home);
    assert_eq!(names(&dir), vec!["/", "home", "me", ".codewhale", "credentials"]);
    let generation = "xai-auth-ffffffffffffffffffffffffffffffff.json";
    let joined = xai_oauth_generation_path(&dir, generation).unwrap();
    assert_eq!(
        names(&joined),
        vec!["/", "home", "me", ".codewhale", "credentials", generation]
    );
    assert!(matches!(
        xai_oauth_generation_path(&dir, "../xai-auth.json"),
        Err(CredentialError::InvalidGeneration)
    ));
    assert_eq!(
        names(&legacy_xai_oauth_path(&dir)),
        vec!["/", "home", "me", ".codewhale", "credentials", "xai-auth.json"]
    );
}

#[test]
fn validation_returns_the_name_or_a_typed_error() {
    let valid = "xai-auth-00000000000000000000000000000000.json";
    assert_eq!(validate_xai_oauth_generation(valid).unwrap(), valid);
    assert!(matches!(
        validate_xai_oauth_generation("xai-auth-0000.json"),
        Err(CredentialError::InvalidGeneration)
    ));
    // 32 digits but a non-hex letter
    assert!(!is_valid_xai_oauth_generation(
        "xai-auth-0123456789abcdeg0123456789abcdef.json"
    ));
    // right length, wrong suffix
    assert!(!is_valid_xai_oauth_generation(
        "xai-auth-0123456789abcdef0123456789abcdef.jsox"
    ));
    assert!(is_owned_xai_oauth_file_name("xai-auth.json"));
    assert!(is_owned_xai_oauth_file_name(valid));
    assert!(!is_owned_xai_oauth_file_name("xai-auth.json.bak"));
}

#[test]
fn only_regular_files_are_removed() {
    let p = path(&["c", "xai-auth.json"]);
    assert!(matches!(
        plan_owned_file_removal(&p, OwnedFileProbe::Missing),
        RemovalPlan::AlreadyAbsent
    ));
    assert!(matches!(
        plan_owned_file_removal(
            &p,
            OwnedFileProbe::Present { is_symlink: false, is_file: true, is_reparse_point: false }
        ),
        RemovalPlan::Remove
    ));
    assert!(matches!(
        plan_owned_file_removal(
            &p,
            OwnedFileProbe::Present { is_symlink: true, is_file: true, is_reparse_point: false }
        ),
        RemovalPlan::Refuse(CredentialError::NotRegularFile(_))
    ));
    assert!(matches!(
        plan_owned_file_removal(
            &p,
            OwnedFileProbe::Present { is_symlink: false, is_file: false, is_reparse_point: false }
        ),
        RemovalPlan::Refuse(CredentialError::NotRegularFile(_))
    ));
    assert!(matches!(
        plan_owned_file_removal(
            &p,
            OwnedFileProbe::Present { is_symlink: false, is_file: true, is_reparse_point: true }
        ),
        RemovalPlan::Refuse(CredentialError::ReparsePoint(_))
    ));
    assert!(matches!(
        plan_owned_file_removal(&p, OwnedFileProbe::Failed("io".to_string())),
        RemovalPlan::Refuse(CredentialError::InspectFailed { .. })
    ));
    assert!(matches!(owned_file_removal_outcome(&p, Ok(())), Ok(true)));
    assert!(matches!(
        owned_file_removal_outcome(&p, Err("busy".to_string())),
        Err(CredentialError::RemoveFailed { .. })
    ));
}

#[test]
fn credential_errors_carry_the_original_messages() {
    let invalid = validate_xai_oauth_generation("../xai-auth.json").unwrap_err();
    assert_eq!(
        invalid.message(""),
        "invalid Codewhale-owned xAI OAuth generation; expected xai-auth-<32 lowercase hex>.json"
    );
    assert!(invalid.cause().is_none());
    assert!(invalid.path().is_none());

    let failed = CredentialError::RemoveFailed { path: path(&["c", "x.json"]), cause: "busy".to_string() };
    assert_eq!(
        failed.message("/c/x.json"),
        "failed to remove Codewhale-owned xAI OAuth file /c/x.json"
    );
    assert_eq!(failed.cause(), Some("busy"));
    assert_eq!(failed.path().unwrap().len(), 3);

    let refused = CredentialError::NotRegularFile(path(&["c"]));
    assert_eq!(
        refused.message("/c"),
        "refusing to delete non-regular Codewhale-owned xAI OAuth path /c"
    );
    let unresolved = CredentialError::Unresolvable(path(&["c"]));
    assert_eq!(unresolved.message("/c"), "cannot resolve Codewhale credentials directory /c");
}
