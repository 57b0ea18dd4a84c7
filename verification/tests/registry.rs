use codewhale_plugins::registry::PluginRegistry;
use codewhale_plugins::state::{
    check_state_schema, PersistedPluginEntry, PersistedPluginState, PluginStateFile,
};
use codewhale_plugins::types::{
    LoadedPlugin, PluginDiagnostic, PluginId, PluginInfo, PluginInventory, PluginManifest,
    PluginOrigin, PluginScope, PluginTrustStatus,
};

const CONTENT: &str = "0123456789abcdef0123456789abcdef0123456789abcdef0123456789abcdef";
const CAPABILITY: &str = "fedcba9876543210fedcba9876543210fedcba9876543210fedcba9876543210";

fn inventory(unsupported: &[&str]) -> PluginInventory {
    PluginInventory {
        skills: 0,
        mcp_servers: 0,
        unsupported: unsupported.iter().map(|s| s.to_string()).collect(),
        filesystem_roots: Vec::new(),
        network_hosts: Vec::new(),
        lifecycle_mutation: false,
        summary: "0 skills".to_string(),
    }
}

fn plugin(name: &str, scope: PluginScope, content: &str, capability: &str, unsupported: &[&str]) -> LoadedPlugin {
    LoadedPlugin {
        id: PluginId(format!("{}:{name}", scope.as_str())),
        manifest: PluginManifest {
            plugin: PluginInfo { name: name.to_string(), version: "1.0.0".to_string() },
            mcp_servers: None,
        },
        base_path: format!("/plugins/{name}"),
        canonical_root: format!("/plugins/{name}"),
        scope,
        origin: PluginOrigin::CodeWhaleHome,
        enabled: false,
        trust_status: PluginTrustStatus::NeverReviewed,
        applicable: true,
        inventory: inventory(unsupported),
        content_hash: content.to_string(),
        capability_hash: capability.to_string(),
        skill_snapshots: Vec::new(),
        diagnostics: Vec::new(),
    }
}

fn demo() -> LoadedPlugin {
    plugin("demo", PluginScope::User, CONTENT, CAPABILITY, &[])
}

fn discover(plugins: Vec<LoadedPlugin>, state: Result<PluginStateFile, String>) -> PluginRegistry {
    PluginRegistry::from_discovery(plugins, Vec::new(), "/state/plugin-state.json".to_string(), state)
}

/// Persists a prepared state (the write succeeds) and commits it.
fn commit(
    registry: &mut PluginRegistry,
    prepare: impl Fn(&PluginRegistry) -> Result<PluginStateFile, String>,
) -> Result<PluginStateFile, String> {
    let next = prepare(registry)?;
    let saved = next.clone();
    registry.commit_state_change(next, Ok(()))?;
    Ok(saved)
}

#[test]
fn trust_and_enablement_are_separate_atomic_state_transitions() {
    let mut registry = discover(vec![demo()], Ok(PluginStateFile::default()));
    assert!(registry.enable("demo").is_err());

    let trusted = commit(&mut registry, |r| r.trust("demo")).unwrap();
    assert!(registry.get("demo").unwrap().trusted());
    assert!(!registry.get("demo").unwrap().enabled);
    let enabled = commit(&mut registry, |r| r.enable("demo")).unwrap();
    assert!(registry.is_active("demo"));

    assert_eq!(enabled.schema_version, 1);
    assert_eq!(enabled.plugins.len(), 1);
    let entry = &enabled.plugins[0];
    let receipt = entry.state.trust.as_ref().expect("trust receipt");
    assert_eq!(receipt.content_hash, CONTENT);
    assert_eq!(receipt.capability_hash, CAPABILITY);
    assert_eq!(receipt.reviewed_capabilities.skills, 0);
    assert!(!receipt.reviewed_at.is_empty());
    assert!(receipt.reviewed_at.ends_with("+00:00"));
    assert!(receipt.reviewed_at.contains('T'));
    assert_eq!(entry.state.review_history.len(), 1);
    assert_eq!(entry.state.review_history[0].content_hash, receipt.content_hash);
    assert!(!trusted.plugins[0].state.enabled);
}

#[test]
fn content_change_invalidates_trust_without_changing_capabilities() {
    let mut first = discover(vec![demo()], Ok(PluginStateFile::default()));
    commit(&mut first, |r| r.trust("demo")).unwrap();
    let persisted = commit(&mut first, |r| r.enable("demo")).unwrap();
    assert!(first.is_active("demo"));

    let changed = plugin("demo", PluginScope::User, &CONTENT.replace('0', "1"), CAPABILITY, &[]);
    let second = discover(vec![changed], Ok(persisted));
    let plugin = second.get("demo").unwrap();
    assert!(plugin.enabled, "enablement is independent from trust");
    assert_eq!(plugin.trust_status, PluginTrustStatus::ContentChanged);
    assert!(!plugin.active());
}

#[test]
fn capability_escalation_invalidates_trust_and_stays_inactive() {
    let mut first = discover(vec![demo()], Ok(PluginStateFile::default()));
    commit(&mut first, |r| r.trust("demo")).unwrap();
    let persisted = commit(&mut first, |r| r.enable("demo")).unwrap();

    let escalated = plugin("demo", PluginScope::User, &CONTENT.replace('1', "2"), &CAPABILITY.replace('f', "0"), &["hooks"]);
    let second = discover(vec![escalated], Ok(persisted));
    let plugin = second.get("demo").unwrap();
    assert_eq!(plugin.trust_status, PluginTrustStatus::CapabilitiesChanged);
    assert!(plugin.enabled);
    assert!(!plugin.active());
}

#[test]
fn malformed_state_is_fail_closed_and_never_overwritten() {
    let registry = discover(vec![demo()], Err("failed to parse: { malformed".to_string()));
    assert!(registry.state_error().is_some());
    assert!(!registry.get("demo").unwrap().enabled);
    assert!(!registry.get("demo").unwrap().trusted());
    let refused = registry.trust("demo").unwrap_err();
    assert!(refused.starts_with("Plugin state is fail-closed;"));
    assert!(registry.disable("demo").is_err());
    assert!(registry.revoke_trust("demo").is_err());
    assert_eq!(registry.diagnostics().len(), 1);
    assert_eq!(registry.diagnostics()[0].code, "state-invalid");
    assert_eq!(
        registry.diagnostics()[0].message,
        "Plugin state is fail-closed and will not be overwritten: failed to parse: { malformed"
    );
    assert!(!registry.validation_is_clean());
}

#[test]
fn atomic_write_failure_does_not_mutate_live_enablement() {
    let mut registry = discover(vec![demo()], Ok(PluginStateFile::default()));
    commit(&mut registry, |r| r.trust("demo")).unwrap();
    let next = registry.enable("demo").unwrap();
    let error = registry
        .commit_state_change(next, Err("failed to atomically persist /state: is a directory".to_string()))
        .unwrap_err();
    assert_eq!(error, "failed to atomically persist /state: is a directory");
    let plugin = registry.get("demo").unwrap();
    assert!(plugin.trusted());
    assert!(!plugin.enabled);
    assert!(!plugin.active());
}

#[test]
fn revoking_trust_does_not_rewrite_enablement() {
    let mut registry = discover(vec![demo()], Ok(PluginStateFile::default()));
    commit(&mut registry, |r| r.trust("demo")).unwrap();
    commit(&mut registry, |r| r.enable("demo")).unwrap();
    commit(&mut registry, |r| r.revoke_trust("demo")).unwrap();

    let plugin = registry.get("demo").unwrap();
    assert!(plugin.enabled);
    assert!(!plugin.trusted());
    assert!(!plugin.active());
}

#[test]
fn unsupported_components_can_be_reviewed_but_not_enabled() {
    let mut registry = discover(
        vec![plugin("demo", PluginScope::User, CONTENT, CAPABILITY, &["commands"])],
        Ok(PluginStateFile::default()),
    );
    commit(&mut registry, |r| r.trust("demo")).unwrap();
    let error = registry.enable("demo").unwrap_err();
    assert!(error.contains("inactive capabilities"));
    assert_eq!(error, "Plugin bundle `demo` declares v0.9.1-inactive capabilities: commands");
    assert!(!registry.is_active("demo"));
}

#[test]
fn enable_of_unreviewed_bundle_names_its_trust_status() {
    let registry = discover(vec![demo()], Ok(PluginStateFile::default()));
    assert_eq!(
        registry.enable("demo").unwrap_err(),
        "Plugin bundle `demo` requires capability review before enablement (trust: not-reviewed)"
    );
    assert_eq!(registry.enable("nope").unwrap_err(), "Plugin bundle `nope` was not found");
}

#[test]
fn inapplicable_bundle_cannot_be_enabled() {
    let mut p = demo();
    p.applicable = false;
    let mut registry = discover(vec![p], Ok(PluginStateFile::default()));
    commit(&mut registry, |r| r.trust("demo")).unwrap();
    assert_eq!(
        registry.enable("demo").unwrap_err(),
        "Plugin bundle `demo` does not apply to this host"
    );
}

#[test]
fn registry_without_store_refuses_changes() {
    let registry = PluginRegistry::new();
    assert!(registry.is_empty());
    assert_eq!(registry.len(), 0);
    assert!(registry.state_path().is_none());
    assert!(registry.validation_is_clean());
    assert_eq!(registry.disable("x").unwrap_err(), "Plugin bundle `x` was not found");
    let mut registry = registry;
    assert_eq!(
        registry.commit_state_change(PluginStateFile::default(), Ok(())).unwrap_err(),
        "Plugin registry has no persistence store"
    );
    let default = PluginRegistry::default();
    assert!(default.is_empty());
}

#[test]
fn listing_orders_by_scope_then_name_and_selects_by_id_or_name() {
    let registry = discover(
        vec![
            plugin("zeta", PluginScope::Workspace, CONTENT, CAPABILITY, &[]),
            plugin("beta", PluginScope::User, CONTENT, CAPABILITY, &[]),
            plugin("alpha", PluginScope::User, CONTENT, CAPABILITY, &[]),
            plugin("omega", PluginScope::Builtin, CONTENT, CAPABILITY, &[]),
        ],
        Ok(PluginStateFile::default()),
    );
    let names: Vec<&str> = registry.list().iter().map(|p| p.name()).collect();
    assert_eq!(names, vec!["omega", "alpha", "beta", "zeta"]);
    assert_eq!(registry.get("user:beta").unwrap().name(), "beta");
    assert_eq!(registry.get("beta").unwrap().id.as_str(), "user:beta");
    assert!(registry.get("gamma").is_none());
    assert_eq!(registry.state_path(), Some("/state/plugin-state.json"));
}

#[test]
fn rediscovering_an_identifier_replaces_the_bundle() {
    let mut renamed = demo();
    renamed.manifest.plugin.name = "demo2".to_string();
    let registry = discover(vec![demo(), renamed], Ok(PluginStateFile::default()));
    assert_eq!(registry.len(), 1);
    assert_eq!(registry.get("demo2").unwrap().name(), "demo2");
    // the earlier name still selects the identifier
    assert_eq!(registry.get("demo").unwrap().name(), "demo2");
}

#[test]
fn active_and_enabled_lists_filter_in_listing_order() {
    let mut registry = discover(
        vec![
            plugin("b", PluginScope::User, CONTENT, CAPABILITY, &[]),
            plugin("a", PluginScope::User, CONTENT, CAPABILITY, &[]),
        ],
        Ok(PluginStateFile::default()),
    );
    commit(&mut registry, |r| r.trust("a")).unwrap();
    commit(&mut registry, |r| r.enable("a")).unwrap();
    commit(&mut registry, |r| r.trust("b")).unwrap();
    commit(&mut registry, |r| r.enable("b")).unwrap();
    commit(&mut registry, |r| r.revoke_trust("b")).unwrap();
    let enabled: Vec<&str> = registry.enabled_plugins().iter().map(|p| p.name()).collect();
    assert_eq!(enabled, vec!["a", "b"]);
    let active: Vec<&str> = registry.active_plugins().iter().map(|p| p.name()).collect();
    assert_eq!(active, vec!["a"]);
    assert_eq!(registry.list_enabled().len(), 1);
    assert!(registry.is_enabled("b"));
    assert!(!registry.is_active("b"));
    commit(&mut registry, |r| r.disable("a")).unwrap();
    assert!(!registry.is_enabled("a"));
}

#[test]
fn review_history_keeps_the_last_thirty_two_reviews() {
    let mut registry = discover(vec![demo()], Ok(PluginStateFile::default()));
    let mut last = PluginStateFile::default();
    for _ in 0..40 {
        last = commit(&mut registry, |r| r.trust_at("demo", "2024-01-01T00:00:00+00:00".to_string())).unwrap();
    }
    assert_eq!(last.plugins[0].state.review_history.len(), 32);
}

#[test]
fn error_diagnostic_keeps_a_trusted_enabled_bundle_inactive() {
    let mut p = demo();
    p.diagnostics.push(PluginDiagnostic::error("manifest", "bad".to_string(), None));
    let mut registry = discover(vec![p], Ok(PluginStateFile::default()));
    commit(&mut registry, |r| r.trust("demo")).unwrap();
    commit(&mut registry, |r| r.enable("demo")).unwrap();
    let plugin = registry.get("demo").unwrap();
    assert!(plugin.enabled && plugin.trusted());
    assert!(!plugin.active());
    assert_eq!(plugin.state_label(), "inactive");
    assert!(!registry.validation_is_clean());
}

#[test]
fn state_labels_follow_the_first_failing_condition() {
    let mut p = demo();
    assert_eq!(p.state_label(), "disabled");
    p.enabled = true;
    assert_eq!(p.state_label(), "enabled-untrusted");
    p.trust_status = PluginTrustStatus::Trusted;
    assert_eq!(p.state_label(), "active");
    p.applicable = false;
    assert_eq!(p.state_label(), "inapplicable");
    p.applicable = true;
    p.inventory.unsupported.push("hooks".to_string());
    assert_eq!(p.state_label(), "unsupported");
}

#[test]
fn labels_of_scopes_origins_and_trust() {
    assert_eq!(PluginScope::Builtin.as_str(), "builtin");
    assert_eq!(PluginScope::Workspace.as_str(), "workspace");
    assert_eq!(PluginOrigin::CodeWhaleHome.as_str(), "codewhale-home");
    assert_eq!(PluginOrigin::Workspace.as_str(), "workspace-codewhale");
    assert_eq!(PluginTrustStatus::CapabilitiesChanged.as_str(), "capabilities-changed");
    assert_eq!(PluginTrustStatus::NeverReviewed.as_str(), "not-reviewed");
    let w = PluginDiagnostic::warning("w", "careful".to_string(), Some("/x".to_string()));
    assert!(!w.is_error());
}

#[test]
fn unsupported_schema_version_is_refused() {
    let mut state = PluginStateFile::default();
    assert!(check_state_schema(state.clone()).is_ok());
    state.schema_version = 7;
    assert_eq!(
        check_state_schema(state).unwrap_err(),
        "unsupported plugin state schema 7; expected 1"
    );
}

#[test]
fn committed_enable_keeps_every_trust_status() {
    let other = plugin("other", PluginScope::User, CONTENT, CAPABILITY, &[]);
    let mut registry = discover(vec![demo(), other], Ok(PluginStateFile::default()));
    commit(&mut registry, |r| r.trust("demo")).unwrap();
    let before: Vec<PluginTrustStatus> = registry.list().iter().map(|p| p.trust_status).collect();
    commit(&mut registry, |r| r.enable("demo")).unwrap();
    let after: Vec<PluginTrustStatus> = registry.list().iter().map(|p| p.trust_status).collect();
    assert_eq!(before, after);
    assert_eq!(after, vec![PluginTrustStatus::Trusted, PluginTrustStatus::NeverReviewed]);
    assert!(registry.is_active("demo"));
}

#[test]
fn disabling_twice_is_disabling_once() {
    let mut registry = discover(vec![demo()], Ok(PluginStateFile::default()));
    commit(&mut registry, |r| r.trust("demo")).unwrap();
    commit(&mut registry, |r| r.enable("demo")).unwrap();
    let first = commit(&mut registry, |r| r.disable("demo")).unwrap();
    let listed_once = format!("{:?}", registry.list());
    let second = commit(&mut registry, |r| r.disable("demo")).unwrap();
    assert_eq!(format!("{first:?}"), format!("{second:?}"));
    assert_eq!(format!("{:?}", registry.list()), listed_once);
    assert!(!registry.is_enabled("demo"));
    assert!(!registry.is_active("demo"));
    assert_eq!(registry.get("demo").unwrap().trust_status, PluginTrustStatus::Trusted);
}

#[test]
fn state_with_a_bundle_listed_twice_is_detected() {
    let entry = |enabled: bool| PersistedPluginEntry {
        id: PluginId("user:demo".to_string()),
        state: PersistedPluginState { enabled, trust: None, review_history: Vec::new() },
    };
    let mut state = PluginStateFile::default();
    assert!(state.has_unique_ids());
    state.plugins.push(entry(true));
    assert!(state.has_unique_ids());
    state.plugins.push(entry(false));
    assert!(!state.has_unique_ids());
}

#[test]
fn prepared_states_list_each_bundle_once() {
    let mut registry = discover(vec![demo()], Ok(PluginStateFile::default()));
    let trusted = commit(&mut registry, |r| r.trust("demo")).unwrap();
    assert!(trusted.has_unique_ids());
    assert_eq!(trusted.plugins.len(), 1);
    let enabled = commit(&mut registry, |r| r.enable("demo")).unwrap();
    assert!(enabled.has_unique_ids());
    assert_eq!(enabled.plugins.len(), 1);
    assert!(enabled.plugins[0].state.enabled);
}
