use codewhale_plugins::commands::{
    action_error, append_diagnostics, approval_label, bare_selects_bundle,
    command_token_available, finish_mutation, remote_server_line, reads_legacy_tools, route_plugin_command,
    PluginStep,
    legacy_tools, list_bundles_and_legacy_tools, list_legacy_tools, mutate_bundle,
    parse_plugin_command, plugin_dir_for, reload_message, render_bundle_detail,
    render_mcp_inventory, render_permissions, review_bundle, review_token, show_bundle,
    show_legacy_tool_detail, validate_bundles, ApprovalRequirement, CommandResult, LegacyListing,
    LegacyTool, Mutation, MutationPlan, PluginCommand, PluginMessages, PluginsCommands,
};
use codewhale_plugins::credentials::PathComponent;
use codewhale_plugins::registry::PluginRegistry;
use codewhale_plugins::state::PluginStateFile;
use codewhale_plugins::types::{
    LoadedPlugin, McpServerEntry, PluginDiagnostic, PluginId, PluginInfo, PluginInventory,
    PluginManifest, PluginOrigin, PluginScope, PluginTrustStatus,
};

fn messages() -> PluginMessages {
    PluginMessages {
        bundle_usage: "Usage: /plugin [list|show <name>|validate|trust <name>|enable <name>|disable <name>|revoke <name>|reload|tools]".to_string(),
        bundle_none_found: "No plugin bundles found.".to_string(),
        bundle_list_header: "Plugin bundles ({count})".to_string(),
        legacy_list_header: "Legacy executable plugin tools ({count}) in {dir}".to_string(),
        bundle_not_found: "Plugin bundle `{name}` not found.".to_string(),
        bundle_detail: "{name} ({id}) v{version}\norigin: {origin} · scope: {scope}\nstate: {state} · trust: {trust}\ninventory: {inventory}\npermissions: {permissions}\nmcp: {mcp}\nunsupported: {unsupported}\ncontent: {content_hash}\ncapabilities: {capability_hash}\npath: {path}".to_string(),
        bundle_mutation_success: "Plugin bundle `{name}` {action}.".to_string(),
        bundle_diagnostics_header: "Diagnostics ({count})".to_string(),
        action_failed: "Plugin action failed: {error}".to_string(),
        bundle_reloaded: "Reloaded {count} plugin bundles for {workspace}.".to_string(),
        legacy_none_found: "No legacy plugin tools found in {dir}.".to_string(),
        legacy_not_found: "Legacy plugin tool `{name}` not found.".to_string(),
        detail_description: "Description: {description}".to_string(),
        detail_schema: "Schema: {schema}".to_string(),
        detail_approval: "Approval: {approval}".to_string(),
        detail_path: "Path: {path}".to_string(),
    }
}

fn bundle(name: &str) -> LoadedPlugin {
    LoadedPlugin {
        id: PluginId(format!("workspace:{name}")),
        manifest: PluginManifest {
            plugin: PluginInfo { name: name.to_string(), version: "1.0.0".to_string() },
            mcp_servers: None,
        },
        base_path: format!("/ws/.codewhale/plugins/{name}"),
        canonical_root: format!("/ws/.codewhale/plugins/{name}"),
        scope: PluginScope::Workspace,
        origin: PluginOrigin::Workspace,
        enabled: false,
        trust_status: PluginTrustStatus::NeverReviewed,
        applicable: true,
        inventory: PluginInventory {
            skills: 1,
            mcp_servers: 0,
            unsupported: Vec::new(),
            filesystem_roots: Vec::new(),
            network_hosts: Vec::new(),
            lifecycle_mutation: false,
            summary: "1 skill".to_string(),
        },
        content_hash: "aaaaaaaaaaaabbbbbbbbbbbbcccccccccccc".to_string(),
        capability_hash: "111111111111222222222222333333333333".to_string(),
        skill_snapshots: Vec::new(),
        diagnostics: Vec::new(),
    }
}

fn registry() -> PluginRegistry {
    PluginRegistry::from_discovery(
        vec![bundle("demo")],
        Vec::new(),
        "/home/plugins/state.json".to_string(),
        Ok(PluginStateFile::default()),
    )
}

fn greet(description: &str, approval: ApprovalRequirement) -> LegacyTool {
    LegacyTool {
        path: "/ws/tools/greet.sh".to_string(),
        name: "greet".to_string(),
        description: description.to_string(),
        input_schema: "{\n  \"type\": \"object\"\n}".to_string(),
        approval,
    }
}

/// Runs a `/plugin` argument through the library's routing the way the
/// command host does, persisting every prepared state change successfully.
/// Returns the result and whether anything was persisted.
fn run(
    msgs: &PluginMessages,
    registry: &mut PluginRegistry,
    legacy: Option<&LegacyListing>,
    arg: Option<&str>,
) -> (CommandResult, bool) {
    let command = parse_plugin_command(arg);
    assert!(command_token_available(Some(&*registry), &command));
    let dir = legacy.map(|l| l.dir.as_str());
    match route_plugin_command(msgs, Some(&*registry), command, dir, legacy) {
        PluginStep::Respond(r) => (r, false),
        PluginStep::Persist { selector, next, action } => {
            (finish_mutation(msgs, registry, &selector, next, Ok(()), action), true)
        }
        PluginStep::Reload => (reload_message(msgs, Ok(registry.len()), "/ws"), false),
    }
}

#[test]
fn list_show_validate_are_read_only_and_label_legacy_tools() {
    let msgs = messages();
    let mut registry = registry();
    let legacy = LegacyListing {
        dir: "/ws/tools".to_string(),
        tools: vec![greet("hello", ApprovalRequirement::Auto)],
    };
    for arg in [Some("list"), Some("show demo"), Some("validate")] {
        let (result, persisted) = run(&msgs, &mut registry, Some(&legacy), arg);
        assert!(!result.is_error, "{:?}", result.message);
        assert!(!persisted, "read-only command wrote plugin state");
    }
    let list = run(&msgs, &mut registry, Some(&legacy), Some("list")).0.message.unwrap();
    assert!(list.contains("Plugin bundles (1)"));
    assert!(list.contains("disabled"));
    assert!(list.contains("Legacy executable plugin tools (1)"));
}

#[test]
fn trust_requires_content_and_capability_bound_review_token() {
    let msgs = messages();
    let mut registry = registry();

    let (enable_review, _) = run(&msgs, &mut registry, None, Some("enable demo"));
    assert!(!enable_review.is_error);
    assert!(
        enable_review
            .message
            .as_deref()
            .is_some_and(|message| message.contains("/plugin trust demo "))
    );
    assert!(!registry.get("demo").unwrap().trusted());

    let review = run(&msgs, &mut registry, None, Some("trust demo")).0.message.unwrap();
    let confirmation = review
        .lines()
        .find(|line| line.starts_with("/plugin trust demo "))
        .unwrap()
        .to_string();
    assert!(!registry.get("demo").unwrap().trusted());

    assert!(run(&msgs, &mut registry, None, Some("trust demo wrong")).0.is_error);
    let arg = confirmation.trim_start_matches("/plugin ");
    assert!(!run(&msgs, &mut registry, None, Some(arg)).0.is_error);
    assert!(!run(&msgs, &mut registry, None, Some("enable demo")).0.is_error);
    assert!(registry.is_active("demo"));
    assert!(!run(&msgs, &mut registry, None, Some("disable demo")).0.is_error);
    assert!(!registry.is_active("demo"));
}

#[test]
fn legacy_tool_detail_remains_available_under_tools_namespace() {
    let msgs = messages();
    let mut registry = registry();
    let legacy = LegacyListing {
        dir: "/ws/tools".to_string(),
        tools: vec![greet("Say hello", ApprovalRequirement::Required)],
    };
    let (result, _) = run(&msgs, &mut registry, Some(&legacy), Some("tools greet"));
    assert!(!result.is_error);
    let message = result.message.unwrap();
    assert!(message.contains("Say hello"));
    assert!(message.contains("required"));
}

#[test]
fn arguments_parse_into_subcommands() {
    assert!(matches!(parse_plugin_command(None), PluginCommand::List));
    assert!(matches!(parse_plugin_command(Some("  list ")), PluginCommand::List));
    assert!(matches!(parse_plugin_command(Some("help")), PluginCommand::Help));
    assert!(matches!(parse_plugin_command(Some("validate")), PluginCommand::Validate(None)));
    assert!(matches!(parse_plugin_command(Some("reload")), PluginCommand::Reload));
    assert!(matches!(parse_plugin_command(Some("tools")), PluginCommand::Tools(None)));
    match parse_plugin_command(Some("show\tdemo")) {
        PluginCommand::Show(s) => assert_eq!(s, "demo"),
        other => panic!("{other:?}"),
    }
    match parse_plugin_command(Some("validate demo")) {
        PluginCommand::Validate(Some(s)) => assert_eq!(s, "demo"),
        other => panic!("{other:?}"),
    }
    match parse_plugin_command(Some("trust demo")) {
        PluginCommand::Review(s) => assert_eq!(s, "demo"),
        other => panic!("{other:?}"),
    }
    match parse_plugin_command(Some("trust demo abc.def")) {
        PluginCommand::Mutate(s, Mutation::Trust(t)) => {
            assert_eq!(s, "demo");
            assert_eq!(t, "abc.def");
        }
        other => panic!("{other:?}"),
    }
    assert!(matches!(parse_plugin_command(Some("enable demo")), PluginCommand::Mutate(_, Mutation::Enable)));
    assert!(matches!(parse_plugin_command(Some("disable demo")), PluginCommand::Mutate(_, Mutation::Disable)));
    assert!(matches!(parse_plugin_command(Some("revoke demo")), PluginCommand::Mutate(_, Mutation::Revoke)));
    match parse_plugin_command(Some("tools greet")) {
        PluginCommand::Tools(Some(n)) => assert_eq!(n, "greet"),
        other => panic!("{other:?}"),
    }
    match parse_plugin_command(Some("greet")) {
        PluginCommand::Bare(s) => assert_eq!(s, "greet"),
        other => panic!("{other:?}"),
    }
    assert!(matches!(parse_plugin_command(Some("show")), PluginCommand::Bare(_)));
    assert!(matches!(parse_plugin_command(Some("frobnicate demo")), PluginCommand::Usage));
    assert!(matches!(parse_plugin_command(Some("enable a b")), PluginCommand::Usage));
    // a no-break space separates words too
    match parse_plugin_command(Some("show\u{00A0}demo")) {
        PluginCommand::Show(s) => assert_eq!(s, "demo"),
        other => panic!("{other:?}"),
    }
}

#[test]
fn review_token_binds_both_hash_prefixes() {
    let b = bundle("demo");
    assert_eq!(review_token(&b), "aaaaaaaaaaaa.111111111111");
}

#[test]
fn permissions_list_roots_hosts_and_lifecycle() {
    let mut b = bundle("demo");
    assert_eq!(
        render_permissions(&b),
        "filesystem_roots=[none] network_hosts=[none] lifecycle_mutation=false"
    );
    b.inventory.filesystem_roots = vec!["/data".to_string(), "/tmp".to_string()];
    b.inventory.network_hosts = vec!["api.example.com".to_string()];
    b.inventory.lifecycle_mutation = true;
    assert_eq!(
        render_permissions(&b),
        "filesystem_roots=[/data, /tmp] network_hosts=[api.example.com] lifecycle_mutation=true"
    );
}

#[test]
fn mcp_inventory_is_sorted_and_shows_remote_origins() {
    let mut b = bundle("demo");
    assert_eq!(render_mcp_inventory(&b), "none");
    b.manifest.mcp_servers = Some(vec![
        McpServerEntry {
            name: "zeta".to_string(),
            command: None,
            url: Some("https://example.com:443/mcp/v1?x=1".to_string()),
            args: Vec::new(),
            enabled: true,
        },
        McpServerEntry {
            name: "alpha".to_string(),
            command: Some("node".to_string()),
            url: None,
            args: vec!["a".to_string(), "b".to_string()],
            enabled: false,
        },
        McpServerEntry {
            name: "mid".to_string(),
            command: None,
            url: Some("not a url".to_string()),
            args: Vec::new(),
            enabled: true,
        },
        McpServerEntry {
            name: "beta".to_string(),
            command: None,
            url: None,
            args: Vec::new(),
            enabled: true,
        },
    ]);
    assert_eq!(
        render_mcp_inventory(&b),
        "alpha: stdio command=node args=2 configured-off; beta: invalid; mid: remote endpoint=invalid-url configured-on; zeta: remote endpoint=https://example.com configured-on"
    );
}

#[test]
fn bundle_detail_fills_the_template_and_hides_hashes_on_request() {
    let msgs = messages();
    let mut b = bundle("demo");
    b.diagnostics.push(PluginDiagnostic::warning(
        "skill-missing",
        "skill path has no skills".to_string(),
        Some("/ws/skills".to_string()),
    ));
    let detail = render_bundle_detail(&msgs, &b, false);
    assert!(detail.starts_with("demo (workspace:demo) v1.0.0\norigin: workspace-codewhale · scope: workspace\n"));
    assert!(detail.contains("content: hidden\ncapabilities: hidden\npath: /ws/.codewhale/plugins/demo\n"));
    assert!(detail.ends_with(
        "Diagnostics (1)\n• warning [skill-missing]: skill path has no skills (/ws/skills)\n"
    ));
    let shown = render_bundle_detail(&msgs, &b, true);
    assert!(shown.contains("content: aaaaaaaaaaaabbbbbbbbbbbbcccccccccccc\n"));
    assert!(shown.contains("state: disabled · trust: not-reviewed\n"));
}

#[test]
fn diagnostics_section_starts_on_a_new_line() {
    let msgs = messages();
    let mut out = "text".to_string();
    append_diagnostics(&msgs, &mut out, &[]);
    assert_eq!(out, "text");
    let diags = vec![PluginDiagnostic::error("e1", "broken".to_string(), None)];
    append_diagnostics(&msgs, &mut out, &diags);
    assert_eq!(out, "text\nDiagnostics (1)\n• error [e1]: broken\n");
    let mut empty = String::new();
    append_diagnostics(&msgs, &mut empty, &diags);
    assert_eq!(empty, "\nDiagnostics (1)\n• error [e1]: broken\n");
}

#[test]
fn validation_reports_each_bundle_and_the_registry() {
    let msgs = messages();
    let mut bad = bundle("bad");
    bad.diagnostics.push(PluginDiagnostic::error("manifest", "no version".to_string(), None));
    let registry = PluginRegistry::from_discovery(
        vec![bundle("good"), bad],
        Vec::new(),
        "/s.json".to_string(),
        Ok(PluginStateFile::default()),
    );
    let all = validate_bundles(&msgs, Some(&registry), None);
    assert_eq!(
        all.message.unwrap(),
        "bad — invalid — 1 skill\nDiagnostics (1)\n• error [manifest]: no version\ngood — valid — 1 skill\n"
    );
    let one = validate_bundles(&msgs, Some(&registry), Some("good"));
    assert_eq!(one.message.unwrap(), "good — valid — 1 skill\n");
    let missing = validate_bundles(&msgs, Some(&registry), Some("nope"));
    assert!(missing.is_error);
    assert_eq!(missing.message.unwrap(), "Plugin bundle `nope` not found.");
    let empty = PluginRegistry::new();
    assert_eq!(validate_bundles(&msgs, Some(&empty), None).message.unwrap(), "valid");
    assert!(validate_bundles(&msgs, None, None).is_error);
}

#[test]
fn listing_without_registry_or_bundles() {
    let msgs = messages();
    assert_eq!(
        list_bundles_and_legacy_tools(&msgs, None, None).message.unwrap(),
        "No plugin bundles found."
    );
    let empty = PluginRegistry::new();
    let legacy = LegacyListing { dir: "/t".to_string(), tools: vec![greet("hi", ApprovalRequirement::Suggest)] };
    assert_eq!(
        list_bundles_and_legacy_tools(&msgs, Some(&empty), Some(&legacy)).message.unwrap(),
        "No plugin bundles found.\nLegacy executable plugin tools (1) in /t\n• greet — hi\n  /ws/tools/greet.sh\n"
    );
}

#[test]
fn list_line_shows_state_scope_trust_and_id() {
    let msgs = messages();
    let registry = registry();
    assert_eq!(
        list_bundles_and_legacy_tools(&msgs, Some(&registry), None).message.unwrap(),
        "Plugin bundles (1)\n• demo — disabled\n  workspace · not-reviewed · 1 skill\n  workspace:demo\n"
    );
}

#[test]
fn mutations_report_failures_and_successes() {
    let msgs = messages();
    let registry = registry();
    match mutate_bundle(&msgs, Some(&registry), "ghost", Mutation::Disable) {
        MutationPlan::Respond(r) => {
            assert!(r.is_error);
            assert_eq!(r.message.unwrap(), "Plugin action failed: Plugin bundle `ghost` was not found");
        }
        other => panic!("{other:?}"),
    }
    match mutate_bundle(&msgs, None, "demo", Mutation::Disable) {
        MutationPlan::Respond(r) => {
            assert_eq!(r.message.unwrap(), "Plugin action failed: Plugin registry is not initialized")
        }
        other => panic!("{other:?}"),
    }
    match mutate_bundle(&msgs, None, "demo", Mutation::Trust("x".to_string())) {
        MutationPlan::Respond(r) => assert_eq!(r.message.unwrap(), "Plugin bundle `demo` not found."),
        other => panic!("{other:?}"),
    }
    let mut registry = registry;
    let next = match mutate_bundle(&msgs, Some(&registry), "demo", Mutation::Revoke) {
        MutationPlan::Persist { next, action } => {
            assert_eq!(action, "trust-revoked");
            next
        }
        other => panic!("{other:?}"),
    };
    let failed = finish_mutation(&msgs, &mut registry, "demo", next.clone(), Err("disk full".to_string()), "trust-revoked");
    assert_eq!(failed.message.unwrap(), "Plugin action failed: disk full");
    let done = finish_mutation(&msgs, &mut registry, "demo", next, Ok(()), "trust-revoked");
    assert_eq!(done.message.unwrap(), "Plugin bundle `demo` trust-revoked.");
}

#[test]
fn legacy_tool_commands() {
    let msgs = messages();
    assert_eq!(
        legacy_tools(&msgs, None, None, None).message.unwrap(),
        "Plugin action failed: Could not resolve the legacy executable plugin-tool directory"
    );
    assert_eq!(
        legacy_tools(&msgs, Some("/t"), None, None).message.unwrap(),
        "No legacy plugin tools found in /t."
    );
    let none: Vec<LegacyTool> = Vec::new();
    assert_eq!(
        list_legacy_tools(&msgs, "/t", &none).message.unwrap(),
        "No legacy plugin tools found in /t."
    );
    let tools = vec![greet("Say hello", ApprovalRequirement::Suggest)];
    let detail = show_legacy_tool_detail(&msgs, "greet", &tools).message.unwrap();
    assert_eq!(
        detail,
        format!(
            "greet\n{}\nDescription: Say hello\nSchema: {{\n  \"type\": \"object\"\n}}\nApproval: suggest\nPath: /ws/tools/greet.sh\n",
            "=".repeat(40)
        )
    );
    let missing = show_legacy_tool_detail(&msgs, "other", &tools);
    assert!(missing.is_error);
    assert_eq!(missing.message.unwrap(), "Legacy plugin tool `other` not found.");
    assert_eq!(approval_label(ApprovalRequirement::Auto), "auto");
}

#[test]
fn reload_and_plugin_directory() {
    let msgs = messages();
    assert_eq!(
        reload_message(&msgs, Ok(12), "/ws").message.unwrap(),
        "Reloaded 12 plugin bundles for /ws."
    );
    assert_eq!(
        reload_message(&msgs, Err("Plugin registry lock is poisoned".to_string()), "/ws").message.unwrap(),
        "Plugin action failed: Plugin registry lock is poisoned"
    );
    let path = |names: &[&str]| -> Vec<PathComponent> {
        let mut p = vec![PathComponent::RootDir];
        p.extend(names.iter().map(|n| PathComponent::Normal(n.to_string())));
        p
    };
    let shown = |p: Option<Vec<PathComponent>>| format!("{p:?}");
    assert_eq!(
        shown(plugin_dir_for(Some(path(&["cfg", "tools"])), Some(&path(&["home"])))),
        shown(Some(path(&["cfg", "tools"])))
    );
    assert_eq!(
        shown(plugin_dir_for(None, Some(&path(&["home", ".codewhale"])))),
        shown(Some(path(&["home", ".codewhale", "tools"])))
    );
    assert_eq!(
        shown(plugin_dir_for(None, Some(&vec![PathComponent::Normal("rel".to_string())]))),
        shown(Some(vec![
            PathComponent::Normal("rel".to_string()),
            PathComponent::Normal("tools".to_string()),
        ]))
    );
    assert!(plugin_dir_for(None, None).is_none());
}

#[test]
fn show_and_bare_selectors() {
    let msgs = messages();
    let registry = registry();
    assert!(bare_selects_bundle(Some(&registry), "demo"));
    assert!(bare_selects_bundle(Some(&registry), "workspace:demo"));
    assert!(!bare_selects_bundle(Some(&registry), "greet"));
    assert!(!bare_selects_bundle(None, "demo"));
    let missing = show_bundle(&msgs, Some(&registry), "greet");
    assert!(missing.is_error);
    assert_eq!(action_error(&msgs, "x").message.unwrap(), "Plugin action failed: x");
    let info = PluginsCommands::info();
    assert_eq!(info.name, "plugin");
    assert_eq!(info.aliases, vec!["plugins"]);
}

#[test]
fn routing_asks_the_host_to_reload_and_answers_usage_errors() {
    let msgs = messages();
    let registry = registry();
    assert!(matches!(
        route_plugin_command(&msgs, Some(&registry), parse_plugin_command(Some("reload")), None, None),
        PluginStep::Reload
    ));
    match route_plugin_command(&msgs, Some(&registry), parse_plugin_command(Some("a b c d")), None, None) {
        PluginStep::Respond(r) => {
            assert!(r.is_error);
            assert_eq!(r.message.unwrap(), msgs.bundle_usage);
        }
        _ => panic!("usage is answered"),
    }
    match route_plugin_command(&msgs, None, parse_plugin_command(Some("disable demo")), None, None) {
        PluginStep::Respond(r) => {
            assert!(r.is_error);
            assert_eq!(r.message.unwrap(), "Plugin action failed: Plugin registry is not initialized");
        }
        _ => panic!("no registry, nothing to persist"),
    }
}

#[test]
fn routing_a_disable_asks_to_persist_the_prepared_state() {
    let msgs = messages();
    let registry = registry();
    match route_plugin_command(&msgs, Some(&registry), parse_plugin_command(Some("disable demo")), None, None) {
        PluginStep::Persist { selector, next, action } => {
            assert_eq!(selector, "demo");
            assert_eq!(action, "disabled");
            assert!(next.has_unique_ids());
            assert_eq!(next.plugins.len(), 1);
            assert!(!next.plugins[0].state.enabled);
        }
        _ => panic!("a disable is persisted"),
    }
}

#[test]
fn only_commands_that_show_tools_read_the_legacy_directory() {
    let registry = registry();
    let reads = |arg: &str| reads_legacy_tools(Some(&registry), &parse_plugin_command(Some(arg)));
    assert!(reads("list"));
    assert!(reads("tools"));
    assert!(reads("tools greet"));
    assert!(reads("greet"));
    assert!(!reads("demo"));
    assert!(!reads("show demo"));
    assert!(!reads("enable demo"));
    assert!(reads_legacy_tools(None, &parse_plugin_command(None)));
}

#[test]
fn short_hashes_block_only_commands_that_slice_a_token() {
    let mut short = bundle("demo");
    short.content_hash = "abc".to_string();
    let registry = PluginRegistry::from_discovery(
        vec![short],
        Vec::new(),
        "/home/plugins/state.json".to_string(),
        Ok(PluginStateFile::default()),
    );
    let ok = |arg: &str| command_token_available(Some(&registry), &parse_plugin_command(Some(arg)));
    assert!(!ok("trust demo"));
    assert!(!ok("trust demo abc.def"));
    assert!(!ok("enable demo"));
    assert!(ok("disable demo"));
    assert!(ok("revoke demo"));
    assert!(ok("show demo"));
    assert!(ok("trust missing"));
    let msgs = messages();
    match mutate_bundle(&msgs, Some(&registry), "demo", Mutation::Disable) {
        MutationPlan::Persist { action, .. } => assert_eq!(action, "disabled"),
        _ => panic!("disabling needs no token"),
    }
}

#[test]
fn remote_server_line_shows_the_origin_or_invalid_url() {
    assert_eq!(
        remote_server_line("zeta", Some("https://example.com".to_string()), true),
        "zeta: remote endpoint=https://example.com configured-on"
    );
    assert_eq!(
        remote_server_line("mid", None, false),
        "mid: remote endpoint=invalid-url configured-off"
    );
}
