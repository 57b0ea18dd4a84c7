//! The plugin bundle data model: scopes, origins, identifiers, diagnostics,
//! trust status and loaded bundles.

use vstd::prelude::*;

verus! {

/// Where a bundle was discovered. Listing orders bundles by this scope first,
/// in declaration order.
#[derive(Debug, Clone, Copy, PartialEq, Eq, PartialOrd, Ord, Structural)]
pub enum PluginScope {
    Builtin,
    User,
    Workspace,
}

impl PluginScope {
    /// Position of the scope in listing order.
    pub open spec fn rank(self) -> int {
        match self {
            PluginScope::Builtin => 0,
            PluginScope::User => 1,
            PluginScope::Workspace => 2,
        }
    }

    pub open spec fn label(self) -> Seq<char> {
        match self {
            PluginScope::Builtin => "builtin"@,
            PluginScope::User => "user"@,
            PluginScope::Workspace => "workspace"@,
        }
    }

    pub fn as_str(self) -> (r: &'static str)
        ensures
            r@ == self.label(),
    {
        match self {
            PluginScope::Builtin => "builtin",
            PluginScope::User => "user",
            PluginScope::Workspace => "workspace",
        }
    }

    /// Position of the scope in listing order, as a machine integer.
    pub fn rank_of(self) -> (r: u8)
        ensures
            r as int == self.rank(),
    {
        match self {
            PluginScope::Builtin => 0,
            PluginScope::User => 1,
            PluginScope::Workspace => 2,
        }
    }
}

/// Which Codewhale location a bundle came from.
#[derive(Debug, Clone, Copy, PartialEq, Eq, Structural)]
pub enum PluginOrigin {
    Builtin,
    CodeWhaleHome,
    Workspace,
}

impl PluginOrigin {
    pub open spec fn label(self) -> Seq<char> {
        match self {
            PluginOrigin::Builtin => "codewhale-builtin"@,
            PluginOrigin::CodeWhaleHome => "codewhale-home"@,
            PluginOrigin::Workspace => "workspace-codewhale"@,
        }
    }

    pub fn as_str(self) -> (r: &'static str)
        ensures
            r@ == self.label(),
    {
        match self {
            PluginOrigin::Builtin => "codewhale-builtin",
            PluginOrigin::CodeWhaleHome => "codewhale-home",
            PluginOrigin::Workspace => "workspace-codewhale",
        }
    }
}

/// Stable identifier of a bundle.
#[derive(Debug, Clone, PartialEq, Eq, PartialOrd, Ord, Hash)]
pub struct PluginId(pub String);

impl View for PluginId {
    type V = Seq<char>;

    open spec fn view(&self) -> Seq<char> {
        self.0@
    }
}

impl PluginId {
    pub fn as_str(&self) -> (r: &str)
        ensures
            r@ == self@,
    {
        self.0.as_str()
    }

    /// A copy of the identifier with the same text.
    pub fn duplicate(&self) -> (r: PluginId)
        ensures
            r@ == self@,
    {
        PluginId(self.0.clone())
    }
}

#[derive(Debug, Clone, Copy, PartialEq, Eq, Structural)]
pub enum PluginDiagnosticLevel {
    Warning,
    Error,
}

/// A problem found while loading bundles or their persisted state.
#[derive(Debug, Clone, PartialEq, Eq)]
pub struct PluginDiagnostic {
    pub level: PluginDiagnosticLevel,
    pub code: &'static str,
    pub message: String,
    pub path: Option<String>,
}

/// What a diagnostic says, as plain values.
pub struct DiagnosticView {
    pub level: PluginDiagnosticLevel,
    pub code: Seq<char>,
    pub message: Seq<char>,
    pub path: Option<Seq<char>>,
}

pub open spec fn opt_string_view(o: Option<String>) -> Option<Seq<char>> {
    match o {
        Some(s) => Some(s@),
        None => None,
    }
}

impl View for PluginDiagnostic {
    type V = DiagnosticView;

    open spec fn view(&self) -> DiagnosticView {
        DiagnosticView {
            level: self.level,
            code: self.code@,
            message: self.message@,
            path: opt_string_view(self.path),
        }
    }
}

impl PluginDiagnostic {
    pub fn warning(code: &'static str, message: String, path: Option<String>) -> (r: Self)
        ensures
            r.level == PluginDiagnosticLevel::Warning,
            r.code == code,
            r.message == message,
            r.path == path,
    {
        PluginDiagnostic { level: PluginDiagnosticLevel::Warning, code, message, path }
    }

    pub fn error(code: &'static str, message: String, path: Option<String>) -> (r: Self)
        ensures
            r.level == PluginDiagnosticLevel::Error,
            r.code == code,
            r.message == message,
            r.path == path,
    {
        PluginDiagnostic { level: PluginDiagnosticLevel::Error, code, message, path }
    }

    pub fn is_error(&self) -> (r: bool)
        ensures
            r == (self.level == PluginDiagnosticLevel::Error),
    {
        match self.level {
            PluginDiagnosticLevel::Error => true,
            PluginDiagnosticLevel::Warning => false,
        }
    }
}

/// Whether some diagnostic of `diagnostics` is an error.
pub open spec fn has_error(diagnostics: Seq<PluginDiagnostic>) -> bool {
    exists|i: int|
        0 <= i < diagnostics.len() && #[trigger] diagnostics[i].level
            == PluginDiagnosticLevel::Error
}

/// Whether some diagnostic of `diagnostics` is an error.
pub fn any_error(diagnostics: &Vec<PluginDiagnostic>) -> (r: bool)
    ensures
        r == has_error(diagnostics@),
{
    let mut i: usize = 0;
    while i < diagnostics.len()
        invariant
            i <= diagnostics@.len(),
            forall|j: int| 0 <= j < i ==> diagnostics@[j].level != PluginDiagnosticLevel::Error,
        decreases diagnostics@.len() - i,
    {
        if diagnostics[i].is_error() {
            return true;
        }
        i = i + 1;
    }
    false
}

/// The result of comparing a bundle with its persisted trust receipt.
#[derive(Debug, Clone, Copy, PartialEq, Eq, Structural)]
pub enum PluginTrustStatus {
    Trusted,
    NeverReviewed,
    ContentChanged,
    CapabilitiesChanged,
}

impl PluginTrustStatus {
    pub open spec fn label(self) -> Seq<char> {
        match self {
            PluginTrustStatus::Trusted => "trusted"@,
            PluginTrustStatus::NeverReviewed => "not-reviewed"@,
            PluginTrustStatus::ContentChanged => "content-changed"@,
            PluginTrustStatus::CapabilitiesChanged => "capabilities-changed"@,
        }
    }

    pub fn as_str(self) -> (r: &'static str)
        ensures
            r@ == self.label(),
    {
        match self {
            PluginTrustStatus::Trusted => "trusted",
            PluginTrustStatus::NeverReviewed => "not-reviewed",
            PluginTrustStatus::ContentChanged => "content-changed",
            PluginTrustStatus::CapabilitiesChanged => "capabilities-changed",
        }
    }
}

pub open spec fn strings_view(v: Seq<String>) -> Seq<Seq<char>> {
    v.map_values(|s: String| s@)
}

/// A copy of a list of strings with the same texts.
pub fn copy_strings(v: &Vec<String>) -> (r: Vec<String>)
    ensures
        strings_view(r@) == strings_view(v@),
{
    let mut r: Vec<String> = Vec::new();
    let mut i: usize = 0;
    while i < v.len()
        invariant
            i <= v@.len(),
            r@.len() == i,
            forall|j: int| 0 <= j < i ==> r@[j]@ == v@[j]@,
        decreases v@.len() - i,
    {
        r.push(v[i].clone());
        i = i + 1;
    }
    assert(strings_view(r@) =~= strings_view(v@));
    r
}

/// The capabilities a bundle declares, as read by the trust and enablement
/// policy.
#[derive(Debug, Clone)]
pub struct PluginInventory {
    pub skills: usize,
    pub mcp_servers: usize,
    /// Labels of declared components that this host does not run.
    pub unsupported: Vec<String>,
    pub filesystem_roots: Vec<String>,
    pub network_hosts: Vec<String>,
    pub lifecycle_mutation: bool,
    /// A one-line human summary of the declared components.
    pub summary: String,
}

pub struct InventoryView {
    pub skills: usize,
    pub mcp_servers: usize,
    pub unsupported: Seq<Seq<char>>,
    pub filesystem_roots: Seq<Seq<char>>,
    pub network_hosts: Seq<Seq<char>>,
    pub lifecycle_mutation: bool,
    pub summary: Seq<char>,
}

impl View for PluginInventory {
    type V = InventoryView;

    open spec fn view(&self) -> InventoryView {
        InventoryView {
            skills: self.skills,
            mcp_servers: self.mcp_servers,
            unsupported: strings_view(self.unsupported@),
            filesystem_roots: strings_view(self.filesystem_roots@),
            network_hosts: strings_view(self.network_hosts@),
            lifecycle_mutation: self.lifecycle_mutation,
            summary: self.summary@,
        }
    }
}

impl PluginInventory {
    pub open spec fn spec_has_unsupported(&self) -> bool {
        self.unsupported@.len() > 0
    }

    pub fn has_unsupported_capabilities(&self) -> (r: bool)
        ensures
            r == self.spec_has_unsupported(),
    {
        self.unsupported.len() > 0
    }

    pub fn unsupported_labels(&self) -> (r: &Vec<String>)
        ensures
            r@ == self.unsupported@,
    {
        &self.unsupported
    }

    /// A copy of the inventory with the same contents.
    pub fn duplicate(&self) -> (r: PluginInventory)
        ensures
            r@ == self@,
    {
        PluginInventory {
            skills: self.skills,
            mcp_servers: self.mcp_servers,
            unsupported: copy_strings(&self.unsupported),
            filesystem_roots: copy_strings(&self.filesystem_roots),
            network_hosts: copy_strings(&self.network_hosts),
            lifecycle_mutation: self.lifecycle_mutation,
            summary: self.summary.clone(),
        }
    }
}

/// One MCP server a bundle's manifest configures.
#[derive(Debug, Clone)]
pub struct McpServerEntry {
    pub name: String,
    pub command: Option<String>,
    pub url: Option<String>,
    pub args: Vec<String>,
    pub enabled: bool,
}

/// The `[plugin]` table of a bundle manifest.
#[derive(Debug, Clone)]
pub struct PluginInfo {
    pub name: String,
    pub version: String,
}

/// What the policy reads of a bundle manifest.
#[derive(Debug, Clone)]
pub struct PluginManifest {
    pub plugin: PluginInfo,
    pub mcp_servers: Option<Vec<McpServerEntry>>,
}

#[derive(Debug, Clone)]
pub struct PluginSkillSnapshot {
    pub name: String,
    pub description: String,
    pub localized_descriptions: std::collections::HashMap<String, String>,
    pub body: String,
    pub path: String,
}

/// A discovered bundle together with its trust and enablement state.
#[derive(Debug, Clone)]
pub struct LoadedPlugin {
    pub id: PluginId,
    pub manifest: PluginManifest,
    pub base_path: String,
    pub canonical_root: String,
    pub scope: PluginScope,
    pub origin: PluginOrigin,
    pub enabled: bool,
    pub trust_status: PluginTrustStatus,
    pub applicable: bool,
    pub inventory: PluginInventory,
    pub content_hash: String,
    pub capability_hash: String,
    pub skill_snapshots: Vec<PluginSkillSnapshot>,
    pub diagnostics: Vec<PluginDiagnostic>,
}

impl LoadedPlugin {
    pub open spec fn spec_name(&self) -> Seq<char> {
        self.manifest.plugin.name@
    }

    pub open spec fn spec_trusted(&self) -> bool {
        self.trust_status == PluginTrustStatus::Trusted
    }

    /// A bundle runs only when it is enabled, trusted, applicable to this
    /// host, declares nothing unsupported and carries no error diagnostic.
    pub open spec fn spec_active(&self) -> bool {
        &&& self.enabled
        &&& self.spec_trusted()
        &&& self.applicable
        &&& !self.inventory.spec_has_unsupported()
        &&& !has_error(self.diagnostics@)
    }

    pub open spec fn spec_state_label(&self) -> Seq<char> {
        if self.spec_active() {
            "active"@
        } else if !self.enabled {
            "disabled"@
        } else if !self.spec_trusted() {
            "enabled-untrusted"@
        } else if !self.applicable {
            "inapplicable"@
        } else if self.inventory.spec_has_unsupported() {
            "unsupported"@
        } else {
            "inactive"@
        }
    }

    pub fn name(&self) -> (r: &str)
        ensures
            r@ == self.spec_name(),
    {
        self.manifest.plugin.name.as_str()
    }

    pub fn trusted(&self) -> (r: bool)
        ensures
            r == self.spec_trusted(),
    {
        match self.trust_status {
            PluginTrustStatus::Trusted => true,
            _ => false,
        }
    }

    pub fn active(&self) -> (r: bool)
        ensures
            r == self.spec_active(),
    {
        self.enabled && self.trusted() && self.applicable
            && !self.inventory.has_unsupported_capabilities() && !any_error(&self.diagnostics)
    }

    pub fn state_label(&self) -> (r: &'static str)
        ensures
            r@ == self.spec_state_label(),
    {
        if self.active() {
            "active"
        } else if !self.enabled {
            "disabled"
        } else if !self.trusted() {
            "enabled-untrusted"
        } else if !self.applicable {
            "inapplicable"
        } else if self.inventory.has_unsupported_capabilities() {
            "unsupported"
        } else {
            "inactive"
        }
    }
}

} // verus!
