//! The plugin registry: discovered bundles with their persisted trust and
//! enablement applied, and the state transitions that change them.
//!
//! A transition is prepared from the live state without touching it
//! (`trust`, `revoke_trust`, `enable`, `disable`); the prepared state is
//! persisted by the caller and then committed with the outcome of that write
//! (`commit_state_change`). A failed write leaves the live registry as it was.

use vstd::prelude::*;

use crate::state::{
    default_state, find_entry, read_entry, receipt_of, spec_apply, spec_clear_trust,
    spec_record_trust, spec_set_enabled, trust_status_of, write_entry, PluginStateFile, StateView,
    TrustReceipt,
};
use crate::text::{
    join_strings, lemma_seq_lt_irreflexive, lemma_seq_lt_total, lemma_seq_lt_transitive, seq_join,
    seq_lt, str_eq, str_lt,
};
use crate::types::{
    any_error, has_error, LoadedPlugin, PluginDiagnostic, PluginDiagnosticLevel,
    PluginId, PluginTrustStatus,
};

verus! {

/// A bundle name that selects a bundle identifier.
#[derive(Debug, Clone)]
struct NameBinding {
    name: String,
    id: PluginId,
}

/// The discovered bundles, keyed by identifier and listed in
/// (scope, name, identifier) order, with their persisted state.
#[derive(Debug)]
pub struct PluginRegistry {
    plugins: Vec<LoadedPlugin>,
    names: Vec<NameBinding>,
    diagnostics: Vec<PluginDiagnostic>,
    state: PluginStateFile,
    state_path: Option<String>,
    state_error: Option<String>,
}

/// What a registry holds, as plain values.
pub struct RegistryView {
    /// The bundles in listing order.
    pub plugins: Seq<LoadedPlugin>,
    /// Name to identifier bindings; the first binding of a name is read.
    pub names: Seq<(Seq<char>, Seq<char>)>,
    pub diagnostics: Seq<PluginDiagnostic>,
    pub state: StateView,
    pub state_path: Option<Seq<char>>,
    /// Why the persisted state could not be read, if it could not.
    pub state_error: Option<Seq<char>>,
}

spec fn names_view(v: Seq<NameBinding>) -> Seq<(Seq<char>, Seq<char>)> {
    v.map_values(|b: NameBinding| (b.name@, b.id@))
}

impl View for PluginRegistry {
    type V = RegistryView;

    closed spec fn view(&self) -> RegistryView {
        RegistryView {
            plugins: self.plugins@,
            names: names_view(self.names@),
            diagnostics: self.diagnostics@,
            state: self.state@,
            state_path: crate::types::opt_string_view(self.state_path),
            state_error: crate::types::opt_string_view(self.state_error),
        }
    }
}

/// Listing order: scope, then name, then identifier.
pub open spec fn listed_before(p: LoadedPlugin, q: LoadedPlugin) -> bool {
    ||| p.scope.rank() < q.scope.rank()
    ||| p.scope.rank() == q.scope.rank() && seq_lt(p.spec_name(), q.spec_name())
    ||| p.scope.rank() == q.scope.rank() && p.spec_name() == q.spec_name() && seq_lt(p.id@, q.id@)
}

pub proof fn lemma_listed_irreflexive(p: LoadedPlugin)
    ensures
        !listed_before(p, p),
{
    lemma_seq_lt_irreflexive(p.spec_name());
    lemma_seq_lt_irreflexive(p.id@);
}

pub proof fn lemma_listed_transitive(p: LoadedPlugin, q: LoadedPlugin, r: LoadedPlugin)
    requires
        listed_before(p, q),
        listed_before(q, r),
    ensures
        listed_before(p, r),
{
    if p.scope.rank() == r.scope.rank() {
        if seq_lt(p.spec_name(), q.spec_name()) && seq_lt(q.spec_name(), r.spec_name()) {
            lemma_seq_lt_transitive(p.spec_name(), q.spec_name(), r.spec_name());
        }
        if seq_lt(p.id@, q.id@) && seq_lt(q.id@, r.id@) {
            lemma_seq_lt_transitive(p.id@, q.id@, r.id@);
        }
    }
}

/// Bundles with different identifiers are always ordered one way or the other.
pub proof fn lemma_listed_total(p: LoadedPlugin, q: LoadedPlugin)
    requires
        p.id@ != q.id@,
    ensures
        listed_before(p, q) || listed_before(q, p),
{
    if p.spec_name() != q.spec_name() {
        lemma_seq_lt_total(p.spec_name(), q.spec_name());
    }
    lemma_seq_lt_total(p.id@, q.id@);
}

pub proof fn lemma_listed_asymmetric(p: LoadedPlugin, q: LoadedPlugin)
    requires
        listed_before(p, q),
    ensures
        !listed_before(q, p),
{
    if listed_before(q, p) {
        lemma_listed_transitive(p, q, p);
        lemma_listed_irreflexive(p);
    }
}

fn listed_before_exec(p: &LoadedPlugin, q: &LoadedPlugin) -> (r: bool)
    ensures
        r == listed_before(*p, *q),
{
    let rp = p.scope.rank_of();
    let rq = q.scope.rank_of();
    if rp != rq {
        rp < rq
    } else if str_lt(p.name(), q.name()) {
        true
    } else if str_eq(p.name(), q.name()) {
        str_lt(p.id.as_str(), q.id.as_str())
    } else {
        false
    }
}

/// `p` inserted into `s` before the first bundle that it is listed before.
pub open spec fn insert_sorted(s: Seq<LoadedPlugin>, p: LoadedPlugin) -> Seq<LoadedPlugin>
    decreases s.len(),
{
    if s.len() == 0 {
        seq![p]
    } else if listed_before(p, s[0]) {
        seq![p] + s
    } else {
        seq![s[0]] + insert_sorted(s.drop_first(), p)
    }
}

pub open spec fn has_plugin_id(s: Seq<LoadedPlugin>, id: Seq<char>) -> bool {
    exists|i: int| 0 <= i < s.len() && s[i].id@ == id
}

/// `s` without its bundle identified by `id`.
pub open spec fn without_id(s: Seq<LoadedPlugin>, id: Seq<char>) -> Seq<LoadedPlugin> {
    if has_plugin_id(s, id) {
        s.remove(choose|i: int| 0 <= i < s.len() && s[i].id@ == id)
    } else {
        s
    }
}

pub open spec fn is_first_name(names: Seq<(Seq<char>, Seq<char>)>, name: Seq<char>, k: int) -> bool {
    &&& 0 <= k < names.len()
    &&& names[k].0 == name
    &&& forall|j: int| 0 <= j < k ==> names[j].0 != name
}

/// Position of the binding that is read for `name`.
pub open spec fn name_index(names: Seq<(Seq<char>, Seq<char>)>, name: Seq<char>) -> Option<int> {
    if exists|k: int| is_first_name(names, name, k) {
        Some(choose|k: int| is_first_name(names, name, k))
    } else {
        None
    }
}

/// The bindings with `name` bound to `id`.
pub open spec fn bind_name(names: Seq<(Seq<char>, Seq<char>)>, name: Seq<char>, id: Seq<char>) -> Seq<
    (Seq<char>, Seq<char>),
> {
    match name_index(names, name) {
        Some(k) => names.update(k, (name, id)),
        None => names.push((name, id)),
    }
}

/// The bundles and bindings after registering `input` in order; a later
/// bundle replaces an earlier one with the same identifier, and a later
/// binding of a name replaces an earlier one.
pub open spec fn registered(input: Seq<LoadedPlugin>) -> (Seq<LoadedPlugin>, Seq<(Seq<char>, Seq<char>)>)
    decreases input.len(),
{
    if input.len() == 0 {
        (Seq::empty(), Seq::empty())
    } else {
        let prev = registered(input.drop_last());
        let p = input.last();
        (insert_sorted(without_id(prev.0, p.id@), p), bind_name(prev.1, p.spec_name(), p.id@))
    }
}

/// The message when no bundle matches a selector.
pub open spec fn not_found_message(selector: Seq<char>) -> Seq<char> {
    "Plugin bundle `"@ + selector + "` was not found"@
}

pub open spec fn review_required_message(name: Seq<char>, trust: Seq<char>) -> Seq<char> {
    "Plugin bundle `"@ + name + "` requires capability review before enablement (trust: "@ + trust
        + ")"@
}

pub open spec fn inapplicable_message(name: Seq<char>) -> Seq<char> {
    "Plugin bundle `"@ + name + "` does not apply to this host"@
}

pub open spec fn unsupported_message(name: Seq<char>, labels: Seq<Seq<char>>) -> Seq<char> {
    "Plugin bundle `"@ + name + "` declares v0.9.1-inactive capabilities: "@ + seq_join(
        labels,
        ", "@,
    )
}

pub open spec fn fail_closed_message(error: Seq<char>) -> Seq<char> {
    "Plugin state is fail-closed; repair or move the malformed state file before mutating it: "@
        + error
}

pub open spec fn no_store_message() -> Seq<char> {
    "Plugin registry has no persistence store"@
}

pub open spec fn state_invalid_message(error: Seq<char>) -> Seq<char> {
    "Plugin state is fail-closed and will not be overwritten: "@ + error
}

/// `r` failed with message `msg`.
pub open spec fn failed_with<T>(r: Result<T, String>, msg: Seq<char>) -> bool {
    r matches Err(e) && e@ == msg
}

/// `r` succeeded with the state `st`.
pub open spec fn prepared(r: Result<PluginStateFile, String>, st: StateView) -> bool {
    r matches Ok(s) && s@ == st
}

proof fn lemma_insert_sorted_at(s: Seq<LoadedPlugin>, p: LoadedPlugin, k: int)
    requires
        0 <= k <= s.len(),
        forall|j: int| 0 <= j < k ==> !listed_before(p, #[trigger] s[j]),
        k < s.len() ==> listed_before(p, s[k]),
    ensures
        insert_sorted(s, p) == s.insert(k, p),
    decreases s.len(),
{
    if s.len() == 0 {
        assert(seq![p] =~= s.insert(k, p));
    } else if k == 0 {
        assert(seq![p] + s =~= s.insert(k, p));
    } else {
        assert(!listed_before(p, s[0]));
        assert forall|j: int| 0 <= j < k - 1 implies !listed_before(p, #[trigger] s.drop_first()[j]) by {
            assert(s.drop_first()[j] == s[j + 1]);
        }
        lemma_insert_sorted_at(s.drop_first(), p, k - 1);
        assert(seq![s[0]] + s.drop_first().insert(k - 1, p) =~= s.insert(k, p));
    }
}

/// Identifiers are unique and bundles are in listing order.
pub open spec fn sorted_unique(s: Seq<LoadedPlugin>) -> bool {
    &&& forall|i: int, j: int|
        0 <= i < s.len() && 0 <= j < s.len() && i != j ==> s[i].id@ != s[j].id@
    &&& forall|i: int, j: int| 0 <= i < j < s.len() ==> listed_before(s[i], s[j])
}

proof fn lemma_without_found(s: Seq<LoadedPlugin>, id: Seq<char>, i: int)
    requires
        sorted_unique(s),
        0 <= i < s.len(),
        s[i].id@ == id,
    ensures
        without_id(s, id) == s.remove(i),
{
    let c = choose|c: int| 0 <= c < s.len() && s[c].id@ == id;
    if c != i {
        assert(s[c].id@ != s[i].id@);
    }
}

/// Removing a bundle keeps the order, keeps every other bundle and leaves
/// no bundle with that identifier.
proof fn lemma_without_id(s: Seq<LoadedPlugin>, id: Seq<char>)
    requires
        sorted_unique(s),
    ensures
        sorted_unique(without_id(s, id)),
        forall|a: int|
            0 <= a < without_id(s, id).len() ==> #[trigger] without_id(s, id)[a].id@ != id,
        forall|a0: int|
            0 <= a0 < s.len() && s[a0].id@ != id ==> has_plugin_id(without_id(s, id), #[trigger] s[a0].id@),
{
    let r = without_id(s, id);
    if has_plugin_id(s, id) {
        let c = choose|c: int| 0 <= c < s.len() && s[c].id@ == id;
        assert(r == s.remove(c));
        assert forall|a: int, b: int| 0 <= a < b < r.len() implies listed_before(r[a], r[b]) by {
            let a0 = if a < c { a } else { a + 1 };
            let b0 = if b < c { b } else { b + 1 };
            assert(r[a] == s[a0] && r[b] == s[b0]);
        }
        assert forall|a: int, b: int|
            0 <= a < r.len() && 0 <= b < r.len() && a != b implies r[a].id@ != r[b].id@ by {
            let a0 = if a < c { a } else { a + 1 };
            let b0 = if b < c { b } else { b + 1 };
            assert(r[a] == s[a0] && r[b] == s[b0]);
        }
        assert forall|a: int| 0 <= a < r.len() implies #[trigger] r[a].id@ != id by {
            let a0 = if a < c { a } else { a + 1 };
            assert(r[a] == s[a0]);
            assert(s[a0].id@ != s[c].id@);
        }
        assert forall|a0: int| 0 <= a0 < s.len() && s[a0].id@ != id implies has_plugin_id(
            r,
            #[trigger] s[a0].id@,
        ) by {
            let a = if a0 < c { a0 } else { a0 - 1 };
            assert(r[a] == s[a0]);
        }
    } else {
        assert forall|a0: int| 0 <= a0 < s.len() && s[a0].id@ != id implies has_plugin_id(
            r,
            #[trigger] s[a0].id@,
        ) by {
            assert(r[a0] == s[a0]);
        }
    }
}

/// Inserting a new bundle at its listing position keeps the order.
proof fn lemma_insert_keeps_order(rest: Seq<LoadedPlugin>, p: LoadedPlugin, k: int)
    requires
        sorted_unique(rest),
        forall|a: int| 0 <= a < rest.len() ==> #[trigger] rest[a].id@ != p.id@,
        0 <= k <= rest.len(),
        forall|j: int| 0 <= j < k ==> !listed_before(p, #[trigger] rest[j]),
        k < rest.len() ==> listed_before(p, rest[k]),
    ensures
        sorted_unique(rest.insert(k, p)),
        has_plugin_id(rest.insert(k, p), p.id@),
        forall|id: Seq<char>| has_plugin_id(rest, id) ==> has_plugin_id(rest.insert(k, p), id),
{
    let ps = rest.insert(k, p);
    assert(ps[k] == p);
    assert forall|id: Seq<char>| has_plugin_id(rest, id) implies has_plugin_id(ps, id) by {
        let a = choose|a: int| 0 <= a < rest.len() && rest[a].id@ == id;
        if a < k {
            assert(ps[a] == rest[a]);
        } else {
            assert(ps[a + 1] == rest[a]);
        }
    }
    assert forall|j: int| 0 <= j < k implies listed_before(rest[j], p) by {
        assert(rest[j].id@ != p.id@);
        lemma_listed_total(rest[j], p);
    }
    assert forall|a: int, b: int| 0 <= a < b < ps.len() implies listed_before(ps[a], ps[b]) by {
        if b < k {
            assert(ps[a] == rest[a] && ps[b] == rest[b]);
        } else if b == k {
            assert(ps[a] == rest[a]);
        } else if a < k {
            assert(ps[a] == rest[a] && ps[b] == rest[b - 1]);
            if k < b - 1 {
                lemma_listed_transitive(p, rest[k], rest[b - 1]);
            }
            lemma_listed_transitive(rest[a], p, rest[b - 1]);
        } else if a == k {
            assert(ps[b] == rest[b - 1]);
            if k < b - 1 {
                lemma_listed_transitive(p, rest[k], rest[b - 1]);
            }
        } else {
            assert(ps[a] == rest[a - 1] && ps[b] == rest[b - 1]);
        }
    }
    assert forall|a: int, b: int|
        0 <= a < ps.len() && 0 <= b < ps.len() && a != b implies ps[a].id@ != ps[b].id@ by {
        let a0 = if a < k { a } else { a - 1 };
        let b0 = if b < k { b } else { b - 1 };
        if a != k && b != k {
            assert(ps[a] == rest[a0] && ps[b] == rest[b0]);
        } else if a == k {
            assert(ps[b] == rest[b0]);
        } else {
            assert(ps[a] == rest[a0]);
        }
    }
}

/// After registering `p`, every name binding still selects a bundle.
proof fn lemma_names_target(before: RegistryView, after: RegistryView, p: LoadedPlugin)
    requires
        before.shape_wf(),
        sorted_unique(after.plugins),
        after.names == bind_name(before.names, p.spec_name(), p.id@),
        after.state == before.state,
        after.plugins == insert_sorted(without_id(before.plugins, p.id@), p),
        has_plugin_id(after.plugins, p.id@),
        forall|a0: int|
            0 <= a0 < before.plugins.len() && before.plugins[a0].id@ != p.id@ ==> has_plugin_id(
                after.plugins,
                #[trigger] before.plugins[a0].id@,
            ),
    ensures
        after.shape_wf(),
{
    assert forall|n: int| 0 <= n < after.names.len() implies after.has_id(#[trigger] after.names[n].1) by {
        let id = after.names[n].1;
        if id != p.id@ {
            assert(n < before.names.len() && before.names[n].1 == id);
            assert(before.has_id(before.names[n].1));
            let a0 = choose|a0: int| 0 <= a0 < before.plugins.len() && before.plugins[a0].id@ == id;
            assert(has_plugin_id(after.plugins, before.plugins[a0].id@));
        }
    }
}

impl RegistryView {
    pub open spec fn has_id(self, id: Seq<char>) -> bool {
        has_plugin_id(self.plugins, id)
    }

    /// The shape of a registry: identifiers are unique, bundles are in
    /// listing order, every name binding selects a registered bundle and the
    /// persisted state has at most one entry per bundle.
    pub open spec fn shape_wf(self) -> bool {
        &&& sorted_unique(self.plugins)
        &&& self.state.wf()
        &&& forall|k: int| 0 <= k < self.names.len() ==> self.has_id(#[trigger] self.names[k].1)
    }

    /// A registry as the library builds and keeps it: well shaped, and every
    /// bundle shows what the persisted state gives it.
    pub open spec fn wf(self) -> bool {
        &&& self.shape_wf()
        &&& self.consistent()
    }

    /// The identifier a selector picks: a bundle identifier first, then a
    /// bundle name.
    pub open spec fn resolve(self, selector: Seq<char>) -> Option<Seq<char>> {
        if self.has_id(selector) {
            Some(selector)
        } else {
            match name_index(self.names, selector) {
                Some(k) => Some(self.names[k].1),
                None => None,
            }
        }
    }

    pub open spec fn index_of(self, id: Seq<char>) -> int {
        choose|i: int| 0 <= i < self.plugins.len() && self.plugins[i].id@ == id
    }

    /// The bundle a selector picks.
    pub open spec fn lookup(self, selector: Seq<char>) -> Option<LoadedPlugin> {
        match self.resolve(selector) {
            Some(id) => Some(self.plugins[self.index_of(id)]),
            None => None,
        }
    }

    /// Why a state change cannot be persisted, if it cannot.
    pub open spec fn store_error(self) -> Option<Seq<char>> {
        match self.state_error {
            Some(e) => Some(fail_closed_message(e)),
            None => match self.state_path {
                Some(_) => None,
                None => Some(no_store_message()),
            },
        }
    }

    /// The outcome of preparing the change of bundle `id` to state `next`.
    pub open spec fn prepare_outcome(
        self,
        r: Result<PluginStateFile, String>,
        next: StateView,
    ) -> bool {
        match self.store_error() {
            Some(msg) => failed_with(r, msg),
            None => prepared(r, next),
        }
    }

    /// The outcome of `enable`: the bundle must exist, be trusted, apply to
    /// this host and declare nothing unsupported.
    pub open spec fn enable_outcome(self, selector: Seq<char>, r: Result<PluginStateFile, String>) -> bool {
        match self.lookup(selector) {
            None => failed_with(r, not_found_message(selector)),
            Some(p) => if !p.spec_trusted() {
                failed_with(r, review_required_message(p.spec_name(), p.trust_status.label()))
            } else if !p.applicable {
                failed_with(r, inapplicable_message(p.spec_name()))
            } else if p.inventory.spec_has_unsupported() {
                failed_with(r, unsupported_message(p.spec_name(), p.inventory@.unsupported))
            } else {
                self.prepare_outcome(r, spec_set_enabled(self.state, p.id@, true))
            },
        }
    }

    /// The outcome of `disable`.
    pub open spec fn disable_outcome(self, selector: Seq<char>, r: Result<PluginStateFile, String>) -> bool {
        match self.resolve(selector) {
            None => failed_with(r, not_found_message(selector)),
            Some(id) => self.prepare_outcome(r, spec_set_enabled(self.state, id, false)),
        }
    }

    /// The outcome of `revoke_trust`.
    pub open spec fn revoke_outcome(self, selector: Seq<char>, r: Result<PluginStateFile, String>) -> bool {
        match self.resolve(selector) {
            None => failed_with(r, not_found_message(selector)),
            Some(id) => self.prepare_outcome(r, spec_clear_trust(self.state, id)),
        }
    }

    /// The outcome of reviewing a bundle at time `at`.
    pub open spec fn trust_outcome(
        self,
        selector: Seq<char>,
        at: Seq<char>,
        r: Result<PluginStateFile, String>,
    ) -> bool {
        match self.lookup(selector) {
            None => failed_with(r, not_found_message(selector)),
            Some(p) => self.prepare_outcome(r, spec_record_trust(self.state, p.id@, receipt_of(p, at))),
        }
    }

    /// The outcome of reviewing a bundle now: the bundle must exist and the
    /// state be persistable; then the review is recorded at the clock's
    /// time (see `is_review_time`), or refused when the clock gave none.
    pub open spec fn review_now_outcome(self, selector: Seq<char>, r: Result<PluginStateFile, String>) -> bool {
        match self.lookup(selector) {
            None => failed_with(r, not_found_message(selector)),
            Some(p) => match self.store_error() {
                Some(msg) => failed_with(r, msg),
                None => failed_with(r, clock_unavailable_message()) || exists|at: Seq<char>|
                    is_review_time(at) && prepared(
                        r,
                        spec_record_trust(self.state, p.id@, receipt_of(p, at)),
                    ),
            },
        }
    }

    /// The outcome of committing `next` after the write of it ended with
    /// `persisted`: a failed write changes nothing.
    pub open spec fn commit_outcome(
        self,
        next: StateView,
        persisted: Result<(), String>,
        r: Result<(), String>,
        after: RegistryView,
    ) -> bool {
        match self.store_error() {
            Some(msg) => failed_with(r, msg) && after == self,
            None => match persisted {
                Err(e) => failed_with(r, e@) && after == self,
                Ok(_) => r is Ok && after == (RegistryView {
                    state: next,
                    plugins: self.applied(next, false),
                    ..self
                }),
            },
        }
    }

    /// Every bundle shows the enablement and trust that the persisted state
    /// gives it.
    pub open spec fn consistent(self) -> bool {
        forall|i: int|
            0 <= i < self.plugins.len() ==> #[trigger] self.plugins[i] == spec_apply(
                self.plugins[i],
                self.state,
                self.state_error is Some,
            )
    }

    /// Every bundle with the current persisted state applied.
    pub open spec fn applied(self, st: StateView, failed: bool) -> Seq<LoadedPlugin> {
        Seq::new(self.plugins.len(), |i: int| spec_apply(self.plugins[i], st, failed))
    }

    pub open spec fn spec_validation_is_clean(self) -> bool {
        &&& !has_error(self.diagnostics)
        &&& forall|i: int| 0 <= i < self.plugins.len() ==> !has_error(#[trigger] self.plugins[i].diagnostics@)
    }
}

impl Default for PluginRegistry {
    /// An empty registry with no persistence store.
    fn default() -> (r: Self)
        ensures
            r@.wf(),
            r@.plugins.len() == 0,
            r@.names.len() == 0,
            r@.diagnostics.len() == 0,
            r@.state == default_state(),
            r@.state_path is None,
            r@.state_error is None,
    {
        PluginRegistry::new()
    }
}

/// The message when no bundle matches `selector`.
fn not_found(selector: &str) -> (r: String)
    ensures
        r@ == not_found_message(selector@),
{
    let mut message = String::from_str("Plugin bundle `");
    message.append(selector);
    message.append("` was not found");
    message
}

/// Where the system clock stands against the Unix epoch, from
/// `std::time::SystemTime::now` measured by `SystemTime::duration_since` with
/// `UNIX_EPOCH`: `Ok` holds the whole seconds and the nanoseconds after the
/// epoch, `Err` those before it (the duration of the error). Only that the
/// nanoseconds are a fraction of a second (as `Duration::subsec_nanos`
/// documents) is stated: the reading comes from the clock.
#[verifier::external_body]
fn clock_reading() -> (r: Result<(u64, u32), (u64, u32)>)
    ensures
        match r {
            Ok((_, nanos)) => nanos < 1_000_000_000,
            Err((_, nanos)) => nanos < 1_000_000_000,
        },
{
    match std::time::SystemTime::now().duration_since(std::time::UNIX_EPOCH) {
        Ok(d) => Ok((d.as_secs(), d.subsec_nanos())),
        Err(e) => Err((e.duration().as_secs(), e.duration().subsec_nanos())),
    }
}

/// The RFC 3339 text of the UTC time `secs` seconds and `nanos` nanoseconds
/// after the Unix epoch, when chrono can represent that time.
pub uninterp spec fn rfc3339_utc_text(secs: i64, nanos: u32) -> Option<Seq<char>>;

/// `t` ends with the UTC offset `+00:00`.
pub open spec fn ends_with_utc_offset(t: Seq<char>) -> bool {
    t.len() >= 6 && t.subrange(t.len() - 6, t.len() as int) == "+00:00"@
}

/// `chrono::DateTime::<Utc>::from_timestamp(secs, nanos)` rendered by
/// `DateTime::to_rfc3339`. The text is only named, and of it is stated what
/// chrono's writer shows: a UTC time is written with the offset `+00:00`.
/// `from_timestamp` gives `None` for a time out of chrono's range or an
/// invalid nanosecond count.
#[verifier::external_body]
fn rfc3339_utc(secs: i64, nanos: u32) -> (r: Option<String>)
    ensures
        crate::types::opt_string_view(r) == rfc3339_utc_text(secs, nanos),
        r matches Some(t) ==> ends_with_utc_offset(t@),
{
    match chrono::DateTime::from_timestamp(secs, nanos) {
        Some(d) => Some(d.to_rfc3339()),
        None => None,
    }
}

/// `at` is a review time: the UTC text that chrono renders for a time at or
/// after the Unix epoch.
pub open spec fn is_review_time(at: Seq<char>) -> bool {
    &&& ends_with_utc_offset(at)
    &&& exists|secs: i64, nanos: u32|
        0 <= secs && nanos < 1_000_000_000 && rfc3339_utc_text(secs, nanos) == Some(at)
}

/// The current time as RFC 3339 UTC text, as chrono's `Utc::now` reads it
/// (std's clock measured from the Unix epoch, given to
/// `DateTime::from_timestamp`), or `None` where `Utc::now` would panic: the
/// clock reads before the epoch, or chrono cannot represent the time. Which
/// time it is is not stated: it comes from the clock.
fn review_timestamp() -> (r: Option<String>)
    ensures
        r matches Some(t) ==> is_review_time(t@),
{
    match clock_reading() {
        Ok((secs, nanos)) => if secs <= 0x7fff_ffff_ffff_ffff {
            rfc3339_utc(secs as i64, nanos)
        } else {
            None
        },
        Err(_) => None,
    }
}

/// The message when the clock cannot give a review time.
pub open spec fn clock_unavailable_message() -> Seq<char> {
    "Plugin review time could not be read from the system clock"@
}

impl PluginRegistry {
    /// An empty registry with no persistence store.
    pub fn new() -> (r: Self)
        ensures
            r@.wf(),
            r@.plugins.len() == 0,
            r@.names.len() == 0,
            r@.diagnostics.len() == 0,
            r@.state == default_state(),
            r@.state_path is None,
            r@.state_error is None,
    {
        let r = PluginRegistry {
            plugins: Vec::new(),
            names: Vec::new(),
            diagnostics: Vec::new(),
            state: PluginStateFile::default(),
            state_path: None,
            state_error: None,
        };
        assert(r@.names =~= Seq::<(Seq<char>, Seq<char>)>::empty());
        r
    }

    fn find_plugin(&self, id: &str) -> (r: Option<usize>)
        ensures
            match r {
                Some(i) => i < self@.plugins.len() && self@.plugins[i as int].id@ == id@,
                None => !self@.has_id(id@),
            },
    {
        let mut i: usize = 0;
        while i < self.plugins.len()
            invariant
                i <= self.plugins@.len(),
                forall|j: int| 0 <= j < i ==> self.plugins@[j].id@ != id@,
            decreases self.plugins@.len() - i,
        {
            if str_eq(self.plugins[i].id.as_str(), id) {
                return Some(i);
            }
            i = i + 1;
        }
        None
    }

    fn find_name(&self, name: &str) -> (r: Option<usize>)
        ensures
            match r {
                Some(k) => name_index(self@.names, name@) == Some(k as int),
                None => name_index(self@.names, name@) is None,
            },
    {
        let ghost ns = self@.names;
        let mut k: usize = 0;
        while k < self.names.len()
            invariant
                ns == names_view(self.names@),
                k <= self.names@.len(),
                forall|j: int| 0 <= j < k ==> ns[j].0 != name@,
            decreases self.names@.len() - k,
        {
            if str_eq(self.names[k].name.as_str(), name) {
                proof {
                    assert(is_first_name(ns, name@, k as int));
                    let c = choose|c: int| is_first_name(ns, name@, c);
                    if c < k {
                        assert(ns[c].0 == name@);
                    } else if k < c {
                        assert(ns[k as int].0 == name@);
                    }
                }
                return Some(k);
            }
            k = k + 1;
        }
        proof {
            if exists|c: int| is_first_name(ns, name@, c) {
                let c = choose|c: int| is_first_name(ns, name@, c);
                assert(ns[c].0 == name@);
            }
        }
        None
    }

    proof fn lemma_index_of(&self, i: int)
        requires
            self@.wf(),
            0 <= i < self@.plugins.len(),
        ensures
            self@.index_of(self@.plugins[i].id@) == i,
    {
        let id = self@.plugins[i].id@;
        assert(0 <= i < self@.plugins.len() && self@.plugins[i].id@ == id);
        let c = self@.index_of(id);
        if c != i {
            assert(self@.plugins[c].id@ == id);
        }
    }

    /// The position of the bundle a selector picks.
    fn resolve_id(&self, selector: &str) -> (r: Option<usize>)
        requires
            self@.wf(),
        ensures
            match r {
                Some(i) => {
                    &&& i < self@.plugins.len()
                    &&& self@.resolve(selector@) == Some(self@.plugins[i as int].id@)
                    &&& self@.index_of(self@.plugins[i as int].id@) == i
                },
                None => self@.resolve(selector@) is None,
            },
    {
        match self.find_plugin(selector) {
            Some(i) => {
                proof {
                    self.lemma_index_of(i as int);
                }
                Some(i)
            },
            None => match self.find_name(selector) {
                Some(k) => {
                    let target = self.find_plugin(self.names[k].id.as_str());
                    proof {
                        assert(self@.names[k as int].1 == self.names@[k as int].id@);
                        assert(self@.has_id(self@.names[k as int].1));
                    }
                    match target {
                        Some(i) => {
                            proof {
                                self.lemma_index_of(i as int);
                            }
                            Some(i)
                        },
                        None => None,
                    }
                },
                None => None,
            },
        }
    }

    /// The bundle a selector picks: a bundle identifier first, then a name.
    pub fn get(&self, selector: &str) -> (r: Option<&LoadedPlugin>)
        requires
            self@.wf(),
        ensures
            match r {
                Some(p) => self@.lookup(selector@) == Some(*p),
                None => self@.lookup(selector@) is None,
            },
    {
        match self.resolve_id(selector) {
            Some(i) => Some(&self.plugins[i]),
            None => None,
        }
    }

    /// Every bundle, in listing order.
    pub fn list(&self) -> (r: Vec<&LoadedPlugin>)
        ensures
            r@.len() == self@.plugins.len(),
            forall|i: int| 0 <= i < r@.len() ==> *r@[i] == self@.plugins[i],
    {
        let mut r: Vec<&LoadedPlugin> = Vec::new();
        let mut i: usize = 0;
        while i < self.plugins.len()
            invariant
                i <= self.plugins@.len(),
                r@.len() == i,
                forall|j: int| 0 <= j < i ==> *r@[j] == self.plugins@[j],
            decreases self.plugins@.len() - i,
        {
            r.push(&self.plugins[i]);
            i = i + 1;
        }
        r
    }

    /// The bundles that run, in listing order.
    pub fn active_plugins(&self) -> (r: Vec<&LoadedPlugin>)
        ensures
            r@.map_values(|p: &LoadedPlugin| *p) == self@.plugins.filter(
                |p: LoadedPlugin| p.spec_active(),
            ),
    {
        let ghost all = self@.plugins;
        let ghost pred = |p: LoadedPlugin| p.spec_active();
        let mut r: Vec<&LoadedPlugin> = Vec::new();
        let mut i: usize = 0;
        while i < self.plugins.len()
            invariant
                all == self.plugins@,
                pred == (|p: LoadedPlugin| p.spec_active()),
                i <= all.len(),
                r@.map_values(|p: &LoadedPlugin| *p) == all.take(i as int).filter(pred),
            decreases all.len() - i,
        {
            reveal_with_fuel(Seq::filter, 1);
            assert(all.take(i + 1).drop_last() =~= all.take(i as int));
            let ghost before = r@;
            if self.plugins[i].active() {
                r.push(&self.plugins[i]);
                assert(r@.map_values(|p: &LoadedPlugin| *p) =~= before.map_values(
                    |p: &LoadedPlugin| *p,
                ).push(all[i as int]));
            }
            i = i + 1;
        }
        assert(all.take(all.len() as int) =~= all);
        r
    }

    /// The bundles that run, in listing order (the name that the MCP
    /// adapter reads).
    pub fn list_enabled(&self) -> (r: Vec<&LoadedPlugin>)
        ensures
            r@.map_values(|p: &LoadedPlugin| *p) == self@.plugins.filter(
                |p: LoadedPlugin| p.spec_active(),
            ),
    {
        self.active_plugins()
    }

    /// The bundles that are enabled, whether or not they run.
    pub fn enabled_plugins(&self) -> (r: Vec<&LoadedPlugin>)
        ensures
            r@.map_values(|p: &LoadedPlugin| *p) == self@.plugins.filter(
                |p: LoadedPlugin| p.enabled,
            ),
    {
        let ghost all = self@.plugins;
        let ghost pred = |p: LoadedPlugin| p.enabled;
        let mut r: Vec<&LoadedPlugin> = Vec::new();
        let mut i: usize = 0;
        while i < self.plugins.len()
            invariant
                all == self.plugins@,
                pred == (|p: LoadedPlugin| p.enabled),
                i <= all.len(),
                r@.map_values(|p: &LoadedPlugin| *p) == all.take(i as int).filter(pred),
            decreases all.len() - i,
        {
            reveal_with_fuel(Seq::filter, 1);
            assert(all.take(i + 1).drop_last() =~= all.take(i as int));
            let ghost before = r@;
            if self.plugins[i].enabled {
                r.push(&self.plugins[i]);
                assert(r@.map_values(|p: &LoadedPlugin| *p) =~= before.map_values(
                    |p: &LoadedPlugin| *p,
                ).push(all[i as int]));
            }
            i = i + 1;
        }
        assert(all.take(all.len() as int) =~= all);
        r
    }

    pub fn is_enabled(&self, selector: &str) -> (r: bool)
        requires
            self@.wf(),
        ensures
            r == (self@.lookup(selector@) matches Some(p) && p.enabled),
    {
        match self.get(selector) {
            Some(p) => p.enabled,
            None => false,
        }
    }

    pub fn is_active(&self, selector: &str) -> (r: bool)
        requires
            self@.wf(),
        ensures
            r == (self@.lookup(selector@) matches Some(p) && p.spec_active()),
    {
        match self.get(selector) {
            Some(p) => p.active(),
            None => false,
        }
    }

    pub fn diagnostics(&self) -> (r: &[PluginDiagnostic])
        ensures
            r@ == self@.diagnostics,
    {
        self.diagnostics.as_slice()
    }

    /// No registry diagnostic and no bundle diagnostic is an error.
    pub fn validation_is_clean(&self) -> (r: bool)
        ensures
            r == self@.spec_validation_is_clean(),
    {
        if any_error(&self.diagnostics) {
            return false;
        }
        let mut i: usize = 0;
        while i < self.plugins.len()
            invariant
                i <= self.plugins@.len(),
                forall|j: int| 0 <= j < i ==> !has_error(#[trigger] self.plugins@[j].diagnostics@),
            decreases self.plugins@.len() - i,
        {
            if any_error(&self.plugins[i].diagnostics) {
                return false;
            }
            i = i + 1;
        }
        true
    }

    pub fn state_error(&self) -> (r: Option<&str>)
        ensures
            match r {
                Some(e) => self@.state_error == Some(e@),
                None => self@.state_error is None,
            },
    {
        match &self.state_error {
            Some(e) => Some(e.as_str()),
            None => None,
        }
    }

    pub fn state_path(&self) -> (r: Option<&str>)
        ensures
            match r {
                Some(p) => self@.state_path == Some(p@),
                None => self@.state_path is None,
            },
    {
        match &self.state_path {
            Some(p) => Some(p.as_str()),
            None => None,
        }
    }

    /// A registry of the discovered bundles with the persisted state applied.
    /// `loaded` is what reading the state file at `state_path` gave: when it
    /// failed, the registry is fail-closed (every bundle disabled and
    /// unreviewed, every state change refused) and says so in an error
    /// diagnostic.
    pub fn from_discovery(
        plugins: Vec<LoadedPlugin>,
        diagnostics: Vec<PluginDiagnostic>,
        state_path: String,
        loaded: Result<PluginStateFile, String>,
    ) -> (r: Self)
        requires
            loaded matches Ok(st) ==> st@.wf(),
        ensures
            r@.wf(),
            r@.plugins == Seq::new(
                registered(plugins@).0.len(),
                |i: int| spec_apply(registered(plugins@).0[i], r@.state, loaded is Err),
            ),
            r@.names == registered(plugins@).1,
            r@.state_path == Some(state_path@),
            match loaded {
                Ok(st) => {
                    &&& r@.state == st@
                    &&& r@.state_error is None
                    &&& r@.diagnostics == diagnostics@
                },
                Err(e) => {
                    &&& r@.state == default_state()
                    &&& r@.state_error == Some(e@)
                    &&& r@.diagnostics.len() == diagnostics@.len() + 1
                    &&& r@.diagnostics.take(diagnostics@.len() as int) == diagnostics@
                    &&& r@.diagnostics.last()@ == (crate::types::DiagnosticView {
                        level: PluginDiagnosticLevel::Error,
                        code: "state-invalid"@,
                        message: state_invalid_message(e@),
                        path: Some(state_path@),
                    })
                },
            },
    {
        let ghost diags0 = diagnostics@;
        let ghost failed = loaded is Err;
        let mut diagnostics = diagnostics;
        let (state, state_error) = match loaded {
            Ok(st) => (st, None),
            Err(error) => {
                let mut message = String::from_str(
                    "Plugin state is fail-closed and will not be overwritten: ",
                );
                message.append(error.as_str());
                diagnostics.push(
                    PluginDiagnostic::error("state-invalid", message, Some(state_path.clone())),
                );
                assert(diagnostics@.take(diags0.len() as int) =~= diags0);
                (PluginStateFile::default(), Some(error))
            },
        };
        let mut registry = PluginRegistry {
            plugins: Vec::new(),
            names: Vec::new(),
            diagnostics,
            state,
            state_path: Some(state_path),
            state_error,
        };
        let ghost fixed = registry@;
        let ghost all = plugins@;
        assert(registry@.plugins =~= registered(all.take(0)).0);
        assert(registry@.names =~= registered(all.take(0)).1);
        let mut input = plugins;
        let n = input.len();
        let mut i: usize = 0;
        while input.len() > 0
            invariant
                registry@.shape_wf(),
                n == all.len(),
                i <= all.len(),
                input@ == all.skip(i as int),
                registry@ == (RegistryView {
                    plugins: registered(all.take(i as int)).0,
                    names: registered(all.take(i as int)).1,
                    ..fixed
                }),
            decreases input@.len(),
        {
            let p = input.remove(0);
            assert(all.take(i + 1).drop_last() =~= all.take(i as int));
            assert(all.take(i + 1).last() == all[i as int]);
            registry.register_loaded(p);
            assert(input@ =~= all.skip(i + 1));
            i = i + 1;
        }
        assert(all.take(i as int) =~= all);
        registry.apply_state();
        registry
    }

    /// Registers a discovered bundle; it replaces a bundle with the same
    /// identifier, and its name selects it from now on.
    fn register_loaded(&mut self, plugin: LoadedPlugin)
        requires
            old(self)@.shape_wf(),
        ensures
            final(self)@ == (RegistryView {
                plugins: insert_sorted(without_id(old(self)@.plugins, plugin.id@), plugin),
                names: bind_name(old(self)@.names, plugin.spec_name(), plugin.id@),
                ..old(self)@
            }),
            final(self)@.shape_wf(),
    {
        let ghost before = self@;
        let ghost pid = plugin.id@;
        let b = NameBinding { name: plugin.manifest.plugin.name.clone(), id: plugin.id.duplicate() };
        match self.find_name(plugin.name()) {
            Some(k) => {
                self.names.set(k, b);
                assert(self@.names =~= bind_name(before.names, plugin.spec_name(), pid));
            },
            None => {
                self.names.push(b);
                assert(self@.names =~= bind_name(before.names, plugin.spec_name(), pid));
            },
        }
        match self.find_plugin(plugin.id.as_str()) {
            Some(i) => {
                proof {
                    lemma_without_found(before.plugins, pid, i as int);
                }
                self.plugins.remove(i);
            },
            None => {},
        }
        let ghost rest = self@.plugins;
        proof {
            lemma_without_id(before.plugins, pid);
        }
        let mut k: usize = 0;
        while k < self.plugins.len() && !listed_before_exec(&plugin, &self.plugins[k])
            invariant
                self@.plugins == rest,
                k <= rest.len(),
                forall|j: int| 0 <= j < k ==> !listed_before(plugin, #[trigger] rest[j]),
            decreases rest.len() - k,
        {
            k = k + 1;
        }
        proof {
            lemma_insert_sorted_at(rest, plugin, k as int);
            lemma_insert_keeps_order(rest, plugin, k as int);
        }
        self.plugins.insert(k, plugin);
        proof {
            lemma_names_target(before, self@, plugin);
        }
    }

    /// Applies the persisted state to every bundle.
    fn apply_state(&mut self)
        requires
            old(self)@.shape_wf(),
        ensures
            final(self)@ == (RegistryView {
                plugins: old(self)@.applied(old(self)@.state, (old(self)@.state_error is Some)),
                ..old(self)@
            }),
            final(self)@.wf(),
            final(self)@.consistent(),
    {
        let ghost before = self@;
        let failed = self.state_error.is_some();
        let mut i: usize = 0;
        while i < self.plugins.len()
            invariant
                before.shape_wf(),
                failed == (before.state_error is Some),
                i <= self.plugins@.len(),
                self@ == (RegistryView { plugins: self@.plugins, ..before }),
                self@.plugins.len() == before.plugins.len(),
                forall|j: int|
                    0 <= j < i ==> self@.plugins[j] == spec_apply(before.plugins[j], before.state, failed),
                forall|j: int| i <= j < self@.plugins.len() ==> self@.plugins[j] == before.plugins[j],
            decreases self.plugins@.len() - i,
        {
            let (enabled, status) = if failed {
                (false, PluginTrustStatus::NeverReviewed)
            } else {
                let p = &self.plugins[i];
                match find_entry(&self.state.plugins, p.id.as_str()) {
                    Some(k) => {
                        let st = &self.state.plugins[k].state;
                        (st.enabled, trust_status_of(&st.trust, p))
                    },
                    None => (false, PluginTrustStatus::NeverReviewed),
                }
            };
            let mut p = self.plugins.remove(i);
            p.enabled = enabled;
            p.trust_status = status;
            self.plugins.insert(i, p);
            i = i + 1;
        }
        proof {
            assert(self@.plugins =~= before.applied(before.state, failed));
            assert forall|j: int| 0 <= j < self@.plugins.len() implies #[trigger] self@.plugins[j]
                == spec_apply(self@.plugins[j], self@.state, failed) by {
                crate::state::lemma_apply_idempotent(before.plugins[j], before.state, failed);
            }
            assert forall|a: int, b: int|
                0 <= a < b < self@.plugins.len() implies listed_before(
                self@.plugins[a],
                self@.plugins[b],
            ) by {
                assert(listed_before(before.plugins[a], before.plugins[b]));
            }
            assert forall|a: int, b: int|
                0 <= a < self@.plugins.len() && 0 <= b < self@.plugins.len() && a != b implies self@.plugins[a].id@
                != self@.plugins[b].id@ by {
                assert(before.plugins[a].id@ != before.plugins[b].id@);
            }
            assert forall|k: int| 0 <= k < self@.names.len() implies self@.has_id(
                #[trigger] self@.names[k].1,
            ) by {
                assert(before.has_id(before.names[k].1));
                let c = choose|c: int|
                    0 <= c < before.plugins.len() && before.plugins[c].id@ == before.names[k].1;
                assert(self@.plugins[c].id@ == before.names[k].1);
            }
        }
    }

    /// A copy of the persisted state to change, unless the registry is
    /// fail-closed or has no persistence store.
    fn prepare_state_change(&self) -> (r: Result<PluginStateFile, String>)
        ensures
            self@.prepare_outcome(r, self@.state),
    {
        match &self.state_error {
            Some(error) => {
                let mut message = String::from_str(
                    "Plugin state is fail-closed; repair or move the malformed state file before mutating it: ",
                );
                message.append(error.as_str());
                Err(message)
            },
            None => match &self.state_path {
                Some(_) => Ok(self.state.duplicate()),
                None => Err(String::from_str("Plugin registry has no persistence store")),
            },
        }
    }

    /// The persisted state with bundle `selector` reviewed at `reviewed_at`:
    /// its receipt binds the bundle's current content hash, capability hash
    /// and inventory. Enablement is not touched.
    pub fn trust_at(&self, selector: &str, reviewed_at: String) -> (r: Result<PluginStateFile, String>)
        requires
            self@.wf(),
        ensures
            self@.trust_outcome(selector@, reviewed_at@, r),
            r matches Ok(st) ==> st@.wf(),
    {
        let p = match self.get(selector) {
            Some(p) => p,
            None => return Err(not_found(selector)),
        };
        let mut next = match self.prepare_state_change() {
            Ok(st) => st,
            Err(e) => return Err(e),
        };
        let receipt = TrustReceipt {
            content_hash: p.content_hash.clone(),
            capability_hash: p.capability_hash.clone(),
            reviewed_capabilities: p.inventory.duplicate(),
            reviewed_at,
        };
        let mut cur = read_entry(&next.plugins, p.id.as_str());
        crate::state::push_review(&mut cur.review_history, receipt.duplicate());
        cur.trust = Some(receipt);
        write_entry(&mut next.plugins, &p.id, cur);
        Ok(next)
    }

    /// The persisted state with bundle `selector` reviewed now (see
    /// `trust_at`); the review time is the clock's, as RFC 3339 UTC text.
    pub fn trust(&self, selector: &str) -> (r: Result<PluginStateFile, String>)
        requires
            self@.wf(),
        ensures
            self@.review_now_outcome(selector@, r),
            r matches Ok(st) ==> st@.wf(),
    {
        if self.get(selector).is_none() {
            return Err(not_found(selector));
        }
        match self.prepare_state_change() {
            Ok(_) => {},
            Err(e) => return Err(e),
        }
        match review_timestamp() {
            Some(at) => self.trust_at(selector, at),
            None => Err(String::from_str("Plugin review time could not be read from the system clock")),
        }
    }

    /// The persisted state with the trust receipt of `selector` revoked.
    /// Enablement and review history are not touched.
    pub fn revoke_trust(&self, selector: &str) -> (r: Result<PluginStateFile, String>)
        requires
            self@.wf(),
        ensures
            self@.revoke_outcome(selector@, r),
            r matches Ok(st) ==> st@.wf(),
    {
        let i = match self.resolve_id(selector) {
            Some(i) => i,
            None => return Err(not_found(selector)),
        };
        let mut next = match self.prepare_state_change() {
            Ok(st) => st,
            Err(e) => return Err(e),
        };
        let id = &self.plugins[i].id;
        let mut cur = read_entry(&next.plugins, id.as_str());
        cur.trust = None;
        write_entry(&mut next.plugins, id, cur);
        Ok(next)
    }

    /// The persisted state with bundle `selector` enabled. Only a trusted
    /// bundle that applies to this host and declares nothing unsupported
    /// can be enabled.
    pub fn enable(&self, selector: &str) -> (r: Result<PluginStateFile, String>)
        requires
            self@.wf(),
        ensures
            self@.enable_outcome(selector@, r),
            r matches Ok(st) ==> st@.wf(),
    {
        let p = match self.get(selector) {
            Some(p) => p,
            None => return Err(not_found(selector)),
        };
        if !p.trusted() {
            let mut message = String::from_str("Plugin bundle `");
            message.append(p.name());
            message.append("` requires capability review before enablement (trust: ");
            message.append(p.trust_status.as_str());
            message.append(")");
            return Err(message);
        }
        if !p.applicable {
            let mut message = String::from_str("Plugin bundle `");
            message.append(p.name());
            message.append("` does not apply to this host");
            return Err(message);
        }
        if p.inventory.has_unsupported_capabilities() {
            let mut message = String::from_str("Plugin bundle `");
            message.append(p.name());
            message.append("` declares v0.9.1-inactive capabilities: ");
            let labels = join_strings(p.inventory.unsupported_labels(), ", ");
            message.append(labels.as_str());
            return Err(message);
        }
        let mut next = match self.prepare_state_change() {
            Ok(st) => st,
            Err(e) => return Err(e),
        };
        let mut cur = read_entry(&next.plugins, p.id.as_str());
        cur.enabled = true;
        write_entry(&mut next.plugins, &p.id, cur);
        Ok(next)
    }

    /// The persisted state with bundle `selector` disabled. Trust is not
    /// touched.
    pub fn disable(&self, selector: &str) -> (r: Result<PluginStateFile, String>)
        requires
            self@.wf(),
        ensures
            self@.disable_outcome(selector@, r),
            r matches Ok(st) ==> st@.wf(),
    {
        let i = match self.resolve_id(selector) {
            Some(i) => i,
            None => return Err(not_found(selector)),
        };
        let mut next = match self.prepare_state_change() {
            Ok(st) => st,
            Err(e) => return Err(e),
        };
        let id = &self.plugins[i].id;
        let mut cur = read_entry(&next.plugins, id.as_str());
        cur.enabled = false;
        write_entry(&mut next.plugins, id, cur);
        Ok(next)
    }

    /// Makes a prepared state live once it is persisted. `persisted` is the
    /// outcome of writing `next`; when the write failed, or the registry is
    /// fail-closed or has no store, nothing changes.
    pub fn commit_state_change(
        &mut self,
        next: PluginStateFile,
        persisted: Result<(), String>,
    ) -> (r: Result<(), String>)
        requires
            old(self)@.wf(),
            next@.wf(),
        ensures
            final(self)@.wf(),
            old(self)@.commit_outcome(next@, persisted, r, final(self)@),
    {
        match self.prepare_state_change() {
            Ok(_) => {},
            Err(e) => return Err(e),
        }
        match persisted {
            Err(e) => Err(e),
            Ok(()) => {
                self.state = next;
                self.apply_state();
                Ok(())
            },
        }
    }

    pub fn len(&self) -> (r: usize)
        ensures
            r == self@.plugins.len(),
    {
        self.plugins.len()
    }

    pub fn is_empty(&self) -> (r: bool)
        ensures
            r == (self@.plugins.len() == 0),
    {
        self.plugins.len() == 0
    }
}

/// After a committed change of the state to `next`, a selector picks the
/// same bundle as before, with `next` applied.
proof fn lemma_commit_lookup(
    reg: RegistryView,
    next: StateView,
    r: Result<(), String>,
    after: RegistryView,
    selector: Seq<char>,
)
    requires
        reg.wf(),
        reg.store_error() is None,
        reg.commit_outcome(next, Ok(()), r, after),
    ensures
        after.resolve(selector) == reg.resolve(selector),
        match reg.lookup(selector) {
            Some(p) => after.lookup(selector) == Some(spec_apply(p, next, false)),
            None => after.lookup(selector) is None,
        },
{
    assert forall|id: Seq<char>| after.has_id(id) == reg.has_id(id) by {
        if reg.has_id(id) {
            let i = choose|i: int| 0 <= i < reg.plugins.len() && reg.plugins[i].id@ == id;
            assert(after.plugins[i].id@ == id);
        }
        if after.has_id(id) {
            let i = choose|i: int| 0 <= i < after.plugins.len() && after.plugins[i].id@ == id;
            assert(reg.plugins[i].id@ == id);
        }
    }
    match reg.resolve(selector) {
        Some(id) => {
            let i = reg.index_of(id);
            assert(reg.has_id(id));
            assert(0 <= i < reg.plugins.len() && reg.plugins[i].id@ == id);
            assert(after.plugins[i].id@ == id);
            let j = after.index_of(id);
            if i != j {
                assert(reg.plugins[j].id@ == id);
            }
        },
        None => {},
    }
}

/// Failed writes change nothing: when persisting a prepared state failed,
/// the live registry stays exactly as it was and the failure is reported.
pub proof fn law_failed_write_changes_nothing(
    reg: RegistryView,
    next: StateView,
    error: String,
    r: Result<(), String>,
    after: RegistryView,
)
    requires
        reg.commit_outcome(next, Err(error), r, after),
    ensures
        after == reg,
        r is Err,
{
}

/// A fail-closed registry (its state file could not be read) refuses every
/// state change, so the unreadable file is never overwritten.
pub proof fn law_fail_closed_refuses_changes(
    reg: RegistryView,
    selector: Seq<char>,
    at: Seq<char>,
    trusted: Result<PluginStateFile, String>,
    revoked: Result<PluginStateFile, String>,
    enabled: Result<PluginStateFile, String>,
    disabled: Result<PluginStateFile, String>,
)
    requires
        reg.state_error is Some,
        reg.trust_outcome(selector, at, trusted),
        reg.revoke_outcome(selector, revoked),
        reg.enable_outcome(selector, enabled),
        reg.disable_outcome(selector, disabled),
    ensures
        trusted is Err,
        revoked is Err,
        enabled is Err,
        disabled is Err,
{
}

/// Only a trusted bundle that applies to this host and declares nothing
/// unsupported can be enabled.
pub proof fn law_enable_requires_review(
    reg: RegistryView,
    selector: Seq<char>,
    r: Result<PluginStateFile, String>,
)
    requires
        reg.enable_outcome(selector, r),
        r is Ok,
    ensures
        reg.lookup(selector) matches Some(p) && p.spec_trusted() && p.applicable
            && !p.inventory.spec_has_unsupported(),
{
}

/// A bundle that declares unsupported components can be reviewed but not
/// enabled.
pub proof fn law_unsupported_reviewable_not_enableable(
    reg: RegistryView,
    selector: Seq<char>,
    at: Seq<char>,
    reviewed: Result<PluginStateFile, String>,
    enabled: Result<PluginStateFile, String>,
)
    requires
        reg.lookup(selector) matches Some(p) && p.inventory.spec_has_unsupported(),
        reg.store_error() is None,
        reg.trust_outcome(selector, at, reviewed),
        reg.enable_outcome(selector, enabled),
    ensures
        reviewed is Ok,
        enabled is Err,
{
}

/// Reviewing and then committing makes the bundle trusted and leaves its
/// enablement as it was.
pub proof fn law_committed_review(
    reg: RegistryView,
    selector: Seq<char>,
    at: Seq<char>,
    next: PluginStateFile,
    r: Result<(), String>,
    after: RegistryView,
)
    requires
        reg.wf(),
        reg.trust_outcome(selector, at, Ok(next)),
        reg.commit_outcome(next@, Ok(()), r, after),
    ensures
        after.lookup(selector) matches Some(q) && q.spec_trusted() && q.enabled
            == reg.lookup(selector)->0.enabled,
{
    let p = reg.lookup(selector)->0;
    lemma_commit_lookup(reg, next@, r, after, selector);
    crate::state::law_review_trusts_the_reviewed_bundle(p, reg.state, at);
    let i = reg.index_of(reg.resolve(selector)->0);
    assert(reg.plugins[i] == spec_apply(reg.plugins[i], reg.state, false));
}

/// Enabling and then committing makes the bundle enabled and leaves its
/// trust as it was; the bundle then runs unless it carries an error
/// diagnostic.
pub proof fn law_committed_enable(
    reg: RegistryView,
    selector: Seq<char>,
    next: PluginStateFile,
    r: Result<(), String>,
    after: RegistryView,
)
    requires
        reg.wf(),
        reg.enable_outcome(selector, Ok(next)),
        reg.commit_outcome(next@, Ok(()), r, after),
    ensures
        after.lookup(selector) matches Some(q) && q.enabled && q.trust_status
            == reg.lookup(selector)->0.trust_status && q.spec_trusted() && (q.spec_active()
            == !has_error(q.diagnostics@)),
{
    let p = reg.lookup(selector)->0;
    lemma_commit_lookup(reg, next@, r, after, selector);
    crate::state::law_enablement_keeps_trust(reg.state, p.id@, true, p.id@);
    let i = reg.index_of(reg.resolve(selector)->0);
    assert(reg.plugins[i] == spec_apply(reg.plugins[i], reg.state, false));
}

/// Disabling and then committing makes the bundle disabled (so it does not
/// run) and leaves its trust as it was.
pub proof fn law_committed_disable(
    reg: RegistryView,
    selector: Seq<char>,
    next: PluginStateFile,
    r: Result<(), String>,
    after: RegistryView,
)
    requires
        reg.wf(),
        reg.disable_outcome(selector, Ok(next)),
        reg.commit_outcome(next@, Ok(()), r, after),
    ensures
        after.lookup(selector) matches Some(q) && !q.enabled && !q.spec_active() && q.trust_status
            == reg.lookup(selector)->0.trust_status,
{
    let id = reg.resolve(selector)->0;
    let i = reg.index_of(id);
    assert(reg.has_id(id));
    lemma_commit_lookup(reg, next@, r, after, selector);
    crate::state::law_enablement_keeps_trust(reg.state, id, false, id);
    assert(reg.plugins[i] == spec_apply(reg.plugins[i], reg.state, false));
}

/// Committing a change of a bundle's enablement leaves the trust status of
/// every bundle as it was.
proof fn lemma_commit_enablement_keeps_trust(
    reg: RegistryView,
    id: Seq<char>,
    enabled: bool,
    r: Result<(), String>,
    after: RegistryView,
)
    requires
        reg.consistent(),
        reg.store_error() is None,
        reg.commit_outcome(spec_set_enabled(reg.state, id, enabled), Ok(()), r, after),
    ensures
        after.plugins.len() == reg.plugins.len(),
        forall|i: int|
            #![trigger after.plugins[i]]
            0 <= i < reg.plugins.len() ==> after.plugins[i].id@ == reg.plugins[i].id@
                && after.plugins[i].trust_status == reg.plugins[i].trust_status,
{
    let next = spec_set_enabled(reg.state, id, enabled);
    assert forall|i: int|
        #![trigger after.plugins[i]]
        0 <= i < reg.plugins.len() implies after.plugins[i].id@ == reg.plugins[i].id@
            && after.plugins[i].trust_status == reg.plugins[i].trust_status by {
        let q = reg.plugins[i];
        assert(q == spec_apply(q, reg.state, false));
        crate::state::lemma_enablement_keeps_receipts(reg.state, id, enabled, q.id@);
        assert(after.plugins[i] == spec_apply(q, next, false));
    }
}

/// Enabling a bundle and committing the change leaves the trust status of
/// every bundle, the enabled one included, as it was.
pub proof fn law_committed_enable_keeps_every_trust(
    reg: RegistryView,
    selector: Seq<char>,
    next: PluginStateFile,
    r: Result<(), String>,
    after: RegistryView,
)
    requires
        reg.wf(),
        reg.enable_outcome(selector, Ok(next)),
        reg.commit_outcome(next@, Ok(()), r, after),
    ensures
        after.plugins.len() == reg.plugins.len(),
        forall|i: int|
            #![trigger after.plugins[i]]
            0 <= i < reg.plugins.len() ==> after.plugins[i].id@ == reg.plugins[i].id@
                && after.plugins[i].trust_status == reg.plugins[i].trust_status,
{
    let p = reg.lookup(selector)->0;
    lemma_commit_enablement_keeps_trust(reg, p.id@, true, r, after);
}

/// Disabling a bundle and committing the change leaves the trust status of
/// every bundle as it was.
pub proof fn law_committed_disable_keeps_every_trust(
    reg: RegistryView,
    selector: Seq<char>,
    next: PluginStateFile,
    r: Result<(), String>,
    after: RegistryView,
)
    requires
        reg.wf(),
        reg.disable_outcome(selector, Ok(next)),
        reg.commit_outcome(next@, Ok(()), r, after),
    ensures
        after.plugins.len() == reg.plugins.len(),
        forall|i: int|
            #![trigger after.plugins[i]]
            0 <= i < reg.plugins.len() ==> after.plugins[i].id@ == reg.plugins[i].id@
                && after.plugins[i].trust_status == reg.plugins[i].trust_status,
{
    let id = reg.resolve(selector)->0;
    lemma_commit_enablement_keeps_trust(reg, id, false, r, after);
}

/// Disabling is idempotent: after a committed disable, disabling the same
/// bundle again succeeds with the state already in force, and committing it
/// leaves the registry exactly as the first disable left it.
pub proof fn law_disable_twice_is_disable_once(
    reg: RegistryView,
    selector: Seq<char>,
    first: PluginStateFile,
    r1: Result<(), String>,
    mid: RegistryView,
    second: Result<PluginStateFile, String>,
    r2: Result<(), String>,
    after: RegistryView,
)
    requires
        reg.wf(),
        reg.disable_outcome(selector, Ok(first)),
        reg.commit_outcome(first@, Ok(()), r1, mid),
        mid.disable_outcome(selector, second),
        second matches Ok(n) ==> mid.commit_outcome(n@, Ok(()), r2, after),
    ensures
        second matches Ok(n) && n@ == first@,
        r2 is Ok,
        after == mid,
{
    let id = reg.resolve(selector)->0;
    lemma_commit_lookup(reg, first@, r1, mid, selector);
    crate::state::law_enablement_idempotent(reg.state, id, false);
    assert forall|i: int| 0 <= i < mid.plugins.len() implies #[trigger] after.plugins[i] == mid.plugins[i] by {
        crate::state::lemma_apply_idempotent(reg.plugins[i], first@, false);
    }
    assert(after.plugins =~= mid.plugins);
}

/// Revoking trust and then committing leaves the bundle unreviewed and
/// inactive, and does not rewrite its enablement.
pub proof fn law_committed_revoke(
    reg: RegistryView,
    selector: Seq<char>,
    next: PluginStateFile,
    r: Result<(), String>,
    after: RegistryView,
)
    requires
        reg.wf(),
        reg.revoke_outcome(selector, Ok(next)),
        reg.commit_outcome(next@, Ok(()), r, after),
    ensures
        after.lookup(selector) matches Some(q) && q.enabled == reg.lookup(selector)->0.enabled
            && q.trust_status == PluginTrustStatus::NeverReviewed && !q.spec_active(),
{
    let id = reg.resolve(selector)->0;
    let i = reg.index_of(id);
    assert(reg.has_id(id));
    lemma_commit_lookup(reg, next@, r, after, selector);
    crate::state::law_revoke_keeps_enablement(reg.state, id, id);
    assert(reg.plugins[i] == spec_apply(reg.plugins[i], reg.state, false));
}

/// What every bundle of a consistent registry (one just discovered, or one
/// after a successful commit) shows is what the persisted state says of it:
/// when the state could not be read, it is disabled and never reviewed;
/// otherwise it is enabled exactly when its entry says so, and its trust
/// status compares its hashes with its entry's receipt (never reviewed
/// without one, capability drift before content drift).
pub proof fn law_bundles_show_persisted_state(reg: RegistryView, i: int)
    requires
        reg.wf(),
        0 <= i < reg.plugins.len(),
    ensures
        reg.state_error is Some ==> !reg.plugins[i].enabled && reg.plugins[i].trust_status
            == PluginTrustStatus::NeverReviewed,
        reg.state_error is None ==> {
            let entry = crate::state::persisted_of(reg.state.plugins, reg.plugins[i].id@);
            &&& reg.plugins[i].enabled == (entry matches Some(s) && s.enabled)
            &&& reg.plugins[i].trust_status == match crate::state::receipt_in(entry) {
                None => PluginTrustStatus::NeverReviewed,
                Some(rc) => if rc.capability_hash != reg.plugins[i].capability_hash@ {
                    PluginTrustStatus::CapabilitiesChanged
                } else if rc.content_hash != reg.plugins[i].content_hash@ {
                    PluginTrustStatus::ContentChanged
                } else {
                    PluginTrustStatus::Trusted
                },
            }
        },
{
    assert(reg.plugins[i] == spec_apply(reg.plugins[i], reg.state, reg.state_error is Some));
}

/// Bundles are listed by scope, then name, then identifier, each bundle
/// once.
pub proof fn law_listing_is_ordered(reg: RegistryView, i: int, j: int)
    requires
        reg.wf(),
        0 <= i < j < reg.plugins.len(),
    ensures
        listed_before(reg.plugins[i], reg.plugins[j]),
        !listed_before(reg.plugins[j], reg.plugins[i]),
        reg.plugins[i].id@ != reg.plugins[j].id@,
{
    lemma_listed_asymmetric(reg.plugins[i], reg.plugins[j]);
}

proof fn lemma_first_name_unique(names: Seq<(Seq<char>, Seq<char>)>, name: Seq<char>, i: int, j: int)
    requires
        is_first_name(names, name, i),
        is_first_name(names, name, j),
    ensures
        i == j,
{
    if i < j {
        assert(names[i].0 == name);
    } else if j < i {
        assert(names[j].0 == name);
    }
}

proof fn lemma_smallest_name(names: Seq<(Seq<char>, Seq<char>)>, name: Seq<char>, j: int) -> (k: int)
    requires
        0 <= j < names.len(),
        names[j].0 == name,
    ensures
        is_first_name(names, name, k),
    decreases j,
{
    if forall|m: int| 0 <= m < j ==> names[m].0 != name {
        j
    } else {
        let m = choose|m: int| 0 <= m < j && names[m].0 == name;
        lemma_smallest_name(names, name, m)
    }
}

/// After binding `name` to `id`, the binding read for `name` is `id`.
proof fn lemma_bind_name_reads_back(names: Seq<(Seq<char>, Seq<char>)>, name: Seq<char>, id: Seq<char>)
    ensures
        name_index(bind_name(names, name, id), name) matches Some(k) && bind_name(names, name, id)[k].1
            == id,
{
    let u = bind_name(names, name, id);
    match name_index(names, name) {
        Some(k) => {
            let c0 = choose|c: int| is_first_name(names, name, c);
            assert(is_first_name(names, name, c0));
            assert(k == c0);
            assert(is_first_name(u, name, k));
            let c = choose|c: int| is_first_name(u, name, c);
            lemma_first_name_unique(u, name, k, c);
        },
        None => {
            assert forall|j: int| 0 <= j < names.len() implies names[j].0 != name by {
                if names[j].0 == name {
                    let k = lemma_smallest_name(names, name, j);
                }
            }
            let n = names.len() as int;
            assert(is_first_name(u, name, n));
            let c = choose|c: int| is_first_name(u, name, c);
            lemma_first_name_unique(u, name, n, c);
        },
    }
}

/// The name of the bundle registered last selects it: after registering
/// `input` and then `p`, the binding read for `p`'s name is `p`'s
/// identifier, whatever bundle bore that name before.
pub proof fn law_last_registered_takes_name(input: Seq<LoadedPlugin>, p: LoadedPlugin)
    ensures
        name_index(registered(input.push(p)).1, p.spec_name()) matches Some(k)
            && registered(input.push(p)).1[k].1 == p.id@,
{
    assert(input.push(p).drop_last() =~= input);
    assert(input.push(p).last() == p);
    lemma_bind_name_reads_back(registered(input).1, p.spec_name(), p.id@);
}

/// In a registry discovered from `input` followed by `p`, a selector equal
/// to `p`'s name that is no bundle identifier picks `p`.
pub proof fn law_name_selects_last_registered(reg: RegistryView, input: Seq<LoadedPlugin>, p: LoadedPlugin)
    requires
        reg.names == registered(input.push(p)).1,
        !reg.has_id(p.spec_name()),
    ensures
        reg.resolve(p.spec_name()) == Some(p.id@),
{
    law_last_registered_takes_name(input, p);
}

/// Bundles of one scope are listed by name in `String`'s order: a bundle
/// whose name is a proper prefix of another's is listed before it.
pub proof fn law_prefix_name_listed_first(reg: RegistryView, i: int, j: int, s: Seq<char>)
    requires
        reg.wf(),
        0 <= i < reg.plugins.len(),
        0 <= j < reg.plugins.len(),
        reg.plugins[i].scope == reg.plugins[j].scope,
        s.len() > 0,
        reg.plugins[j].spec_name() == reg.plugins[i].spec_name() + s,
    ensures
        i < j,
{
    let a = reg.plugins[i].spec_name();
    crate::text::law_proper_prefix_sorts_first(a, s);
    assert((a + s).len() != a.len());
    if j <= i {
        if j < i {
            assert(listed_before(reg.plugins[j], reg.plugins[i]));
        }
    }
}

/// A selector that is a bundle identifier picks that bundle, even when some
/// bundle is also named like it.
pub proof fn law_identifier_selects_its_bundle(reg: RegistryView, selector: Seq<char>)
    requires
        reg.wf(),
        reg.has_id(selector),
    ensures
        reg.lookup(selector) matches Some(p) && p.id@ == selector,
{
    let i = reg.index_of(selector);
    assert(0 <= i < reg.plugins.len() && reg.plugins[i].id@ == selector);
}

} // verus!
