//! The persisted plugin state: per-bundle enablement, the current trust
//! receipt and a bounded review history.

use vstd::prelude::*;

use crate::types::{InventoryView, LoadedPlugin, PluginId, PluginInventory, PluginTrustStatus};

verus! {

/// Version of the persisted state layout that this library reads and writes.
pub const STATE_SCHEMA_VERSION: u32 = 1;

/// Number of reviews that the history of one bundle retains.
pub const MAX_REVIEW_HISTORY: usize = 32;

/// The record of one capability review: the hashes and inventory that the
/// user approved, and when.
#[derive(Debug, Clone)]
pub struct TrustReceipt {
    pub content_hash: String,
    pub capability_hash: String,
    pub reviewed_capabilities: PluginInventory,
    pub reviewed_at: String,
}

pub struct ReceiptView {
    pub content_hash: Seq<char>,
    pub capability_hash: Seq<char>,
    pub reviewed_capabilities: InventoryView,
    pub reviewed_at: Seq<char>,
}

impl View for TrustReceipt {
    type V = ReceiptView;

    open spec fn view(&self) -> ReceiptView {
        ReceiptView {
            content_hash: self.content_hash@,
            capability_hash: self.capability_hash@,
            reviewed_capabilities: self.reviewed_capabilities@,
            reviewed_at: self.reviewed_at@,
        }
    }
}

impl TrustReceipt {
    pub fn duplicate(&self) -> (r: TrustReceipt)
        ensures
            r@ == self@,
    {
        TrustReceipt {
            content_hash: self.content_hash.clone(),
            capability_hash: self.capability_hash.clone(),
            reviewed_capabilities: self.reviewed_capabilities.duplicate(),
            reviewed_at: self.reviewed_at.clone(),
        }
    }
}

pub open spec fn receipts_view(v: Seq<TrustReceipt>) -> Seq<ReceiptView> {
    v.map_values(|r: TrustReceipt| r@)
}

pub open spec fn opt_receipt_view(o: Option<TrustReceipt>) -> Option<ReceiptView> {
    match o {
        Some(r) => Some(r@),
        None => None,
    }
}

fn copy_receipts(v: &Vec<TrustReceipt>) -> (r: Vec<TrustReceipt>)
    ensures
        receipts_view(r@) == receipts_view(v@),
{
    let mut r: Vec<TrustReceipt> = Vec::new();
    let mut i: usize = 0;
    while i < v.len()
        invariant
            i <= v@.len(),
            r@.len() == i,
            forall|j: int| 0 <= j < i ==> r@[j]@ == v@[j]@,
        decreases v@.len() - i,
    {
        r.push(v[i].duplicate());
        i = i + 1;
    }
    assert(receipts_view(r@) =~= receipts_view(v@));
    r
}

/// What is persisted for one bundle.
#[derive(Debug, Clone)]
pub struct PersistedPluginState {
    pub enabled: bool,
    pub trust: Option<TrustReceipt>,
    pub review_history: Vec<TrustReceipt>,
}

pub struct PersistedView {
    pub enabled: bool,
    pub trust: Option<ReceiptView>,
    pub review_history: Seq<ReceiptView>,
}

impl View for PersistedPluginState {
    type V = PersistedView;

    open spec fn view(&self) -> PersistedView {
        PersistedView {
            enabled: self.enabled,
            trust: opt_receipt_view(self.trust),
            review_history: receipts_view(self.review_history@),
        }
    }
}

/// The state of a bundle that nothing was recorded for.
pub open spec fn default_persisted() -> PersistedView {
    PersistedView { enabled: false, trust: None, review_history: Seq::empty() }
}

impl Default for PersistedPluginState {
    /// The state of a bundle that nothing was recorded for.
    fn default() -> (r: PersistedPluginState)
        ensures
            r@ == default_persisted(),
    {
        let r = PersistedPluginState { enabled: false, trust: None, review_history: Vec::new() };
        assert(r@.review_history =~= Seq::<ReceiptView>::empty());
        r
    }
}

impl PersistedPluginState {

    pub fn duplicate(&self) -> (r: PersistedPluginState)
        ensures
            r@ == self@,
    {
        let trust = match &self.trust {
            Some(t) => Some(t.duplicate()),
            None => None,
        };
        PersistedPluginState {
            enabled: self.enabled,
            trust,
            review_history: copy_receipts(&self.review_history),
        }
    }
}

/// One bundle's persisted state, keyed by its identifier.
#[derive(Debug, Clone)]
pub struct PersistedPluginEntry {
    pub id: PluginId,
    pub state: PersistedPluginState,
}

pub struct EntryView {
    pub id: Seq<char>,
    pub state: PersistedView,
}

impl View for PersistedPluginEntry {
    type V = EntryView;

    open spec fn view(&self) -> EntryView {
        EntryView { id: self.id@, state: self.state@ }
    }
}

pub open spec fn entries_view(v: Seq<PersistedPluginEntry>) -> Seq<EntryView> {
    v.map_values(|e: PersistedPluginEntry| e@)
}

/// The whole persisted state file.
#[derive(Debug, Clone)]
pub struct PluginStateFile {
    pub schema_version: u32,
    pub plugins: Vec<PersistedPluginEntry>,
}

pub struct StateView {
    pub schema_version: u32,
    pub plugins: Seq<EntryView>,
}

impl View for PluginStateFile {
    type V = StateView;

    open spec fn view(&self) -> StateView {
        StateView { schema_version: self.schema_version, plugins: entries_view(self.plugins@) }
    }
}

/// No two entries are recorded for the same bundle.
pub open spec fn unique_entry_ids(es: Seq<EntryView>) -> bool {
    forall|i: int, j: int| 0 <= i < j < es.len() ==> es[i].id != es[j].id
}

impl StateView {
    /// The state maps each bundle identifier to at most one entry.
    pub open spec fn wf(self) -> bool {
        unique_entry_ids(self.plugins)
    }
}

/// The state of an installation where nothing was recorded yet.
pub open spec fn default_state() -> StateView {
    StateView { schema_version: STATE_SCHEMA_VERSION, plugins: Seq::empty() }
}

impl Default for PluginStateFile {
    fn default() -> (r: PluginStateFile)
        ensures
            r@ == default_state(),
    {
        let r = PluginStateFile { schema_version: STATE_SCHEMA_VERSION, plugins: Vec::new() };
        assert(r@.plugins =~= Seq::<EntryView>::empty());
        r
    }
}

impl PluginStateFile {
    pub fn duplicate(&self) -> (r: PluginStateFile)
        ensures
            r@ == self@,
    {
        let mut plugins: Vec<PersistedPluginEntry> = Vec::new();
        let mut i: usize = 0;
        while i < self.plugins.len()
            invariant
                i <= self.plugins@.len(),
                plugins@.len() == i,
                forall|j: int| 0 <= j < i ==> plugins@[j]@ == self.plugins@[j]@,
            decreases self.plugins@.len() - i,
        {
            let e = &self.plugins[i];
            plugins.push(PersistedPluginEntry { id: e.id.duplicate(), state: e.state.duplicate() });
            i = i + 1;
        }
        let r = PluginStateFile { schema_version: self.schema_version, plugins };
        assert(r@.plugins =~= self@.plugins);
        r
    }
}

pub open spec fn schema_error_message(version: u32) -> Seq<char> {
    "unsupported plugin state schema "@ + crate::text::spec_decimal(version as nat) + "; expected 1"@
}

/// Accepts a parsed state file only when it has the supported schema
/// version.
impl PluginStateFile {
    /// Whether each bundle identifier has at most one entry.
    pub fn has_unique_ids(&self) -> (r: bool)
        ensures
            r == self@.wf(),
    {
        let ghost es = self@.plugins;
        let mut j: usize = 0;
        while j < self.plugins.len()
            invariant
                es == entries_view(self.plugins@),
                j <= es.len(),
                forall|a: int, b: int| 0 <= a < b < j ==> es[a].id != es[b].id,
            decreases es.len() - j,
        {
            let mut i: usize = 0;
            while i < j
                invariant
                    es == entries_view(self.plugins@),
                    i <= j < es.len(),
                    forall|a: int| 0 <= a < i ==> es[a].id != es[j as int].id,
                decreases j - i,
            {
                if crate::text::str_eq(self.plugins[i].id.as_str(), self.plugins[j].id.as_str()) {
                    assert(es[i as int].id == es[j as int].id);
                    return false;
                }
                i = i + 1;
            }
            j = j + 1;
        }
        true
    }
}

pub fn check_state_schema(state: PluginStateFile) -> (r: Result<PluginStateFile, String>)
    ensures
        state.schema_version == STATE_SCHEMA_VERSION ==> (r matches Ok(s) && s@ == state@),
        state.schema_version != STATE_SCHEMA_VERSION ==> (r matches Err(e) && e@
            == schema_error_message(state.schema_version)),
{
    if state.schema_version != STATE_SCHEMA_VERSION {
        let mut message = String::from_str("unsupported plugin state schema ");
        let n = crate::text::decimal(state.schema_version as usize);
        message.append(n.as_str());
        message.append("; expected 1");
        return Err(message);
    }
    Ok(state)
}

/// Entry `i` is the first entry recorded for `id`.
pub open spec fn is_first_entry(es: Seq<EntryView>, id: Seq<char>, i: int) -> bool {
    &&& 0 <= i < es.len()
    &&& es[i].id == id
    &&& forall|j: int| 0 <= j < i ==> es[j].id != id
}

/// Position of the entry that is read for `id`: the first one recorded.
pub open spec fn entry_index(es: Seq<EntryView>, id: Seq<char>) -> Option<int> {
    if exists|i: int| is_first_entry(es, id, i) {
        Some(choose|i: int| is_first_entry(es, id, i))
    } else {
        None
    }
}

/// What is persisted for `id`, if anything.
pub open spec fn persisted_of(es: Seq<EntryView>, id: Seq<char>) -> Option<PersistedView> {
    match entry_index(es, id) {
        Some(i) => Some(es[i].state),
        None => None,
    }
}

/// What is persisted for `id`, or the state of an unrecorded bundle.
pub open spec fn persisted_or_default(es: Seq<EntryView>, id: Seq<char>) -> PersistedView {
    match persisted_of(es, id) {
        Some(s) => s,
        None => default_persisted(),
    }
}

/// The entries with the state for `id` replaced by `st` (or added at the
/// end when `id` had none).
pub open spec fn with_entry(es: Seq<EntryView>, id: Seq<char>, st: PersistedView) -> Seq<EntryView> {
    match entry_index(es, id) {
        Some(i) => es.update(i, EntryView { id, state: st }),
        None => es.push(EntryView { id, state: st }),
    }
}

pub proof fn lemma_first_entry_unique(es: Seq<EntryView>, id: Seq<char>, i: int, j: int)
    requires
        is_first_entry(es, id, i),
        is_first_entry(es, id, j),
    ensures
        i == j,
{
    if i < j {
        assert(es[i].id == id);
    } else if j < i {
        assert(es[j].id == id);
    }
}

/// `entry_index` names the first entry for `id`, and there is none exactly
/// when no entry carries `id`.
pub proof fn lemma_entry_index(es: Seq<EntryView>, id: Seq<char>)
    ensures
        entry_index(es, id) matches Some(i) ==> is_first_entry(es, id, i),
        entry_index(es, id) is None ==> forall|j: int| 0 <= j < es.len() ==> es[j].id != id,
{
    if entry_index(es, id) is None {
        assert forall|j: int| 0 <= j < es.len() implies es[j].id != id by {
            if es[j].id == id {
                // the smallest index carrying `id` would be a first entry
                let k = lemma_smallest_match(es, id, j);
                assert(is_first_entry(es, id, k));
            }
        }
    }
}

proof fn lemma_smallest_match(es: Seq<EntryView>, id: Seq<char>, j: int) -> (k: int)
    requires
        0 <= j < es.len(),
        es[j].id == id,
    ensures
        is_first_entry(es, id, k),
    decreases j,
{
    if forall|m: int| 0 <= m < j ==> es[m].id != id {
        j
    } else {
        let m = choose|m: int| 0 <= m < j && es[m].id == id;
        lemma_smallest_match(es, id, m)
    }
}

/// Finds the entry that is read for `id`.
pub fn find_entry(entries: &Vec<PersistedPluginEntry>, id: &str) -> (r: Option<usize>)
    ensures
        match r {
            Some(i) => entry_index(entries_view(entries@), id@) == Some(i as int),
            None => entry_index(entries_view(entries@), id@) is None,
        },
{
    let ghost es = entries_view(entries@);
    let mut i: usize = 0;
    while i < entries.len()
        invariant
            es == entries_view(entries@),
            i <= entries@.len(),
            forall|j: int| 0 <= j < i ==> es[j].id != id@,
        decreases entries@.len() - i,
    {
        if crate::text::str_eq(entries[i].id.as_str(), id) {
            proof {
                assert(is_first_entry(es, id@, i as int));
                let k = choose|k: int| is_first_entry(es, id@, k);
                lemma_first_entry_unique(es, id@, i as int, k);
            }
            return Some(i);
        }
        i = i + 1;
    }
    proof {
        if exists|k: int| is_first_entry(es, id@, k) {
            let k = choose|k: int| is_first_entry(es, id@, k);
            assert(es[k].id == id@);
        }
    }
    None
}

/// Reads the state persisted for `id`, or the state of an unrecorded bundle.
pub fn read_entry(entries: &Vec<PersistedPluginEntry>, id: &str) -> (r: PersistedPluginState)
    ensures
        r@ == persisted_or_default(entries_view(entries@), id@),
{
    match find_entry(entries, id) {
        Some(i) => entries[i].state.duplicate(),
        None => PersistedPluginState::default(),
    }
}

/// Writing an entry keeps each bundle identifier to at most one entry.
pub proof fn lemma_with_entry_unique(es: Seq<EntryView>, id: Seq<char>, st: PersistedView)
    requires
        unique_entry_ids(es),
    ensures
        unique_entry_ids(with_entry(es, id, st)),
{
    lemma_entry_index(es, id);
    let new = with_entry(es, id, st);
    assert forall|i: int, j: int| 0 <= i < j < new.len() implies new[i].id != new[j].id by {
        match entry_index(es, id) {
            Some(k) => {
                assert(es[k].id == id);
                assert(new[i].id == es[i].id && new[j].id == es[j].id);
            },
            None => {
                if j == es.len() {
                    assert(es[i].id != id);
                }
            },
        }
    }
}

/// Records `st` for `id`.
pub fn write_entry(entries: &mut Vec<PersistedPluginEntry>, id: &PluginId, st: PersistedPluginState)
    ensures
        entries_view(final(entries)@) == with_entry(entries_view(old(entries)@), id@, st@),
        unique_entry_ids(entries_view(old(entries)@)) ==> unique_entry_ids(entries_view(final(entries)@)),
{
    proof {
        if unique_entry_ids(entries_view(entries@)) {
            lemma_with_entry_unique(entries_view(entries@), id@, st@);
        }
    }
    let ghost es = entries_view(entries@);
    let entry = PersistedPluginEntry { id: id.duplicate(), state: st };
    match find_entry(entries, id.as_str()) {
        Some(i) => {
            entries.set(i, entry);
            assert(entries_view(entries@) =~= es.update(i as int, EntryView { id: id@, state: st@ }));
        },
        None => {
            entries.push(entry);
            assert(entries_view(entries@) =~= es.push(EntryView { id: id@, state: st@ }));
        },
    }
}

/// The last `n` reviews of a history (all of them when there are fewer).
pub open spec fn keep_last(h: Seq<ReceiptView>, n: nat) -> Seq<ReceiptView> {
    if h.len() > n {
        h.subrange(h.len() - n, h.len() as int)
    } else {
        h
    }
}

/// The state after setting whether `id` is enabled; nothing else changes.
pub open spec fn spec_set_enabled(st: StateView, id: Seq<char>, enabled: bool) -> StateView {
    let cur = persisted_or_default(st.plugins, id);
    StateView {
        schema_version: st.schema_version,
        plugins: with_entry(st.plugins, id, PersistedView { enabled, ..cur }),
    }
}

/// The state after revoking the trust receipt of `id`; its enablement and
/// review history stay.
pub open spec fn spec_clear_trust(st: StateView, id: Seq<char>) -> StateView {
    let cur = persisted_or_default(st.plugins, id);
    StateView {
        schema_version: st.schema_version,
        plugins: with_entry(st.plugins, id, PersistedView { trust: None, ..cur }),
    }
}

/// The state after recording review `rc` for `id`: it becomes the current
/// receipt and is appended to the history, which keeps the last
/// `MAX_REVIEW_HISTORY` reviews. Enablement stays.
pub open spec fn spec_record_trust(st: StateView, id: Seq<char>, rc: ReceiptView) -> StateView {
    let cur = persisted_or_default(st.plugins, id);
    StateView {
        schema_version: st.schema_version,
        plugins: with_entry(
            st.plugins,
            id,
            PersistedView {
                enabled: cur.enabled,
                trust: Some(rc),
                review_history: keep_last(cur.review_history.push(rc), MAX_REVIEW_HISTORY as nat),
            },
        ),
    }
}

/// How a bundle compares with the receipt persisted for it: capability drift
/// is reported before content drift.
pub open spec fn spec_trust_status(
    receipt: Option<ReceiptView>,
    content_hash: Seq<char>,
    capability_hash: Seq<char>,
) -> PluginTrustStatus {
    match receipt {
        Some(rc) => if rc.capability_hash != capability_hash {
            PluginTrustStatus::CapabilitiesChanged
        } else if rc.content_hash != content_hash {
            PluginTrustStatus::ContentChanged
        } else {
            PluginTrustStatus::Trusted
        },
        None => PluginTrustStatus::NeverReviewed,
    }
}

/// A bundle with the persisted state applied. When the state file could not
/// be read, every bundle is disabled and unreviewed (fail-closed).
pub open spec fn spec_apply(p: LoadedPlugin, st: StateView, state_failed: bool) -> LoadedPlugin {
    let persisted = persisted_of(st.plugins, p.id@);
    if state_failed {
        LoadedPlugin { enabled: false, trust_status: PluginTrustStatus::NeverReviewed, ..p }
    } else {
        LoadedPlugin {
            enabled: match persisted {
                Some(s) => s.enabled,
                None => false,
            },
            trust_status: spec_trust_status(
                match persisted {
                    Some(s) => s.trust,
                    None => None,
                },
                p.content_hash@,
                p.capability_hash@,
            ),
            ..p
        }
    }
}

/// Applying the persisted state twice gives what applying it once gives.
pub proof fn lemma_apply_idempotent(p: LoadedPlugin, st: StateView, failed: bool)
    ensures
        spec_apply(spec_apply(p, st, failed), st, failed) == spec_apply(p, st, failed),
{
}

/// The receipt that reviewing bundle `p` at time `at` records.
pub open spec fn receipt_of(p: LoadedPlugin, at: Seq<char>) -> ReceiptView {
    ReceiptView {
        content_hash: p.content_hash@,
        capability_hash: p.capability_hash@,
        reviewed_capabilities: p.inventory@,
        reviewed_at: at,
    }
}

/// Compares a bundle with its persisted receipt.
pub fn trust_status_of(receipt: &Option<TrustReceipt>, p: &LoadedPlugin) -> (r: PluginTrustStatus)
    ensures
        r == spec_trust_status(opt_receipt_view(*receipt), p.content_hash@, p.capability_hash@),
{
    match receipt {
        Some(rc) => {
            if !crate::text::str_eq(rc.capability_hash.as_str(), p.capability_hash.as_str()) {
                PluginTrustStatus::CapabilitiesChanged
            } else if !crate::text::str_eq(rc.content_hash.as_str(), p.content_hash.as_str()) {
                PluginTrustStatus::ContentChanged
            } else {
                PluginTrustStatus::Trusted
            }
        },
        None => PluginTrustStatus::NeverReviewed,
    }
}

/// Appends `rc` to a review history and keeps its last `MAX_REVIEW_HISTORY`
/// reviews.
pub fn push_review(history: &mut Vec<TrustReceipt>, rc: TrustReceipt)
    ensures
        receipts_view(final(history)@) == keep_last(
            receipts_view(old(history)@).push(rc@),
            MAX_REVIEW_HISTORY as nat,
        ),
{
    let ghost pushed = receipts_view(history@).push(rc@);
    history.push(rc);
    assert(receipts_view(history@) =~= pushed);
    if history.len() > MAX_REVIEW_HISTORY {
        let remove = history.len() - MAX_REVIEW_HISTORY;
        let mut kept: Vec<TrustReceipt> = Vec::new();
        let mut i: usize = remove;
        while i < history.len()
            invariant
                remove <= i <= history@.len(),
                remove == history@.len() - MAX_REVIEW_HISTORY,
                receipts_view(history@) == pushed,
                kept@.len() == i - remove,
                forall|j: int| 0 <= j < kept@.len() ==> kept@[j]@ == history@[remove + j]@,
            decreases history@.len() - i,
        {
            kept.push(history[i].duplicate());
            i = i + 1;
        }
        assert(receipts_view(kept@) =~= keep_last(pushed, MAX_REVIEW_HISTORY as nat));
        *history = kept;
    }
}

/// Reading back after a write: the state written for `id` is what is read
/// for `id`, and what is read for any other bundle does not change.
pub proof fn law_read_after_write(es: Seq<EntryView>, id: Seq<char>, st: PersistedView, other: Seq<char>)
    ensures
        persisted_of(with_entry(es, id, st), id) == Some(st),
        other != id ==> persisted_of(with_entry(es, id, st), other) == persisted_of(es, other),
{
    let new = with_entry(es, id, st);
    lemma_entry_index(es, id);
    lemma_entry_index(es, other);
    match entry_index(es, id) {
        Some(i) => {
            assert(is_first_entry(new, id, i));
            let c = choose|c: int| is_first_entry(new, id, c);
            lemma_first_entry_unique(new, id, i, c);
            if other != id {
                assert forall|k: int| is_first_entry(new, other, k) <==> is_first_entry(es, other, k) by {
                    if 0 <= k < es.len() {
                        assert forall|j: int| 0 <= j < k implies (new[j].id != other <==> es[j].id != other) by {
                            if j == i {
                                assert(new[j].id == id && es[j].id == id);
                            }
                        }
                        if k == i {
                            assert(new[k].id == id && es[k].id == id);
                        }
                    }
                }
            }
        },
        None => {
            let n = es.len() as int;
            assert(is_first_entry(new, id, n));
            let c = choose|c: int| is_first_entry(new, id, c);
            lemma_first_entry_unique(new, id, n, c);
            if other != id {
                assert forall|k: int| is_first_entry(new, other, k) <==> is_first_entry(es, other, k) by {
                    if k == n {
                        assert(new[k].id == id);
                    }
                    if 0 <= k < n {
                        assert forall|j: int| 0 <= j < k implies new[j] == es[j] by {}
                    }
                }
            }
        },
    }
    if other != id {
        if exists|k: int| is_first_entry(es, other, k) {
            let k = choose|k: int| is_first_entry(es, other, k);
            assert(is_first_entry(new, other, k));
            let c = choose|c: int| is_first_entry(new, other, c);
            lemma_first_entry_unique(new, other, k, c);
        }
    }
}

/// Enabling or disabling a bundle changes only its enablement: every trust
/// receipt and review history stays, and no other bundle's state changes.
pub proof fn law_enablement_keeps_trust(st: StateView, id: Seq<char>, enabled: bool, other: Seq<char>)
    ensures
        persisted_or_default(spec_set_enabled(st, id, enabled).plugins, id) == (PersistedView {
            enabled,
            ..persisted_or_default(st.plugins, id)
        }),
        other != id ==> persisted_of(spec_set_enabled(st, id, enabled).plugins, other)
            == persisted_of(st.plugins, other),
{
    law_read_after_write(
        st.plugins,
        id,
        PersistedView { enabled, ..persisted_or_default(st.plugins, id) },
        other,
    );
}

/// The receipt persisted for a bundle, if any.
pub open spec fn receipt_in(persisted: Option<PersistedView>) -> Option<ReceiptView> {
    match persisted {
        Some(s) => s.trust,
        None => None,
    }
}

/// Enabling or disabling a bundle leaves the receipt read for every bundle
/// as it was.
pub proof fn lemma_enablement_keeps_receipts(st: StateView, id: Seq<char>, enabled: bool, other: Seq<char>)
    ensures
        receipt_in(persisted_of(spec_set_enabled(st, id, enabled).plugins, other)) == receipt_in(
            persisted_of(st.plugins, other),
        ),
{
    law_enablement_keeps_trust(st, id, enabled, other);
    law_read_after_write(
        st.plugins,
        id,
        PersistedView { enabled, ..persisted_or_default(st.plugins, id) },
        other,
    );
}

/// Writing for a bundle the state that is already read for it changes
/// nothing.
pub proof fn lemma_rewrite_same_entry(es: Seq<EntryView>, id: Seq<char>, st: PersistedView)
    ensures
        with_entry(with_entry(es, id, st), id, st) == with_entry(es, id, st),
{
    let es2 = with_entry(es, id, st);
    law_read_after_write(es, id, st, id);
    lemma_entry_index(es2, id);
    let k = entry_index(es2, id)->0;
    assert(es2[k] == EntryView { id, state: st });
    assert(es2.update(k, EntryView { id, state: st }) =~= es2);
}

/// Setting a bundle's enablement to what it already is changes nothing:
/// enabling or disabling twice is enabling or disabling once.
pub proof fn law_enablement_idempotent(st: StateView, id: Seq<char>, enabled: bool)
    ensures
        spec_set_enabled(spec_set_enabled(st, id, enabled), id, enabled) == spec_set_enabled(
            st,
            id,
            enabled,
        ),
{
    let v = PersistedView { enabled, ..persisted_or_default(st.plugins, id) };
    law_read_after_write(st.plugins, id, v, id);
    lemma_rewrite_same_entry(st.plugins, id, v);
}

/// Reviewing a bundle changes only its receipt and history: every bundle's
/// enablement stays, and no other bundle's state changes. The history keeps
/// at most `MAX_REVIEW_HISTORY` reviews and ends with the new one.
pub proof fn law_review_keeps_enablement(st: StateView, id: Seq<char>, rc: ReceiptView, other: Seq<char>)
    ensures
        persisted_or_default(spec_record_trust(st, id, rc).plugins, id).enabled
            == persisted_or_default(st.plugins, id).enabled,
        persisted_or_default(spec_record_trust(st, id, rc).plugins, id).trust == Some(rc),
        persisted_or_default(spec_record_trust(st, id, rc).plugins, id).review_history.len()
            <= MAX_REVIEW_HISTORY,
        persisted_or_default(spec_record_trust(st, id, rc).plugins, id).review_history.last() == rc,
        other != id ==> persisted_of(spec_record_trust(st, id, rc).plugins, other) == persisted_of(
            st.plugins,
            other,
        ),
{
    let cur = persisted_or_default(st.plugins, id);
    let h = cur.review_history.push(rc);
    let new_state = PersistedView {
        enabled: cur.enabled,
        trust: Some(rc),
        review_history: keep_last(h, MAX_REVIEW_HISTORY as nat),
    };
    law_read_after_write(st.plugins, id, new_state, other);
    assert(keep_last(h, MAX_REVIEW_HISTORY as nat).last() == h.last());
}

/// The review history after reviewing `id` with receipt `rc` is the old
/// history with `rc` appended, cut to its newest `MAX_REVIEW_HISTORY`
/// entries: it is a suffix of that sequence, exactly as long as that
/// sequence when that fits and `MAX_REVIEW_HISTORY` long otherwise. So
/// every review kept is newer than every review dropped.
pub proof fn law_review_history_keeps_newest(st: StateView, id: Seq<char>, rc: ReceiptView)
    ensures
        ({
            let appended = persisted_or_default(st.plugins, id).review_history.push(rc);
            let kept = persisted_or_default(spec_record_trust(st, id, rc).plugins, id).review_history;
            &&& kept.len() == if appended.len() > MAX_REVIEW_HISTORY {
                MAX_REVIEW_HISTORY as int
            } else {
                appended.len() as int
            }
            &&& appended == appended.take(appended.len() - kept.len()) + kept
        }),
{
    let cur = persisted_or_default(st.plugins, id);
    let appended = cur.review_history.push(rc);
    let new_state = PersistedView {
        enabled: cur.enabled,
        trust: Some(rc),
        review_history: keep_last(appended, MAX_REVIEW_HISTORY as nat),
    };
    law_read_after_write(st.plugins, id, new_state, id);
    let kept = keep_last(appended, MAX_REVIEW_HISTORY as nat);
    assert(appended =~= appended.take(appended.len() - kept.len()) + kept);
}

/// Revoking trust removes only the receipt: every bundle's enablement and
/// the review history stay, and no other bundle's state changes.
pub proof fn law_revoke_keeps_enablement(st: StateView, id: Seq<char>, other: Seq<char>)
    ensures
        persisted_or_default(spec_clear_trust(st, id).plugins, id) == (PersistedView {
            trust: None,
            ..persisted_or_default(st.plugins, id)
        }),
        other != id ==> persisted_of(spec_clear_trust(st, id).plugins, other) == persisted_of(
            st.plugins,
            other,
        ),
{
    law_read_after_write(
        st.plugins,
        id,
        PersistedView { trust: None, ..persisted_or_default(st.plugins, id) },
        other,
    );
}

/// A bundle whose current content and capabilities were reviewed is trusted,
/// and reviewing it does not change whether it is enabled.
pub proof fn law_review_trusts_the_reviewed_bundle(p: LoadedPlugin, st: StateView, at: Seq<char>)
    ensures
        spec_apply(p, spec_record_trust(st, p.id@, receipt_of(p, at)), false).trust_status
            == PluginTrustStatus::Trusted,
        spec_apply(p, spec_record_trust(st, p.id@, receipt_of(p, at)), false).enabled == spec_apply(
            p,
            st,
            false,
        ).enabled,
{
    law_review_keeps_enablement(st, p.id@, receipt_of(p, at), p.id@);
}

/// Trust is bound to what was reviewed: a bundle whose capability hash
/// differs from its receipt's is `CapabilitiesChanged`; one with the same
/// capabilities but other content is `ContentChanged`. Either way it keeps its
/// enablement and does not run.
pub proof fn law_drift_invalidates_trust(p: LoadedPlugin, st: StateView)
    requires
        persisted_of(st.plugins, p.id@) matches Some(s) && s.trust matches Some(rc) && (
        rc.capability_hash != p.capability_hash@ || rc.content_hash != p.content_hash@),
    ensures
        spec_apply(p, st, false).trust_status == (if persisted_of(st.plugins, p.id@)->0.trust->0.capability_hash
            != p.capability_hash@ {
            PluginTrustStatus::CapabilitiesChanged
        } else {
            PluginTrustStatus::ContentChanged
        }),
        spec_apply(p, st, false).enabled == persisted_of(st.plugins, p.id@)->0.enabled,
        !spec_apply(p, st, false).spec_active(),
{
}

/// When the state file could not be read, every bundle is disabled,
/// unreviewed and inactive, whatever the state says.
pub proof fn law_fail_closed_bundles(p: LoadedPlugin, st: StateView)
    ensures
        !spec_apply(p, st, true).enabled,
        spec_apply(p, st, true).trust_status == PluginTrustStatus::NeverReviewed,
        !spec_apply(p, st, true).spec_active(),
{
}

} // verus!
