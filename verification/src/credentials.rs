//! Naming and cleanup policy for Codewhale-owned xAI OAuth generations.
//!
//! Config stores only a validated basename, so a generation pointer can never
//! become an arbitrary path to read or delete. The file-system work (reading
//! the home directory, canonicalizing, inspecting and removing files) is done
//! by the caller; this module decides what to do with each answer.

use vstd::prelude::*;

use crate::text::{chars_of, str_eq};

verus! {

pub const XAI_OAUTH_GENERATION_PREFIX: &'static str = "xai-auth-";

pub const XAI_OAUTH_GENERATION_SUFFIX: &'static str = ".json";

pub const LEGACY_XAI_OAUTH_FILE_NAME: &'static str = "xai-auth.json";

/// The name of the credentials directory under the Codewhale home.
pub const CREDENTIALS_DIR_NAME: &'static str = "credentials";

pub open spec fn generation_prefix() -> Seq<char> {
    seq!['x', 'a', 'i', '-', 'a', 'u', 't', 'h', '-']
}

pub open spec fn generation_suffix() -> Seq<char> {
    seq!['.', 'j', 's', 'o', 'n']
}

pub open spec fn legacy_name() -> Seq<char> {
    seq!['x', 'a', 'i', '-', 'a', 'u', 't', 'h', '.', 'j', 's', 'o', 'n']
}

pub open spec fn is_lower_hex(c: char) -> bool {
    (48 <= (c as u32) && (c as u32) <= 57) || (97 <= (c as u32) && (c as u32) <= 102)
}

/// A generation name is `xai-auth-`, 32 lowercase hexadecimal digits, and
/// `.json`.
pub open spec fn spec_valid_generation(s: Seq<char>) -> bool {
    &&& s.len() == 46
    &&& s.subrange(0, 9) == generation_prefix()
    &&& s.subrange(41, 46) == generation_suffix()
    &&& forall|i: int| 9 <= i < 41 ==> is_lower_hex(#[trigger] s[i])
}

/// A file the logout cleanup owns: the legacy file or a valid generation.
pub open spec fn spec_owned_name(s: Seq<char>) -> bool {
    s == legacy_name() || spec_valid_generation(s)
}

/// The constants spell the names that the specifications use.
pub proof fn lemma_name_constants()
    ensures
        XAI_OAUTH_GENERATION_PREFIX@ == generation_prefix(),
        XAI_OAUTH_GENERATION_SUFFIX@ == generation_suffix(),
        LEGACY_XAI_OAUTH_FILE_NAME@ == legacy_name(),
{
    reveal_strlit("xai-auth-");
    reveal_strlit(".json");
    reveal_strlit("xai-auth.json");
    assert(XAI_OAUTH_GENERATION_PREFIX@ =~= generation_prefix());
    assert(XAI_OAUTH_GENERATION_SUFFIX@ =~= generation_suffix());
    assert(LEGACY_XAI_OAUTH_FILE_NAME@ =~= legacy_name());
}

fn is_lower_hex_char(c: char) -> (r: bool)
    ensures
        r == is_lower_hex(c),
{
    let u = c as u32;
    (48 <= u && u <= 57) || (97 <= u && u <= 102)
}

/// Whether `value` names a Codewhale-owned xAI OAuth generation.
pub fn is_valid_xai_oauth_generation(value: &str) -> (r: bool)
    ensures
        r == spec_valid_generation(value@),
{
    let v = chars_of(value);
    if v.len() != 46 {
        return false;
    }
    proof {
        lemma_name_constants();
    }
    let prefix = chars_of(XAI_OAUTH_GENERATION_PREFIX);
    let suffix = chars_of(XAI_OAUTH_GENERATION_SUFFIX);
    let mut i: usize = 0;
    while i < 9
        invariant
            v@ == value@,
            v@.len() == 46,
            prefix@ == generation_prefix(),
            i <= 9,
            forall|j: int| 0 <= j < i ==> v@[j] == prefix@[j],
        decreases 9 - i,
    {
        if v[i] != prefix[i] {
            assert(v@.subrange(0, 9)[i as int] != generation_prefix()[i as int]);
            return false;
        }
        i = i + 1;
    }
    assert(v@.subrange(0, 9) =~= generation_prefix());
    let mut i: usize = 0;
    while i < 5
        invariant
            v@ == value@,
            v@.len() == 46,
            suffix@ == generation_suffix(),
            i <= 5,
            forall|j: int| 0 <= j < i ==> v@[41 + j] == suffix@[j],
        decreases 5 - i,
    {
        if v[41 + i] != suffix[i] {
            assert(v@.subrange(41, 46)[i as int] != generation_suffix()[i as int]);
            return false;
        }
        i = i + 1;
    }
    assert(v@.subrange(41, 46) =~= generation_suffix());
    let mut i: usize = 9;
    while i < 41
        invariant
            v@ == value@,
            v@.len() == 46,
            9 <= i <= 41,
            forall|j: int| 9 <= j < i ==> is_lower_hex(#[trigger] v@[j]),
        decreases 41 - i,
    {
        if !is_lower_hex_char(v[i]) {
            return false;
        }
        i = i + 1;
    }
    true
}

/// Why a credential path could not be resolved or a credential file could
/// not be removed.
#[derive(Debug, Clone)]
pub enum CredentialError {
    /// The generation is not `xai-auth-<32 lowercase hex>.json`.
    InvalidGeneration,
    /// The credentials directory has a `.` or `..` component.
    NotNormalized(Vec<PathComponent>),
    /// No existing ancestor of the credentials directory could be found.
    Unresolvable(Vec<PathComponent>),
    /// Canonicalizing the credentials directory failed.
    ResolveFailed { path: Vec<PathComponent>, cause: String },
    /// Inspecting a credential file failed.
    InspectFailed { path: Vec<PathComponent>, cause: String },
    /// The credential path is a symbolic link or not a regular file.
    NotRegularFile(Vec<PathComponent>),
    /// The credential path is a reparse point.
    ReparsePoint(Vec<PathComponent>),
    /// Removing a credential file failed.
    RemoveFailed { path: Vec<PathComponent>, cause: String },
}

pub open spec fn invalid_generation_message() -> Seq<char> {
    "invalid Codewhale-owned xAI OAuth generation; expected xai-auth-<32 lowercase hex>.json"@
}

impl CredentialError {
    /// The message of the error, with its path displayed as `shown`.
    pub open spec fn spec_message(self, shown: Seq<char>) -> Seq<char> {
        match self {
            CredentialError::InvalidGeneration => invalid_generation_message(),
            CredentialError::NotNormalized(_) => "Codewhale credentials directory must be lexically normalized: "@
                + shown,
            CredentialError::Unresolvable(_) => "cannot resolve Codewhale credentials directory "@ + shown,
            CredentialError::ResolveFailed { .. } => "resolving Codewhale credentials directory "@ + shown,
            CredentialError::InspectFailed { .. } => "failed to inspect Codewhale-owned xAI OAuth file "@
                + shown,
            CredentialError::NotRegularFile(_) => "refusing to delete non-regular Codewhale-owned xAI OAuth path "@
                + shown,
            CredentialError::ReparsePoint(_) => "refusing to delete reparse-point Codewhale-owned xAI OAuth path "@
                + shown,
            CredentialError::RemoveFailed { .. } => "failed to remove Codewhale-owned xAI OAuth file "@
                + shown,
        }
    }

    /// The message of the error; `shown_path` is how its path is displayed
    /// (an invalid generation has no path). The failure that caused it, if
    /// any, is `cause`.
    pub fn message(&self, shown_path: &str) -> (r: String)
        ensures
            r@ == self.spec_message(shown_path@),
    {
        let head = match self {
            CredentialError::InvalidGeneration => {
                return String::from_str(
                    "invalid Codewhale-owned xAI OAuth generation; expected xai-auth-<32 lowercase hex>.json",
                )
            },
            CredentialError::NotNormalized(_) => "Codewhale credentials directory must be lexically normalized: ",
            CredentialError::Unresolvable(_) => "cannot resolve Codewhale credentials directory ",
            CredentialError::ResolveFailed { .. } => "resolving Codewhale credentials directory ",
            CredentialError::InspectFailed { .. } => "failed to inspect Codewhale-owned xAI OAuth file ",
            CredentialError::NotRegularFile(_) => "refusing to delete non-regular Codewhale-owned xAI OAuth path ",
            CredentialError::ReparsePoint(_) => "refusing to delete reparse-point Codewhale-owned xAI OAuth path ",
            CredentialError::RemoveFailed { .. } => "failed to remove Codewhale-owned xAI OAuth file ",
        };
        let mut r = String::from_str(head);
        r.append(shown_path);
        r
    }

    /// The failure underneath the error, if it has one.
    pub fn cause(&self) -> (r: Option<&str>)
        ensures
            match self {
                CredentialError::ResolveFailed { cause, .. } => r matches Some(c) && c@ == cause@,
                CredentialError::InspectFailed { cause, .. } => r matches Some(c) && c@ == cause@,
                CredentialError::RemoveFailed { cause, .. } => r matches Some(c) && c@ == cause@,
                _ => r is None,
            },
    {
        match self {
            CredentialError::ResolveFailed { cause, .. } => Some(cause.as_str()),
            CredentialError::InspectFailed { cause, .. } => Some(cause.as_str()),
            CredentialError::RemoveFailed { cause, .. } => Some(cause.as_str()),
            _ => None,
        }
    }

    /// The path the error is about, if it has one.
    pub fn path(&self) -> (r: Option<&Vec<PathComponent>>)
        ensures
            match self {
                CredentialError::InvalidGeneration => r is None,
                CredentialError::NotNormalized(p) => r == Some(p),
                CredentialError::Unresolvable(p) => r == Some(p),
                CredentialError::ResolveFailed { path, .. } => r == Some(path),
                CredentialError::InspectFailed { path, .. } => r == Some(path),
                CredentialError::NotRegularFile(p) => r == Some(p),
                CredentialError::ReparsePoint(p) => r == Some(p),
                CredentialError::RemoveFailed { path, .. } => r == Some(path),
            },
    {
        match self {
            CredentialError::InvalidGeneration => None,
            CredentialError::NotNormalized(p) => Some(p),
            CredentialError::Unresolvable(p) => Some(p),
            CredentialError::ResolveFailed { path, .. } => Some(path),
            CredentialError::InspectFailed { path, .. } => Some(path),
            CredentialError::NotRegularFile(p) => Some(p),
            CredentialError::ReparsePoint(p) => Some(p),
            CredentialError::RemoveFailed { path, .. } => Some(path),
        }
    }
}

/// Accepts a generation name only when it is valid.
pub fn validate_xai_oauth_generation(value: &str) -> (r: Result<&str, CredentialError>)
    ensures
        spec_valid_generation(value@) ==> r == Ok::<&str, CredentialError>(value),
        !spec_valid_generation(value@) ==> r matches Err(CredentialError::InvalidGeneration),
        r matches Err(e) ==> e.spec_message(Seq::empty()) == invalid_generation_message(),
{
    if !is_valid_xai_oauth_generation(value) {
        return Err(CredentialError::InvalidGeneration);
    }
    Ok(value)
}

/// One component of a file-system path, as the standard library splits it.
#[derive(Debug, Clone)]
pub enum PathComponent {
    Prefix(String),
    RootDir,
    CurDir,
    ParentDir,
    Normal(String),
}

pub enum ComponentView {
    Prefix(Seq<char>),
    RootDir,
    CurDir,
    ParentDir,
    Normal(Seq<char>),
}

impl View for PathComponent {
    type V = ComponentView;

    open spec fn view(&self) -> ComponentView {
        match self {
            PathComponent::Prefix(s) => ComponentView::Prefix(s@),
            PathComponent::RootDir => ComponentView::RootDir,
            PathComponent::CurDir => ComponentView::CurDir,
            PathComponent::ParentDir => ComponentView::ParentDir,
            PathComponent::Normal(s) => ComponentView::Normal(s@),
        }
    }
}

impl PathComponent {
    pub fn duplicate(&self) -> (r: PathComponent)
        ensures
            r@ == self@,
    {
        match self {
            PathComponent::Prefix(s) => PathComponent::Prefix(s.clone()),
            PathComponent::RootDir => PathComponent::RootDir,
            PathComponent::CurDir => PathComponent::CurDir,
            PathComponent::ParentDir => PathComponent::ParentDir,
            PathComponent::Normal(s) => PathComponent::Normal(s.clone()),
        }
    }
}

pub open spec fn path_view(p: Seq<PathComponent>) -> Seq<ComponentView> {
    p.map_values(|c: PathComponent| c@)
}

/// A copy of a path with the same components.
pub fn copy_path(p: &Vec<PathComponent>) -> (r: Vec<PathComponent>)
    ensures
        path_view(r@) == path_view(p@),
{
    let mut r: Vec<PathComponent> = Vec::new();
    let mut i: usize = 0;
    while i < p.len()
        invariant
            i <= p@.len(),
            r@.len() == i,
            forall|j: int| 0 <= j < i ==> r@[j]@ == p@[j]@,
        decreases p@.len() - i,
    {
        r.push(p[i].duplicate());
        i = i + 1;
    }
    assert(path_view(r@) =~= path_view(p@));
    r
}

/// `p` followed by the file name `name`.
pub fn join_name(p: &Vec<PathComponent>, name: &str) -> (r: Vec<PathComponent>)
    ensures
        path_view(r@) == path_view(p@).push(ComponentView::Normal(name@)),
{
    let mut r = copy_path(p);
    r.push(PathComponent::Normal(String::from_str(name)));
    assert(path_view(r@) =~= path_view(p@).push(ComponentView::Normal(name@)));
    r
}

/// The credentials directory under the Codewhale home, before
/// canonicalization.
pub fn xai_oauth_credentials_dir(home: &Vec<PathComponent>) -> (r: Vec<PathComponent>)
    ensures
        path_view(r@) == path_view(home@).push(ComponentView::Normal(CREDENTIALS_DIR_NAME@)),
{
    join_name(home, CREDENTIALS_DIR_NAME)
}

/// The path of a generation inside the credentials directory; the name is
/// validated before it is joined.
pub fn xai_oauth_generation_path(credentials_dir: &Vec<PathComponent>, generation: &str) -> (r: Result<
    Vec<PathComponent>,
    CredentialError,
>)
    ensures
        match r {
            Ok(p) => spec_valid_generation(generation@) && path_view(p@) == path_view(
                credentials_dir@,
            ).push(ComponentView::Normal(generation@)),
            Err(e) => !spec_valid_generation(generation@) && e is InvalidGeneration,
        },
{
    match validate_xai_oauth_generation(generation) {
        Ok(name) => Ok(join_name(credentials_dir, name)),
        Err(e) => Err(e),
    }
}

/// The path of the legacy credential file inside the credentials directory.
pub fn legacy_xai_oauth_path(credentials_dir: &Vec<PathComponent>) -> (r: Vec<PathComponent>)
    ensures
        path_view(r@) == path_view(credentials_dir@).push(
            ComponentView::Normal(LEGACY_XAI_OAUTH_FILE_NAME@),
        ),
{
    join_name(credentials_dir, LEGACY_XAI_OAUTH_FILE_NAME)
}

/// Whether the logout cleanup owns a file of this name.
pub fn is_owned_xai_oauth_file_name(name: &str) -> (r: bool)
    ensures
        r == spec_owned_name(name@),
{
    proof {
        lemma_name_constants();
    }
    str_eq(name, LEGACY_XAI_OAUTH_FILE_NAME) || is_valid_xai_oauth_generation(name)
}

/// A valid generation is a strict basename: it holds no path separator, is
/// neither `.` nor `..`, and differs from the legacy file name. Joined to
/// the credentials directory it therefore names a file directly inside it.
pub proof fn law_generation_is_basename(s: Seq<char>)
    requires
        spec_valid_generation(s),
    ensures
        !s.contains('/'),
        !s.contains('\\'),
        !s.contains(':'),
        s != seq!['.'],
        s != seq!['.', '.'],
        s != legacy_name(),
{
    assert forall|i: int| 0 <= i < s.len() implies s[i] != '/' && s[i] != '\\' && s[i] != ':' by {
        if i < 9 {
            assert(s.subrange(0, 9)[i] == s[i]);
        } else if i >= 41 {
            assert(s.subrange(41, 46)[i - 41] == s[i]);
        } else {
            assert(is_lower_hex(s[i]));
        }
    }
}

/// How far a canonicalization of the credentials directory has walked up:
/// the first `existing` components are the ancestor to canonicalize next,
/// and the components after them are the missing tail.
#[derive(Debug)]
pub struct AncestorWalk {
    absolute: Vec<PathComponent>,
    existing: usize,
}

pub struct WalkView {
    pub absolute: Seq<ComponentView>,
    pub existing: nat,
}

impl View for AncestorWalk {
    type V = WalkView;

    closed spec fn view(&self) -> WalkView {
        WalkView { absolute: path_view(self.absolute@), existing: self.existing as nat }
    }
}

pub open spec fn is_dot_component(c: ComponentView) -> bool {
    c is CurDir || c is ParentDir
}

pub open spec fn lexically_normal(p: Seq<ComponentView>) -> bool {
    forall|i: int| 0 <= i < p.len() ==> !is_dot_component(#[trigger] p[i])
}

impl WalkView {
    /// The absolute path has no `.` or `..`, and every component after the
    /// ancestor is a plain name.
    pub open spec fn wf(self) -> bool {
        &&& lexically_normal(self.absolute)
        &&& self.existing <= self.absolute.len()
        &&& forall|i: int| self.existing <= i < self.absolute.len() ==> #[trigger] self.absolute[i] is Normal
    }

    /// The ancestor to canonicalize next.
    pub open spec fn ancestor(self) -> Seq<ComponentView> {
        self.absolute.take(self.existing as int)
    }

    /// The missing tail, appended lexically once the ancestor resolves.
    pub open spec fn missing(self) -> Seq<ComponentView> {
        self.absolute.skip(self.existing as int)
    }
}

/// What canonicalizing the current ancestor gave.
#[derive(Debug, Clone)]
pub enum ProbeOutcome {
    /// The ancestor exists; this is its canonical path.
    Found(Vec<PathComponent>),
    /// The ancestor does not exist.
    NotFound,
    /// Canonicalizing failed for another reason.
    Failed(String),
}

/// What to do after a probe.
#[derive(Debug)]
pub enum WalkStep {
    /// Canonicalize the next ancestor (see `AncestorWalk::ancestor`).
    Continue,
    /// The directory resolved to this path.
    Resolved(Vec<PathComponent>),
    Failed(CredentialError),
}

/// Starts resolving an absolute credentials directory: only the nearest
/// existing ancestor gets canonicalized, and the missing tail is appended
/// lexically without being probed. A path with `.` or `..` is refused.
pub fn canonicalize_existing_ancestor(absolute: Vec<PathComponent>) -> (r: Result<
    AncestorWalk,
    CredentialError,
>)
    ensures
        match r {
            Ok(w) => lexically_normal(path_view(absolute@)) && w@.wf() && w@.absolute == path_view(
                absolute@,
            ) && w@.existing == absolute@.len(),
            Err(e) => !lexically_normal(path_view(absolute@)) && (e matches CredentialError::NotNormalized(
                p,
            ) && path_view(p@) == path_view(absolute@)),
        },
{
    let mut i: usize = 0;
    while i < absolute.len()
        invariant
            i <= absolute@.len(),
            forall|j: int| 0 <= j < i ==> !is_dot_component(#[trigger] path_view(absolute@)[j]),
        decreases absolute@.len() - i,
    {
        match &absolute[i] {
            PathComponent::CurDir | PathComponent::ParentDir => {
                assert(is_dot_component(path_view(absolute@)[i as int]));
                return Err(CredentialError::NotNormalized(absolute));
            },
            _ => {},
        }
        i = i + 1;
    }
    let n = absolute.len();
    Ok(AncestorWalk { absolute, existing: n })
}

impl AncestorWalk {
    /// The ancestor to canonicalize next.
    pub fn ancestor(&self) -> (r: Vec<PathComponent>)
        requires
            self@.wf(),
        ensures
            path_view(r@) == self@.ancestor(),
    {
        let mut r: Vec<PathComponent> = Vec::new();
        let mut i: usize = 0;
        while i < self.existing
            invariant
                self@.wf(),
                i <= self.existing,
                r@.len() == i,
                forall|j: int| 0 <= j < i ==> r@[j]@ == self.absolute@[j]@,
            decreases self.existing - i,
        {
            r.push(self.absolute[i].duplicate());
            i = i + 1;
        }
        assert(path_view(r@) =~= self@.ancestor());
        r
    }

    /// Takes the outcome of canonicalizing the current ancestor. A found
    /// ancestor resolves the directory to its canonical path followed by the
    /// missing tail; a missing one moves the walk to its parent, which
    /// shortens the ancestor, so the walk ends.
    pub fn advance(&mut self, outcome: ProbeOutcome) -> (r: WalkStep)
        requires
            old(self)@.wf(),
        ensures
            final(self)@.wf(),
            final(self)@.absolute == old(self)@.absolute,
            match outcome {
                ProbeOutcome::Found(canonical) => final(self)@ == old(self)@ && (r matches WalkStep::Resolved(
                    p,
                ) && path_view(p@) == path_view(canonical@) + old(self)@.missing()),
                ProbeOutcome::NotFound => if old(self)@.existing > 0 && old(self)@.absolute[old(
                    self,
                )@.existing - 1] is Normal {
                    r is Continue && final(self)@.existing == old(self)@.existing - 1
                } else {
                    final(self)@ == old(self)@ && (r matches WalkStep::Failed(
                        CredentialError::Unresolvable(p),
                    ) && path_view(p@) == old(self)@.absolute)
                },
                ProbeOutcome::Failed(cause) => final(self)@ == old(self)@ && (r matches WalkStep::Failed(
                    CredentialError::ResolveFailed { path, cause: c },
                ) && path_view(path@) == old(self)@.absolute && c == cause),
            },
    {
        match outcome {
            ProbeOutcome::Found(canonical) => {
                let mut p = canonical;
                let ghost start = path_view(p@);
                let mut i: usize = self.existing;
                while i < self.absolute.len()
                    invariant
                        self@.wf(),
                        self.existing <= i <= self.absolute@.len(),
                        path_view(p@) == start + path_view(self.absolute@).subrange(
                            self.existing as int,
                            i as int,
                        ),
                    decreases self.absolute@.len() - i,
                {
                    let ghost before = path_view(p@);
                    p.push(self.absolute[i].duplicate());
                    assert(path_view(p@) =~= before.push(path_view(self.absolute@)[i as int]));
                    assert(path_view(self.absolute@).subrange(self.existing as int, i + 1)
                        =~= path_view(self.absolute@).subrange(self.existing as int, i as int).push(
                        path_view(self.absolute@)[i as int],
                    ));
                    i = i + 1;
                }
                assert(path_view(self.absolute@).subrange(
                    self.existing as int,
                    self.absolute@.len() as int,
                ) =~= self@.missing());
                WalkStep::Resolved(p)
            },
            ProbeOutcome::NotFound => {
                let named = self.existing > 0 && match &self.absolute[self.existing - 1] {
                    PathComponent::Normal(_) => true,
                    _ => false,
                };
                if named {
                    self.existing = self.existing - 1;
                    WalkStep::Continue
                } else {
                    WalkStep::Failed(CredentialError::Unresolvable(copy_path(&self.absolute)))
                }
            },
            ProbeOutcome::Failed(cause) => {
                WalkStep::Failed(
                    CredentialError::ResolveFailed { path: copy_path(&self.absolute), cause },
                )
            },
        }
    }
}

/// Only the nearest existing ancestor is canonicalized: the resolved path is
/// its canonical path followed by the unchanged missing tail, which consists
/// of plain names only (no `.` or `..` can escape the directory).
pub proof fn law_only_existing_prefix_is_canonicalized(w: WalkView)
    requires
        w.wf(),
    ensures
        w.ancestor() + w.missing() == w.absolute,
        forall|i: int| 0 <= i < w.missing().len() ==> #[trigger] w.missing()[i] is Normal,
{
    assert(w.ancestor() + w.missing() =~= w.absolute);
    assert forall|i: int| 0 <= i < w.missing().len() implies #[trigger] w.missing()[i] is Normal by {
        assert(w.missing()[i] == w.absolute[w.existing + i]);
    }
}

/// What inspecting a credential path (without following links) gave.
#[derive(Debug, Clone)]
pub enum OwnedFileProbe {
    Missing,
    Present { is_symlink: bool, is_file: bool, is_reparse_point: bool },
    Failed(String),
}

/// What to do with an owned credential path.
#[derive(Debug)]
pub enum RemovalPlan {
    /// Nothing is there: report that nothing was removed.
    AlreadyAbsent,
    /// Remove the regular file, then report the outcome with
    /// `owned_file_removal_outcome`.
    Remove,
    Refuse(CredentialError),
}

/// Decides whether an owned credential path may be removed: only a regular
/// file that is neither a symbolic link nor a reparse point is.
pub fn plan_owned_file_removal(path: &Vec<PathComponent>, probe: OwnedFileProbe) -> (r: RemovalPlan)
    ensures
        match probe {
            OwnedFileProbe::Missing => r is AlreadyAbsent,
            OwnedFileProbe::Present { is_symlink, is_file, is_reparse_point } => if is_symlink
                || !is_file {
                r matches RemovalPlan::Refuse(CredentialError::NotRegularFile(p)) && path_view(p@)
                    == path_view(path@)
            } else if is_reparse_point {
                r matches RemovalPlan::Refuse(CredentialError::ReparsePoint(p)) && path_view(p@)
                    == path_view(path@)
            } else {
                r is Remove
            },
            OwnedFileProbe::Failed(cause) => r matches RemovalPlan::Refuse(
                CredentialError::InspectFailed { path: p, cause: c },
            ) && path_view(p@) == path_view(path@) && c == cause,
        },
{
    match probe {
        OwnedFileProbe::Missing => RemovalPlan::AlreadyAbsent,
        OwnedFileProbe::Present { is_symlink, is_file, is_reparse_point } => {
            if is_symlink || !is_file {
                RemovalPlan::Refuse(CredentialError::NotRegularFile(copy_path(path)))
            } else if is_reparse_point {
                RemovalPlan::Refuse(CredentialError::ReparsePoint(copy_path(path)))
            } else {
                RemovalPlan::Remove
            }
        },
        OwnedFileProbe::Failed(cause) => RemovalPlan::Refuse(
            CredentialError::InspectFailed { path: copy_path(path), cause },
        ),
    }
}

/// Reports the removal of an owned credential file: `Ok(true)` when it was
/// removed.
pub fn owned_file_removal_outcome(path: &Vec<PathComponent>, removed: Result<(), String>) -> (r: Result<
    bool,
    CredentialError,
>)
    ensures
        match removed {
            Ok(_) => r == Ok::<bool, CredentialError>(true),
            Err(cause) => r matches Err(CredentialError::RemoveFailed { path: p, cause: c }) && path_view(
                p@,
            ) == path_view(path@) && c == cause,
        },
{
    match removed {
        Ok(()) => Ok(true),
        Err(cause) => Err(CredentialError::RemoveFailed { path: copy_path(path), cause }),
    }
}

} // verus!
