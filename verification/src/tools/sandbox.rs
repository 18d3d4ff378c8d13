//! What a command is allowed to do, and what holds of a backend that enforces it.
use crate::text::{self, contains, joined, lossy_text_of, lower_ascii, trim};
use crate::tools::path::{self, normalize_absolute_path, same_bytes, spell, HostPath};
use crate::views;
use vstd::prelude::*;

verus! {

/// Why a command cannot run in a sandbox.
#[derive(Debug, PartialEq)]
pub enum SandboxError {
    InvalidRequest(String),
    UnsupportedPolicy(String),
    Launch(String),
    /// An input or output error, in its own words.
    Io(String),
}

/// What a `SandboxError` holds.
#[verifier::ext_equal]
pub enum SandboxErrorView {
    InvalidRequest(Seq<char>),
    UnsupportedPolicy(Seq<char>),
    Launch(Seq<char>),
    Io(Seq<char>),
}

impl View for SandboxError {
    type V = SandboxErrorView;

    open spec fn view(&self) -> SandboxErrorView {
        match *self {
            SandboxError::InvalidRequest(words) => SandboxErrorView::InvalidRequest(words@),
            SandboxError::UnsupportedPolicy(words) => SandboxErrorView::UnsupportedPolicy(words@),
            SandboxError::Launch(words) => SandboxErrorView::Launch(words@),
            SandboxError::Io(words) => SandboxErrorView::Io(words@),
        }
    }
}

impl Clone for SandboxError {
    fn clone(&self) -> (r: Self)
        ensures
            r@ == self@,
    {
        match self {
            SandboxError::InvalidRequest(words) => SandboxError::InvalidRequest(words.clone()),
            SandboxError::UnsupportedPolicy(words) => SandboxError::UnsupportedPolicy(
                words.clone(),
            ),
            SandboxError::Launch(words) => SandboxError::Launch(words.clone()),
            SandboxError::Io(words) => SandboxError::Io(words.clone()),
        }
    }
}

/// An error in words.
pub open spec fn error_words(error: SandboxErrorView) -> Seq<char> {
    match error {
        SandboxErrorView::InvalidRequest(words) => "invalid sandbox request: "@ + words,
        SandboxErrorView::UnsupportedPolicy(words) => "sandbox policy is unsupported: "@ + words,
        SandboxErrorView::Launch(words) => "sandbox launch failed: "@ + words,
        SandboxErrorView::Io(words) => "sandbox I/O error: "@ + words,
    }
}

impl SandboxError {
    /// The error in words.
    pub fn message(&self) -> (r: String)
        ensures
            r@ == error_words(self@),
    {
        match self {
            SandboxError::InvalidRequest(words) => joined(
                "invalid sandbox request: ",
                words.as_str(),
            ),
            SandboxError::UnsupportedPolicy(words) => joined(
                "sandbox policy is unsupported: ",
                words.as_str(),
            ),
            SandboxError::Launch(words) => joined("sandbox launch failed: ", words.as_str()),
            SandboxError::Io(words) => joined("sandbox I/O error: ", words.as_str()),
        }
    }
}

/// What happens when a backend cannot provide a guarantee.
#[derive(Debug, Clone, Copy, PartialEq, Eq, Structural)]
pub enum UnsupportedPolicyBehavior {
    Error,
    WarnAndFallback,
}

/// What a command may do with files.
#[derive(Debug, Clone, Copy, PartialEq, Eq, Structural)]
pub enum FilesystemAccess {
    Denied,
    ReadOnly,
    ReadWrite,
}

/// What a command sees of the network: nothing, a network of its own, or that of
/// the host.
#[derive(Debug, Clone, Copy, PartialEq, Eq, Structural)]
pub enum NetworkAccess {
    Denied,
    Isolated,
    Host,
}

/// Which processes a command sees.
#[derive(Debug, Clone, Copy, PartialEq, Eq, Structural)]
pub enum ProcessVisibility {
    Isolated,
    Host,
}

/// Whether a command runs as an unprivileged user or as its caller.
#[derive(Debug, Clone, Copy, PartialEq, Eq, Structural)]
pub enum IdentityIsolation {
    Unprivileged,
    Host,
}

/// What a guarantee is about.
#[derive(Debug, Clone, Copy, PartialEq, Eq, Structural)]
pub enum SandboxPolicyDimension {
    Filesystem,
    Network,
    Process,
    Identity,
}

/// The access to a path and to what lies below it.
#[derive(Debug, PartialEq)]
pub struct FilesystemRule {
    pub path: HostPath,
    pub access: FilesystemAccess,
}

/// What a `FilesystemRule` holds.
#[verifier::ext_equal]
pub struct FilesystemRuleView {
    pub path: Seq<u8>,
    pub access: FilesystemAccess,
}

impl View for FilesystemRule {
    type V = FilesystemRuleView;

    open spec fn view(&self) -> FilesystemRuleView {
        FilesystemRuleView {
            path: self.path@,
            access: self.access,
        }
    }
}

impl Clone for FilesystemRule {
    fn clone(&self) -> (r: Self)
        ensures
            r@ == self@,
    {
        FilesystemRule {
            path: self.path.clone(),
            access: self.access,
        }
    }
}

/// What a command sees of the files of the host.
#[derive(Debug, PartialEq)]
pub enum FilesystemPolicy {
    /// Only what is needed to start the command.
    Isolated,
    /// All files, with an access for each: that of the longest rule that matches, or
    /// the default.
    Workspace { default_access: FilesystemAccess, rules: Vec<FilesystemRule> },
    /// All files, with all access.
    Host,
}

/// What a `FilesystemPolicy` holds.
#[verifier::ext_equal]
pub enum FilesystemPolicyView {
    Isolated,
    Workspace { default_access: FilesystemAccess, rules: Seq<FilesystemRuleView> },
    Host,
}

impl View for FilesystemPolicy {
    type V = FilesystemPolicyView;

    open spec fn view(&self) -> FilesystemPolicyView {
        match *self {
            FilesystemPolicy::Isolated => FilesystemPolicyView::Isolated,
            FilesystemPolicy::Workspace { default_access, rules } => {
                FilesystemPolicyView::Workspace { default_access, rules: views::all(rules@) }
            },
            FilesystemPolicy::Host => FilesystemPolicyView::Host,
        }
    }
}

impl Clone for FilesystemPolicy {
    fn clone(&self) -> (r: Self)
        ensures
            r@ == self@,
    {
        match self {
            FilesystemPolicy::Isolated => FilesystemPolicy::Isolated,
            FilesystemPolicy::Workspace { default_access, rules } => {
                let copy_rules = rules.clone();
                assert(views::all(copy_rules@) =~= views::all(rules@));
                FilesystemPolicy::Workspace { default_access: *default_access, rules: copy_rules }
            },
            FilesystemPolicy::Host => FilesystemPolicy::Host,
        }
    }
}

impl Default for UnsupportedPolicyBehavior {
    fn default() -> (r: Self)
        ensures
            r == UnsupportedPolicyBehavior::Error,
    {
        UnsupportedPolicyBehavior::Error
    }
}

impl Default for NetworkAccess {
    fn default() -> (r: Self)
        ensures
            r == NetworkAccess::Isolated,
    {
        NetworkAccess::Isolated
    }
}

impl Default for ProcessVisibility {
    fn default() -> (r: Self)
        ensures
            r == ProcessVisibility::Isolated,
    {
        ProcessVisibility::Isolated
    }
}

impl Default for IdentityIsolation {
    fn default() -> (r: Self)
        ensures
            r == IdentityIsolation::Unprivileged,
    {
        IdentityIsolation::Unprivileged
    }
}

/// What a command sees of other processes, and whether those that it starts end
/// with it.
#[derive(Debug, Clone, Copy, PartialEq, Eq, Structural)]
pub struct ProcessPolicy {
    pub visibility: ProcessVisibility,
    pub terminate_descendants: bool,
}

impl Default for ProcessPolicy {
    fn default() -> (r: Self)
        ensures
            r == (ProcessPolicy {
                visibility: ProcessVisibility::Isolated,
                terminate_descendants: true,
            }),
    {
        ProcessPolicy { visibility: ProcessVisibility::Isolated, terminate_descendants: true }
    }
}

/// A guarantee that is asked for, and what happens where it cannot be kept.
#[derive(Debug, Clone, PartialEq, Eq)]
pub struct PolicySetting<T> {
    pub requested: T,
    pub unsupported: UnsupportedPolicyBehavior,
}

/// A guarantee that must be kept.
pub open spec fn strictly<T>(requested: T) -> PolicySetting<T> {
    PolicySetting { requested, unsupported: UnsupportedPolicyBehavior::Error }
}

/// A guarantee that may be weakened with a warning.
pub open spec fn leniently<T>(requested: T) -> PolicySetting<T> {
    PolicySetting { requested, unsupported: UnsupportedPolicyBehavior::WarnAndFallback }
}

impl<T> PolicySetting<T> {
    /// Asks for a guarantee that must be kept.
    pub fn strict(requested: T) -> (r: Self)
        ensures
            r == strictly(requested),
    {
        PolicySetting { requested, unsupported: UnsupportedPolicyBehavior::Error }
    }

    /// Asks for a guarantee that may be weakened with a warning.
    pub fn fallback(requested: T) -> (r: Self)
        ensures
            r == leniently(requested),
    {
        PolicySetting { requested, unsupported: UnsupportedPolicyBehavior::WarnAndFallback }
    }
}

impl Default for FilesystemPolicy {
    fn default() -> (r: Self)
        ensures
            r@ == FilesystemPolicyView::Isolated,
    {
        FilesystemPolicy::Isolated
    }
}

/// The policy with one rule, under which all else can be read.
pub open spec fn one_rule(host_path: Seq<u8>, access: FilesystemAccess) -> FilesystemPolicyView {
    FilesystemPolicyView::Workspace {
        default_access: FilesystemAccess::ReadOnly,
        rules: seq![FilesystemRuleView { path: host_path, access }],
    }
}

/// Whether the place that names lead to is that of a rule or lies below it.
pub open spec fn rule_matches(rule: FilesystemRuleView, names: Seq<Seq<u8>>) -> bool {
    path::normal_names(rule.path) matches Ok(own) && own.is_prefix_of(names)
}

/// How many names the place of a rule is below the root.
pub open spec fn depth(rule: FilesystemRuleView) -> nat {
    path::normal_names(rule.path)->Ok_0.len()
}

/// The longest rule that matches; of several, the last.
pub open spec fn rule_for(rules: Seq<FilesystemRuleView>, names: Seq<Seq<u8>>) -> Option<int>
    decreases rules.len(),
{
    if rules.len() == 0 {
        None
    } else {
        let last = rules.len() - 1;
        let before = rule_for(rules.drop_last(), names);
        if !rule_matches(rules[last], names) {
            before
        } else {
            match before {
                Some(i) => if depth(rules[i]) <= depth(rules[last]) {
                    Some(last)
                } else {
                    Some(i)
                },
                None => Some(last),
            }
        }
    }
}

/// What is said of a second rule for one place.
pub open spec fn duplicate(names: Seq<Seq<u8>>) -> SandboxErrorView {
    SandboxErrorView::InvalidRequest(
        "duplicate filesystem rule: "@ + text::lossy_text(path::spelled(names)),
    )
}

/// Whether one of the rules is for the place that names lead to.
pub open spec fn has_rule(rules: Seq<FilesystemRuleView>, names: Seq<Seq<u8>>) -> bool {
    exists|i: int|
        0 <= i < rules.len() && path::normal_names((#[trigger] rules[i]).path) == Ok::<
            Seq<Seq<u8>>,
            SandboxErrorView,
        >(names)
}

/// What is wrong with rules: the first that leads nowhere or comes a second time.
pub open spec fn rules_fault(rules: Seq<FilesystemRuleView>) -> Option<SandboxErrorView>
    decreases rules.len(),
{
    if rules.len() == 0 {
        None
    } else {
        match rules_fault(rules.drop_last()) {
            Some(fault) => Some(fault),
            None => match path::normal_names(rules.last().path) {
                Err(fault) => Some(fault),
                Ok(names) => if has_rule(rules.drop_last(), names) {
                    Some(duplicate(names))
                } else {
                    None
                },
            },
        }
    }
}

/// What is wrong with a policy.
pub open spec fn filesystem_fault(policy: FilesystemPolicyView) -> Option<SandboxErrorView> {
    match policy {
        FilesystemPolicyView::Workspace { default_access, rules } => rules_fault(rules),
        _ => None,
    }
}

/// The access that a policy grants to a path, or why it grants none.
pub open spec fn access(policy: FilesystemPolicyView, path: Seq<u8>) -> Result<
    FilesystemAccess,
    SandboxErrorView,
> {
    match path::normal_names(path) {
        Err(fault) => Err(fault),
        Ok(names) => match policy {
            FilesystemPolicyView::Isolated => Ok(FilesystemAccess::Denied),
            FilesystemPolicyView::Host => Ok(FilesystemAccess::ReadWrite),
            FilesystemPolicyView::Workspace { default_access, rules } => match rules_fault(
                rules,
            ) {
                Some(fault) => Err(fault),
                None => match rule_for(rules, names) {
                    Some(i) => Ok(rules[i].access),
                    None => Ok(default_access),
                },
            },
        },
    }
}

/// Whether two lists of rules are the same, each path by its components.
pub open spec fn same_rules(a: Seq<FilesystemRuleView>, b: Seq<FilesystemRuleView>) -> bool {
    &&& a.len() == b.len()
    &&& forall|i: int|
        0 <= i < a.len() ==> {
            &&& (#[trigger] a[i]).access == b[i].access
            &&& path::components(a[i].path) == path::components(b[i].path)
        }
}

/// Whether two policies are the same, each path by its components.
pub open spec fn same_filesystem(a: FilesystemPolicyView, b: FilesystemPolicyView) -> bool {
    match (a, b) {
        (FilesystemPolicyView::Isolated, FilesystemPolicyView::Isolated) => true,
        (FilesystemPolicyView::Host, FilesystemPolicyView::Host) => true,
        (
            FilesystemPolicyView::Workspace { default_access: x, rules: p },
            FilesystemPolicyView::Workspace { default_access: y, rules: q },
        ) => x == y && same_rules(p, q),
        _ => false,
    }
}

/// Whether the first of two lists of names starts the second.
fn starts(own: &Vec<Vec<u8>>, names: &Vec<Vec<u8>>) -> (r: bool)
    ensures
        r == views::all(own@).is_prefix_of(views::all(names@)),
{
    let ghost a = views::all(own@);
    let ghost b = views::all(names@);
    if own.len() > names.len() {
        return false;
    }
    let mut i: usize = 0;
    while i < own.len()
        invariant
            i <= own@.len() <= names@.len(),
            a == views::all(own@),
            b == views::all(names@),
            forall|k: int| 0 <= k < i ==> #[trigger] a[k] == b[k],
        decreases own@.len() - i,
    {
        if !same_bytes(&own[i], &names[i]) {
            assert(a[i as int] != b[i as int]);
            assert(b.take(a.len() as int)[i as int] == b[i as int]);
            return false;
        }
        assert(a[i as int] == b[i as int]);
        i = i + 1;
    }
    assert(a =~= b.take(a.len() as int));
    true
}

/// Whether two lists of names are the same.
fn same_names(a: &Vec<Vec<u8>>, b: &Vec<Vec<u8>>) -> (r: bool)
    ensures
        r == (views::all(a@) == views::all(b@)),
{
    if a.len() != b.len() {
        assert(views::all(a@).len() != views::all(b@).len());
        return false;
    }
    let r = starts(a, b);
    assert(views::all(b@).take(a@.len() as int) =~= views::all(b@));
    r
}

impl FilesystemPolicy {
    /// The policy with one rule, under which all else can be read.
    pub fn workspace(host_path: HostPath, access: FilesystemAccess) -> (r: Self)
        ensures
            r@ == one_rule(host_path@, access),
    {
        let mut rules: Vec<FilesystemRule> = Vec::new();
        rules.push(FilesystemRule { path: host_path, access });
        assert(views::all(rules@) =~= seq![FilesystemRuleView { path: host_path@, access }]);
        FilesystemPolicy::Workspace { default_access: FilesystemAccess::ReadOnly, rules }
    }

    /// Whether each rule leads somewhere, and no two to the same place.
    pub fn validate(&self) -> (r: Result<(), SandboxError>)
        ensures
            match filesystem_fault(self@) {
                None => r is Ok,
                Some(fault) => r matches Err(e) && e@ == fault,
            },
    {
        let rules = match self {
            FilesystemPolicy::Workspace { default_access: _, rules } => rules,
            _ => {
                return Ok(());
            },
        };
        let ghost all = views::all(rules@);
        let mut seen: Vec<Vec<Vec<u8>>> = Vec::new();
        let mut i: usize = 0;
        assert(all.take(0) =~= Seq::<FilesystemRuleView>::empty());
        while i < rules.len()
            invariant
                i <= rules@.len(),
                all == views::all(rules@),
                filesystem_fault(self@) == rules_fault(all),
                rules_fault(all.take(i as int)) is None,
                seen@.len() == i,
                forall|k: int|
                    0 <= k < i ==> path::normal_names((#[trigger] all[k]).path) == Ok::<
                        Seq<Seq<u8>>,
                        SandboxErrorView,
                    >(views::all(seen@[k]@)),
            decreases rules@.len() - i,
        {
            let ghost next = all.take(i + 1);
            assert(next.drop_last() =~= all.take(i as int));
            assert(next.last() == all[i as int] && all[i as int] == rules@[i as int]@);
            let names = match normalize_absolute_path(&rules[i].path) {
                Ok(names) => names,
                Err(fault) => {
                    proof {
                        lemma_fault_stays(all, i + 1);
                    }
                    return Err(fault);
                },
            };
            let mut k: usize = 0;
            while k < seen.len()
                invariant
                    k <= seen@.len() == i,
                    i < all.len(),
                    next == all.take(i + 1),
                    next.drop_last() == all.take(i as int),
                    all == views::all(rules@),
                    filesystem_fault(self@) == rules_fault(all),
                    rules_fault(all.take(i as int)) is None,
                    path::normal_names(next.last().path) == Ok::<Seq<Seq<u8>>, SandboxErrorView>(
                        views::all(names@),
                    ),
                    forall|j: int|
                        0 <= j < i ==> path::normal_names((#[trigger] all[j]).path) == Ok::<
                            Seq<Seq<u8>>,
                            SandboxErrorView,
                        >(views::all(seen@[j]@)),
                    forall|j: int|
                        0 <= j < k ==> views::all((#[trigger] seen@[j])@) != views::all(names@),
                decreases seen@.len() - k,
            {
                if same_names(&seen[k], &names) {
                    assert(all.take(i as int)[k as int] == all[k as int]);
                    assert(has_rule(all.take(i as int), views::all(names@)));
                    proof {
                        lemma_fault_stays(all, i + 1);
                    }
                    let mut words = "duplicate filesystem rule: ".to_string();
                    words.append(spell(&names).display().as_str());
                    return Err(SandboxError::InvalidRequest(words));
                }
                k = k + 1;
            }
            assert(!has_rule(all.take(i as int), views::all(names@))) by {
                let before = all.take(i as int);
                if has_rule(before, views::all(names@)) {
                    let j = choose|j: int|
                        0 <= j < before.len() && path::normal_names((#[trigger] before[j]).path)
                            == Ok::<Seq<Seq<u8>>, SandboxErrorView>(views::all(names@));
                    assert(before[j] == all[j]);
                    assert(views::all(seen@[j]@) == views::all(names@));
                }
            }
            seen.push(names);
            i = i + 1;
        }
        assert(all.take(i as int) =~= all);
        Ok(())
    }

    /// The access to an absolute path: that of the longest rule that matches, name
    /// by name, or the default.
    pub fn access_for(&self, path: &HostPath) -> (r: Result<FilesystemAccess, SandboxError>)
        ensures
            match access(self@, path@) {
                Ok(granted) => r matches Ok(given) && given == granted,
                Err(fault) => r matches Err(e) && e@ == fault,
            },
    {
        let names = match normalize_absolute_path(path) {
            Ok(names) => names,
            Err(fault) => {
                return Err(fault);
            },
        };
        let (default_access, rules) = match self {
            FilesystemPolicy::Isolated => {
                return Ok(FilesystemAccess::Denied);
            },
            FilesystemPolicy::Host => {
                return Ok(FilesystemAccess::ReadWrite);
            },
            FilesystemPolicy::Workspace { default_access, rules } => (*default_access, rules),
        };
        if let Err(fault) = self.validate() {
            return Err(fault);
        }
        let ghost all = views::all(rules@);
        let ghost own = views::all(names@);
        let mut best: Option<(usize, usize)> = None;
        let mut i: usize = 0;
        assert(all.take(0) =~= Seq::<FilesystemRuleView>::empty());
        while i < rules.len()
            invariant
                i <= rules@.len(),
                all == views::all(rules@),
                own == views::all(names@),
                match best {
                    Some((k, length)) => {
                        &&& k < i
                        &&& rule_for(all.take(i as int), own) == Some(k as int)
                        &&& length == depth(all[k as int])
                    },
                    None => rule_for(all.take(i as int), own) is None,
                },
            decreases rules@.len() - i,
        {
            let ghost next = all.take(i + 1);
            assert(next.drop_last() =~= all.take(i as int));
            assert(next[i as int] == all[i as int] && all[i as int] == rules@[i as int]@);
            if let Ok(place) = normalize_absolute_path(&rules[i].path) {
                if starts(&place, &names) {
                    match best {
                        Some((k, length)) => {
                            assert(next[k as int] == all[k as int]);
                            if length <= place.len() {
                                best = Some((i, place.len()));
                            }
                        },
                        None => {
                            best = Some((i, place.len()));
                        },
                    }
                }
            }
            i = i + 1;
        }
        assert(all.take(i as int) =~= all);
        match best {
            Some((k, _)) => {
                assert(all[k as int] == rules@[k as int]@);
                Ok(rules[k].access)
            },
            None => Ok(default_access),
        }
    }

    /// Whether two policies are the same, each path by its components.
    pub fn same(&self, other: &FilesystemPolicy) -> (r: bool)
        ensures
            r == same_filesystem(self@, other@),
    {
        match (self, other) {
            (FilesystemPolicy::Isolated, FilesystemPolicy::Isolated) => true,
            (FilesystemPolicy::Host, FilesystemPolicy::Host) => true,
            (
                FilesystemPolicy::Workspace { default_access: x, rules: a },
                FilesystemPolicy::Workspace { default_access: y, rules: b },
            ) => {
                if *x != *y || a.len() != b.len() {
                    return false;
                }
                let ghost p = views::all(a@);
                let ghost q = views::all(b@);
                let mut i: usize = 0;
                while i < a.len()
                    invariant
                        i <= a@.len() == b@.len(),
                        p == views::all(a@),
                        q == views::all(b@),
                        self@ == (FilesystemPolicyView::Workspace { default_access: *x, rules: p }),
                        other@ == (FilesystemPolicyView::Workspace { default_access: *y, rules: q }),
                        forall|k: int|
                            0 <= k < i ==> (#[trigger] p[k]).access == q[k].access
                                && path::components(p[k].path) == path::components(q[k].path),
                    decreases a@.len() - i,
                {
                    assert(p[i as int] == a@[i as int]@ && q[i as int] == b@[i as int]@);
                    if a[i].access != b[i].access || !a[i].path.same(&b[i].path) {
                        return false;
                    }
                    i = i + 1;
                }
                true
            },
            _ => false,
        }
    }
}

/// What is wrong with some rules is wrong whatever follows.
proof fn lemma_fault_stays(rules: Seq<FilesystemRuleView>, n: int)
    requires
        0 <= n <= rules.len(),
        rules_fault(rules.take(n)) is Some,
    ensures
        rules_fault(rules) == rules_fault(rules.take(n)),
    decreases rules.len() - n,
{
    if n == rules.len() {
        assert(rules.take(n) =~= rules);
    } else {
        assert(rules.take(n + 1).drop_last() =~= rules.take(n));
        lemma_fault_stays(rules, n + 1);
    }
}

/// What a command is to be kept from.
#[derive(Debug, PartialEq)]
pub struct SandboxPolicy {
    pub filesystem: PolicySetting<FilesystemPolicy>,
    pub network: PolicySetting<NetworkAccess>,
    pub process: PolicySetting<ProcessPolicy>,
    pub identity: PolicySetting<IdentityIsolation>,
}

/// What a `SandboxPolicy` holds.
#[verifier::ext_equal]
pub struct SandboxPolicyView {
    pub filesystem: PolicySetting<FilesystemPolicyView>,
    pub network: PolicySetting<NetworkAccess>,
    pub process: PolicySetting<ProcessPolicy>,
    pub identity: PolicySetting<IdentityIsolation>,
}

impl View for SandboxPolicy {
    type V = SandboxPolicyView;

    open spec fn view(&self) -> SandboxPolicyView {
        SandboxPolicyView {
            filesystem: PolicySetting {
                requested: self.filesystem.requested@,
                unsupported: self.filesystem.unsupported,
            },
            network: self.network,
            process: self.process,
            identity: self.identity,
        }
    }
}

impl Clone for SandboxPolicy {
    fn clone(&self) -> (r: Self)
        ensures
            r@ == self@,
    {
        SandboxPolicy {
            filesystem: PolicySetting {
                requested: self.filesystem.requested.clone(),
                unsupported: self.filesystem.unsupported,
            },
            network: PolicySetting {
                requested: self.network.requested,
                unsupported: self.network.unsupported,
            },
            process: PolicySetting {
                requested: self.process.requested,
                unsupported: self.process.unsupported,
            },
            identity: PolicySetting {
                requested: self.identity.requested,
                unsupported: self.identity.unsupported,
            },
        }
    }
}

/// The policy that keeps a command from files and network, and from other
/// processes and the caller's identity where that can be done.
pub open spec fn default_policy() -> SandboxPolicyView {
    SandboxPolicyView {
        filesystem: strictly(FilesystemPolicyView::Isolated),
        network: strictly(NetworkAccess::Isolated),
        process: leniently(
            ProcessPolicy { visibility: ProcessVisibility::Isolated, terminate_descendants: true },
        ),
        identity: leniently(IdentityIsolation::Unprivileged),
    }
}

impl Default for SandboxPolicy {
    fn default() -> (r: Self)
        ensures
            r@ == default_policy(),
    {
        SandboxPolicy {
            filesystem: PolicySetting::strict(FilesystemPolicy::Isolated),
            network: PolicySetting::strict(NetworkAccess::Isolated),
            process: PolicySetting::fallback(ProcessPolicy::default()),
            identity: PolicySetting::fallback(IdentityIsolation::Unprivileged),
        }
    }
}

/// Whether two policies are the same, each path by its components.
pub open spec fn same_policy(a: SandboxPolicyView, b: SandboxPolicyView) -> bool {
    &&& same_filesystem(a.filesystem.requested, b.filesystem.requested)
    &&& a.filesystem.unsupported == b.filesystem.unsupported
    &&& a.network == b.network
    &&& a.process == b.process
    &&& a.identity == b.identity
}

impl SandboxPolicy {
    /// A workspace that can be read.
    pub fn workspace_read_only(host_path: HostPath) -> (r: Self)
        ensures
            r@ == (SandboxPolicyView {
                filesystem: strictly(one_rule(host_path@, FilesystemAccess::ReadOnly)),
                ..default_policy()
            }),
    {
        SandboxPolicy {
            filesystem: PolicySetting::strict(
                FilesystemPolicy::workspace(host_path, FilesystemAccess::ReadOnly),
            ),
            ..SandboxPolicy::default()
        }
    }

    /// A workspace that can be written.
    pub fn workspace_read_write(host_path: HostPath) -> (r: Self)
        ensures
            r@ == (SandboxPolicyView {
                filesystem: strictly(one_rule(host_path@, FilesystemAccess::ReadWrite)),
                ..default_policy()
            }),
    {
        SandboxPolicy {
            filesystem: PolicySetting::strict(
                FilesystemPolicy::workspace(host_path, FilesystemAccess::ReadWrite),
            ),
            ..SandboxPolicy::default()
        }
    }

    /// A workspace that can be written, with the network of the host.
    pub fn workspace_read_write_with_host_network(host_path: HostPath) -> (r: Self)
        ensures
            r@ == (SandboxPolicyView {
                filesystem: strictly(one_rule(host_path@, FilesystemAccess::ReadWrite)),
                network: strictly(NetworkAccess::Host),
                ..default_policy()
            }),
    {
        SandboxPolicy {
            filesystem: PolicySetting::strict(
                FilesystemPolicy::workspace(host_path, FilesystemAccess::ReadWrite),
            ),
            network: PolicySetting::strict(NetworkAccess::Host),
            ..SandboxPolicy::default()
        }
    }

    /// Whether the policy makes sense.
    pub fn validate(&self) -> (r: Result<(), SandboxError>)
        ensures
            match filesystem_fault(self@.filesystem.requested) {
                None => r is Ok,
                Some(fault) => r matches Err(e) && e@ == fault,
            },
    {
        self.filesystem.requested.validate()
    }

    /// Whether two policies are the same, each path by its components.
    pub fn same(&self, other: &SandboxPolicy) -> (r: bool)
        ensures
            r == same_policy(self@, other@),
    {
        self.filesystem.requested.same(&other.filesystem.requested)
            && self.filesystem.unsupported == other.filesystem.unsupported
            && self.network.requested == other.network.requested
            && self.network.unsupported == other.network.unsupported
            && self.process.requested == other.process.requested
            && self.process.unsupported == other.process.unsupported
            && self.identity.requested == other.identity.requested
            && self.identity.unsupported == other.identity.unsupported
    }
}

/// A guarantee that was asked for and is not kept.
#[derive(Debug, PartialEq)]
pub struct SandboxWarning {
    pub dimension: SandboxPolicyDimension,
    pub message: String,
}

/// What a `SandboxWarning` holds.
#[verifier::ext_equal]
pub struct SandboxWarningView {
    pub dimension: SandboxPolicyDimension,
    pub message: Seq<char>,
}

impl View for SandboxWarning {
    type V = SandboxWarningView;

    open spec fn view(&self) -> SandboxWarningView {
        SandboxWarningView {
            dimension: self.dimension,
            message: self.message@,
        }
    }
}

impl Clone for SandboxWarning {
    fn clone(&self) -> (r: Self)
        ensures
            r@ == self@,
    {
        SandboxWarning {
            dimension: self.dimension,
            message: self.message.clone(),
        }
    }
}

/// The guarantees that a backend keeps.
#[derive(Debug, PartialEq)]
pub struct EffectiveSandboxPolicy {
    pub filesystem: FilesystemPolicy,
    pub network: NetworkAccess,
    pub process: ProcessPolicy,
    pub identity: IdentityIsolation,
}

/// What a `EffectiveSandboxPolicy` holds.
#[verifier::ext_equal]
pub struct EffectiveSandboxPolicyView {
    pub filesystem: FilesystemPolicyView,
    pub network: NetworkAccess,
    pub process: ProcessPolicy,
    pub identity: IdentityIsolation,
}

impl View for EffectiveSandboxPolicy {
    type V = EffectiveSandboxPolicyView;

    open spec fn view(&self) -> EffectiveSandboxPolicyView {
        EffectiveSandboxPolicyView {
            filesystem: self.filesystem@,
            network: self.network,
            process: self.process,
            identity: self.identity,
        }
    }
}

impl Clone for EffectiveSandboxPolicy {
    fn clone(&self) -> (r: Self)
        ensures
            r@ == self@,
    {
        EffectiveSandboxPolicy {
            filesystem: self.filesystem.clone(),
            network: self.network,
            process: self.process,
            identity: self.identity,
        }
    }
}

/// What becomes of the guarantees that were asked for.
#[derive(Debug, PartialEq)]
pub struct SandboxPolicyResolution {
    pub requested: SandboxPolicy,
    pub effective: EffectiveSandboxPolicy,
    pub warnings: Vec<SandboxWarning>,
}

/// What a `SandboxPolicyResolution` holds.
#[verifier::ext_equal]
pub struct SandboxPolicyResolutionView {
    pub requested: SandboxPolicyView,
    pub effective: EffectiveSandboxPolicyView,
    pub warnings: Seq<SandboxWarningView>,
}

impl View for SandboxPolicyResolution {
    type V = SandboxPolicyResolutionView;

    open spec fn view(&self) -> SandboxPolicyResolutionView {
        SandboxPolicyResolutionView {
            requested: self.requested@,
            effective: self.effective@,
            warnings: views::all(self.warnings@),
        }
    }
}

impl Clone for SandboxPolicyResolution {
    fn clone(&self) -> (r: Self)
        ensures
            r@ == self@,
    {
        let r = SandboxPolicyResolution {
            requested: self.requested.clone(),
            effective: self.effective.clone(),
            warnings: self.warnings.clone(),
        };
        assert(views::all(r.warnings@) =~= views::all(self.warnings@));
        r
    }
}

/// A variable that a command is started with.
#[derive(Debug, PartialEq)]
pub struct EnvironmentVariable {
    pub name: String,
    pub value: String,
}

/// What a `EnvironmentVariable` holds.
#[verifier::ext_equal]
pub struct EnvironmentVariableView {
    pub name: Seq<char>,
    pub value: Seq<char>,
}

impl View for EnvironmentVariable {
    type V = EnvironmentVariableView;

    open spec fn view(&self) -> EnvironmentVariableView {
        EnvironmentVariableView {
            name: self.name@,
            value: self.value@,
        }
    }
}

impl Clone for EnvironmentVariable {
    fn clone(&self) -> (r: Self)
        ensures
            r@ == self@,
    {
        EnvironmentVariable {
            name: self.name.clone(),
            value: self.value.clone(),
        }
    }
}

/// A command to be run in a sandbox.
#[derive(Debug, PartialEq)]
pub struct SandboxRequest {
    /// The program, as a path of the host.
    pub program: HostPath,
    pub args: Vec<String>,
    /// The working directory, as a path of the host.
    pub cwd: HostPath,
    pub environment: Vec<EnvironmentVariable>,
    pub policy: SandboxPolicy,
}

/// What a `SandboxRequest` holds.
#[verifier::ext_equal]
pub struct SandboxRequestView {
    pub program: Seq<u8>,
    pub args: Seq<Seq<char>>,
    pub cwd: Seq<u8>,
    pub environment: Seq<EnvironmentVariableView>,
    pub policy: SandboxPolicyView,
}

impl View for SandboxRequest {
    type V = SandboxRequestView;

    open spec fn view(&self) -> SandboxRequestView {
        SandboxRequestView {
            program: self.program@,
            args: views::all(self.args@),
            cwd: self.cwd@,
            environment: views::all(self.environment@),
            policy: self.policy@,
        }
    }
}

impl Clone for SandboxRequest {
    fn clone(&self) -> (r: Self)
        ensures
            r@ == self@,
    {
        let r = SandboxRequest {
            program: self.program.clone(),
            args: self.args.clone(),
            cwd: self.cwd.clone(),
            environment: self.environment.clone(),
            policy: self.policy.clone(),
        };
        assert(views::all(r.args@) =~= views::all(self.args@));
        assert(views::all(r.environment@) =~= views::all(self.environment@));
        r
    }
}

/// Whether a request may be launched.
#[derive(Debug, PartialEq)]
pub enum SandboxPreflight {
    Allowed,
    PolicyViolation { reason: String },
}

/// What a `SandboxPreflight` holds.
#[verifier::ext_equal]
pub enum SandboxPreflightView {
    Allowed,
    PolicyViolation { reason: Seq<char> },
}

impl View for SandboxPreflight {
    type V = SandboxPreflightView;

    open spec fn view(&self) -> SandboxPreflightView {
        match *self {
            SandboxPreflight::Allowed => SandboxPreflightView::Allowed,
            SandboxPreflight::PolicyViolation { reason } => SandboxPreflightView::PolicyViolation {
                reason: reason@,
            },
        }
    }
}

impl Clone for SandboxPreflight {
    fn clone(&self) -> (r: Self)
        ensures
            r@ == self@,
    {
        match self {
            SandboxPreflight::Allowed => SandboxPreflight::Allowed,
            SandboxPreflight::PolicyViolation { reason } => SandboxPreflight::PolicyViolation {
                reason: reason.clone(),
            },
        }
    }
}

/// How a command ended.
#[derive(Debug, PartialEq)]
pub enum SandboxStatus {
    Exited { code: i32 },
    Signaled { signal: i32 },
    TimedOut,
    Cancelled,
    PolicyViolation { reason: String },
}

/// What a `SandboxStatus` holds.
#[verifier::ext_equal]
pub enum SandboxStatusView {
    Exited { code: i32 },
    Signaled { signal: i32 },
    TimedOut,
    Cancelled,
    PolicyViolation { reason: Seq<char> },
}

impl View for SandboxStatus {
    type V = SandboxStatusView;

    open spec fn view(&self) -> SandboxStatusView {
        match *self {
            SandboxStatus::Exited { code } => SandboxStatusView::Exited { code },
            SandboxStatus::Signaled { signal } => SandboxStatusView::Signaled { signal },
            SandboxStatus::TimedOut => SandboxStatusView::TimedOut,
            SandboxStatus::Cancelled => SandboxStatusView::Cancelled,
            SandboxStatus::PolicyViolation { reason } => SandboxStatusView::PolicyViolation {
                reason: reason@,
            },
        }
    }
}

impl Clone for SandboxStatus {
    fn clone(&self) -> (r: Self)
        ensures
            r@ == self@,
    {
        match self {
            SandboxStatus::Exited { code } => SandboxStatus::Exited { code: *code },
            SandboxStatus::Signaled { signal } => SandboxStatus::Signaled { signal: *signal },
            SandboxStatus::TimedOut => SandboxStatus::TimedOut,
            SandboxStatus::Cancelled => SandboxStatus::Cancelled,
            SandboxStatus::PolicyViolation { reason } => SandboxStatus::PolicyViolation {
                reason: reason.clone(),
            },
        }
    }
}

/// What a command left behind.
#[derive(Debug, PartialEq)]
pub struct SandboxOutput {
    pub status: SandboxStatus,
    pub stdout: Vec<u8>,
    pub stderr: Vec<u8>,
    pub warnings: Vec<SandboxWarning>,
    pub stdout_truncated: bool,
    pub stderr_truncated: bool,
    pub duration_ms: u64,
}

/// What a `SandboxOutput` holds.
#[verifier::ext_equal]
pub struct SandboxOutputView {
    pub status: SandboxStatusView,
    pub stdout: Seq<u8>,
    pub stderr: Seq<u8>,
    pub warnings: Seq<SandboxWarningView>,
    pub stdout_truncated: bool,
    pub stderr_truncated: bool,
    pub duration_ms: u64,
}

impl View for SandboxOutput {
    type V = SandboxOutputView;

    open spec fn view(&self) -> SandboxOutputView {
        SandboxOutputView {
            status: self.status@,
            stdout: self.stdout@,
            stderr: self.stderr@,
            warnings: views::all(self.warnings@),
            stdout_truncated: self.stdout_truncated,
            stderr_truncated: self.stderr_truncated,
            duration_ms: self.duration_ms,
        }
    }
}

impl Clone for SandboxOutput {
    fn clone(&self) -> (r: Self)
        ensures
            r@ == self@,
    {
        let r = SandboxOutput {
            status: self.status.clone(),
            stdout: self.stdout.clone(),
            stderr: self.stderr.clone(),
            warnings: self.warnings.clone(),
            stdout_truncated: self.stdout_truncated,
            stderr_truncated: self.stderr_truncated,
            duration_ms: self.duration_ms,
        };
        assert(r.stdout@ =~= self.stdout@);
        assert(r.stderr@ =~= self.stderr@);
        assert(views::all(r.warnings@) =~= views::all(self.warnings@));
        r
    }
}

/// How much of each output stream of a command is kept.
pub const OUTPUT_LIMIT: u64 = 20971520;

/// What is wrong with a request.
pub open spec fn request_fault(request: SandboxRequestView) -> Option<SandboxErrorView> {
    if request.program.len() == 0 {
        Some(SandboxErrorView::InvalidRequest("program must not be empty"@))
    } else if !path::absolute(request.cwd) {
        Some(
            SandboxErrorView::InvalidRequest("working directory must be an absolute host path"@),
        )
    } else {
        filesystem_fault(request.policy.filesystem.requested)
    }
}

impl SandboxRequest {
    /// Whether the request can be carried out at all.
    pub fn validate(&self) -> (r: Result<(), SandboxError>)
        ensures
            match request_fault(self@) {
                None => r is Ok,
                Some(fault) => r matches Err(e) && e@ == fault,
            },
    {
        if self.program.is_empty() {
            return Err(SandboxError::InvalidRequest("program must not be empty".to_string()));
        }
        if !self.cwd.is_absolute() {
            return Err(
                SandboxError::InvalidRequest(
                    "working directory must be an absolute host path".to_string(),
                ),
            );
        }
        self.policy.validate()
    }
}

/// Whether a request may be launched, given what the backend makes of its policy.
pub fn preflight(
    request: &SandboxRequest,
    resolved: Result<SandboxPolicyResolution, SandboxError>,
) -> (r: Result<SandboxPreflight, SandboxError>)
    ensures
        views::res(r) == match request_fault(request@) {
            Some(fault) => Err(fault),
            None => match views::res(resolved) {
                Err(fault) => Err(fault),
                Ok(resolution) => Ok(SandboxPreflightView::Allowed),
            },
        },
{
    if let Err(fault) = request.validate() {
        return Err(fault);
    }
    match resolved {
        Ok(_) => Ok(SandboxPreflight::Allowed),
        Err(fault) => Err(fault),
    }
}

/// The guarantees as they were asked for.
pub open spec fn as_requested(policy: SandboxPolicyView) -> EffectiveSandboxPolicyView {
    EffectiveSandboxPolicyView {
        filesystem: policy.filesystem.requested,
        network: policy.network.requested,
        process: policy.process.requested,
        identity: policy.identity.requested,
    }
}

impl EffectiveSandboxPolicy {
    /// The guarantees as they were asked for.
    pub fn requested(policy: &SandboxPolicy) -> (r: Self)
        ensures
            r@ == as_requested(policy@),
    {
        EffectiveSandboxPolicy {
            filesystem: policy.filesystem.requested.clone(),
            network: policy.network.requested,
            process: policy.process.requested,
            identity: policy.identity.requested,
        }
    }
}

/// The warnings after a guarantee could not be kept, or the refusal.
pub open spec fn not_kept(
    behavior: UnsupportedPolicyBehavior,
    dimension: SandboxPolicyDimension,
    message: Seq<char>,
    warnings: Seq<SandboxWarningView>,
) -> Result<Seq<SandboxWarningView>, SandboxErrorView> {
    match behavior {
        UnsupportedPolicyBehavior::Error => Err(SandboxErrorView::UnsupportedPolicy(message)),
        UnsupportedPolicyBehavior::WarnAndFallback => Ok(
            warnings.push(SandboxWarningView { dimension, message }),
        ),
    }
}

/// Refuses a guarantee that cannot be kept, or warns that it is not.
pub fn unsupported(
    behavior: UnsupportedPolicyBehavior,
    dimension: SandboxPolicyDimension,
    message: &str,
    warnings: &mut Vec<SandboxWarning>,
) -> (r: Result<(), SandboxError>)
    ensures
        match not_kept(behavior, dimension, message@, views::all(old(warnings)@)) {
            Ok(told) => r is Ok && views::all(final(warnings)@) == told,
            Err(refusal) => {
                &&& r matches Err(e)
                &&& e@ == refusal
                &&& final(warnings)@ == old(warnings)@
            },
        },
{
    broadcast use crate::views::group_views;

    match behavior {
        UnsupportedPolicyBehavior::Error => Err(
            SandboxError::UnsupportedPolicy(message.to_string()),
        ),
        UnsupportedPolicyBehavior::WarnAndFallback => {
            warnings.push(SandboxWarning { dimension, message: message.to_string() });
            Ok(())
        },
    }
}

/// Whether there is a warning about a dimension.
pub open spec fn warned(
    warnings: Seq<SandboxWarningView>,
    dimension: SandboxPolicyDimension,
) -> bool {
    exists|i: int| 0 <= i < warnings.len() && (#[trigger] warnings[i]).dimension == dimension
}

/// Whether what a command wrote to its error stream tells of a refused operation.
pub open spec fn tells_refusal(stderr: Seq<u8>) -> bool {
    let lower = text::lossy_text(stderr).map_values(|c: char| text::lower(c));
    text::occurs(lower, "operation not permitted"@) || text::occurs(lower, "permission denied"@)
}

/// The status with a refused operation recognised.
pub open spec fn classified(status: SandboxStatusView, stderr: Seq<u8>) -> SandboxStatusView {
    if status is Exited && tells_refusal(stderr) {
        SandboxStatusView::PolicyViolation { reason: text::trimmed(text::lossy_text(stderr)) }
    } else {
        status
    }
}

/// Recognises a refused operation by what the command wrote to its error stream.
pub fn classify_policy_violation(status: SandboxStatus, stderr: &Vec<u8>) -> (r: SandboxStatus)
    ensures
        r@ == classified(status@, stderr@),
{
    if let SandboxStatus::Exited { code: _ } = &status {
        let message = lossy_text_of(stderr.as_slice());
        let lower = lower_ascii(message.as_str());
        if contains(lower.as_str(), "operation not permitted") || contains(
            lower.as_str(),
            "permission denied",
        ) {
            return SandboxStatus::PolicyViolation { reason: trim(message.as_str()) };
        }
    }
    status
}

/// How a process that is over ended.
pub open spec fn ended(
    cancelled: bool,
    signal: Option<i32>,
    code: Option<i32>,
) -> SandboxStatusView {
    if cancelled {
        SandboxStatusView::Cancelled
    } else {
        match signal {
            Some(signal) => SandboxStatusView::Signaled { signal },
            None => SandboxStatusView::Exited {
                code: match code {
                    Some(code) => code,
                    None => -1i32,
                },
            },
        }
    }
}

impl SandboxStatus {
    /// How a process that is over ended.
    pub fn of_process(cancelled: bool, signal: Option<i32>, code: Option<i32>) -> (r: Self)
        ensures
            r@ == ended(cancelled, signal, code),
    {
        if cancelled {
            return SandboxStatus::Cancelled;
        }
        match signal {
            Some(signal) => SandboxStatus::Signaled { signal },
            None => SandboxStatus::Exited {
                code: match code {
                    Some(code) => code,
                    None => -1,
                },
            },
        }
    }
}

/// What a command that was never started leaves behind.
pub fn cancelled_output(warnings: Vec<SandboxWarning>, duration_ms: u64) -> (r: SandboxOutput)
    ensures
        r@ == (SandboxOutputView {
            status: SandboxStatusView::Cancelled,
            stdout: Seq::empty(),
            stderr: Seq::empty(),
            warnings: views::all(warnings@),
            stdout_truncated: false,
            stderr_truncated: false,
            duration_ms,
        }),
{
    finished_output(SandboxStatus::Cancelled, Vec::new(), Vec::new(), warnings, duration_ms)
}

/// What a command that is over leaves behind.
pub fn finished_output(
    status: SandboxStatus,
    stdout: Vec<u8>,
    stderr: Vec<u8>,
    warnings: Vec<SandboxWarning>,
    duration_ms: u64,
) -> (r: SandboxOutput)
    ensures
        r@ == (SandboxOutputView {
            status: status@,
            stdout: stdout@,
            stderr: stderr@,
            warnings: views::all(warnings@),
            stdout_truncated: false,
            stderr_truncated: false,
            duration_ms,
        }),
{
    SandboxOutput {
        status,
        stdout,
        stderr,
        warnings,
        stdout_truncated: false,
        stderr_truncated: false,
        duration_ms,
    }
}

// ---------------------------------------------------------------------------
// Laws

/// Of the rules that match a place, none is longer than the one that governs it;
/// where none governs it, none matches.
pub proof fn law_longest_rule_wins(rules: Seq<FilesystemRuleView>, names: Seq<Seq<u8>>)
    ensures
        match rule_for(rules, names) {
            Some(i) => {
                &&& 0 <= i < rules.len()
                &&& rule_matches(rules[i], names)
                &&& forall|j: int|
                    0 <= j < rules.len() && rule_matches(#[trigger] rules[j], names) ==> depth(
                        rules[j],
                    ) <= depth(rules[i])
            },
            None => forall|j: int|
                0 <= j < rules.len() ==> !rule_matches(#[trigger] rules[j], names),
        },
    decreases rules.len(),
{
    if rules.len() > 0 {
        let before = rules.drop_last();
        let last = rules.len() - 1;
        law_longest_rule_wins(before, names);
        assert forall|j: int| 0 <= j < last implies #[trigger] rules[j] == before[j] by {}
    }
}

/// In a valid policy no two rules are for the same place.
pub proof fn law_valid_rules_differ(rules: Seq<FilesystemRuleView>, i: int, j: int)
    requires
        rules_fault(rules) is None,
        0 <= i < j < rules.len(),
    ensures
        path::normal_names(rules[i].path) is Ok,
        path::normal_names(rules[j].path) is Ok,
        path::normal_names(rules[i].path) != path::normal_names(rules[j].path),
    decreases rules.len(),
{
    let before = rules.drop_last();
    if j < rules.len() - 1 {
        law_valid_rules_differ(before, i, j);
    } else {
        assert(before[i] == rules[i]);
        lemma_valid_rule(before, i);
        if path::normal_names(rules[i].path) == path::normal_names(rules[j].path) {
            assert(has_rule(before, path::normal_names(rules[j].path)->Ok_0));
        }
    }
}

proof fn lemma_valid_rule(rules: Seq<FilesystemRuleView>, i: int)
    requires
        rules_fault(rules) is None,
        0 <= i < rules.len(),
    ensures
        path::normal_names(rules[i].path) is Ok,
    decreases rules.len(),
{
    if i < rules.len() - 1 {
        assert(rules.drop_last()[i] == rules[i]);
        lemma_valid_rule(rules.drop_last(), i);
    }
}

/// In a valid policy a rule that matches a path and is not shorter than any other
/// that does decides the access, wherever it stands among the rules.
pub proof fn law_longest_match_decides(
    default_access: FilesystemAccess,
    rules: Seq<FilesystemRuleView>,
    path: Seq<u8>,
    i: int,
)
    requires
        rules_fault(rules) is None,
        path::normal_names(path) is Ok,
        0 <= i < rules.len(),
        rule_matches(rules[i], path::normal_names(path)->Ok_0),
        forall|j: int|
            0 <= j < rules.len() && rule_matches(
                #[trigger] rules[j],
                path::normal_names(path)->Ok_0,
            ) ==> depth(rules[j]) <= depth(rules[i]),
    ensures
        access(FilesystemPolicyView::Workspace { default_access, rules }, path) == Ok::<
            FilesystemAccess,
            SandboxErrorView,
        >(rules[i].access),
{
    let names = path::normal_names(path)->Ok_0;
    law_longest_rule_wins(rules, names);
    let k = rule_for(rules, names)->0;
    if k != i {
        let a = path::normal_names(rules[k].path)->Ok_0;
        let b = path::normal_names(rules[i].path)->Ok_0;
        assert(a.len() == b.len());
        assert(a =~= names.take(a.len() as int));
        assert(b =~= names.take(b.len() as int));
        if k < i {
            law_valid_rules_differ(rules, k, i);
        } else {
            law_valid_rules_differ(rules, i, k);
        }
    }
}

/// A path that no rule matches has the default access.
pub proof fn law_unmatched_path_has_default(
    default_access: FilesystemAccess,
    rules: Seq<FilesystemRuleView>,
    path: Seq<u8>,
)
    requires
        rules_fault(rules) is None,
        path::normal_names(path) is Ok,
        forall|j: int|
            0 <= j < rules.len() ==> !rule_matches(
                #[trigger] rules[j],
                path::normal_names(path)->Ok_0,
            ),
    ensures
        access(FilesystemPolicyView::Workspace { default_access, rules }, path) == Ok::<
            FilesystemAccess,
            SandboxErrorView,
        >(default_access),
{
    law_longest_rule_wins(rules, path::normal_names(path)->Ok_0);
}

/// How a path is spelled does not matter to the access.
pub proof fn law_access_by_place(policy: FilesystemPolicyView, a: Seq<u8>, b: Seq<u8>)
    requires
        path::normal_names(a) is Ok,
        path::normal_names(a) == path::normal_names(b),
    ensures
        access(policy, a) == access(policy, b),
{
}

} // verus!
