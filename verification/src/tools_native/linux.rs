//! A sandbox on Linux: what becomes of a policy, and how a process is confined.
use crate::tools::path::{self, HostPath};
use crate::tools::sandbox::{
    self, unsupported, EffectiveSandboxPolicy, EffectiveSandboxPolicyView, FilesystemAccess,
    FilesystemPolicy, FilesystemPolicyView, FilesystemRule, FilesystemRuleView, IdentityIsolation,
    NetworkAccess, ProcessPolicy, ProcessVisibility, SandboxError, SandboxErrorView, SandboxPolicy,
    SandboxPolicyDimension, SandboxPolicyResolution, SandboxPolicyResolutionView, SandboxPolicyView,
    SandboxRequest, SandboxWarning, SandboxWarningView, UnsupportedPolicyBehavior,
};
use crate::views;
use vstd::prelude::*;

verus! {

/// One thing that a process does to itself before it becomes the command.
#[derive(Debug, PartialEq)]
pub enum SetupStep {
    /// Become the only user of a namespace.
    UserNamespace,
    /// Leave the mounts of the host.
    MountNamespace,
    /// Keep mounts from spreading.
    PrivateMounts,
    /// Let nothing be written.
    ReadOnlyRoot,
    /// Mount a place onto itself, with an access of its own.
    Mount { path: HostPath, read_only: bool },
    /// Leave the network of the host.
    NetworkNamespace,
}

/// What a `SetupStep` holds.
#[verifier::ext_equal]
pub enum SetupStepView {
    UserNamespace,
    MountNamespace,
    PrivateMounts,
    ReadOnlyRoot,
    Mount { path: Seq<u8>, read_only: bool },
    NetworkNamespace,
}

impl View for SetupStep {
    type V = SetupStepView;

    open spec fn view(&self) -> SetupStepView {
        match *self {
            SetupStep::UserNamespace => SetupStepView::UserNamespace,
            SetupStep::MountNamespace => SetupStepView::MountNamespace,
            SetupStep::PrivateMounts => SetupStepView::PrivateMounts,
            SetupStep::ReadOnlyRoot => SetupStepView::ReadOnlyRoot,
            SetupStep::Mount { path, read_only } => SetupStepView::Mount { path: path@, read_only },
            SetupStep::NetworkNamespace => SetupStepView::NetworkNamespace,
        }
    }
}

impl Clone for SetupStep {
    fn clone(&self) -> (r: Self)
        ensures
            r@ == self@,
    {
        match self {
            SetupStep::UserNamespace => SetupStep::UserNamespace,
            SetupStep::MountNamespace => SetupStep::MountNamespace,
            SetupStep::PrivateMounts => SetupStep::PrivateMounts,
            SetupStep::ReadOnlyRoot => SetupStep::ReadOnlyRoot,
            SetupStep::Mount { path, read_only } => SetupStep::Mount {
                path: path.clone(),
                read_only: *read_only,
            },
            SetupStep::NetworkNamespace => SetupStep::NetworkNamespace,
        }
    }
}

/// Whether a policy denies access to some path.
pub open spec fn denies(policy: FilesystemPolicyView) -> bool {
    match policy {
        FilesystemPolicyView::Workspace { default_access, rules } => {
            ||| default_access == FilesystemAccess::Denied
            ||| exists|i: int|
                0 <= i < rules.len() && (#[trigger] rules[i]).access == FilesystemAccess::Denied
        },
        _ => false,
    }
}

/// The access that stands in for a denied one.
pub open spec fn softened_access(access: FilesystemAccess) -> FilesystemAccess {
    match access {
        FilesystemAccess::Denied => FilesystemAccess::ReadOnly,
        FilesystemAccess::ReadOnly => FilesystemAccess::ReadOnly,
        FilesystemAccess::ReadWrite => FilesystemAccess::ReadWrite,
    }
}

/// The policy that lets read what was denied.
pub open spec fn softened(policy: FilesystemPolicyView) -> FilesystemPolicyView {
    match policy {
        FilesystemPolicyView::Workspace { default_access, rules } => {
            FilesystemPolicyView::Workspace {
                default_access: softened_access(default_access),
                rules: Seq::new(
                    rules.len(),
                    |i: int|
                        FilesystemRuleView {
                            access: softened_access(rules[i].access),
                            ..rules[i]
                        },
                ),
            }
        },
        _ => policy,
    }
}

/// The process dimension: other processes cannot be hidden.
pub open spec fn resolve_process(policy: SandboxPolicyView) -> Result<
    SandboxPolicyResolutionView,
    SandboxErrorView,
> {
    let requested = sandbox::as_requested(policy);
    let nothing = Seq::<SandboxWarningView>::empty();
    if requested.process.visibility == ProcessVisibility::Isolated {
        match sandbox::not_kept(
            policy.process.unsupported,
            SandboxPolicyDimension::Process,
            "the first Linux launcher does not yet provide PID namespace isolation"@,
            nothing,
        ) {
            Ok(warnings) => Ok(
                SandboxPolicyResolutionView {
                    requested: policy,
                    effective: EffectiveSandboxPolicyView {
                        process: ProcessPolicy {
                            visibility: ProcessVisibility::Host,
                            ..requested.process
                        },
                        ..requested
                    },
                    warnings,
                },
            ),
            Err(refusal) => Err(refusal),
        }
    } else {
        Ok(
            SandboxPolicyResolutionView {
                requested: policy,
                effective: requested,
                warnings: nothing,
            },
        )
    }
}

/// The resolution with other access to files, where that is allowed.
pub open spec fn with_filesystem(
    resolution: SandboxPolicyResolutionView,
    filesystem: FilesystemPolicyView,
    message: Seq<char>,
) -> Result<SandboxPolicyResolutionView, SandboxErrorView> {
    match sandbox::not_kept(
        resolution.requested.filesystem.unsupported,
        SandboxPolicyDimension::Filesystem,
        message,
        resolution.warnings,
    ) {
        Ok(warnings) => Ok(
            SandboxPolicyResolutionView {
                effective: EffectiveSandboxPolicyView { filesystem, ..resolution.effective },
                warnings,
                ..resolution
            },
        ),
        Err(refusal) => Err(refusal),
    }
}

/// The filesystem dimension: there must be a workspace, and nothing in it can be
/// hidden.
pub open spec fn resolve_filesystem(resolution: SandboxPolicyResolutionView) -> Result<
    SandboxPolicyResolutionView,
    SandboxErrorView,
> {
    let filesystem = resolution.effective.filesystem;
    if filesystem is Isolated {
        with_filesystem(
            resolution,
            FilesystemPolicyView::Host,
            "Linux workspace sandboxing requires an explicit workspace policy"@,
        )
    } else if denies(filesystem) {
        with_filesystem(
            resolution,
            softened(filesystem),
            "Landlock path-deny rules are not enabled in the first Linux launcher"@,
        )
    } else {
        Ok(resolution)
    }
}

/// What becomes of a policy on Linux.
pub open spec fn resolved(policy: SandboxPolicyView) -> Result<
    SandboxPolicyResolutionView,
    SandboxErrorView,
> {
    match sandbox::filesystem_fault(policy.filesystem.requested) {
        Some(fault) => Err(fault),
        None => match resolve_process(policy) {
            Err(refusal) => Err(refusal),
            Ok(resolution) => resolve_filesystem(resolution),
        },
    }
}

/// Whether a policy denies access to some path.
pub fn has_denied_filesystem_rule(policy: &FilesystemPolicy) -> (r: bool)
    ensures
        r == denies(policy@),
{
    match policy {
        FilesystemPolicy::Workspace { default_access, rules } => {
            if *default_access == FilesystemAccess::Denied {
                return true;
            }
            let ghost all = views::all(rules@);
            let mut i: usize = 0;
            while i < rules.len()
                invariant
                    i <= rules@.len(),
                    all == views::all(rules@),
                    policy@ == (FilesystemPolicyView::Workspace {
                        default_access: *default_access,
                        rules: all,
                    }),
                    forall|k: int|
                        0 <= k < i ==> (#[trigger] all[k]).access != FilesystemAccess::Denied,
                decreases rules@.len() - i,
            {
                assert(all[i as int] == rules@[i as int]@);
                if rules[i].access == FilesystemAccess::Denied {
                    return true;
                }
                i = i + 1;
            }
            false
        },
        _ => false,
    }
}

fn soften(access: FilesystemAccess) -> (r: FilesystemAccess)
    ensures
        r == softened_access(access),
{
    match access {
        FilesystemAccess::Denied => FilesystemAccess::ReadOnly,
        FilesystemAccess::ReadOnly => FilesystemAccess::ReadOnly,
        FilesystemAccess::ReadWrite => FilesystemAccess::ReadWrite,
    }
}

/// The policy that lets read what was denied.
pub fn soften_denied_filesystem(policy: &FilesystemPolicy) -> (r: FilesystemPolicy)
    ensures
        r@ == softened(policy@),
        !denies(r@),
{
    match policy {
        FilesystemPolicy::Workspace { default_access, rules } => {
            let mut soft: Vec<FilesystemRule> = Vec::new();
            let mut i: usize = 0;
            while i < rules.len()
                invariant
                    i <= rules@.len(),
                    soft@.len() == i,
                    forall|k: int|
                        0 <= k < i ==> (#[trigger] soft@[k])@ == (FilesystemRuleView {
                            access: softened_access(rules@[k]@.access),
                            ..rules@[k]@
                        }),
                decreases rules@.len() - i,
            {
                soft.push(
                    FilesystemRule {
                        path: rules[i].path.clone(),
                        access: soften(rules[i].access),
                    },
                );
                i = i + 1;
            }
            let ghost all = views::all(rules@);
            assert(views::all(soft@) =~= Seq::new(
                all.len(),
                |k: int| FilesystemRuleView { access: softened_access(all[k].access), ..all[k] },
            ));
            FilesystemPolicy::Workspace { default_access: soften(*default_access), rules: soft }
        },
        FilesystemPolicy::Isolated => FilesystemPolicy::Isolated,
        FilesystemPolicy::Host => FilesystemPolicy::Host,
    }
}

/// The Linux backend, which keeps guarantees by namespaces.
#[derive(Debug, Clone, Copy, Default)]
pub struct LinuxNativeBackend;

impl LinuxNativeBackend {
    pub fn name(&self) -> (r: &'static str)
        ensures
            r@ == "linux-native"@,
    {
        "linux-native"
    }

    /// What becomes of a policy: which guarantees are kept, and which are not.
    pub fn resolve_policy(&self, policy: &SandboxPolicy) -> (r: Result<
        SandboxPolicyResolution,
        SandboxError,
    >)
        ensures
            views::res(r) == resolved(policy@),
    {
        broadcast use crate::views::group_views;

        if let Err(fault) = policy.validate() {
            return Err(fault);
        }
        let mut effective = EffectiveSandboxPolicy::requested(policy);
        let mut warnings: Vec<SandboxWarning> = Vec::new();
        if effective.process.visibility == ProcessVisibility::Isolated {
            if let Err(refusal) = unsupported(
                policy.process.unsupported,
                SandboxPolicyDimension::Process,
                "the first Linux launcher does not yet provide PID namespace isolation",
                &mut warnings,
            ) {
                return Err(refusal);
            }
            effective.process.visibility = ProcessVisibility::Host;
        }
        let isolated = match &effective.filesystem {
            FilesystemPolicy::Isolated => true,
            _ => false,
        };
        if isolated {
            if let Err(refusal) = unsupported(
                policy.filesystem.unsupported,
                SandboxPolicyDimension::Filesystem,
                "Linux workspace sandboxing requires an explicit workspace policy",
                &mut warnings,
            ) {
                return Err(refusal);
            }
            effective.filesystem = FilesystemPolicy::Host;
        }
        if has_denied_filesystem_rule(&effective.filesystem) {
            if let Err(refusal) = unsupported(
                policy.filesystem.unsupported,
                SandboxPolicyDimension::Filesystem,
                "Landlock path-deny rules are not enabled in the first Linux launcher",
                &mut warnings,
            ) {
                return Err(refusal);
            }
            effective.filesystem = soften_denied_filesystem(&effective.filesystem);
        }
        Ok(SandboxPolicyResolution { requested: policy.clone(), effective, warnings })
    }

    /// Checks a request before it is launched, and resolves its policy.
    pub fn prepare(&self, request: &SandboxRequest) -> (r: Result<
        SandboxPolicyResolution,
        SandboxError,
    >)
        ensures
            views::res(r) == match sandbox::request_fault(request@) {
                Some(fault) => Err(fault),
                None => resolved(request@.policy),
            },
    {
        if let Err(fault) = request.validate() {
            return Err(fault);
        }
        self.resolve_policy(&request.policy)
    }
}

// ---------------------------------------------------------------------------
// What a process does to itself before it becomes the command

/// How many components the path of a rule has.
pub open spec fn rule_depth(rule: FilesystemRuleView) -> nat {
    path::components(rule.path).len()
}

/// The rules with one more put behind all that are not deeper.
pub open spec fn with_rule(
    sorted: Seq<FilesystemRuleView>,
    rule: FilesystemRuleView,
) -> Seq<FilesystemRuleView>
    decreases sorted.len(),
{
    if sorted.len() > 0 && rule_depth(sorted.last()) > rule_depth(rule) {
        with_rule(sorted.drop_last(), rule).push(sorted.last())
    } else {
        sorted.push(rule)
    }
}

/// The rules from shallow to deep; rules of one depth stay in their order.
pub open spec fn by_depth(rules: Seq<FilesystemRuleView>) -> Seq<FilesystemRuleView>
    decreases rules.len(),
{
    if rules.len() == 0 {
        Seq::empty()
    } else {
        with_rule(by_depth(rules.drop_last()), rules.last())
    }
}

/// The step that mounts the place of a rule onto itself.
pub open spec fn mount_step(rule: FilesystemRuleView) -> SetupStepView {
    SetupStepView::Mount {
        path: rule.path,
        read_only: rule.access != FilesystemAccess::ReadWrite,
    }
}

/// The steps that set up a sandbox, in order.
pub open spec fn setup(policy: EffectiveSandboxPolicyView) -> Seq<SetupStepView> {
    let identity = if policy.identity == IdentityIsolation::Unprivileged {
        seq![SetupStepView::UserNamespace]
    } else {
        Seq::empty()
    };
    let files = if policy.filesystem is Host {
        Seq::empty()
    } else {
        seq![
            SetupStepView::MountNamespace,
            SetupStepView::PrivateMounts,
            SetupStepView::ReadOnlyRoot,
        ] + mounts(policy.filesystem)
    };
    let network = if policy.network == NetworkAccess::Host {
        Seq::empty()
    } else {
        seq![SetupStepView::NetworkNamespace]
    };
    identity + files + network
}

/// The mounts for the rules of a policy.
pub open spec fn mounts(policy: FilesystemPolicyView) -> Seq<SetupStepView> {
    match policy {
        FilesystemPolicyView::Workspace { default_access, rules } => Seq::new(
            rules.len(),
            |i: int| mount_step(by_depth(rules)[i]),
        ),
        _ => Seq::empty(),
    }
}

/// What a step does, in words.
pub open spec fn operation(step: SetupStepView) -> Seq<char> {
    match step {
        SetupStepView::UserNamespace => "create user namespace"@,
        SetupStepView::MountNamespace => "create mount namespace"@,
        SetupStepView::PrivateMounts => "make mounts private"@,
        SetupStepView::ReadOnlyRoot => "make root read-only"@,
        SetupStepView::Mount { path, read_only } => "apply filesystem rules"@,
        SetupStepView::NetworkNamespace => "create network namespace"@,
    }
}

impl SetupStep {
    /// What the step does, in words.
    pub fn operation(&self) -> (r: &'static str)
        ensures
            r@ == operation(self@),
    {
        match self {
            SetupStep::UserNamespace => "create user namespace",
            SetupStep::MountNamespace => "create mount namespace",
            SetupStep::PrivateMounts => "make mounts private",
            SetupStep::ReadOnlyRoot => "make root read-only",
            SetupStep::Mount { path: _, read_only: _ } => "apply filesystem rules",
            SetupStep::NetworkNamespace => "create network namespace",
        }
    }
}

/// Puts a rule behind all that are not deeper.
fn place_rule(sorted: &mut Vec<FilesystemRule>, rule: FilesystemRule)
    ensures
        views::all(final(sorted)@) == with_rule(views::all(old(sorted)@), rule@),
{
    let ghost before = views::all(sorted@);
    let depth = rule.path.components().len();
    assert(depth == rule_depth(rule@)) by {
        assert(path::components(rule@.path).len() == depth);
    }
    let mut at: usize = sorted.len();
    assert(before.take(at as int) =~= before);
    assert(with_rule(before.take(at as int), rule@) + before.skip(at as int) =~= with_rule(
        before,
        rule@,
    ));
    while at > 0 && sorted[at - 1].path.components().len() > depth
        invariant
            at <= sorted@.len(),
            before == views::all(sorted@),
            depth == rule_depth(rule@),
            with_rule(before.take(at as int), rule@) + before.skip(at as int) == with_rule(
                before,
                rule@,
            ),
        decreases at,
    {
        let ghost front = before.take(at as int);
        assert(front.last() == sorted@[at - 1]@);
        assert(rule_depth(front.last()) > rule_depth(rule@));
        assert(front.drop_last() =~= before.take(at - 1));
        assert(with_rule(before.take(at - 1), rule@).push(front.last()) + before.skip(at as int)
            =~= with_rule(before.take(at - 1), rule@) + before.skip(at - 1));
        at = at - 1;
    }
    let ghost front = before.take(at as int);
    assert(at > 0 ==> front.last() == sorted@[at - 1]@);
    assert(with_rule(front, rule@) == front.push(rule@));
    sorted.insert(at, rule);
    assert(views::all(sorted@) =~= front.push(rule@) + before.skip(at as int));
}

/// The steps that set up a sandbox, in order.
pub fn setup_steps(policy: &EffectiveSandboxPolicy) -> (r: Vec<SetupStep>)
    ensures
        views::all(r@) == setup(policy@),
{
    broadcast use crate::views::group_views;

    let mut steps: Vec<SetupStep> = Vec::new();
    if policy.identity == IdentityIsolation::Unprivileged {
        steps.push(SetupStep::UserNamespace);
    }
    let ghost identity = views::all(steps@);
    let host = match &policy.filesystem {
        FilesystemPolicy::Host => true,
        _ => false,
    };
    if !host {
        steps.push(SetupStep::MountNamespace);
        steps.push(SetupStep::PrivateMounts);
        steps.push(SetupStep::ReadOnlyRoot);
        let ghost opened = views::all(steps@);
        let mut more = mount_steps(&policy.filesystem);
        let ghost added = views::all(more@);
        steps.append(&mut more);
        assert(views::all(steps@) =~= opened + added);
        assert(opened + added =~= identity + (seq![
            SetupStepView::MountNamespace,
            SetupStepView::PrivateMounts,
            SetupStepView::ReadOnlyRoot,
        ] + added));
    } else {
        assert(identity + Seq::<SetupStepView>::empty() =~= identity);
    }
    let ghost files = views::all(steps@);
    if policy.network != NetworkAccess::Host {
        steps.push(SetupStep::NetworkNamespace);
    }
    assert(views::all(steps@) =~= setup(policy@));
    steps
}

/// The mounts for the rules of a policy.
fn mount_steps(policy: &FilesystemPolicy) -> (r: Vec<SetupStep>)
    ensures
        views::all(r@) == mounts(policy@),
{
    let mut steps: Vec<SetupStep> = Vec::new();
    if let FilesystemPolicy::Workspace { default_access: _, rules } = policy {
        let ghost all = views::all(rules@);
        let mut sorted: Vec<FilesystemRule> = Vec::new();
        let mut i: usize = 0;
        assert(all.take(0) =~= Seq::<FilesystemRuleView>::empty());
        assert(views::all(sorted@) =~= by_depth(all.take(0)));
        while i < rules.len()
            invariant
                i <= rules@.len(),
                all == views::all(rules@),
                views::all(sorted@) == by_depth(all.take(i as int)),
            decreases rules@.len() - i,
        {
            assert(all.take(i + 1).drop_last() =~= all.take(i as int));
            assert(all.take(i + 1).last() == rules@[i as int]@);
            place_rule(&mut sorted, rules[i].clone());
            i = i + 1;
        }
        assert(all.take(i as int) =~= all);
        proof {
            lemma_by_depth_len(all);
        }
        let ghost order = views::all(sorted@);
        let mut k: usize = 0;
        while k < sorted.len()
            invariant
                k <= sorted@.len(),
                order == views::all(sorted@),
                steps@.len() == k,
                forall|j: int| 0 <= j < k ==> (#[trigger] steps@[j])@ == mount_step(order[j]),
            decreases sorted@.len() - k,
        {
            assert(order[k as int] == sorted@[k as int]@);
            steps.push(
                SetupStep::Mount {
                    path: sorted[k].path.clone(),
                    read_only: sorted[k].access != FilesystemAccess::ReadWrite,
                },
            );
            k = k + 1;
        }
        assert(views::all(steps@) =~= mounts(policy@));
    } else {
        assert(views::all(steps@) =~= mounts(policy@));
    }
    steps
}

proof fn lemma_with_rule_len(sorted: Seq<FilesystemRuleView>, rule: FilesystemRuleView)
    ensures
        with_rule(sorted, rule).len() == sorted.len() + 1,
        with_rule(sorted, rule).to_multiset() == sorted.to_multiset().insert(rule),
    decreases sorted.len(),
{
    broadcast use vstd::seq_lib::group_to_multiset_ensures;

    if sorted.len() > 0 && rule_depth(sorted.last()) > rule_depth(rule) {
        lemma_with_rule_len(sorted.drop_last(), rule);
        assert(sorted.drop_last().push(sorted.last()) =~= sorted);
        assert(sorted.to_multiset() == sorted.drop_last().to_multiset().insert(sorted.last()));
        assert(with_rule(sorted, rule).to_multiset() =~= sorted.to_multiset().insert(rule));
    }
}

proof fn lemma_by_depth_len(rules: Seq<FilesystemRuleView>)
    ensures
        by_depth(rules).len() == rules.len(),
        by_depth(rules).to_multiset() == rules.to_multiset(),
    decreases rules.len(),
{
    broadcast use vstd::seq_lib::group_to_multiset_ensures;

    if rules.len() > 0 {
        lemma_by_depth_len(rules.drop_last());
        lemma_with_rule_len(by_depth(rules.drop_last()), rules.last());
        assert(rules.drop_last().push(rules.last()) =~= rules);
    } else {
        assert(rules =~= Seq::<FilesystemRuleView>::empty());
    }
}

/// Whether rules stand from shallow to deep.
pub open spec fn deepening(rules: Seq<FilesystemRuleView>) -> bool {
    forall|i: int, j: int|
        0 <= i <= j < rules.len() ==> rule_depth(#[trigger] rules[i]) <= rule_depth(
            #[trigger] rules[j],
        )
}

proof fn lemma_with_rule_deepening(sorted: Seq<FilesystemRuleView>, rule: FilesystemRuleView)
    requires
        deepening(sorted),
    ensures
        deepening(with_rule(sorted, rule)),
        forall|i: int|
            0 <= i < with_rule(sorted, rule).len() ==> with_rule(sorted, rule)[i] == rule
                || exists|k: int|
                0 <= k < sorted.len() && sorted[k] == #[trigger] with_rule(sorted, rule)[i],
    decreases sorted.len(),
{
    let all = with_rule(sorted, rule);
    lemma_with_rule_len(sorted, rule);
    if sorted.len() > 0 && rule_depth(sorted.last()) > rule_depth(rule) {
        let front = sorted.drop_last();
        assert(deepening(front)) by {
            assert forall|i: int, j: int| 0 <= i <= j < front.len() implies rule_depth(
                #[trigger] front[i],
            ) <= rule_depth(#[trigger] front[j]) by {
                assert(front[i] == sorted[i] && front[j] == sorted[j]);
            }
        }
        lemma_with_rule_deepening(front, rule);
        lemma_with_rule_len(front, rule);
        let last = sorted.len() - 1;
        let inner = with_rule(front, rule);
        assert forall|i: int| 0 <= i < inner.len() implies rule_depth(#[trigger] inner[i])
            <= rule_depth(sorted[last]) by {
            if inner[i] != rule {
                let k = choose|k: int| 0 <= k < front.len() && front[k] == inner[i];
                assert(sorted[k] == front[k]);
            }
        }
        assert forall|i: int| 0 <= i < all.len() implies all[i] == rule || exists|k: int|
            0 <= k < sorted.len() && sorted[k] == #[trigger] all[i] by {
            if i < inner.len() {
                assert(all[i] == inner[i]);
                if inner[i] != rule {
                    let k = choose|k: int| 0 <= k < front.len() && front[k] == inner[i];
                    assert(sorted[k] == all[i]);
                }
            } else {
                assert(sorted[last] == all[i]);
            }
        }
        assert forall|i: int, j: int| 0 <= i <= j < all.len() implies rule_depth(#[trigger] all[i])
            <= rule_depth(#[trigger] all[j]) by {
            if j < inner.len() {
                assert(all[i] == inner[i] && all[j] == inner[j]);
            } else if i < inner.len() {
                assert(all[i] == inner[i] && all[j] == sorted[last]);
            }
        }
    } else {
        assert forall|i: int| 0 <= i < all.len() implies all[i] == rule || exists|k: int|
            0 <= k < sorted.len() && sorted[k] == #[trigger] all[i] by {
            if i < sorted.len() {
                assert(sorted[i] == all[i]);
            }
        }
        assert forall|i: int, j: int| 0 <= i <= j < all.len() implies rule_depth(#[trigger] all[i])
            <= rule_depth(#[trigger] all[j]) by {
            if j < sorted.len() {
                assert(all[i] == sorted[i] && all[j] == sorted[j]);
            } else if i < sorted.len() {
                let last = sorted.len() - 1;
                assert(all[i] == sorted[i] && rule_depth(sorted[i]) <= rule_depth(sorted[last]));
            }
        }
    }
}

/// Every rule of a policy is mounted once, and none before a shallower one: what
/// a deeper rule says of a path comes last.
pub proof fn law_deeper_rules_are_mounted_later(rules: Seq<FilesystemRuleView>)
    ensures
        deepening(by_depth(rules)),
        by_depth(rules).to_multiset() == rules.to_multiset(),
    decreases rules.len(),
{
    lemma_by_depth_len(rules);
    if rules.len() > 0 {
        law_deeper_rules_are_mounted_later(rules.drop_last());
        lemma_with_rule_deepening(by_depth(rules.drop_last()), rules.last());
    }
}

// ---------------------------------------------------------------------------
// Laws

/// A guarantee that must be kept is kept, or the policy is refused.
pub proof fn law_strict_is_kept(policy: SandboxPolicyView)
    requires
        resolved(policy) is Ok,
    ensures
        ({
            let effective = resolved(policy)->Ok_0.effective;
            let requested = sandbox::as_requested(policy);
            &&& policy.filesystem.unsupported == UnsupportedPolicyBehavior::Error
                ==> effective.filesystem == requested.filesystem
            &&& policy.process.unsupported == UnsupportedPolicyBehavior::Error
                ==> effective.process == requested.process
            &&& effective.network == requested.network
            &&& effective.identity == requested.identity
        }),
{
}

/// Every guarantee that is weakened is warned of, and nothing else is.
pub proof fn law_weakened_is_warned(policy: SandboxPolicyView)
    requires
        resolved(policy) is Ok,
    ensures
        ({
            let resolution = resolved(policy)->Ok_0;
            let requested = sandbox::as_requested(policy);
            &&& resolution.effective.filesystem != requested.filesystem <==> sandbox::warned(
                resolution.warnings,
                SandboxPolicyDimension::Filesystem,
            )
            &&& resolution.effective.process != requested.process <==> sandbox::warned(
                resolution.warnings,
                SandboxPolicyDimension::Process,
            )
            &&& !sandbox::warned(resolution.warnings, SandboxPolicyDimension::Network)
            &&& !sandbox::warned(resolution.warnings, SandboxPolicyDimension::Identity)
        }),
{
    let resolution = resolved(policy)->Ok_0;
    let first = resolve_process(policy)->Ok_0;
    let filesystem = policy.filesystem.requested;
    if policy.process.requested.visibility == ProcessVisibility::Isolated {
        assert(first.warnings[0].dimension == SandboxPolicyDimension::Process);
        assert(resolution.warnings[0] == first.warnings[0]);
    }
    if filesystem is Isolated || denies(filesystem) {
        let told = resolution.warnings.last();
        assert(told.dimension == SandboxPolicyDimension::Filesystem);
        assert(resolution.warnings[resolution.warnings.len() - 1] == told);
        if denies(filesystem) {
            lemma_softened_differs(filesystem);
        }
    }
}

proof fn lemma_softened_differs(policy: FilesystemPolicyView)
    requires
        denies(policy),
    ensures
        softened(policy) != policy,
        !denies(softened(policy)),
{
    if let FilesystemPolicyView::Workspace { default_access, rules } = policy {
        let soft = softened(policy)->rules;
        if default_access != FilesystemAccess::Denied {
            let i = choose|i: int|
                0 <= i < rules.len() && (#[trigger] rules[i]).access == FilesystemAccess::Denied;
            assert(soft[i].access == FilesystemAccess::ReadOnly);
        }
        assert forall|i: int| 0 <= i < soft.len() implies (#[trigger] soft[i]).access
            != FilesystemAccess::Denied by {
            assert(soft[i].access == softened_access(rules[i].access));
        }
    }
}

/// What a resolution leaves can be set up: there is no denied rule, no isolation
/// from all files, and no hidden process.
pub proof fn law_resolved_can_be_set_up(policy: SandboxPolicyView)
    requires
        resolved(policy) is Ok,
    ensures
        !denies(resolved(policy)->Ok_0.effective.filesystem),
        !(resolved(policy)->Ok_0.effective.filesystem is Isolated),
        resolved(policy)->Ok_0.effective.process.visibility == ProcessVisibility::Host,
{
    let filesystem = policy.filesystem.requested;
    if denies(filesystem) {
        lemma_softened_differs(filesystem);
    }
}

/// A valid policy of which every guarantee may be weakened is never refused.
pub proof fn law_lenient_is_not_refused(policy: SandboxPolicyView)
    requires
        sandbox::filesystem_fault(policy.filesystem.requested) is None,
        policy.filesystem.unsupported == UnsupportedPolicyBehavior::WarnAndFallback,
        policy.process.unsupported == UnsupportedPolicyBehavior::WarnAndFallback,
    ensures
        resolved(policy) is Ok,
{
}

/// Unless a command may use the files of the host, the root is made read-only
/// before any place is mounted, and unless it may use the network of the host it
/// gets one of its own.
pub proof fn law_setup_restricts(policy: EffectiveSandboxPolicyView)
    ensures
        !(policy.filesystem is Host) ==> setup(policy).contains(SetupStepView::ReadOnlyRoot),
        policy.network != NetworkAccess::Host ==> setup(policy).last()
            == SetupStepView::NetworkNamespace,
        policy.identity == IdentityIsolation::Unprivileged ==> setup(policy)[0]
            == SetupStepView::UserNamespace,
        forall|i: int, j: int|
            0 <= i < setup(policy).len() && 0 <= j < setup(policy).len() && (
            #[trigger] setup(policy)[i]) is ReadOnlyRoot && (#[trigger] setup(policy)[j]) is Mount
                ==> i < j,
{
    let steps = setup(policy);
    let shift: int = if policy.identity == IdentityIsolation::Unprivileged {
        1
    } else {
        0
    };
    if !(policy.filesystem is Host) {
        let files = seq![
            SetupStepView::MountNamespace,
            SetupStepView::PrivateMounts,
            SetupStepView::ReadOnlyRoot,
        ] + mounts(policy.filesystem);
        assert(files[2] == SetupStepView::ReadOnlyRoot);
        assert(steps[shift + 2] == files[2]);
        assert forall|i: int|
            0 <= i < mounts(policy.filesystem).len() implies #[trigger] steps[shift + 3 + i]
            == mounts(policy.filesystem)[i] by {}
        assert forall|i: int, j: int|
            0 <= i < steps.len() && 0 <= j < steps.len() && (#[trigger] steps[i]) is ReadOnlyRoot
                && (#[trigger] steps[j]) is Mount implies i < j by {
            let count = mounts(policy.filesystem).len() as int;
            if shift + 3 <= i < shift + 3 + count {
                assert(steps[i] == mounts(policy.filesystem)[i - shift - 3]);
            }
            if j < shift + 3 {
                assert(j >= shift ==> steps[j] == files[j - shift]);
            }
        }
    }
}

/// What rules are wrong about and which of them governs a place depends on their
/// paths alone.
proof fn lemma_same_places(
    a: Seq<FilesystemRuleView>,
    b: Seq<FilesystemRuleView>,
    names: Seq<Seq<u8>>,
)
    requires
        a.len() == b.len(),
        forall|i: int| 0 <= i < a.len() ==> (#[trigger] a[i]).path == b[i].path,
    ensures
        sandbox::rules_fault(a) == sandbox::rules_fault(b),
        sandbox::rule_for(a, names) == sandbox::rule_for(b, names),
        sandbox::has_rule(a, names) == sandbox::has_rule(b, names),
        sandbox::rule_for(a, names) matches Some(i) ==> 0 <= i < a.len(),
    decreases a.len(),
{
    let wanted = Ok::<Seq<Seq<u8>>, SandboxErrorView>(names);
    if sandbox::has_rule(a, names) {
        let i = choose|i: int|
            0 <= i < a.len() && path::normal_names((#[trigger] a[i]).path) == wanted;
        assert(path::normal_names(b[i].path) == wanted);
    }
    if sandbox::has_rule(b, names) {
        let i = choose|i: int|
            0 <= i < b.len() && path::normal_names((#[trigger] b[i]).path) == wanted;
        assert(path::normal_names(a[i].path) == wanted);
    }
    if a.len() > 0 {
        let x = a.drop_last();
        let y = b.drop_last();
        assert forall|i: int| 0 <= i < x.len() implies (#[trigger] x[i]).path == y[i].path by {
            assert(x[i] == a[i]);
        }
        lemma_same_places(x, y, names);
        assert(a[a.len() - 1].path == b[b.len() - 1].path);
        if let Ok(own) = path::normal_names(a.last().path) {
            lemma_same_places(x, y, own);
        }
        if let Some(i) = sandbox::rule_for(x, names) {
            assert(a[i].path == b[i].path);
        }
    }
}

/// Softening lets read what was denied and changes nothing else: in a workspace
/// every access that was granted stays, a denial becomes leave to read, and the
/// rules keep their number, order and paths. No denial is left, and to soften
/// again changes nothing.
pub proof fn law_softening(policy: FilesystemPolicyView, path: Seq<u8>)
    ensures
        !denies(softened(policy)),
        softened(softened(policy)) == softened(policy),
        !(policy is Workspace) ==> softened(policy) == policy,
        policy is Workspace ==> {
            &&& sandbox::access(softened(policy), path) == match sandbox::access(policy, path) {
                Ok(access) => Ok(softened_access(access)),
                Err(fault) => Err(fault),
            }
            &&& softened(policy) is Workspace
            &&& softened(policy)->rules.len() == policy->rules.len()
            &&& forall|i: int|
                0 <= i < policy->rules.len() ==> (#[trigger] softened(policy)->rules[i]).path
                    == policy->rules[i].path
        },
{
    if let FilesystemPolicyView::Workspace { default_access, rules } = policy {
        let soft = softened(policy)->rules;
        assert forall|i: int| 0 <= i < rules.len() implies (#[trigger] rules[i]).path
            == soft[i].path by {}
        if let Ok(names) = path::normal_names(path) {
            lemma_same_places(rules, soft, names);
        }
        assert(softened(softened(policy))->rules =~= soft);
    }
}

} // verus!
