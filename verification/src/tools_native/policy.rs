//! What a command is allowed to do, given as the directories that it works in.
use crate::tools::path::{self, HostPath};
use crate::tools::sandbox::{
    self, unsupported, EnvironmentVariable, EnvironmentVariableView, IdentityIsolation,
    NetworkAccess, PolicySetting, ProcessPolicy, ProcessVisibility, SandboxError, SandboxErrorView,
    SandboxWarning, SandboxWarningView,
};
use crate::views;
use vstd::prelude::*;

verus! {

/// What a command may do below a root.
#[derive(Debug, Clone, Copy, PartialEq, Eq, Structural)]
pub enum FilesystemAccess {
    ReadOnly,
    ReadWrite,
}

/// A directory that a command works in.
#[derive(Debug, PartialEq)]
pub struct WorkspaceRoot {
    pub path: HostPath,
    pub access: FilesystemAccess,
}

/// What a `WorkspaceRoot` holds.
#[verifier::ext_equal]
pub struct WorkspaceRootView {
    pub path: Seq<u8>,
    pub access: FilesystemAccess,
}

impl View for WorkspaceRoot {
    type V = WorkspaceRootView;

    open spec fn view(&self) -> WorkspaceRootView {
        WorkspaceRootView {
            path: self.path@,
            access: self.access,
        }
    }
}

impl Clone for WorkspaceRoot {
    fn clone(&self) -> (r: Self)
        ensures
            r@ == self@,
    {
        WorkspaceRoot {
            path: self.path.clone(),
            access: self.access,
        }
    }
}

/// What a command sees of the files of the host.
#[derive(Debug, PartialEq)]
pub enum FilesystemPolicy {
    /// Only what is needed to start the command.
    Isolated,
    /// All files, of which those below some roots can be written.
    Workspace { roots: Vec<WorkspaceRoot> },
    /// All files, with all access.
    Host,
}

/// What a `FilesystemPolicy` holds.
#[verifier::ext_equal]
pub enum FilesystemPolicyView {
    Isolated,
    Workspace { roots: Seq<WorkspaceRootView> },
    Host,
}

impl View for FilesystemPolicy {
    type V = FilesystemPolicyView;

    open spec fn view(&self) -> FilesystemPolicyView {
        match *self {
            FilesystemPolicy::Isolated => FilesystemPolicyView::Isolated,
            FilesystemPolicy::Workspace { roots } => FilesystemPolicyView::Workspace {
                roots: views::all(roots@),
            },
            FilesystemPolicy::Host => FilesystemPolicyView::Host,
        }
    }
}

impl Clone for FilesystemPolicy {
    fn clone(&self) -> (r: Self)
        ensures
            r@ == self@,
    {
        match self {
            FilesystemPolicy::Isolated => FilesystemPolicy::Isolated,
            FilesystemPolicy::Workspace { roots } => {
                let copy_roots = roots.clone();
                assert(views::all(copy_roots@) =~= views::all(roots@));
                FilesystemPolicy::Workspace { roots: copy_roots }
            },
            FilesystemPolicy::Host => FilesystemPolicy::Host,
        }
    }
}

impl Default for FilesystemPolicy {
    fn default() -> (r: Self)
        ensures
            r@ == FilesystemPolicyView::Isolated,
    {
        FilesystemPolicy::Isolated
    }
}

/// The policy with one root.
pub open spec fn one_root(host_path: Seq<u8>, access: FilesystemAccess) -> FilesystemPolicyView {
    FilesystemPolicyView::Workspace { roots: seq![WorkspaceRootView { path: host_path, access }] }
}

/// What is wrong with a root.
pub open spec fn root_fault(root: WorkspaceRootView) -> Option<SandboxErrorView> {
    if root.path.len() == 0 {
        Some(SandboxErrorView::InvalidRequest("workspace path must not be empty"@))
    } else if !path::absolute(root.path) {
        Some(SandboxErrorView::InvalidRequest("workspace path must be absolute"@))
    } else {
        None
    }
}

/// What is wrong with roots: the first fault.
pub open spec fn roots_fault(roots: Seq<WorkspaceRootView>) -> Option<SandboxErrorView>
    decreases roots.len(),
{
    if roots.len() == 0 {
        None
    } else {
        match roots_fault(roots.drop_last()) {
            Some(fault) => Some(fault),
            None => root_fault(roots.last()),
        }
    }
}

/// What is wrong with a policy.
pub open spec fn filesystem_fault(policy: FilesystemPolicyView) -> Option<SandboxErrorView> {
    match policy {
        FilesystemPolicyView::Workspace { roots } => roots_fault(roots),
        _ => None,
    }
}

/// What is wrong with some roots is wrong whatever follows.
proof fn lemma_fault_stays(roots: Seq<WorkspaceRootView>, n: int)
    requires
        0 <= n <= roots.len(),
        roots_fault(roots.take(n)) is Some,
    ensures
        roots_fault(roots) == roots_fault(roots.take(n)),
    decreases roots.len() - n,
{
    if n == roots.len() {
        assert(roots.take(n) =~= roots);
    } else {
        assert(roots.take(n + 1).drop_last() =~= roots.take(n));
        lemma_fault_stays(roots, n + 1);
    }
}

impl FilesystemPolicy {
    /// The policy with one root.
    pub fn workspace(host_path: HostPath, access: FilesystemAccess) -> (r: Self)
        ensures
            r@ == one_root(host_path@, access),
    {
        let mut roots: Vec<WorkspaceRoot> = Vec::new();
        roots.push(WorkspaceRoot { path: host_path, access });
        assert(views::all(roots@) =~= seq![WorkspaceRootView { path: host_path@, access }]);
        FilesystemPolicy::Workspace { roots }
    }

    /// Whether each root is an absolute path.
    pub fn validate(&self) -> (r: Result<(), SandboxError>)
        ensures
            match filesystem_fault(self@) {
                None => r is Ok,
                Some(fault) => r matches Err(e) && e@ == fault,
            },
    {
        let roots = match self {
            FilesystemPolicy::Workspace { roots } => roots,
            _ => {
                return Ok(());
            },
        };
        let ghost all = views::all(roots@);
        let mut i: usize = 0;
        assert(all.take(0) =~= Seq::<WorkspaceRootView>::empty());
        while i < roots.len()
            invariant
                i <= roots@.len(),
                all == views::all(roots@),
                filesystem_fault(self@) == roots_fault(all),
                roots_fault(all.take(i as int)) is None,
            decreases roots@.len() - i,
        {
            let ghost next = all.take(i + 1);
            assert(next.drop_last() =~= all.take(i as int));
            assert(next.last() == roots@[i as int]@);
            if roots[i].path.is_empty() {
                proof {
                    lemma_fault_stays(all, i + 1);
                }
                return Err(
                    SandboxError::InvalidRequest("workspace path must not be empty".to_string()),
                );
            }
            if !roots[i].path.is_absolute() {
                proof {
                    lemma_fault_stays(all, i + 1);
                }
                return Err(
                    SandboxError::InvalidRequest("workspace path must be absolute".to_string()),
                );
            }
            i = i + 1;
        }
        assert(all.take(i as int) =~= all);
        Ok(())
    }
}

/// What a command is to be kept from.
#[derive(Debug, PartialEq)]
pub struct SandboxPolicy {
    pub filesystem: PolicySetting<FilesystemPolicy>,
    pub network: PolicySetting<NetworkAccess>,
    pub process: PolicySetting<ProcessPolicy>,
    pub identity: PolicySetting<IdentityIsolation>,
}

/// What a `SandboxPolicy` holds.
#[verifier::ext_equal]
pub struct SandboxPolicyView {
    pub filesystem: PolicySetting<FilesystemPolicyView>,
    pub network: PolicySetting<NetworkAccess>,
    pub process: PolicySetting<ProcessPolicy>,
    pub identity: PolicySetting<IdentityIsolation>,
}

impl View for SandboxPolicy {
    type V = SandboxPolicyView;

    open spec fn view(&self) -> SandboxPolicyView {
        SandboxPolicyView {
            filesystem: PolicySetting {
                requested: self.filesystem.requested@,
                unsupported: self.filesystem.unsupported,
            },
            network: self.network,
            process: self.process,
            identity: self.identity,
        }
    }
}

impl Clone for SandboxPolicy {
    fn clone(&self) -> (r: Self)
        ensures
            r@ == self@,
    {
        SandboxPolicy {
            filesystem: PolicySetting {
                requested: self.filesystem.requested.clone(),
                unsupported: self.filesystem.unsupported,
            },
            network: PolicySetting {
                requested: self.network.requested,
                unsupported: self.network.unsupported,
            },
            process: PolicySetting {
                requested: self.process.requested,
                unsupported: self.process.unsupported,
            },
            identity: PolicySetting {
                requested: self.identity.requested,
                unsupported: self.identity.unsupported,
            },
        }
    }
}

/// The policy that keeps a command from files and network, and from other
/// processes and the caller's identity where that can be done.
pub open spec fn default_policy() -> SandboxPolicyView {
    SandboxPolicyView {
        filesystem: sandbox::strictly(FilesystemPolicyView::Isolated),
        network: sandbox::strictly(NetworkAccess::Isolated),
        process: sandbox::leniently(
            ProcessPolicy { visibility: ProcessVisibility::Isolated, terminate_descendants: true },
        ),
        identity: sandbox::leniently(IdentityIsolation::Unprivileged),
    }
}

impl Default for SandboxPolicy {
    fn default() -> (r: Self)
        ensures
            r@ == default_policy(),
    {
        SandboxPolicy {
            filesystem: PolicySetting::strict(FilesystemPolicy::Isolated),
            network: PolicySetting::strict(NetworkAccess::Isolated),
            process: PolicySetting::fallback(ProcessPolicy::default()),
            identity: PolicySetting::fallback(IdentityIsolation::Unprivileged),
        }
    }
}

impl SandboxPolicy {
    /// A workspace that can be read.
    pub fn workspace_read_only(host_path: HostPath) -> (r: Self)
        ensures
            r@ == (SandboxPolicyView {
                filesystem: sandbox::strictly(one_root(host_path@, FilesystemAccess::ReadOnly)),
                ..default_policy()
            }),
    {
        SandboxPolicy {
            filesystem: PolicySetting::strict(
                FilesystemPolicy::workspace(host_path, FilesystemAccess::ReadOnly),
            ),
            ..SandboxPolicy::default()
        }
    }

    /// A workspace that can be written.
    pub fn workspace_read_write(host_path: HostPath) -> (r: Self)
        ensures
            r@ == (SandboxPolicyView {
                filesystem: sandbox::strictly(one_root(host_path@, FilesystemAccess::ReadWrite)),
                ..default_policy()
            }),
    {
        SandboxPolicy {
            filesystem: PolicySetting::strict(
                FilesystemPolicy::workspace(host_path, FilesystemAccess::ReadWrite),
            ),
            ..SandboxPolicy::default()
        }
    }

    /// A workspace that can be written, with the network of the host.
    pub fn workspace_read_write_with_host_network(host_path: HostPath) -> (r: Self)
        ensures
            r@ == (SandboxPolicyView {
                filesystem: sandbox::strictly(one_root(host_path@, FilesystemAccess::ReadWrite)),
                network: sandbox::strictly(NetworkAccess::Host),
                ..default_policy()
            }),
    {
        SandboxPolicy {
            filesystem: PolicySetting::strict(
                FilesystemPolicy::workspace(host_path, FilesystemAccess::ReadWrite),
            ),
            network: PolicySetting::strict(NetworkAccess::Host),
            ..SandboxPolicy::default()
        }
    }

    /// Whether the policy makes sense.
    pub fn validate(&self) -> (r: Result<(), SandboxError>)
        ensures
            match filesystem_fault(self@.filesystem.requested) {
                None => r is Ok,
                Some(fault) => r matches Err(e) && e@ == fault,
            },
    {
        self.filesystem.requested.validate()
    }
}

/// The guarantees as they were asked for.
pub open spec fn as_requested(policy: SandboxPolicyView) -> EffectiveSandboxPolicyView {
    EffectiveSandboxPolicyView {
        filesystem: policy.filesystem.requested,
        network: policy.network.requested,
        process: policy.process.requested,
        identity: policy.identity.requested,
    }
}

/// The guarantees that a backend keeps.
#[derive(Debug, PartialEq)]
pub struct EffectiveSandboxPolicy {
    pub filesystem: FilesystemPolicy,
    pub network: NetworkAccess,
    pub process: ProcessPolicy,
    pub identity: IdentityIsolation,
}

/// What a `EffectiveSandboxPolicy` holds.
#[verifier::ext_equal]
pub struct EffectiveSandboxPolicyView {
    pub filesystem: FilesystemPolicyView,
    pub network: NetworkAccess,
    pub process: ProcessPolicy,
    pub identity: IdentityIsolation,
}

impl View for EffectiveSandboxPolicy {
    type V = EffectiveSandboxPolicyView;

    open spec fn view(&self) -> EffectiveSandboxPolicyView {
        EffectiveSandboxPolicyView {
            filesystem: self.filesystem@,
            network: self.network,
            process: self.process,
            identity: self.identity,
        }
    }
}

impl Clone for EffectiveSandboxPolicy {
    fn clone(&self) -> (r: Self)
        ensures
            r@ == self@,
    {
        EffectiveSandboxPolicy {
            filesystem: self.filesystem.clone(),
            network: self.network,
            process: self.process,
            identity: self.identity,
        }
    }
}

/// What becomes of the guarantees that were asked for.
#[derive(Debug, PartialEq)]
pub struct SandboxPolicyResolution {
    pub requested: SandboxPolicy,
    pub effective: EffectiveSandboxPolicy,
    pub warnings: Vec<SandboxWarning>,
}

/// What a `SandboxPolicyResolution` holds.
#[verifier::ext_equal]
pub struct SandboxPolicyResolutionView {
    pub requested: SandboxPolicyView,
    pub effective: EffectiveSandboxPolicyView,
    pub warnings: Seq<SandboxWarningView>,
}

impl View for SandboxPolicyResolution {
    type V = SandboxPolicyResolutionView;

    open spec fn view(&self) -> SandboxPolicyResolutionView {
        SandboxPolicyResolutionView {
            requested: self.requested@,
            effective: self.effective@,
            warnings: views::all(self.warnings@),
        }
    }
}

impl Clone for SandboxPolicyResolution {
    fn clone(&self) -> (r: Self)
        ensures
            r@ == self@,
    {
        let r = SandboxPolicyResolution {
            requested: self.requested.clone(),
            effective: self.effective.clone(),
            warnings: self.warnings.clone(),
        };
        assert(views::all(r.warnings@) =~= views::all(self.warnings@));
        r
    }
}

/// A command to be run in a sandbox.
#[derive(Debug, PartialEq)]
pub struct SandboxRequest {
    /// The program, as a path of the host.
    pub program: HostPath,
    pub args: Vec<String>,
    /// The working directory, as a path of the host.
    pub cwd: HostPath,
    pub environment: Vec<EnvironmentVariable>,
    pub policy: SandboxPolicy,
}

/// What a `SandboxRequest` holds.
#[verifier::ext_equal]
pub struct SandboxRequestView {
    pub program: Seq<u8>,
    pub args: Seq<Seq<char>>,
    pub cwd: Seq<u8>,
    pub environment: Seq<EnvironmentVariableView>,
    pub policy: SandboxPolicyView,
}

impl View for SandboxRequest {
    type V = SandboxRequestView;

    open spec fn view(&self) -> SandboxRequestView {
        SandboxRequestView {
            program: self.program@,
            args: views::all(self.args@),
            cwd: self.cwd@,
            environment: views::all(self.environment@),
            policy: self.policy@,
        }
    }
}

impl Clone for SandboxRequest {
    fn clone(&self) -> (r: Self)
        ensures
            r@ == self@,
    {
        let r = SandboxRequest {
            program: self.program.clone(),
            args: self.args.clone(),
            cwd: self.cwd.clone(),
            environment: self.environment.clone(),
            policy: self.policy.clone(),
        };
        assert(views::all(r.args@) =~= views::all(self.args@));
        assert(views::all(r.environment@) =~= views::all(self.environment@));
        r
    }
}

/// What is wrong with a request.
pub open spec fn request_fault(request: SandboxRequestView) -> Option<SandboxErrorView> {
    if request.program.len() == 0 {
        Some(SandboxErrorView::InvalidRequest("program must not be empty"@))
    } else if !path::absolute(request.cwd) {
        Some(
            SandboxErrorView::InvalidRequest("working directory must be an absolute host path"@),
        )
    } else {
        filesystem_fault(request.policy.filesystem.requested)
    }
}

impl SandboxRequest {
    /// Whether the request can be carried out at all.
    pub fn validate(&self) -> (r: Result<(), SandboxError>)
        ensures
            match request_fault(self@) {
                None => r is Ok,
                Some(fault) => r matches Err(e) && e@ == fault,
            },
    {
        if self.program.is_empty() {
            return Err(SandboxError::InvalidRequest("program must not be empty".to_string()));
        }
        if !self.cwd.is_absolute() {
            return Err(
                SandboxError::InvalidRequest(
                    "working directory must be an absolute host path".to_string(),
                ),
            );
        }
        self.policy.validate()
    }
}

/// The first root that is no absolute path makes a policy invalid, and a policy
/// without one is valid.
pub proof fn law_valid_roots_are_absolute(roots: Seq<WorkspaceRootView>)
    ensures
        roots_fault(roots) is None <==> forall|i: int|
            0 <= i < roots.len() ==> path::absolute((#[trigger] roots[i]).path),
    decreases roots.len(),
{
    if roots.len() > 0 {
        let before = roots.drop_last();
        let last = roots.len() - 1;
        law_valid_roots_are_absolute(before);
        assert forall|i: int| 0 <= i < last implies #[trigger] roots[i] == before[i] by {}
        if roots_fault(roots) is None {
            assert forall|i: int| 0 <= i < roots.len() implies path::absolute(
                (#[trigger] roots[i]).path,
            ) by {
                if i < last {
                    assert(path::absolute(before[i].path));
                }
            }
        }
        if forall|i: int| 0 <= i < roots.len() ==> path::absolute((#[trigger] roots[i]).path) {
            assert(path::absolute(roots[last].path));
            assert forall|i: int| 0 <= i < before.len() implies path::absolute(
                (#[trigger] before[i]).path,
            ) by {
                assert(path::absolute(roots[i].path));
            }
        }
    }
}

} // verus!
