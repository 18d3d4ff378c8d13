//! What the sandboxes of the operating systems make of a policy, guarantee by
//! guarantee.
use crate::tools::path;
use crate::tools::sandbox::{
    self, EffectiveSandboxPolicyView, FilesystemAccess, FilesystemPolicyView, FilesystemRuleView,
    IdentityIsolation, NetworkAccess, ProcessVisibility, SandboxErrorView, SandboxPolicyDimension,
    SandboxPolicyView, SandboxWarningView, UnsupportedPolicyBehavior,
};
use crate::tools_native::linux::{self, SetupStepView};
use crate::tools_native::policy::{self, WorkspaceRootView};
use crate::tools_native::seatbelt;
use vstd::prelude::*;

verus! {

/// A guarantee that cannot be kept: what is said of it, and whether it must be kept.
pub struct Lapse {
    pub dimension: SandboxPolicyDimension,
    pub message: Seq<char>,
    pub strict: bool,
}

/// The warnings for guarantees that are not kept, in their order.
pub open spec fn told_of(lapses: Seq<Lapse>) -> Seq<SandboxWarningView> {
    Seq::new(
        lapses.len(),
        |i: int|
            SandboxWarningView { dimension: lapses[i].dimension, message: lapses[i].message },
    )
}

/// Whether a guarantee that cannot be kept must be, and no earlier one must.
pub open spec fn first_strict(lapses: Seq<Lapse>, i: int) -> bool {
    &&& 0 <= i < lapses.len()
    &&& lapses[i].strict
    &&& forall|j: int| 0 <= j < i ==> !(#[trigger] lapses[j]).strict
}

/// One guarantee that cannot be kept, where that is so.
pub open spec fn lapse(
    lapsed: bool,
    dimension: SandboxPolicyDimension,
    message: Seq<char>,
    unsupported: UnsupportedPolicyBehavior,
) -> Seq<Lapse> {
    if lapsed {
        seq![
            Lapse { dimension, message, strict: unsupported == UnsupportedPolicyBehavior::Error },
        ]
    } else {
        Seq::empty()
    }
}

// ---------------------------------------------------------------------------
// Linux

/// Whether some access of a workspace is denied.
pub open spec fn hides(filesystem: FilesystemPolicyView) -> bool {
    filesystem matches FilesystemPolicyView::Workspace { default_access, rules } && (default_access
        == FilesystemAccess::Denied || exists|i: int|
        0 <= i < rules.len() && (#[trigger] rules[i]).access == FilesystemAccess::Denied)
}

/// Whether a workspace is another one in which what was denied can be read and all
/// else is as it was.
pub open spec fn shown(before: FilesystemPolicyView, after: FilesystemPolicyView) -> bool {
    &&& before matches FilesystemPolicyView::Workspace { default_access: x, rules: p }
    &&& after matches FilesystemPolicyView::Workspace { default_access: y, rules: q }
    &&& y == if x == FilesystemAccess::Denied {
        FilesystemAccess::ReadOnly
    } else {
        x
    }
    &&& q.len() == p.len()
    &&& forall|i: int|
        0 <= i < p.len() ==> {
            &&& (#[trigger] q[i]).path == p[i].path
            &&& q[i].access == if p[i].access == FilesystemAccess::Denied {
                FilesystemAccess::ReadOnly
            } else {
                p[i].access
            }
        }
}

/// Softening shows what was denied, to be read and not to be written, and changes
/// nothing else.
pub proof fn law_denied_can_only_be_read(filesystem: FilesystemPolicyView)
    ensures
        filesystem is Workspace ==> shown(filesystem, linux::softened(filesystem)),
        !(filesystem is Workspace) ==> linux::softened(filesystem) == filesystem,
        linux::denies(filesystem) == hides(filesystem),
{
    if let FilesystemPolicyView::Workspace { default_access, rules } = filesystem {
        if hides(filesystem) && default_access != FilesystemAccess::Denied {
            let i = choose|i: int|
                0 <= i < rules.len() && (#[trigger] rules[i]).access == FilesystemAccess::Denied;
            assert(rules[i].access == FilesystemAccess::Denied);
        }
    }
}

/// What Linux cannot keep of a policy: processes that do not see each other, and
/// files that cannot be seen.
pub open spec fn linux_lapses(asked: SandboxPolicyView) -> Seq<Lapse> {
    lapse(
        asked.process.requested.visibility == ProcessVisibility::Isolated,
        SandboxPolicyDimension::Process,
        "the first Linux launcher does not yet provide PID namespace isolation"@,
        asked.process.unsupported,
    ) + lapse(
        asked.filesystem.requested is Isolated,
        SandboxPolicyDimension::Filesystem,
        "Linux workspace sandboxing requires an explicit workspace policy"@,
        asked.filesystem.unsupported,
    ) + lapse(
        hides(asked.filesystem.requested),
        SandboxPolicyDimension::Filesystem,
        "Landlock path-deny rules are not enabled in the first Linux launcher"@,
        asked.filesystem.unsupported,
    )
}

/// On Linux a policy with rules that are refused is refused; one of which something
/// that must be kept cannot be is refused with the first such; any other is kept as
/// it was asked for, but for what cannot be, each with its warning: other processes
/// are seen, isolation from all files gives way to the files of the host, and what
/// was denied can be read.
pub proof fn law_linux_resolution(asked: SandboxPolicyView)
    ensures
        ({
            let lapses = linux_lapses(asked);
            match linux::resolved(asked) {
                Err(e) => {
                    ||| asked.filesystem.requested matches FilesystemPolicyView::Workspace {
                        default_access,
                        rules,
                    } && sandbox::rules_fault(rules) == Some(e)
                    ||| exists|i: int|
                        #[trigger] first_strict(lapses, i) && e
                            == SandboxErrorView::UnsupportedPolicy(lapses[i].message)
                },
                Ok(r) => {
                    &&& asked.filesystem.requested matches FilesystemPolicyView::Workspace {
                        default_access,
                        rules,
                    } ==> sandbox::rules_fault(rules) is None
                    &&& forall|i: int|
                        0 <= i < lapses.len() ==> !(#[trigger] lapses[i]).strict
                    &&& r.requested == asked
                    &&& r.warnings == told_of(lapses)
                    &&& r.effective.network == asked.network.requested
                    &&& r.effective.identity == asked.identity.requested
                    &&& r.effective.process.visibility == ProcessVisibility::Host
                    &&& r.effective.process.terminate_descendants
                        == asked.process.requested.terminate_descendants
                    &&& if asked.filesystem.requested is Isolated {
                        r.effective.filesystem is Host
                    } else if hides(asked.filesystem.requested) {
                        shown(asked.filesystem.requested, r.effective.filesystem)
                    } else {
                        r.effective.filesystem == asked.filesystem.requested
                    }
                },
            }
        }),
{
    let lapses = linux_lapses(asked);
    let filesystem = asked.filesystem.requested;
    law_denied_can_only_be_read(filesystem);
    let one = asked.process.requested.visibility == ProcessVisibility::Isolated;
    let last = lapses.len() - 1;
    match linux::resolved(asked) {
        Err(e) => {
            if sandbox::filesystem_fault(filesystem) is None {
                if one && asked.process.unsupported == UnsupportedPolicyBehavior::Error {
                    assert(first_strict(lapses, 0));
                } else {
                    assert(first_strict(lapses, last));
                }
            }
        },
        Ok(r) => {
            assert(r.warnings =~= told_of(lapses));
        },
    }
}

/// Whether a step mounts the place of a rule with its access.
pub open spec fn mounts_rule(step: SetupStepView, rule: FilesystemRuleView) -> bool {
    step matches SetupStepView::Mount { path, read_only } && path == rule.path && read_only == (
    rule.access != FilesystemAccess::ReadWrite)
}

/// A rule is mounted after all that are not deeper, and before all that are: rules
/// of one depth are mounted in their order.
pub proof fn law_rules_of_one_depth_stay_in_order(
    rules: Seq<FilesystemRuleView>,
    rule: FilesystemRuleView,
) -> (k: int)
    ensures
        ({
            let before = linux::by_depth(rules);
            let after = linux::by_depth(rules.push(rule));
            let depth = path::components(rule.path).len();
            &&& 0 <= k <= before.len()
            &&& after == before.insert(k, rule)
            &&& forall|j: int|
                k <= j < before.len() ==> path::components((#[trigger] before[j]).path).len()
                    > depth
            &&& k > 0 ==> path::components(before[k - 1].path).len() <= depth
        }),
{
    assert(rules.push(rule).drop_last() =~= rules);
    lemma_with_rule(linux::by_depth(rules), rule)
}

proof fn lemma_with_rule(
    sorted: Seq<FilesystemRuleView>,
    rule: FilesystemRuleView,
) -> (k: int)
    ensures
        ({
            let depth = path::components(rule.path).len();
            &&& 0 <= k <= sorted.len()
            &&& linux::with_rule(sorted, rule) == sorted.insert(k, rule)
            &&& forall|j: int|
                k <= j < sorted.len() ==> path::components((#[trigger] sorted[j]).path).len()
                    > depth
            &&& k > 0 ==> path::components(sorted[k - 1].path).len() <= depth
        }),
    decreases sorted.len(),
{
    if sorted.len() > 0 && path::components(sorted.last().path).len() > path::components(
        rule.path,
    ).len() {
        let less = sorted.drop_last();
        let k = lemma_with_rule(less, rule);
        assert(less.insert(k, rule).push(sorted.last()) =~= sorted.insert(k, rule));
        assert forall|j: int| k <= j < sorted.len() implies path::components(
            (#[trigger] sorted[j]).path,
        ).len() > path::components(rule.path).len() by {
            if j < less.len() {
                assert(sorted[j] == less[j]);
            }
        }
        k
    } else {
        assert(sorted.push(rule) =~= sorted.insert(sorted.len() as int, rule));
        sorted.len() as int
    }
}

/// A sandbox is set up in this order: a user of its own, if the command is to have no
/// privileges; mounts of its own that do not spread, a root that cannot be written,
/// and each rule's place with its access, unless it has the files of the host; and a
/// network of its own, unless it has that of the host. Nothing else is done.
pub proof fn law_setup_is_what_the_policy_says(effective: EffectiveSandboxPolicyView)
    ensures
        ({
            let steps = linux::setup(effective);
            let user = effective.identity == IdentityIsolation::Unprivileged;
            let own_files = !(effective.filesystem is Host);
            let own_network = effective.network != NetworkAccess::Host;
            let sorted = match effective.filesystem {
                FilesystemPolicyView::Workspace { default_access, rules } => linux::by_depth(
                    rules,
                ),
                _ => Seq::empty(),
            };
            let at = if user {
                1int
            } else {
                0int
            };
            let end = at + if own_files {
                3 + sorted.len()
            } else {
                0
            };
            &&& steps.len() == end + if own_network {
                1int
            } else {
                0int
            }
            &&& user ==> steps[0] is UserNamespace
            &&& own_files ==> {
                &&& steps[at] is MountNamespace
                &&& steps[at + 1] is PrivateMounts
                &&& steps[at + 2] is ReadOnlyRoot
                &&& forall|i: int|
                    0 <= i < sorted.len() ==> mounts_rule(
                        steps[at + 3 + i],
                        #[trigger] sorted[i],
                    )
            }
            &&& own_network ==> steps[end] is NetworkNamespace
        }),
{
    if let FilesystemPolicyView::Workspace { default_access, rules } = effective.filesystem {
        linux::law_deeper_rules_are_mounted_later(rules);
        linux::by_depth(rules).to_multiset_ensures();
        rules.to_multiset_ensures();
        assert(linux::by_depth(rules).len() == rules.len());
    }
}

/// A step that fails is named by what it does.
pub proof fn law_step_is_named(path: Seq<u8>, read_only: bool)
    ensures
        linux::operation(SetupStepView::UserNamespace) == "create user namespace"@,
        linux::operation(SetupStepView::MountNamespace) == "create mount namespace"@,
        linux::operation(SetupStepView::PrivateMounts) == "make mounts private"@,
        linux::operation(SetupStepView::ReadOnlyRoot) == "make root read-only"@,
        linux::operation(SetupStepView::Mount { path, read_only }) == "apply filesystem rules"@,
        linux::operation(SetupStepView::NetworkNamespace) == "create network namespace"@,
{
}

// ---------------------------------------------------------------------------
// macOS

/// What macOS cannot keep of a policy: processes that do not see each other, a user
/// without privileges, and isolation from all files.
pub open spec fn seatbelt_lapses(asked: policy::SandboxPolicyView) -> Seq<Lapse> {
    lapse(
        asked.process.requested.visibility == ProcessVisibility::Isolated,
        SandboxPolicyDimension::Process,
        "Seatbelt cannot isolate host process visibility"@,
        asked.process.unsupported,
    ) + lapse(
        asked.identity.requested == IdentityIsolation::Unprivileged,
        SandboxPolicyDimension::Identity,
        "Seatbelt cannot change the command's host identity"@,
        asked.identity.unsupported,
    ) + lapse(
        asked.filesystem.requested is Isolated,
        SandboxPolicyDimension::Filesystem,
        "Seatbelt backend requires an explicit workspace or host filesystem policy"@,
        asked.filesystem.unsupported,
    )
}

/// On macOS a policy with roots that are refused is refused; one of which something
/// that must be kept cannot be is refused with the first such; any other is kept as
/// it was asked for, but for what cannot be, each with its warning: other processes
/// are seen, the user stays, and isolation from all files gives way to the files of
/// the host.
pub proof fn law_seatbelt_resolution(asked: policy::SandboxPolicyView)
    ensures
        ({
            let lapses = seatbelt_lapses(asked);
            match seatbelt::resolved(asked) {
                Err(e) => {
                    ||| asked.filesystem.requested matches policy::FilesystemPolicyView::Workspace {
                        roots,
                    } && policy::roots_fault(roots) == Some(e)
                    ||| exists|i: int|
                        #[trigger] first_strict(lapses, i) && e
                            == SandboxErrorView::UnsupportedPolicy(lapses[i].message)
                },
                Ok(r) => {
                    &&& asked.filesystem.requested matches policy::FilesystemPolicyView::Workspace {
                        roots,
                    } ==> policy::roots_fault(roots) is None
                    &&& forall|i: int|
                        0 <= i < lapses.len() ==> !(#[trigger] lapses[i]).strict
                    &&& r.requested == asked
                    &&& r.warnings == told_of(lapses)
                    &&& r.effective.network == asked.network.requested
                    &&& r.effective.identity == IdentityIsolation::Host
                    &&& r.effective.process.visibility == ProcessVisibility::Host
                    &&& r.effective.process.terminate_descendants
                        == asked.process.requested.terminate_descendants
                    &&& if asked.filesystem.requested is Isolated {
                        r.effective.filesystem is Host
                    } else {
                        r.effective.filesystem == asked.filesystem.requested
                    }
                },
            }
        }),
{
    let lapses = seatbelt_lapses(asked);
    let one = asked.process.requested.visibility == ProcessVisibility::Isolated;
    let two = asked.identity.requested == IdentityIsolation::Unprivileged;
    match seatbelt::resolved(asked) {
        Err(e) => {
            if policy::filesystem_fault(asked.filesystem.requested) is None {
                if one && asked.process.unsupported == UnsupportedPolicyBehavior::Error {
                    assert(first_strict(lapses, 0));
                } else if two && asked.identity.unsupported == UnsupportedPolicyBehavior::Error {
                    assert(first_strict(
                        lapses,
                        if one {
                            1
                        } else {
                            0
                        },
                    ));
                } else {
                    assert(first_strict(lapses, lapses.len() - 1));
                }
            }
        },
        Ok(r) => {
            assert(r.warnings =~= told_of(lapses));
        },
    }
}

/// A root that can be written adds one line to a profile that allows writing below
/// it, and none where it can only be read; a root that can be written and is no text
/// is refused.
pub proof fn law_writable_roots_are_allowed(
    roots: Seq<WorkspaceRootView>,
    root: WorkspaceRootView,
)
    ensures
        seatbelt::allow_lines(Seq::empty()) == Ok::<Seq<char>, SandboxErrorView>(Seq::empty()),
        seatbelt::allow_lines(roots.push(root)) == match seatbelt::allow_lines(roots) {
            Err(e) => Err(e),
            Ok(lines) => if root.access != policy::FilesystemAccess::ReadWrite {
                Ok(lines)
            } else if vstd::utf8::valid_utf8(root.path) {
                Ok(
                    lines + ("(allow file-write* (subpath \""@ + seatbelt::escaped(
                        vstd::utf8::decode_utf8(root.path),
                    ) + "\"))\n"@),
                )
            } else {
                Err(SandboxErrorView::InvalidRequest("Seatbelt paths must be valid UTF-8"@))
            },
        },
{
    assert(roots.push(root).drop_last() =~= roots);
}

/// A profile allows everything but what it denies after that: writing, unless the
/// files are those of the host, with the roots allowed again after; and the network,
/// unless it is that of the host. Isolation from all files has no profile.
pub proof fn law_profile_is_what_the_policy_says(effective: policy::EffectiveSandboxPolicyView)
    ensures
        ({
            let head = "(version 1)\n(allow default)\n"@;
            let network = if effective.network == NetworkAccess::Host {
                Seq::empty()
            } else {
                "(deny network*)\n"@
            };
            match effective.filesystem {
                policy::FilesystemPolicyView::Host => {
                    &&& seatbelt::profile(effective) matches Ok(lines)
                    &&& lines =~= head + network
                },
                policy::FilesystemPolicyView::Workspace { roots } => match seatbelt::allow_lines(
                    roots,
                ) {
                    Ok(allowed) => {
                        &&& seatbelt::profile(effective) matches Ok(lines)
                        &&& lines =~= head + ("(deny file-write*)\n"@ + allowed) + network
                    },
                    Err(e) => seatbelt::profile(effective) == Err::<Seq<char>, SandboxErrorView>(e),
                },
                policy::FilesystemPolicyView::Isolated => seatbelt::profile(effective) == Err::<
                    Seq<char>,
                    SandboxErrorView,
                >(
                    SandboxErrorView::UnsupportedPolicy(
                        "Seatbelt profile cannot represent isolated filesystem access"@,
                    ),
                ),
            }
        }),
{
    let head = "(version 1)\n(allow default)\n"@;
    assert(head + Seq::<char>::empty() =~= head);
}

/// Roots are refused exactly where one is no absolute path, with the error of the
/// first such root.
pub proof fn law_which_roots_are_refused(roots: Seq<WorkspaceRootView>, root: WorkspaceRootView)
    ensures
        policy::roots_fault(Seq::empty()) is None,
        policy::roots_fault(roots.push(root)) == match policy::roots_fault(roots) {
            Some(e) => Some(e),
            None => if root.path.len() == 0 {
                Some(SandboxErrorView::InvalidRequest("workspace path must not be empty"@))
            } else if root.path[0] != path::SLASH {
                Some(SandboxErrorView::InvalidRequest("workspace path must be absolute"@))
            } else {
                None
            },
        },
        policy::default_policy().filesystem.requested is Isolated,
        policy::default_policy().filesystem.unsupported == UnsupportedPolicyBehavior::Error,
        policy::default_policy().network.requested == NetworkAccess::Isolated,
        policy::default_policy().network.unsupported == UnsupportedPolicyBehavior::Error,
        policy::default_policy().process.requested.visibility == ProcessVisibility::Isolated,
        policy::default_policy().process.requested.terminate_descendants,
        policy::default_policy().identity.requested == IdentityIsolation::Unprivileged,
{
    assert(roots.push(root).drop_last() =~= roots);
}

/// A path is written between quotes character by character: a backslash, a quote and
/// a line's end with a backslash before them, and any other character as it is.
pub proof fn law_path_is_written_between_quotes(text: Seq<char>, c: char)
    ensures
        seatbelt::escaped(Seq::empty()).len() == 0,
        seatbelt::escaped(text.push(c)) == seatbelt::escaped(text) + (if c == '\\' || c == '"' {
            seq!['\\', c]
        } else if c == '\n' {
            seq!['\\', 'n']
        } else if c == '\r' {
            seq!['\\', 'r']
        } else {
            seq![c]
        }),
{
    assert(text.push(c).drop_last() =~= text);
}

/// A request is refused, in this order, where it names no program, where it is to
/// run nowhere in particular, and where its roots are refused.
pub proof fn law_which_requests_are_refused(request: policy::SandboxRequestView)
    ensures
        policy::request_fault(request) == if request.program.len() == 0 {
            Some(SandboxErrorView::InvalidRequest("program must not be empty"@))
        } else if request.cwd.len() == 0 || request.cwd[0] != path::SLASH {
            Some(
                SandboxErrorView::InvalidRequest(
                    "working directory must be an absolute host path"@,
                ),
            )
        } else {
            match request.policy.filesystem.requested {
                policy::FilesystemPolicyView::Workspace { roots } => policy::roots_fault(roots),
                _ => None,
            }
        },
{
}

/// A workspace of one place grants its access there and nowhere else.
pub proof fn law_workspace_of_one_root(host_path: Seq<u8>, access: policy::FilesystemAccess)
    ensures
        policy::one_root(host_path, access) matches policy::FilesystemPolicyView::Workspace {
            roots,
        } && roots.len() == 1 && roots[0].path == host_path && roots[0].access == access,
{
}

} // verus!
