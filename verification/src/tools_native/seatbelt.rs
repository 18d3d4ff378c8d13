//! A sandbox on macOS: what becomes of a policy, and the profile that enforces it.
use crate::text::chars_of;
use crate::tools::path::HostPath;
use crate::tools::sandbox::{
    self, unsupported, IdentityIsolation, NetworkAccess, ProcessPolicy, ProcessVisibility,
    SandboxError, SandboxErrorView, SandboxPolicyDimension, SandboxWarning, SandboxWarningView,
    UnsupportedPolicyBehavior,
};
use crate::tools_native::policy::{
    self, EffectiveSandboxPolicy, EffectiveSandboxPolicyView, FilesystemAccess, FilesystemPolicy,
    FilesystemPolicyView, SandboxPolicy, SandboxPolicyResolution, SandboxPolicyResolutionView,
    SandboxPolicyView, SandboxRequest, WorkspaceRootView,
};
use crate::views;
use vstd::prelude::*;

verus! {

/// The macOS backend, which keeps guarantees by the Seatbelt of `sandbox-exec`.
#[derive(Debug)]
pub struct MacOsSeatbeltBackend {
    pub sandbox_exec: HostPath,
}

impl Clone for MacOsSeatbeltBackend {
    fn clone(&self) -> (r: Self)
        ensures
            r.sandbox_exec@ == self.sandbox_exec@,
    {
        MacOsSeatbeltBackend { sandbox_exec: self.sandbox_exec.clone() }
    }
}

impl Default for MacOsSeatbeltBackend {
    fn default() -> (r: Self)
        ensures
            r.sandbox_exec@ == vstd::utf8::encode_utf8("/usr/bin/sandbox-exec"@),
    {
        MacOsSeatbeltBackend::new()
    }
}

/// A step of the resolution: the guarantees that are left, and the warnings.
#[verifier::ext_equal]
pub struct Settled {
    pub effective: EffectiveSandboxPolicyView,
    pub warnings: Seq<SandboxWarningView>,
}

/// The process dimension: other processes cannot be hidden.
pub open spec fn process_settled(
    policy: SandboxPolicyView,
    before: Settled,
) -> Result<Settled, SandboxErrorView> {
    if policy.process.requested.visibility == ProcessVisibility::Isolated {
        match sandbox::not_kept(
            policy.process.unsupported,
            SandboxPolicyDimension::Process,
            "Seatbelt cannot isolate host process visibility"@,
            before.warnings,
        ) {
            Ok(warnings) => Ok(
                Settled {
                    effective: EffectiveSandboxPolicyView {
                        process: ProcessPolicy {
                            visibility: ProcessVisibility::Host,
                            ..before.effective.process
                        },
                        ..before.effective
                    },
                    warnings,
                },
            ),
            Err(refusal) => Err(refusal),
        }
    } else {
        Ok(before)
    }
}

/// The identity dimension: the user cannot be changed.
pub open spec fn identity_settled(
    policy: SandboxPolicyView,
    before: Settled,
) -> Result<Settled, SandboxErrorView> {
    if policy.identity.requested == IdentityIsolation::Unprivileged {
        match sandbox::not_kept(
            policy.identity.unsupported,
            SandboxPolicyDimension::Identity,
            "Seatbelt cannot change the command's host identity"@,
            before.warnings,
        ) {
            Ok(warnings) => Ok(
                Settled {
                    effective: EffectiveSandboxPolicyView {
                        identity: IdentityIsolation::Host,
                        ..before.effective
                    },
                    warnings,
                },
            ),
            Err(refusal) => Err(refusal),
        }
    } else {
        Ok(before)
    }
}

/// The filesystem dimension: there must be a workspace.
pub open spec fn filesystem_settled(
    policy: SandboxPolicyView,
    before: Settled,
) -> Result<Settled, SandboxErrorView> {
    if before.effective.filesystem is Isolated {
        match sandbox::not_kept(
            policy.filesystem.unsupported,
            SandboxPolicyDimension::Filesystem,
            "Seatbelt backend requires an explicit workspace or host filesystem policy"@,
            before.warnings,
        ) {
            Ok(warnings) => Ok(
                Settled {
                    effective: EffectiveSandboxPolicyView {
                        filesystem: FilesystemPolicyView::Host,
                        ..before.effective
                    },
                    warnings,
                },
            ),
            Err(refusal) => Err(refusal),
        }
    } else {
        Ok(before)
    }
}

/// What becomes of a policy on macOS: processes first, then identity, then files.
pub open spec fn resolved(policy: SandboxPolicyView) -> Result<
    SandboxPolicyResolutionView,
    SandboxErrorView,
> {
    match policy::filesystem_fault(policy.filesystem.requested) {
        Some(fault) => Err(fault),
        None => match process_settled(
            policy,
            Settled { effective: policy::as_requested(policy), warnings: Seq::empty() },
        ) {
            Err(refusal) => Err(refusal),
            Ok(first) => match identity_settled(policy, first) {
                Err(refusal) => Err(refusal),
                Ok(second) => match filesystem_settled(policy, second) {
                    Err(refusal) => Err(refusal),
                    Ok(third) => Ok(
                        SandboxPolicyResolutionView {
                            requested: policy,
                            effective: third.effective,
                            warnings: third.warnings,
                        },
                    ),
                },
            },
        },
    }
}

/// How a character is written between the quotes of a profile.
pub open spec fn escaped_char(c: char) -> Seq<char> {
    if c == '\\' {
        seq!['\\', '\\']
    } else if c == '"' {
        seq!['\\', '"']
    } else if c == '\n' {
        seq!['\\', 'n']
    } else if c == '\r' {
        seq!['\\', 'r']
    } else {
        seq![c]
    }
}

/// How a text is written between the quotes of a profile.
pub open spec fn escaped(text: Seq<char>) -> Seq<char>
    decreases text.len(),
{
    if text.len() == 0 {
        Seq::empty()
    } else {
        escaped(text.drop_last()) + escaped_char(text.last())
    }
}

/// The line that allows writing below a path.
pub open spec fn allow_line(path: Seq<char>) -> Seq<char> {
    "(allow file-write* (subpath \""@ + escaped(path) + "\"))\n"@
}

/// The lines for the roots that can be written, or the refusal of one that is no
/// text.
pub open spec fn allow_lines(roots: Seq<WorkspaceRootView>) -> Result<
    Seq<char>,
    SandboxErrorView,
>
    decreases roots.len(),
{
    if roots.len() == 0 {
        Ok(Seq::empty())
    } else {
        match allow_lines(roots.drop_last()) {
            Err(fault) => Err(fault),
            Ok(lines) => if roots.last().access != FilesystemAccess::ReadWrite {
                Ok(lines)
            } else if !vstd::utf8::valid_utf8(roots.last().path) {
                Err(SandboxErrorView::InvalidRequest("Seatbelt paths must be valid UTF-8"@))
            } else {
                Ok(lines + allow_line(vstd::utf8::decode_utf8(roots.last().path)))
            },
        }
    }
}

/// The part of a profile that speaks of files.
pub open spec fn file_lines(policy: FilesystemPolicyView) -> Result<Seq<char>, SandboxErrorView> {
    match policy {
        FilesystemPolicyView::Host => Ok(Seq::empty()),
        FilesystemPolicyView::Workspace { roots } => match allow_lines(roots) {
            Ok(lines) => Ok("(deny file-write*)\n"@ + lines),
            Err(fault) => Err(fault),
        },
        FilesystemPolicyView::Isolated => Err(
            SandboxErrorView::UnsupportedPolicy(
                "Seatbelt profile cannot represent isolated filesystem access"@,
            ),
        ),
    }
}

/// The profile for guarantees: all is allowed but what the lines deny.
pub open spec fn profile(policy: EffectiveSandboxPolicyView) -> Result<
    Seq<char>,
    SandboxErrorView,
> {
    match file_lines(policy.filesystem) {
        Err(fault) => Err(fault),
        Ok(lines) => Ok(
            "(version 1)\n(allow default)\n"@ + lines + (match policy.network {
                NetworkAccess::Denied => "(deny network*)\n"@,
                NetworkAccess::Isolated => "(deny network*)\n"@,
                NetworkAccess::Host => Seq::empty(),
            }),
        ),
    }
}

/// How a path is written between the quotes of a profile.
fn escape_profile_path(path: &HostPath) -> (r: Result<String, SandboxError>)
    ensures
        if vstd::utf8::valid_utf8(path@) {
            r matches Ok(text) && text@ == escaped(vstd::utf8::decode_utf8(path@))
        } else {
            r matches Err(e) && e@ == SandboxErrorView::InvalidRequest(
                "Seatbelt paths must be valid UTF-8"@,
            )
        },
{
    let text = match path.text() {
        Some(text) => text,
        None => {
            return Err(
                SandboxError::InvalidRequest("Seatbelt paths must be valid UTF-8".to_string()),
            );
        },
    };
    let chars = chars_of(text.as_str());
    let mut out = String::new();
    let mut i: usize = 0;
    assert(chars@.take(0) =~= Seq::<char>::empty());
    while i < chars.len()
        invariant
            i <= chars@.len(),
            out@ == escaped(chars@.take(i as int)),
        decreases chars@.len() - i,
    {
        let c = chars[i];
        let ghost before = out@;
        assert(chars@.take(i + 1).drop_last() =~= chars@.take(i as int));
        assert(chars@.take(i + 1).last() == c);
        if c == '\\' {
            out.push('\\');
            out.push('\\');
        } else if c == '"' {
            out.push('\\');
            out.push('"');
        } else if c == '\n' {
            out.push('\\');
            out.push('n');
        } else if c == '\r' {
            out.push('\\');
            out.push('r');
        } else {
            out.push(c);
        }
        assert(out@ =~= before + escaped_char(c));
        i = i + 1;
    }
    assert(chars@.take(i as int) =~= chars@);
    Ok(out)
}

/// What is wrong with some roots is wrong whatever follows.
proof fn lemma_refusal_stays(roots: Seq<WorkspaceRootView>, n: int)
    requires
        0 <= n <= roots.len(),
        allow_lines(roots.take(n)) is Err,
    ensures
        allow_lines(roots) == allow_lines(roots.take(n)),
    decreases roots.len() - n,
{
    if n == roots.len() {
        assert(roots.take(n) =~= roots);
    } else {
        assert(roots.take(n + 1).drop_last() =~= roots.take(n));
        lemma_refusal_stays(roots, n + 1);
    }
}

/// The profile for guarantees.
fn render_profile(policy: &EffectiveSandboxPolicy) -> (r: Result<String, SandboxError>)
    ensures
        match profile(policy@) {
            Ok(text) => r matches Ok(rendered) && rendered@ == text,
            Err(fault) => r matches Err(e) && e@ == fault,
        },
{
    let mut profile = "(version 1)\n(allow default)\n".to_string();
    let ghost head = profile@;
    match &policy.filesystem {
        FilesystemPolicy::Host => {
            assert(head + Seq::<char>::empty() =~= head);
        },
        FilesystemPolicy::Workspace { roots } => {
            profile.append("(deny file-write*)\n");
            let ghost all = views::all(roots@);
            let ghost start = profile@;
            let mut i: usize = 0;
            assert(all.take(0) =~= Seq::<WorkspaceRootView>::empty());
            assert(start + Seq::<char>::empty() =~= start);
            while i < roots.len()
                invariant
                    i <= roots@.len(),
                    all == views::all(roots@),
                    policy@.filesystem == (FilesystemPolicyView::Workspace { roots: all }),
                    allow_lines(all.take(i as int)) matches Ok(lines) && profile@ == start + lines,
                decreases roots@.len() - i,
            {
                let ghost next = all.take(i + 1);
                let ghost lines = allow_lines(all.take(i as int))->Ok_0;
                assert(next.drop_last() =~= all.take(i as int));
                assert(next.last() == roots@[i as int]@);
                if roots[i].access == FilesystemAccess::ReadWrite {
                    match escape_profile_path(&roots[i].path) {
                        Ok(path) => {
                            profile.append("(allow file-write* (subpath \"");
                            profile.append(path.as_str());
                            profile.append("\"))\n");
                            assert(profile@ =~= start + (lines + allow_line(
                                vstd::utf8::decode_utf8(next.last().path),
                            )));
                        },
                        Err(fault) => {
                            proof {
                                lemma_refusal_stays(all, i + 1);
                            }
                            return Err(fault);
                        },
                    }
                }
                i = i + 1;
            }
            assert(all.take(i as int) =~= all);
            assert(profile@ =~= head + ("(deny file-write*)\n"@ + allow_lines(all)->Ok_0));
        },
        FilesystemPolicy::Isolated => {
            return Err(
                SandboxError::UnsupportedPolicy(
                    "Seatbelt profile cannot represent isolated filesystem access".to_string(),
                ),
            );
        },
    }
    match policy.network {
        NetworkAccess::Denied => {
            profile.append("(deny network*)\n");
        },
        NetworkAccess::Isolated => {
            profile.append("(deny network*)\n");
        },
        NetworkAccess::Host => {
            assert(profile@ + Seq::<char>::empty() =~= profile@);
        },
    }
    Ok(profile)
}

impl MacOsSeatbeltBackend {
    /// The backend with the launcher of the system.
    pub fn new() -> (r: Self)
        ensures
            r.sandbox_exec@ == vstd::utf8::encode_utf8("/usr/bin/sandbox-exec"@),
    {
        MacOsSeatbeltBackend { sandbox_exec: HostPath::from_text("/usr/bin/sandbox-exec") }
    }

    /// The backend with another launcher.
    pub fn with_sandbox_exec(path: HostPath) -> (r: Self)
        ensures
            r.sandbox_exec@ == path@,
    {
        MacOsSeatbeltBackend { sandbox_exec: path }
    }

    /// The profile that keeps guarantees. The roots are written as they stand: a
    /// caller who wants links followed puts the places themselves there.
    pub fn profile_for(policy: &EffectiveSandboxPolicy) -> (r: Result<String, SandboxError>)
        ensures
            match profile(policy@) {
                Ok(text) => r matches Ok(rendered) && rendered@ == text,
                Err(fault) => r matches Err(e) && e@ == fault,
            },
    {
        render_profile(policy)
    }

    pub fn name(&self) -> (r: &'static str)
        ensures
            r@ == "macos-seatbelt"@,
    {
        "macos-seatbelt"
    }

    /// What becomes of a policy: which guarantees are kept, and which are not.
    pub fn resolve_policy(&self, policy: &SandboxPolicy) -> (r: Result<
        SandboxPolicyResolution,
        SandboxError,
    >)
        ensures
            views::res(r) == resolved(policy@),
    {
        broadcast use crate::views::group_views;

        if let Err(fault) = policy.validate() {
            return Err(fault);
        }
        let mut effective = EffectiveSandboxPolicy {
            filesystem: policy.filesystem.requested.clone(),
            network: policy.network.requested,
            process: policy.process.requested,
            identity: policy.identity.requested,
        };
        let mut warnings: Vec<SandboxWarning> = Vec::new();
        if policy.process.requested.visibility == ProcessVisibility::Isolated {
            if let Err(refusal) = unsupported(
                policy.process.unsupported,
                SandboxPolicyDimension::Process,
                "Seatbelt cannot isolate host process visibility",
                &mut warnings,
            ) {
                return Err(refusal);
            }
            effective.process.visibility = ProcessVisibility::Host;
        }
        if policy.identity.requested == IdentityIsolation::Unprivileged {
            if let Err(refusal) = unsupported(
                policy.identity.unsupported,
                SandboxPolicyDimension::Identity,
                "Seatbelt cannot change the command's host identity",
                &mut warnings,
            ) {
                return Err(refusal);
            }
            effective.identity = IdentityIsolation::Host;
        }
        let isolated = match &effective.filesystem {
            FilesystemPolicy::Isolated => true,
            _ => false,
        };
        if isolated {
            if let Err(refusal) = unsupported(
                policy.filesystem.unsupported,
                SandboxPolicyDimension::Filesystem,
                "Seatbelt backend requires an explicit workspace or host filesystem policy",
                &mut warnings,
            ) {
                return Err(refusal);
            }
            effective.filesystem = FilesystemPolicy::Host;
        }
        Ok(SandboxPolicyResolution { requested: policy.clone(), effective, warnings })
    }

    /// Checks a request before it is launched, and resolves its policy.
    pub fn prepare(&self, request: &SandboxRequest) -> (r: Result<
        SandboxPolicyResolution,
        SandboxError,
    >)
        ensures
            views::res(r) == match policy::request_fault(request@) {
                Some(fault) => Err(fault),
                None => resolved(request@.policy),
            },
    {
        if let Err(fault) = request.validate() {
            return Err(fault);
        }
        self.resolve_policy(&request.policy)
    }
}

// ---------------------------------------------------------------------------
// Laws

/// What the reader of a profile makes of a text between quotes.
pub open spec fn unescaped(text: Seq<char>) -> Seq<char>
    decreases text.len(),
{
    if text.len() == 0 {
        Seq::empty()
    } else if text[0] == '\\' && text.len() > 1 {
        let c = if text[1] == 'n' {
            '\n'
        } else if text[1] == 'r' {
            '\r'
        } else {
            text[1]
        };
        seq![c] + unescaped(text.skip(2))
    } else {
        seq![text[0]] + unescaped(text.skip(1))
    }
}

proof fn lemma_escaped_first(text: Seq<char>)
    requires
        text.len() > 0,
    ensures
        escaped(text) == escaped_char(text[0]) + escaped(text.skip(1)),
    decreases text.len(),
{
    if text.len() == 1 {
        assert(text.drop_last() =~= Seq::<char>::empty());
        assert(text.skip(1) =~= Seq::<char>::empty());
        assert(escaped(text) =~= escaped_char(text[0]) + escaped(text.skip(1)));
    } else {
        lemma_escaped_first(text.drop_last());
        assert(text.drop_last().skip(1) =~= text.skip(1).drop_last());
        assert(escaped(text) =~= escaped_char(text[0]) + escaped(text.skip(1)));
    }
}

/// What is written between the quotes of a profile reads as the path that was
/// meant.
pub proof fn law_escaped_reads_back(text: Seq<char>)
    ensures
        unescaped(escaped(text)) == text,
    decreases text.len(),
{
    if text.len() == 0 {
        assert(text =~= Seq::<char>::empty());
    } else {
        lemma_escaped_first(text);
        law_escaped_reads_back(text.skip(1));
        let head = escaped_char(text[0]);
        let rest = escaped(text.skip(1));
        let all = escaped(text);
        assert(all.skip(head.len() as int) =~= rest);
        assert(unescaped(all) =~= seq![text[0]] + unescaped(rest));
        assert(seq![text[0]] + text.skip(1) =~= text);
    }
}

/// No line ends inside the quotes of a profile.
pub proof fn law_escaped_stays_on_its_line(text: Seq<char>)
    ensures
        !escaped(text).contains('\n'),
        !escaped(text).contains('\r'),
    decreases text.len(),
{
    if text.len() > 0 {
        law_escaped_stays_on_its_line(text.drop_last());
        let front = escaped(text.drop_last());
        let tail = escaped_char(text.last());
        assert forall|i: int| 0 <= i < escaped(text).len() implies #[trigger] escaped(text)[i]
            != '\n' && escaped(text)[i] != '\r' by {
            if i < front.len() {
                assert(front.contains(front[i]));
            }
        }
    }
}

/// A guarantee that must be kept is kept, or the policy is refused.
pub proof fn law_strict_is_kept(policy: SandboxPolicyView)
    requires
        resolved(policy) is Ok,
    ensures
        ({
            let effective = resolved(policy)->Ok_0.effective;
            let requested = policy::as_requested(policy);
            &&& policy.filesystem.unsupported == UnsupportedPolicyBehavior::Error
                ==> effective.filesystem == requested.filesystem
            &&& policy.process.unsupported == UnsupportedPolicyBehavior::Error
                ==> effective.process == requested.process
            &&& policy.identity.unsupported == UnsupportedPolicyBehavior::Error
                ==> effective.identity == requested.identity
            &&& effective.network == requested.network
        }),
{
}

/// Every guarantee that is weakened is warned of, and nothing else is.
pub proof fn law_weakened_is_warned(policy: SandboxPolicyView)
    requires
        resolved(policy) is Ok,
    ensures
        ({
            let resolution = resolved(policy)->Ok_0;
            let requested = policy::as_requested(policy);
            &&& resolution.effective.filesystem != requested.filesystem <==> sandbox::warned(
                resolution.warnings,
                SandboxPolicyDimension::Filesystem,
            )
            &&& resolution.effective.process != requested.process <==> sandbox::warned(
                resolution.warnings,
                SandboxPolicyDimension::Process,
            )
            &&& resolution.effective.identity != requested.identity <==> sandbox::warned(
                resolution.warnings,
                SandboxPolicyDimension::Identity,
            )
            &&& !sandbox::warned(resolution.warnings, SandboxPolicyDimension::Network)
        }),
{
    let resolution = resolved(policy)->Ok_0;
    let start = Settled { effective: policy::as_requested(policy), warnings: Seq::empty() };
    let first = process_settled(policy, start)->Ok_0;
    let second = identity_settled(policy, first)->Ok_0;
    let told = resolution.warnings;
    if policy.process.requested.visibility == ProcessVisibility::Isolated {
        assert(first.warnings[0].dimension == SandboxPolicyDimension::Process);
        assert(told[0] == first.warnings[0]);
    }
    if policy.identity.requested == IdentityIsolation::Unprivileged {
        let n = second.warnings.len() - 1;
        assert(second.warnings[n].dimension == SandboxPolicyDimension::Identity);
        assert(told[n] == second.warnings[n]);
    }
    if policy.filesystem.requested is Isolated {
        let n = told.len() - 1;
        assert(told[n].dimension == SandboxPolicyDimension::Filesystem);
    }
}

/// A policy that was resolved has a profile, if its writable roots are texts.
pub proof fn law_resolved_has_profile(policy: SandboxPolicyView)
    requires
        resolved(policy) is Ok,
        policy.filesystem.requested matches FilesystemPolicyView::Workspace { roots }
            ==> forall|i: int|
            0 <= i < roots.len() ==> vstd::utf8::valid_utf8((#[trigger] roots[i]).path),
    ensures
        profile(resolved(policy)->Ok_0.effective) is Ok,
{
    if let FilesystemPolicyView::Workspace { roots } = policy.filesystem.requested {
        lemma_lines_of_texts(roots);
    }
}

proof fn lemma_lines_of_texts(roots: Seq<WorkspaceRootView>)
    requires
        forall|i: int|
            0 <= i < roots.len() ==> vstd::utf8::valid_utf8((#[trigger] roots[i]).path),
    ensures
        allow_lines(roots) is Ok,
    decreases roots.len(),
{
    if roots.len() > 0 {
        let before = roots.drop_last();
        assert forall|i: int| 0 <= i < before.len() implies vstd::utf8::valid_utf8(
            (#[trigger] before[i]).path,
        ) by {
            assert(before[i] == roots[i]);
        }
        lemma_lines_of_texts(before);
        assert(vstd::utf8::valid_utf8(roots[roots.len() - 1].path));
    }
}

/// Roots that can only be read allow nothing.
pub proof fn law_read_only_roots_allow_nothing(roots: Seq<WorkspaceRootView>)
    requires
        forall|i: int|
            0 <= i < roots.len() ==> (#[trigger] roots[i]).access == FilesystemAccess::ReadOnly,
    ensures
        allow_lines(roots) == Ok::<Seq<char>, SandboxErrorView>(Seq::empty()),
    decreases roots.len(),
{
    if roots.len() > 0 {
        let before = roots.drop_last();
        assert forall|i: int| 0 <= i < before.len() implies (#[trigger] before[i]).access
            == FilesystemAccess::ReadOnly by {
            assert(before[i] == roots[i]);
        }
        law_read_only_roots_allow_nothing(before);
        assert(roots[roots.len() - 1].access == FilesystemAccess::ReadOnly);
    }
}

} // verus!
