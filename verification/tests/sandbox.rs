//! Paths, policies and the backends that enforce them.
use lite_agent::tools::path::{normalize_absolute_path, spell, HostPath};
use lite_agent::tools::sandbox::{
    classify_policy_violation, preflight, FilesystemAccess, FilesystemPolicy, FilesystemRule,
    IdentityIsolation, NetworkAccess, PolicySetting, ProcessPolicy, ProcessVisibility, SandboxError,
    SandboxPolicy, SandboxPolicyDimension, SandboxPreflight, SandboxRequest, SandboxStatus,
};
use lite_agent::tools_native::linux::{
    has_denied_filesystem_rule, setup_steps, soften_denied_filesystem, LinuxNativeBackend,
    SetupStep,
};
use lite_agent::tools_native::policy;
use lite_agent::tools_native::seatbelt::MacOsSeatbeltBackend;

fn path(text: &str) -> HostPath {
    HostPath::from_text(text)
}

fn rule(text: &str, access: FilesystemAccess) -> FilesystemRule {
    FilesystemRule { path: path(text), access }
}

fn request(program: &str, cwd: &str) -> SandboxRequest {
    SandboxRequest {
        program: path(program),
        args: Vec::new(),
        cwd: path(cwd),
        environment: Vec::new(),
        policy: SandboxPolicy::workspace_read_write(path("/tmp")),
    }
}

#[test]
fn filesystem_rules_use_longest_matching_path() {
    let policy = FilesystemPolicy::Workspace {
        default_access: FilesystemAccess::Denied,
        rules: vec![
            rule("/project", FilesystemAccess::ReadWrite),
            rule("/project/src", FilesystemAccess::ReadOnly),
            rule("/project/src/generated", FilesystemAccess::ReadWrite),
        ],
    };

    assert_eq!(
        policy.access_for(&path("/project/main.rs")).unwrap(),
        FilesystemAccess::ReadWrite
    );
    assert_eq!(
        policy.access_for(&path("/project/src/main.rs")).unwrap(),
        FilesystemAccess::ReadOnly
    );
    assert_eq!(
        policy.access_for(&path("/project/src/generated/file.rs")).unwrap(),
        FilesystemAccess::ReadWrite
    );
    assert_eq!(
        policy.access_for(&path("/project-other/file")).unwrap(),
        FilesystemAccess::Denied
    );
}

#[test]
fn filesystem_rules_match_path_components_not_string_prefixes() {
    let policy = FilesystemPolicy::Workspace {
        default_access: FilesystemAccess::Denied,
        rules: vec![rule("/project/src", FilesystemAccess::ReadWrite)],
    };

    assert_eq!(
        policy.access_for(&path("/project/src-old/file")).unwrap(),
        FilesystemAccess::Denied
    );
}

#[test]
fn filesystem_rules_reject_duplicate_normalized_paths() {
    let policy = FilesystemPolicy::Workspace {
        default_access: FilesystemAccess::Denied,
        rules: vec![
            rule("/project/src", FilesystemAccess::ReadOnly),
            rule("/project/./src", FilesystemAccess::ReadWrite),
        ],
    };

    assert!(policy.validate().is_err());
    let error = policy.validate().unwrap_err();
    assert_eq!(
        error.message(),
        "invalid sandbox request: duplicate filesystem rule: /project/src"
    );
    assert_eq!(policy.access_for(&path("/elsewhere")).unwrap_err(), error);
}

#[test]
fn strict_pid_isolation_is_rejected() {
    let backend = LinuxNativeBackend;
    let mut policy = SandboxPolicy::workspace_read_write(path("/tmp"));
    policy.process = PolicySetting::strict(ProcessPolicy::default());
    assert!(backend.resolve_policy(&policy).is_err());
}

#[test]
fn default_pid_and_identity_policies_fall_back() {
    let backend = LinuxNativeBackend;
    let policy = SandboxPolicy::workspace_read_write(path("/tmp"));
    let resolution = backend.resolve_policy(&policy).expect("resolution");
    assert_eq!(resolution.warnings.len(), 1);
    assert_eq!(resolution.effective.process.visibility, ProcessVisibility::Host);
}

#[test]
fn renders_read_only_workspace_profile() {
    let policy = policy::EffectiveSandboxPolicy {
        filesystem: policy::FilesystemPolicy::workspace(
            path("/tmp/workspace"),
            policy::FilesystemAccess::ReadOnly,
        ),
        network: NetworkAccess::Denied,
        process: ProcessPolicy::default(),
        identity: IdentityIsolation::Host,
    };
    let profile = MacOsSeatbeltBackend::profile_for(&policy).expect("profile");
    assert!(profile.contains("(deny file-write*)"));
    assert!(profile.contains("(deny network*)"));
    assert!(!profile.contains("(allow file-write* (subpath \"/tmp/workspace\"))"));
}

#[test]
fn renders_read_write_workspace_profile() {
    let policy = policy::EffectiveSandboxPolicy {
        filesystem: policy::FilesystemPolicy::workspace(
            path("/tmp/workspace"),
            policy::FilesystemAccess::ReadWrite,
        ),
        network: NetworkAccess::Host,
        process: ProcessPolicy::default(),
        identity: IdentityIsolation::Host,
    };
    let profile = MacOsSeatbeltBackend::profile_for(&policy).expect("profile");
    assert!(profile.contains("(allow file-write* (subpath \"/tmp/workspace\"))"));
    assert!(!profile.contains("(deny network*)"));
}

#[test]
fn rejects_unsupported_process_isolation_by_default() {
    let backend = MacOsSeatbeltBackend::new();
    let mut policy = policy::SandboxPolicy::workspace_read_write(path("/tmp/workspace"));
    policy.process = PolicySetting::strict(ProcessPolicy::default());
    let error = backend.resolve_policy(&policy).expect_err("policy must be rejected");
    assert!(error.message().contains("process visibility"));
}

#[test]
fn records_process_and_identity_fallbacks() {
    let backend = MacOsSeatbeltBackend::new();
    let policy = policy::SandboxPolicy::workspace_read_write(path("/tmp/workspace"));
    let resolution = backend.resolve_policy(&policy).expect("fallback policy");
    assert_eq!(resolution.warnings.len(), 2);
    assert_eq!(resolution.effective.process.visibility, ProcessVisibility::Host);
    assert_eq!(resolution.effective.identity, IdentityIsolation::Host);
}

#[test]
fn paths_are_the_same_when_their_components_are() {
    assert_eq!(path("/a//b/./c/"), path("/a/b/c"));
    assert_ne!(path("/a/../b"), path("/b"));
    assert_ne!(path("./a"), path("a"));
    assert_eq!(path("a/./b"), path("a/b"));
    assert_ne!(path("/"), path(""));
}

#[test]
fn normal_paths_have_no_detours() {
    let names = normalize_absolute_path(&path("//a/./b/../c//")).expect("names");
    assert_eq!(names, vec![b"a".to_vec(), b"c".to_vec()]);
    assert_eq!(spell(&names).bytes, b"/a/c".to_vec());
    let again = normalize_absolute_path(&spell(&names)).expect("names");
    assert_eq!(again, names);
    assert!(normalize_absolute_path(&path("/")).expect("root").is_empty());
    assert_eq!(spell(&Vec::new()).bytes, b"/".to_vec());
}

#[test]
fn paths_that_lead_nowhere_are_refused() {
    let relative = normalize_absolute_path(&path("a/b")).unwrap_err();
    assert_eq!(
        relative,
        SandboxError::InvalidRequest("filesystem paths must be absolute".to_string())
    );
    let above = normalize_absolute_path(&path("/a/../../b")).unwrap_err();
    assert_eq!(
        above,
        SandboxError::InvalidRequest(
            "filesystem path escapes its root: /a/../../b".to_string()
        )
    );
    let bytes = HostPath::from_bytes(vec![47, 46, 46, 47, 255]);
    assert_eq!(
        normalize_absolute_path(&bytes).unwrap_err(),
        SandboxError::InvalidRequest(
            "filesystem path escapes its root: /../\u{fffd}".to_string()
        )
    );
}

#[test]
fn the_order_of_rules_does_not_matter() {
    let rules = vec![
        rule("/a/b", FilesystemAccess::Denied),
        rule("/a", FilesystemAccess::ReadWrite),
        rule("/", FilesystemAccess::ReadOnly),
    ];
    let mut reversed = rules.clone();
    reversed.reverse();
    for rules in [rules, reversed] {
        let policy =
            FilesystemPolicy::Workspace { default_access: FilesystemAccess::Denied, rules };
        assert_eq!(policy.access_for(&path("/a/b/c")).unwrap(), FilesystemAccess::Denied);
        assert_eq!(policy.access_for(&path("/a/../a/c")).unwrap(), FilesystemAccess::ReadWrite);
        assert_eq!(policy.access_for(&path("/c")).unwrap(), FilesystemAccess::ReadOnly);
    }
    assert_eq!(
        FilesystemPolicy::Isolated.access_for(&path("/a")).unwrap(),
        FilesystemAccess::Denied
    );
    assert_eq!(
        FilesystemPolicy::Host.access_for(&path("/a")).unwrap(),
        FilesystemAccess::ReadWrite
    );
    assert!(FilesystemPolicy::Host.access_for(&path("a")).is_err());
}

#[test]
fn requests_are_checked_in_order() {
    assert_eq!(
        request("", "tmp").validate().unwrap_err().message(),
        "invalid sandbox request: program must not be empty"
    );
    assert_eq!(
        request("/bin/sh", "tmp").validate().unwrap_err().message(),
        "invalid sandbox request: working directory must be an absolute host path"
    );
    assert!(request("/bin/sh", "/tmp").validate().is_ok());
    let mut bad = request("/bin/sh", "/tmp");
    bad.policy = SandboxPolicy::workspace_read_only(path("relative"));
    assert!(bad.validate().is_err());
}

#[test]
fn preflight_takes_what_the_backend_resolves() {
    let backend = LinuxNativeBackend;
    let good = request("/bin/sh", "/tmp");
    let resolved = backend.resolve_policy(&good.policy);
    assert_eq!(preflight(&good, resolved).unwrap(), SandboxPreflight::Allowed);
    let refusal = Err(SandboxError::UnsupportedPolicy("no".to_string()));
    assert_eq!(
        preflight(&good, refusal).unwrap_err().message(),
        "sandbox policy is unsupported: no"
    );
    let prepared = backend.prepare(&request("", "/tmp"));
    assert_eq!(
        prepared.unwrap_err().message(),
        "invalid sandbox request: program must not be empty"
    );
}

#[test]
fn denied_access_is_softened_to_reading() {
    let denied = FilesystemPolicy::Workspace {
        default_access: FilesystemAccess::Denied,
        rules: vec![
            rule("/secret", FilesystemAccess::Denied),
            rule("/work", FilesystemAccess::ReadWrite),
        ],
    };
    assert!(has_denied_filesystem_rule(&denied));
    let soft = soften_denied_filesystem(&denied);
    assert_eq!(
        soft,
        FilesystemPolicy::Workspace {
            default_access: FilesystemAccess::ReadOnly,
            rules: vec![
                rule("/secret", FilesystemAccess::ReadOnly),
                rule("/work", FilesystemAccess::ReadWrite),
            ],
        }
    );
    assert!(!has_denied_filesystem_rule(&soft));
    assert_eq!(soften_denied_filesystem(&soft), soft);
}

#[test]
fn linux_softens_denied_rules_with_a_warning() {
    let mut policy = SandboxPolicy::default();
    policy.filesystem = PolicySetting::fallback(FilesystemPolicy::Workspace {
        default_access: FilesystemAccess::ReadWrite,
        rules: vec![rule("/secret", FilesystemAccess::Denied)],
    });
    let resolution = LinuxNativeBackend.resolve_policy(&policy).expect("resolution");
    assert_eq!(
        resolution.effective.filesystem,
        FilesystemPolicy::Workspace {
            default_access: FilesystemAccess::ReadWrite,
            rules: vec![rule("/secret", FilesystemAccess::ReadOnly)],
        }
    );
    let soft = &resolution.effective.filesystem;
    let FilesystemPolicy::Workspace { .. } = soft else { panic!("expected a workspace") };
    for (place, access) in [
        ("/secret/key", FilesystemAccess::ReadOnly),
        ("/elsewhere", FilesystemAccess::ReadWrite),
    ] {
        assert_eq!(soft.access_for(&path(place)).ok(), Some(access));
    }
    policy.filesystem.requested = soft.clone();
    let again = LinuxNativeBackend::default().resolve_policy(&policy).expect("resolution");
    assert_eq!(&again.effective.filesystem, soft);
    assert_eq!(again.warnings.len(), 1);
    policy.filesystem.requested = FilesystemPolicy::Workspace {
        default_access: FilesystemAccess::Denied,
        rules: Vec::new(),
    };
    let dimensions: Vec<_> =
        resolution.warnings.iter().map(|warning| warning.dimension).collect();
    assert_eq!(
        dimensions,
        vec![SandboxPolicyDimension::Process, SandboxPolicyDimension::Filesystem]
    );
    policy.filesystem.unsupported = PolicySetting::strict(()).unsupported;
    assert_eq!(
        LinuxNativeBackend.resolve_policy(&policy).unwrap_err().message(),
        "sandbox policy is unsupported: Landlock path-deny rules are not enabled in the first Linux launcher"
    );
    assert!(LinuxNativeBackend.resolve_policy(&SandboxPolicy::default()).is_err());
}

#[test]
fn linux_mounts_deeper_rules_later() {
    let mut policy = SandboxPolicy::workspace_read_write_with_host_network(path("/a/b/c"));
    policy.filesystem = PolicySetting::strict(FilesystemPolicy::Workspace {
        default_access: FilesystemAccess::ReadOnly,
        rules: vec![
            rule("/a/b/c", FilesystemAccess::ReadOnly),
            rule("/a", FilesystemAccess::ReadWrite),
            rule("/b", FilesystemAccess::ReadOnly),
        ],
    });
    let resolution = LinuxNativeBackend.resolve_policy(&policy).expect("resolution");
    let steps = setup_steps(&resolution.effective);
    assert_eq!(
        steps,
        vec![
            SetupStep::UserNamespace,
            SetupStep::MountNamespace,
            SetupStep::PrivateMounts,
            SetupStep::ReadOnlyRoot,
            SetupStep::Mount { path: path("/a"), read_only: false },
            SetupStep::Mount { path: path("/b"), read_only: true },
            SetupStep::Mount { path: path("/a/b/c"), read_only: true },
        ]
    );
    assert_eq!(steps[1].operation(), "create mount namespace");
    let mut isolated = resolution.effective;
    isolated.network = NetworkAccess::Isolated;
    isolated.filesystem = FilesystemPolicy::Host;
    isolated.identity = IdentityIsolation::Host;
    assert_eq!(setup_steps(&isolated), vec![SetupStep::NetworkNamespace]);
}

#[test]
fn seatbelt_profiles_are_exact() {
    let mut policy = policy::EffectiveSandboxPolicy {
        filesystem: policy::FilesystemPolicy::Workspace {
            roots: vec![
                policy::WorkspaceRoot {
                    path: path("/a \"b\"\\\n\r"),
                    access: policy::FilesystemAccess::ReadWrite,
                },
                policy::WorkspaceRoot {
                    path: path("/read"),
                    access: policy::FilesystemAccess::ReadOnly,
                },
            ],
        },
        network: NetworkAccess::Isolated,
        process: ProcessPolicy::default(),
        identity: IdentityIsolation::Host,
    };
    assert_eq!(
        MacOsSeatbeltBackend::profile_for(&policy).expect("profile"),
        "(version 1)\n(allow default)\n(deny file-write*)\n(allow file-write* (subpath \"/a \\\"b\\\"\\\\\\n\\r\"))\n(deny network*)\n"
    );
    policy.filesystem = policy::FilesystemPolicy::Host;
    policy.network = NetworkAccess::Host;
    assert_eq!(
        MacOsSeatbeltBackend::profile_for(&policy).expect("profile"),
        "(version 1)\n(allow default)\n"
    );
    policy.filesystem = policy::FilesystemPolicy::Isolated;
    assert_eq!(
        MacOsSeatbeltBackend::profile_for(&policy).unwrap_err().message(),
        "sandbox policy is unsupported: Seatbelt profile cannot represent isolated filesystem access"
    );
    policy.filesystem = policy::FilesystemPolicy::workspace(
        HostPath::from_bytes(vec![47, 255]),
        policy::FilesystemAccess::ReadWrite,
    );
    assert_eq!(
        MacOsSeatbeltBackend::profile_for(&policy).unwrap_err().message(),
        "invalid sandbox request: Seatbelt paths must be valid UTF-8"
    );
}

#[test]
fn seatbelt_refuses_roots_that_are_not_absolute() {
    let backend = MacOsSeatbeltBackend::with_sandbox_exec(path("/opt/sandbox-exec"));
    assert_eq!(backend.name(), "macos-seatbelt");
    let empty = policy::SandboxPolicy::workspace_read_only(path(""));
    assert_eq!(
        backend.resolve_policy(&empty).unwrap_err().message(),
        "invalid sandbox request: workspace path must not be empty"
    );
    let relative = policy::SandboxPolicy::workspace_read_write_with_host_network(path("a"));
    assert_eq!(
        backend.resolve_policy(&relative).unwrap_err().message(),
        "invalid sandbox request: workspace path must be absolute"
    );
    assert!(backend.resolve_policy(&policy::SandboxPolicy::default()).is_err());
    let request = policy::SandboxRequest {
        program: path("/bin/true"),
        args: Vec::new(),
        cwd: path("tmp"),
        environment: Vec::new(),
        policy: policy::SandboxPolicy::workspace_read_write(path("/tmp")),
    };
    assert_eq!(
        backend.prepare(&request).unwrap_err().message(),
        "invalid sandbox request: working directory must be an absolute host path"
    );
}

#[test]
fn a_refused_operation_is_recognised_by_its_words() {
    let exited = SandboxStatus::Exited { code: 1 };
    let words = b"  cat: Permission DENIED \n".to_vec();
    assert_eq!(
        classify_policy_violation(exited.clone(), &words),
        SandboxStatus::PolicyViolation { reason: "cat: Permission DENIED".to_string() }
    );
    assert_eq!(classify_policy_violation(SandboxStatus::TimedOut, &words), SandboxStatus::TimedOut);
    assert_eq!(classify_policy_violation(exited.clone(), &b"not found".to_vec()), exited);
}

#[test]
fn processes_end_in_one_way() {
    assert_eq!(SandboxStatus::of_process(true, Some(9), Some(0)), SandboxStatus::Cancelled);
    assert_eq!(
        SandboxStatus::of_process(false, Some(9), None),
        SandboxStatus::Signaled { signal: 9 }
    );
    assert_eq!(
        SandboxStatus::of_process(false, None, Some(3)),
        SandboxStatus::Exited { code: 3 }
    );
    assert_eq!(SandboxStatus::of_process(false, None, None), SandboxStatus::Exited { code: -1 });
}
