//! Where paths lead, and what policies keep a command from.
use crate::text;
use crate::tools::path::{
    self, components, normal_names, part, parts, pieces, settle, ComponentView, DOT, SLASH,
};
use crate::tools::sandbox::{
    self, access, as_requested, classified, default_policy, ended, not_kept, request_fault,
    rule_for, rule_matches, rules_fault, same_policy, FilesystemAccess, FilesystemPolicyView,
    FilesystemRuleView, IdentityIsolation, NetworkAccess, ProcessVisibility, SandboxErrorView,
    SandboxPolicyDimension, SandboxPolicyView, SandboxRequestView, SandboxStatusView,
    SandboxWarningView, UnsupportedPolicyBehavior,
};
use vstd::prelude::*;

verus! {

// ---------------------------------------------------------------------------
// Paths

proof fn lemma_pieces_append(path: Seq<u8>, name: Seq<u8>)
    requires
        !name.contains(SLASH),
    ensures
        pieces(path).len() > 0,
        pieces(path.push(SLASH) + name) == pieces(path).push(name),
    decreases name.len(),
{
    lemma_pieces_some(path);
    let whole = path.push(SLASH) + name;
    if name.len() == 0 {
        assert(whole =~= path.push(SLASH));
        assert(path.push(SLASH).drop_last() =~= path);
        assert(name =~= Seq::empty());
    } else {
        let less = name.drop_last();
        assert forall|i: int| 0 <= i < less.len() implies less[i] != SLASH by {
            assert(name.contains(name[i]));
        }
        assert(!less.contains(SLASH));
        lemma_pieces_append(path, less);
        assert(whole.drop_last() =~= path.push(SLASH) + less);
        assert(name.contains(name[name.len() - 1]));
        assert(whole.last() != SLASH);
        let before = pieces(path).push(less);
        assert(before.drop_last() =~= pieces(path));
        assert(less.push(name.last()) =~= name);
        assert(pieces(whole) == before.drop_last().push(before.last().push(whole.last())));
    }
}

proof fn lemma_pieces_some(path: Seq<u8>)
    ensures
        pieces(path).len() > 0,
    decreases path.len(),
{
    if path.len() > 0 {
        lemma_pieces_some(path.drop_last());
    }
}

proof fn lemma_components_append(path: Seq<u8>, name: Seq<u8>)
    requires
        path::absolute(path),
        !name.contains(SLASH),
    ensures
        path::absolute(path.push(SLASH) + name),
        components(path.push(SLASH) + name) == match part(name, false) {
            Some(component) => components(path).push(component),
            None => components(path),
        },
{
    lemma_pieces_append(path, name);
    let before = pieces(path);
    assert(before.push(name).drop_last() =~= before);
    if let Some(component) = part(name, false) {
        assert((seq![ComponentView::Root] + parts(before).push(component)) =~= (
        seq![ComponentView::Root] + parts(before)).push(component));
    }
}

/// A path leads from the root down: each name in it one step down, two dots one
/// step up, and a dot, or nothing between slashes, nowhere. A path that goes up at
/// the root leads nowhere, whatever follows, and so does one that does not start at
/// the root.
pub proof fn law_where_a_path_leads(path: Seq<u8>, name: Seq<u8>)
    requires
        !name.contains(SLASH),
    ensures
        normal_names(seq![SLASH]) == Ok::<Seq<Seq<u8>>, SandboxErrorView>(Seq::empty()),
        path.len() == 0 || path[0] != SLASH ==> normal_names(path) == Err::<
            Seq<Seq<u8>>,
            SandboxErrorView,
        >(SandboxErrorView::InvalidRequest("filesystem paths must be absolute"@)),
        path.len() > 0 && path[0] == SLASH ==> {
            let longer = path.push(SLASH) + name;
            let escapes = Err::<Seq<Seq<u8>>, SandboxErrorView>(
                SandboxErrorView::InvalidRequest(
                    "filesystem path escapes its root: "@ + text::lossy_text(longer),
                ),
            );
            match normal_names(path) {
                Err(e) => normal_names(longer) == escapes,
                Ok(names) => normal_names(longer) == if name.len() == 0 || name == seq![DOT] {
                    Ok(names)
                } else if name == seq![DOT, DOT] {
                    if names.len() == 0 {
                        escapes
                    } else {
                        Ok(names.drop_last())
                    }
                } else {
                    Ok(names.push(name))
                },
            }
        },
{
    let root = seq![SLASH];
    reveal_with_fuel(pieces, 3);
    reveal_with_fuel(parts, 4);
    reveal_with_fuel(settle, 3);
    assert(root.drop_last() =~= Seq::<u8>::empty());
    let none = Seq::<Seq<u8>>::empty();
    let two = pieces(root);
    assert(two =~= seq![Seq::<u8>::empty(), Seq::<u8>::empty()]);
    assert(two.drop_last() =~= seq![Seq::<u8>::empty()]);
    assert(two.drop_last().drop_last() =~= none);
    assert(components(root) =~= seq![ComponentView::Root]);
    assert(components(root).drop_last() =~= Seq::<ComponentView>::empty());
    if path.len() > 0 && path[0] == SLASH {
        lemma_components_append(path, name);
        if let Some(component) = part(name, false) {
            assert(components(path).push(component).drop_last() =~= components(path));
        }
        assert(seq![DOT].len() == 1 && seq![DOT, DOT].len() == 2);
    }
}

// ---------------------------------------------------------------------------
// File access

/// Rules are refused exactly where one of them leads nowhere or is for the place of
/// an earlier one, with the error of the first such rule.
pub proof fn law_which_rules_are_refused(rules: Seq<FilesystemRuleView>)
    ensures
        match rules_fault(rules) {
            None => {
                &&& forall|i: int| 0 <= i < rules.len() ==> normal_names(
                    (#[trigger] rules[i]).path,
                ) is Ok
                &&& forall|i: int, j: int|
                    0 <= i < j < rules.len() ==> normal_names((#[trigger] rules[i]).path)
                        != normal_names((#[trigger] rules[j]).path)
            },
            Some(e) => exists|k: int|
                {
                    &&& 0 <= k < rules.len()
                    &&& rules_fault(rules.take(k)) is None
                    &&& match normal_names((#[trigger] rules[k]).path) {
                        Err(fault) => e == fault,
                        Ok(names) => (exists|i: int|
                            0 <= i < k && normal_names((#[trigger] rules[i]).path) == Ok::<
                                Seq<Seq<u8>>,
                                SandboxErrorView,
                            >(names)) && e == SandboxErrorView::InvalidRequest(
                            "duplicate filesystem rule: "@ + text::lossy_text(
                                path::spelled(names),
                            ),
                        ),
                    }
                },
        },
    decreases rules.len(),
{
    if rules.len() > 0 {
        let less = rules.drop_last();
        let last = rules.len() - 1;
        law_which_rules_are_refused(less);
        assert forall|i: int| 0 <= i < last implies #[trigger] rules[i] == less[i] by {}
        match rules_fault(less) {
            None => {
                assert(rules.take(last) =~= less);
                if let Some(e) = rules_fault(rules) {
                    if let Ok(names) = normal_names(rules[last].path) {
                        let i = choose|i: int|
                            0 <= i < less.len() && normal_names((#[trigger] less[i]).path) == Ok::<
                                Seq<Seq<u8>>,
                                SandboxErrorView,
                            >(names);
                        assert(normal_names(rules[i].path) == normal_names(less[i].path));
                    }
                    assert(rules[last] == rules.last());
                } else {
                    assert forall|i: int, j: int| 0 <= i < j < rules.len() implies normal_names(
                        (#[trigger] rules[i]).path,
                    ) != normal_names((#[trigger] rules[j]).path) by {
                        if j == last {
                            assert(normal_names(less[i].path) is Ok);
                            assert(!sandbox::has_rule(less, normal_names(rules[j].path)->Ok_0));
                        } else {
                            assert(normal_names(less[i].path) != normal_names(less[j].path));
                        }
                    }
                }
            },
            Some(e) => {
                let k = choose|k: int|
                    {
                        &&& 0 <= k < less.len()
                        &&& rules_fault(less.take(k)) is None
                        &&& match normal_names((#[trigger] less[k]).path) {
                            Err(fault) => e == fault,
                            Ok(names) => (exists|i: int|
                                0 <= i < k && normal_names((#[trigger] less[i]).path) == Ok::<
                                    Seq<Seq<u8>>,
                                    SandboxErrorView,
                                >(names)) && e == SandboxErrorView::InvalidRequest(
                                "duplicate filesystem rule: "@ + text::lossy_text(
                                    path::spelled(names),
                                ),
                            ),
                        }
                    };
                assert(rules.take(k) =~= less.take(k));
                assert(rules[k] == less[k]);
                if let Ok(names) = normal_names(less[k].path) {
                    let i = choose|i: int|
                        0 <= i < k && normal_names((#[trigger] less[i]).path) == Ok::<
                            Seq<Seq<u8>>,
                            SandboxErrorView,
                        >(names);
                    assert(normal_names(rules[i].path) == normal_names(less[i].path));
                }
            },
        }
    }
}

/// Nothing can be reached under isolation and everything under the host's own
/// rules, whatever the path, as long as it leads somewhere; and no path is answered
/// under rules that are refused.
pub proof fn law_access_without_rules(
    path: Seq<u8>,
    default_access: FilesystemAccess,
    rules: Seq<FilesystemRuleView>,
)
    ensures
        normal_names(path) is Ok ==> access(FilesystemPolicyView::Isolated, path) == Ok::<
            FilesystemAccess,
            SandboxErrorView,
        >(FilesystemAccess::Denied),
        normal_names(path) is Ok ==> access(FilesystemPolicyView::Host, path) == Ok::<
            FilesystemAccess,
            SandboxErrorView,
        >(FilesystemAccess::ReadWrite),
        normal_names(path) matches Err(e) ==> {
            &&& access(FilesystemPolicyView::Isolated, path) == Err::<
                FilesystemAccess,
                SandboxErrorView,
            >(e)
            &&& access(FilesystemPolicyView::Host, path) == Err::<
                FilesystemAccess,
                SandboxErrorView,
            >(e)
            &&& access(FilesystemPolicyView::Workspace { default_access, rules }, path) == Err::<
                FilesystemAccess,
                SandboxErrorView,
            >(e)
        },
        normal_names(path) is Ok && rules_fault(rules) is Some ==> access(
            FilesystemPolicyView::Workspace { default_access, rules },
            path,
        ) == Err::<FilesystemAccess, SandboxErrorView>(rules_fault(rules)->0),
{
}

/// A rule matches its own place and everything below it, and nothing else; it is as
/// long as its place is deep.
pub proof fn law_rule_matches_below(
    rule: FilesystemRuleView,
    own: Seq<Seq<u8>>,
    below: Seq<Seq<u8>>,
    other: Seq<Seq<u8>>,
)
    requires
        normal_names(rule.path) == Ok::<Seq<Seq<u8>>, SandboxErrorView>(own),
    ensures
        rule_matches(rule, own + below),
        sandbox::depth(rule) == own.len(),
        rule_matches(rule, other) ==> own.len() <= other.len() && forall|i: int|
            0 <= i < own.len() ==> own[i] == #[trigger] other[i],
{
    assert(own =~= (own + below).take(own.len() as int));
    if rule_matches(rule, other) {
        assert forall|i: int| 0 <= i < own.len() implies own[i] == #[trigger] other[i] by {
            assert(own[i] == other.take(own.len() as int)[i]);
        }
    }
}

proof fn lemma_same_place(a: Seq<u8>, b: Seq<u8>)
    requires
        components(a) == components(b),
    ensures
        normal_names(a) is Ok <==> normal_names(b) is Ok,
        normal_names(a) is Ok ==> normal_names(a) == normal_names(b),
{
    lemma_root_first(a);
    lemma_root_first(b);
}

proof fn lemma_root_first(path: Seq<u8>)
    ensures
        path::absolute(path) <==> components(path).len() > 0 && components(path)[0] is Root,
{
    if !path::absolute(path) {
        lemma_no_root(pieces(path));
    }
}

proof fn lemma_no_root(all: Seq<Seq<u8>>)
    ensures
        forall|i: int| 0 <= i < parts(all).len() ==> !(#[trigger] parts(all)[i] is Root),
    decreases all.len(),
{
    if all.len() > 0 {
        lemma_no_root(all.drop_last());
        let done = parts(all.drop_last());
        assert forall|i: int| 0 <= i < parts(all).len() implies !(
        #[trigger] parts(all)[i] is Root) by {
            if i < done.len() {
                assert(parts(all)[i] == done[i]);
            }
        }
    }
}

proof fn lemma_same_rules(
    a: Seq<FilesystemRuleView>,
    b: Seq<FilesystemRuleView>,
    names: Seq<Seq<u8>>,
)
    requires
        sandbox::same_rules(a, b),
    ensures
        rules_fault(a) is None <==> rules_fault(b) is None,
        rule_for(a, names) == rule_for(b, names),
    decreases a.len(),
{
    if a.len() > 0 {
        let x = a.drop_last();
        let y = b.drop_last();
        let last = a.len() - 1;
        assert forall|i: int| 0 <= i < a.len() implies components((#[trigger] a[i]).path)
            == components(b[i].path) && a[i].access == b[i].access by {}
        assert(sandbox::same_rules(x, y)) by {
            assert forall|i: int| 0 <= i < x.len() implies (#[trigger] x[i]).access == y[i].access
                && components(x[i].path) == components(y[i].path) by {
                assert(x[i] == a[i] && y[i] == b[i]);
            }
        }
        lemma_same_rules(x, y, names);
        assert forall|i: int| 0 <= i < a.len() implies (normal_names(
            (#[trigger] a[i]).path,
        ) is Ok <==> normal_names(b[i].path) is Ok) && (normal_names(a[i].path) is Ok
            ==> normal_names(a[i].path) == normal_names(b[i].path)) by {
            lemma_same_place(a[i].path, b[i].path);
        }
        sandbox::law_longest_rule_wins(x, names);
        sandbox::law_longest_rule_wins(y, names);
        assert(a[last] == a.last() && b[last] == b.last());
        if let Some(i) = rule_for(x, names) {
            assert(x[i] == a[i] && y[i] == b[i]);
        }
        if let Ok(own) = normal_names(a[last].path) {
            if sandbox::has_rule(x, own) {
                let i = choose|i: int|
                    0 <= i < x.len() && normal_names((#[trigger] x[i]).path) == Ok::<
                        Seq<Seq<u8>>,
                        SandboxErrorView,
                    >(own);
                assert(a[i] == x[i] && y[i] == b[i]);
                assert(normal_names(y[i].path) == normal_names(x[i].path));
                assert(sandbox::has_rule(y, own));
            }
            if sandbox::has_rule(y, own) {
                let i = choose|i: int|
                    0 <= i < y.len() && normal_names((#[trigger] y[i]).path) == Ok::<
                        Seq<Seq<u8>>,
                        SandboxErrorView,
                    >(own);
                assert(a[i] == x[i] && y[i] == b[i]);
                assert(normal_names(y[i].path) == normal_names(x[i].path));
                assert(sandbox::has_rule(x, own));
            }
        }
    }
}

/// Policies that count as the same ask for the same network, processes and identity
/// with the same strictness, and grant the same access to every path; a policy is
/// the same as itself, and one that asks for another network, other processes,
/// another identity or another strictness is not.
pub proof fn law_same_policies_agree(a: SandboxPolicyView, b: SandboxPolicyView, path: Seq<u8>)
    ensures
        same_policy(a, a),
        same_policy(a, b) == same_policy(b, a),
        same_policy(a, b) ==> {
            &&& a.network == b.network
            &&& a.process == b.process
            &&& a.identity == b.identity
            &&& a.filesystem.unsupported == b.filesystem.unsupported
            &&& access(a.filesystem.requested, path) is Ok <==> access(
                b.filesystem.requested,
                path,
            ) is Ok
            &&& access(a.filesystem.requested, path) matches Ok(granted) ==> access(
                b.filesystem.requested,
                path,
            ) == Ok::<FilesystemAccess, SandboxErrorView>(granted)
        },
        a.filesystem.requested == b.filesystem.requested && a.filesystem.unsupported
            == b.filesystem.unsupported && a.network == b.network && a.process == b.process
            && a.identity == b.identity ==> same_policy(a, b),
{
    match (a.filesystem.requested, b.filesystem.requested) {
        (
            FilesystemPolicyView::Workspace { default_access: x, rules: p },
            FilesystemPolicyView::Workspace { default_access: y, rules: q },
        ) => {
            if sandbox::same_rules(p, q) {
                if let Ok(names) = normal_names(path) {
                    lemma_same_rules(p, q, names);
                    sandbox::law_longest_rule_wins(p, names);
                }
                assert forall|i: int| 0 <= i < q.len() implies (#[trigger] q[i]).access
                    == p[i].access && components(q[i].path) == components(p[i].path) by {
                    assert(p[i].access == q[i].access);
                }
            }
            if sandbox::same_rules(q, p) {
                assert forall|i: int| 0 <= i < p.len() implies (#[trigger] p[i]).access
                    == q[i].access && components(p[i].path) == components(q[i].path) by {
                    assert(q[i].access == p[i].access);
                }
            }
        },
        _ => {},
    }
}

// ---------------------------------------------------------------------------
// Requests and what comes of them

/// The usual policy keeps a command strictly from files and from the network, and
/// asks that it see no other process, end with all that it started, and have no
/// privileges, as far as that can be done.
pub proof fn law_default_policy()
    ensures
        default_policy().filesystem.requested is Isolated,
        default_policy().filesystem.unsupported == UnsupportedPolicyBehavior::Error,
        default_policy().network.requested == NetworkAccess::Isolated,
        default_policy().network.unsupported == UnsupportedPolicyBehavior::Error,
        default_policy().process.requested.visibility == ProcessVisibility::Isolated,
        default_policy().process.requested.terminate_descendants,
        default_policy().process.unsupported == UnsupportedPolicyBehavior::WarnAndFallback,
        default_policy().identity.requested == IdentityIsolation::Unprivileged,
        default_policy().identity.unsupported == UnsupportedPolicyBehavior::WarnAndFallback,
{
}

/// A workspace with one rule grants that access to its place and everything below
/// it, and reading to all else.
pub proof fn law_workspace(
    place: Seq<u8>,
    granted: FilesystemAccess,
    path: Seq<u8>,
    own: Seq<Seq<u8>>,
    names: Seq<Seq<u8>>,
)
    requires
        normal_names(place) == Ok::<Seq<Seq<u8>>, SandboxErrorView>(own),
        normal_names(path) == Ok::<Seq<Seq<u8>>, SandboxErrorView>(names),
    ensures
        access(sandbox::one_rule(place, granted), path) == Ok::<
            FilesystemAccess,
            SandboxErrorView,
        >(
            if own.is_prefix_of(names) {
                granted
            } else {
                FilesystemAccess::ReadOnly
            },
        ),
{
    let rules = seq![FilesystemRuleView { path: place, access: granted }];
    reveal_with_fuel(rules_fault, 3);
    assert(rules.drop_last() =~= Seq::<FilesystemRuleView>::empty());
    sandbox::law_longest_rule_wins(rules, names);
}

/// A request is refused exactly where it names no program, where its directory does
/// not start at the root, and where the rules of its policy are refused.
pub proof fn law_which_requests_are_refused(request: SandboxRequestView)
    ensures
        request_fault(request) == if request.program.len() == 0 {
            Some(SandboxErrorView::InvalidRequest("program must not be empty"@))
        } else if request.cwd.len() == 0 || request.cwd[0] != SLASH {
            Some(
                SandboxErrorView::InvalidRequest(
                    "working directory must be an absolute host path"@,
                ),
            )
        } else {
            match request.policy.filesystem.requested {
                FilesystemPolicyView::Workspace { default_access, rules } => rules_fault(rules),
                _ => None,
            }
        },
{
}

/// A guarantee that cannot be kept is refused where it must be kept, and else told
/// of after the warnings before it, by its kind and in the words for it.
pub proof fn law_what_becomes_of_a_guarantee(
    dimension: SandboxPolicyDimension,
    message: Seq<char>,
    warnings: Seq<SandboxWarningView>,
    policy: SandboxPolicyView,
)
    ensures
        not_kept(UnsupportedPolicyBehavior::Error, dimension, message, warnings) == Err::<
            Seq<SandboxWarningView>,
            SandboxErrorView,
        >(SandboxErrorView::UnsupportedPolicy(message)),
        not_kept(UnsupportedPolicyBehavior::WarnAndFallback, dimension, message, warnings) == Ok::<
            Seq<SandboxWarningView>,
            SandboxErrorView,
        >(warnings.push(SandboxWarningView { dimension, message })),
        as_requested(policy).filesystem == policy.filesystem.requested,
        as_requested(policy).network == policy.network.requested,
        as_requested(policy).process == policy.process.requested,
        as_requested(policy).identity == policy.identity.requested,
{
}

/// A process that was stopped was cancelled, whatever else is known of it; else it
/// ended by its signal, or by its code, which is -1 where there is none.
pub proof fn law_how_a_process_ended(signal: i32, code: i32, s: Option<i32>, c: Option<i32>)
    ensures
        ended(true, s, c) is Cancelled,
        ended(false, Some(signal), c) == (SandboxStatusView::Signaled { signal }),
        ended(false, None, Some(code)) == (SandboxStatusView::Exited { code }),
        ended(false, None, None) == (SandboxStatusView::Exited { code: -1i32 }),
{
}

/// A command that ended by itself and wrote, in capitals or not, that an operation
/// was not permitted or a permission denied broke its policy, and what it wrote is
/// the reason; every other status stays.
pub proof fn law_when_a_policy_was_broken(status: SandboxStatusView, stderr: Seq<u8>)
    ensures
        ({
            let words = text::lossy_text(stderr);
            let lower = Seq::new(
                words.len(),
                |i: int|
                    if 'A' <= words[i] && words[i] <= 'Z' {
                        (words[i] as u32 + 32) as char
                    } else {
                        words[i]
                    },
            );
            let said = |part: Seq<char>|
                exists|i: int|
                    0 <= i && i + part.len() <= lower.len() && #[trigger] lower.subrange(
                        i,
                        i + part.len(),
                    ) == part;
            if status is Exited && (said("operation not permitted"@) || said(
                "permission denied"@,
            )) {
                classified(status, stderr) == (SandboxStatusView::PolicyViolation {
                    reason: text::trimmed(words),
                })
            } else {
                classified(status, stderr) == status
            }
        }),
{
    let words = text::lossy_text(stderr);
    let lower = Seq::new(
        words.len(),
        |i: int|
            if 'A' <= words[i] && words[i] <= 'Z' {
                (words[i] as u32 + 32) as char
            } else {
                words[i]
            },
    );
    let same = words.map_values(|c: char| text::lower(c));
    assert(same =~= lower);
    assert forall|part: Seq<char>| #[trigger] text::occurs(same, part) == exists|i: int|
        0 <= i && i + part.len() <= lower.len() && #[trigger] lower.subrange(i, i + part.len())
            == part by {
        if text::occurs(same, part) {
            let i = choose|i: int| text::occurs_at(same, part, i);
            assert(lower.subrange(i, i + part.len()) == part);
        }
        if exists|i: int|
            0 <= i && i + part.len() <= lower.len() && #[trigger] lower.subrange(
                i,
                i + part.len(),
            ) == part {
            let i = choose|i: int|
                0 <= i && i + part.len() <= lower.len() && #[trigger] lower.subrange(
                    i,
                    i + part.len(),
                ) == part;
            assert(text::occurs_at(same, part, i));
        }
    }
}

} // verus!
