//! The release orchestrator: a state machine over the workflow's strict
//! sequence of states. The machine makes every decision; an unverified
//! driver performs each returned action (an external command, a manifest
//! read or write) and feeds the outcome back in as the next event. Any
//! error aborts the run with no further action, and nothing done so far is
//! rolled back.
//!
//! The fixed order of the toolchain steps — dependency resync, then lint,
//! then format, then commit, then tag — is part of the contract: linting
//! runs against resynced dependencies, and formatting never masks a lint
//! failure introduced by the manifest edit.

use vstd::prelude::*;
use crate::command::{check_success, spec_trim, CommandResult};
use crate::constraint::{
    constraint_matches, option_view, spec_build_constraint, Constraint, Policy,
};
use crate::order::{cmp_version, Cmp};
use crate::tags::spec_collect_tags;
use crate::version::{
    spec_format, spec_increment_major, spec_increment_minor, spec_increment_patch,
    spec_with_prerelease, Version, VersionModel,
};
use crate::ReleaseError;

verus! {

/// What a run was asked to do.
pub struct Config {
    pub policy: Policy,
    pub base: Option<Vec<u8>>,
    pub branch: Option<Vec<u8>>,
    pub install: bool,
    pub no_push: bool,
}

/// One side-effecting operation for the driver to perform.
pub enum Action {
    RunCheckout { branch: Vec<u8> },
    RunStatus,
    RunFetch,
    RunRevList,
    RunTagList,
    ReadManifest,
    WriteManifest { text: Vec<u8> },
    RunCargoUpdate,
    RunClippy,
    RunFmt,
    RunCommit { message: Vec<u8> },
    RunTag { name: Vec<u8> },
    RunInstall,
    RunPush,
    RunPushTag { name: Vec<u8> },
    Finish,
}

/// The driver's report on the last action.
pub enum Event {
    Ran(CommandResult),
    Manifest(Vec<u8>),
    Wrote,
}

/// Where the run stands: which action is outstanding.
#[derive(Clone, Copy, PartialEq, Eq, Structural, Debug)]
pub enum Phase {
    CheckingOut,
    CheckingStatus,
    Fetching,
    CheckingUpstream,
    ListingTags,
    ReadingManifest,
    WritingManifest,
    UpdatingDeps,
    Linting,
    Formatting,
    Committing,
    Tagging,
    Installing,
    ReadingManifestPost,
    WritingManifestPost,
    UpdatingDepsPost,
    CommittingPost,
    Pushing,
    PushingTag,
    Done,
}

/// The orchestrator's whole state between actions.
pub struct Machine {
    pub phase: Phase,
    pub constraint: Constraint,
    pub policy: Policy,
    pub install: bool,
    pub no_push: bool,
    pub target: Option<Version>,
    pub post: Option<Version>,
    pub escalate: bool,
}

/// Phases entered only after version resolution succeeded.
pub open spec fn phase_resolved(p: Phase) -> bool {
    !(p is CheckingOut || p is CheckingStatus || p is Fetching || p is CheckingUpstream
        || p is ListingTags)
}

/// In every resolved phase the machine carries the target and the
/// post-release version.
pub open spec fn wf(m: Machine) -> bool {
    phase_resolved(m.phase) ==> m.target is Some && m.post is Some
}

/// Which event kind each phase awaits.
pub open spec fn event_fits(p: Phase, e: Event) -> bool {
    match p {
        Phase::ReadingManifest | Phase::ReadingManifestPost => e is Manifest,
        Phase::WritingManifest | Phase::WritingManifestPost => e is Wrote,
        _ => e is Ran,
    }
}

/// Whether an action alters the manifest, the repository history, the
/// working tree, or the remote. Queries and reads do not.
pub open spec fn is_mutating(a: Action) -> bool {
    match a {
        Action::RunCheckout { .. } => false,
        Action::RunStatus => false,
        Action::RunFetch => false,
        Action::RunRevList => false,
        Action::RunTagList => false,
        Action::ReadManifest => false,
        Action::Finish => false,
        _ => true,
    }
}

pub open spec fn ev_ok(e: Event) -> bool {
    e matches Event::Ran(r) && r.success
}

pub open spec fn ev_silent(e: Event) -> bool {
    e matches Event::Ran(r) && r.success && r.stdout@.len() == 0
}

pub open spec fn ev_stdout(e: Event) -> Seq<u8> {
    match e {
        Event::Ran(r) => r.stdout@,
        _ => Seq::empty(),
    }
}

pub open spec fn ev_stderr(e: Event) -> Seq<u8> {
    match e {
        Event::Ran(r) => r.stderr@,
        _ => Seq::empty(),
    }
}

pub open spec fn ev_manifest(e: Event) -> Seq<u8> {
    match e {
        Event::Manifest(t) => t@,
        _ => Seq::empty(),
    }
}

pub open spec fn ov(o: Option<Version>) -> Option<VersionModel> {
    match o {
        Some(v) => Some(v@),
        None => None,
    }
}

/// The run's configuration never changes after start.
pub open spec fn same_config(m: Machine, m2: Machine) -> bool {
    &&& m2.constraint == m.constraint
    &&& m2.policy == m.policy
    &&& m2.install == m.install
    &&& m2.no_push == m.no_push
}

/// Target, post-release version and escalation decision carried unchanged.
pub open spec fn same_versions(m: Machine, m2: Machine) -> bool {
    &&& ov(m2.target) == ov(m.target)
    &&& ov(m2.post) == ov(m.post)
    &&& m2.escalate == m.escalate
}

pub open spec fn same_state(m: Machine, m2: Machine) -> bool {
    same_config(m, m2) && same_versions(m, m2)
}

/// `v` is the greatest version among `tags` satisfying `c`.
pub open spec fn is_latest(tags: Seq<VersionModel>, c: Constraint, v: VersionModel) -> bool {
    &&& tags.contains(v)
    &&& constraint_matches(c, v)
    &&& forall|j: int|
        0 <= j < tags.len() && constraint_matches(c, #[trigger] tags[j]) ==> cmp_version(
            tags[j],
            v,
        ) != Cmp::Gt
}

/// The increment the policy selects.
pub open spec fn spec_apply_policy(p: Policy, v: VersionModel) -> VersionModel {
    match p {
        Policy::Major => spec_increment_major(v),
        Policy::Minor => spec_increment_minor(v),
        Policy::Patch => spec_increment_patch(v),
    }
}

/// The incremented component is at the machine limit, so no next version
/// text exists.
pub open spec fn policy_overflow(p: Policy, v: VersionModel) -> bool {
    match p {
        Policy::Major => v.major == u64::MAX,
        Policy::Minor => v.minor == u64::MAX,
        Policy::Patch => v.patch == u64::MAX,
    }
}

/// The pre-release label of a development version.
pub open spec fn dev_label() -> Seq<u8> {
    seq![0x64u8, 0x65, 0x76]
}

/// The bytes of `Release version `.
pub open spec fn commit_prefix() -> Seq<u8> {
    seq![0x52u8, 0x65, 0x6c, 0x65, 0x61, 0x73, 0x65, 0x20, 0x76, 0x65, 0x72, 0x73, 0x69, 0x6f, 0x6e, 0x20]
}

/// The bytes of `Post-release.`.
pub open spec fn post_message() -> Seq<u8> {
    seq![0x50u8, 0x6f, 0x73, 0x74, 0x2d, 0x72, 0x65, 0x6c, 0x65, 0x61, 0x73, 0x65, 0x2e]
}

/// The release commit message: the prefix, the formatted target, a stop.
pub open spec fn release_message(target: VersionModel) -> Seq<u8> {
    commit_prefix() + spec_format(target) + seq![0x2eu8]
}

/// The tag name for a version: `v` and the formatted version.
pub open spec fn tag_name(target: VersionModel) -> Seq<u8> {
    seq![0x76u8] + spec_format(target)
}

/// After the tag (and the optional install): escalate, push, or finish.
pub open spec fn post_tag_phase(m: Machine) -> Phase {
    if m.escalate {
        Phase::ReadingManifestPost
    } else if m.no_push {
        Phase::Done
    } else {
        Phase::Pushing
    }
}

pub open spec fn post_tag_action_fits(m: Machine, a: Action) -> bool {
    if m.escalate {
        a is ReadManifest
    } else if m.no_push {
        a is Finish
    } else {
        a is RunPush
    }
}

/// After the post-release commit: push or finish.
pub open spec fn push_phase(m: Machine) -> Phase {
    if m.no_push {
        Phase::Done
    } else {
        Phase::Pushing
    }
}

pub open spec fn push_action_fits(m: Machine, a: Action) -> bool {
    if m.no_push {
        a is Finish
    } else {
        a is RunPush
    }
}

/// A failed command aborts with its trimmed standard error.
pub open spec fn err_command_failed(e: Event, er: ReleaseError) -> bool {
    er matches ReleaseError::CommandFailed { detail } && detail@ == spec_trim(ev_stderr(e))
}

/// The whole transition relation: given the phase and the event, what the
/// step must return.
pub open spec fn step_post(m: Machine, e: Event, r: Result<(Machine, Action), ReleaseError>) -> bool {
    match m.phase {
        Phase::CheckingOut => if ev_ok(e) {
            r matches Ok((m2, a)) && same_state(m, m2) && m2.phase == Phase::CheckingStatus
                && a is RunStatus
        } else {
            r matches Err(er) && (er matches ReleaseError::CheckoutFailed { detail } && detail@
                == spec_trim(ev_stderr(e)))
        },
        Phase::CheckingStatus => if !ev_ok(e) {
            r matches Err(er) && err_command_failed(e, er)
        } else if !ev_silent(e) {
            r matches Err(er) && (er matches ReleaseError::DirtyRepository { detail } && detail@
                == spec_trim(ev_stdout(e)))
        } else if m.no_push {
            r matches Ok((m2, a)) && same_state(m, m2) && m2.phase == Phase::ListingTags
                && a is RunTagList
        } else {
            r matches Ok((m2, a)) && same_state(m, m2) && m2.phase == Phase::Fetching
                && a is RunFetch
        },
        Phase::Fetching => if ev_ok(e) {
            r matches Ok((m2, a)) && same_state(m, m2) && m2.phase == Phase::CheckingUpstream
                && a is RunRevList
        } else {
            r matches Err(er) && err_command_failed(e, er)
        },
        Phase::CheckingUpstream => if !ev_ok(e) {
            r matches Err(er) && err_command_failed(e, er)
        } else if !ev_silent(e) {
            r matches Err(er) && (er matches ReleaseError::BehindUpstream { detail } && detail@
                == spec_trim(ev_stdout(e)))
        } else {
            r matches Ok((m2, a)) && same_state(m, m2) && m2.phase == Phase::ListingTags
                && a is RunTagList
        },
        Phase::ListingTags => if !ev_ok(e) {
            r matches Err(er) && err_command_failed(e, er)
        } else {
            let tags = spec_collect_tags(ev_stdout(e));
            match r {
                Ok((m2, a)) => exists|latest: VersionModel|
                    {
                        let target = spec_apply_policy(m.policy, latest);
                        &&& #[trigger] is_latest(tags, m.constraint, latest)
                        &&& !policy_overflow(m.policy, latest)
                        &&& !tags.contains(target)
                        &&& target.minor < u64::MAX
                        &&& same_config(m, m2)
                        &&& ov(m2.target) == Some(target)
                        &&& ov(m2.post) == Some(
                            spec_with_prerelease(spec_increment_minor(target), dev_label()),
                        )
                        &&& m2.escalate == !tags.contains(spec_increment_minor(target))
                        &&& m2.phase == Phase::ReadingManifest
                        &&& a is ReadManifest
                    },
                Err(er) => {
                    ||| (er is NoMatchingVersion && forall|j: int|
                        0 <= j < tags.len() ==> !constraint_matches(
                            m.constraint,
                            #[trigger] tags[j],
                        ))
                    ||| (er is VersionAlreadyReleased && exists|latest: VersionModel|
                        #[trigger] is_latest(tags, m.constraint, latest) && !policy_overflow(
                            m.policy,
                            latest,
                        ) && tags.contains(spec_apply_policy(m.policy, latest)))
                    ||| (er is FormatError && exists|latest: VersionModel|
                        #[trigger] is_latest(tags, m.constraint, latest) && (policy_overflow(
                            m.policy,
                            latest,
                        ) || spec_apply_policy(m.policy, latest).minor == u64::MAX))
                },
            }
        },
        Phase::ReadingManifest => match crate::manifest::spec_patch(
            ev_manifest(e),
            spec_format(ov(m.target).unwrap()),
        ) {
            Some(out) => r matches Ok((m2, a)) && same_state(m, m2) && m2.phase
                == Phase::WritingManifest && (a matches Action::WriteManifest { text } && text@
                == out),
            None => r matches Err(er) && er is VersionFieldNotFound,
        },
        Phase::WritingManifest => r matches Ok((m2, a)) && same_state(m, m2) && m2.phase
            == Phase::UpdatingDeps && a is RunCargoUpdate,
        Phase::UpdatingDeps => if ev_ok(e) {
            r matches Ok((m2, a)) && same_state(m, m2) && m2.phase == Phase::Linting
                && a is RunClippy
        } else {
            r matches Err(er) && err_command_failed(e, er)
        },
        Phase::Linting => if ev_ok(e) {
            r matches Ok((m2, a)) && same_state(m, m2) && m2.phase == Phase::Formatting
                && a is RunFmt
        } else {
            r matches Err(er) && err_command_failed(e, er)
        },
        Phase::Formatting => if ev_ok(e) {
            r matches Ok((m2, a)) && same_state(m, m2) && m2.phase == Phase::Committing && (a
                matches Action::RunCommit { message } && message@ == release_message(
                ov(m.target).unwrap(),
            ))
        } else {
            r matches Err(er) && err_command_failed(e, er)
        },
        Phase::Committing => if ev_ok(e) {
            r matches Ok((m2, a)) && same_state(m, m2) && m2.phase == Phase::Tagging && (a
                matches Action::RunTag { name } && name@ == tag_name(ov(m.target).unwrap()))
        } else {
            r matches Err(er) && err_command_failed(e, er)
        },
        Phase::Tagging => if ev_ok(e) {
            if m.install {
                r matches Ok((m2, a)) && same_state(m, m2) && m2.phase == Phase::Installing
                    && a is RunInstall
            } else {
                r matches Ok((m2, a)) && same_state(m, m2) && m2.phase == post_tag_phase(m)
                    && post_tag_action_fits(m, a)
            }
        } else {
            r matches Err(er) && err_command_failed(e, er)
        },
        Phase::Installing => if ev_ok(e) {
            r matches Ok((m2, a)) && same_state(m, m2) && m2.phase == post_tag_phase(m)
                && post_tag_action_fits(m, a)
        } else {
            r matches Err(er) && err_command_failed(e, er)
        },
        Phase::ReadingManifestPost => match crate::manifest::spec_patch(
            ev_manifest(e),
            spec_format(ov(m.post).unwrap()),
        ) {
            Some(out) => r matches Ok((m2, a)) && same_state(m, m2) && m2.phase
                == Phase::WritingManifestPost && (a matches Action::WriteManifest { text }
                && text@ == out),
            None => r matches Err(er) && er is VersionFieldNotFound,
        },
        Phase::WritingManifestPost => r matches Ok((m2, a)) && same_state(m, m2) && m2.phase
            == Phase::UpdatingDepsPost && a is RunCargoUpdate,
        Phase::UpdatingDepsPost => if ev_ok(e) {
            r matches Ok((m2, a)) && same_state(m, m2) && m2.phase == Phase::CommittingPost && (a
                matches Action::RunCommit { message } && message@ == post_message())
        } else {
            r matches Err(er) && err_command_failed(e, er)
        },
        Phase::CommittingPost => if ev_ok(e) {
            r matches Ok((m2, a)) && same_state(m, m2) && m2.phase == push_phase(m)
                && push_action_fits(m, a)
        } else {
            r matches Err(er) && err_command_failed(e, er)
        },
        Phase::Pushing => if ev_ok(e) {
            r matches Ok((m2, a)) && same_state(m, m2) && m2.phase == Phase::PushingTag && (a
                matches Action::RunPushTag { name } && name@ == tag_name(ov(m.target).unwrap()))
        } else {
            r matches Err(er) && err_command_failed(e, er)
        },
        Phase::PushingTag => if ev_ok(e) {
            r matches Ok((m2, a)) && same_state(m, m2) && m2.phase == Phase::Done && a is Finish
        } else {
            r matches Err(er) && err_command_failed(e, er)
        },
        Phase::Done => r matches Ok((m2, a)) && same_state(m, m2) && m2.phase == Phase::Done
            && a is Finish,
    }
}

fn release_message_exec(target: &Version) -> (r: Vec<u8>)
    ensures
        r@ == release_message(target@),
{
    let mut msg: Vec<u8> = vec![
        0x52u8, 0x65, 0x6c, 0x65, 0x61, 0x73, 0x65, 0x20, 0x76, 0x65, 0x72, 0x73, 0x69, 0x6f,
        0x6e, 0x20,
    ];
    proof {
        assert(msg@ =~= commit_prefix());
    }
    let text = crate::version::format_version(target);
    crate::version::append_bytes(&mut msg, text.as_slice());
    msg.push(0x2e);
    proof {
        assert(msg@ =~= release_message(target@));
    }
    msg
}

fn tag_name_exec(target: &Version) -> (r: Vec<u8>)
    ensures
        r@ == tag_name(target@),
{
    let mut name: Vec<u8> = vec![0x76u8];
    let text = crate::version::format_version(target);
    crate::version::append_bytes(&mut name, text.as_slice());
    proof {
        assert(name@ =~= tag_name(target@));
    }
    name
}

/// Validates the configuration and yields the machine with its first
/// action. An illegal base constraint, or a minor-line constraint without
/// the patch policy, is rejected here, before anything runs.
pub fn start(cfg: Config) -> (r: Result<(Machine, Action), ReleaseError>)
    ensures
        match r {
            Ok(p) => {
                &&& wf(p.0)
                &&& spec_build_constraint(cfg.policy, option_view(cfg.base)) == Some(
                    p.0.constraint,
                )
                &&& p.0.policy == cfg.policy
                &&& p.0.install == cfg.install
                &&& p.0.no_push == cfg.no_push
                &&& p.0.target is None
                &&& p.0.post is None
                &&& match cfg.branch {
                    Some(b) => p.0.phase == Phase::CheckingOut && (p.1
                        matches Action::RunCheckout { branch } && branch@ == b@),
                    None => p.0.phase == Phase::CheckingStatus && p.1 is RunStatus,
                }
                &&& !is_mutating(p.1)
            },
            Err(e) => e is FormatError && spec_build_constraint(
                cfg.policy,
                option_view(cfg.base),
            ) is None,
        },
{
    let constraint = crate::constraint::build_constraint(cfg.policy, &cfg.base)?;
    let base = Machine {
        phase: Phase::CheckingStatus,
        constraint,
        policy: cfg.policy,
        install: cfg.install,
        no_push: cfg.no_push,
        target: None,
        post: None,
        escalate: false,
    };
    match cfg.branch {
        Some(b) => Ok(
            (Machine { phase: Phase::CheckingOut, ..base }, Action::RunCheckout { branch: b }),
        ),
        None => Ok((base, Action::RunStatus)),
    }
}

/// One transition: consumes the event the outstanding action produced and
/// returns the next state with its action, or the error that aborts the
/// run. The whole relation is `step_post`.
#[verifier::rlimit(80)]
pub fn step(m: Machine, e: Event) -> (r: Result<(Machine, Action), ReleaseError>)
    requires
        wf(m),
        event_fits(m.phase, e),
    ensures
        step_post(m, e, r),
        r matches Ok(p) ==> wf(p.0),
{
    match m.phase {
        Phase::CheckingOut => {
            let res = match e {
                Event::Ran(res) => res,
                _ => {
                    return Err(ReleaseError::FormatError);
                },
            };
            if res.success {
                Ok((Machine { phase: Phase::CheckingStatus, ..m }, Action::RunStatus))
            } else {
                Err(
                    ReleaseError::CheckoutFailed {
                        detail: crate::command::trim_bytes(res.stderr.as_slice()),
                    },
                )
            }
        },
        Phase::CheckingStatus => {
            let res = match e {
                Event::Ran(res) => res,
                _ => {
                    return Err(ReleaseError::FormatError);
                },
            };
            match crate::command::ensure_clean(res) {
                Ok(_) => {
                    if m.no_push {
                        Ok((Machine { phase: Phase::ListingTags, ..m }, Action::RunTagList))
                    } else {
                        Ok((Machine { phase: Phase::Fetching, ..m }, Action::RunFetch))
                    }
                },
                Err(er) => Err(er),
            }
        },
        Phase::Fetching => {
            let res = match e {
                Event::Ran(res) => res,
                _ => {
                    return Err(ReleaseError::FormatError);
                },
            };
            let _ok = check_success(res)?;
            Ok((Machine { phase: Phase::CheckingUpstream, ..m }, Action::RunRevList))
        },
        Phase::CheckingUpstream => {
            let res = match e {
                Event::Ran(res) => res,
                _ => {
                    return Err(ReleaseError::FormatError);
                },
            };
            match crate::command::ensure_up_to_date(res) {
                Ok(_) => Ok((Machine { phase: Phase::ListingTags, ..m }, Action::RunTagList)),
                Err(er) => Err(er),
            }
        },
        Phase::ListingTags => {
            let res = match e {
                Event::Ran(res) => res,
                _ => {
                    return Err(ReleaseError::FormatError);
                },
            };
            let ok = check_success(res)?;
            let tags = crate::tags::collect_tags(ok.stdout.as_slice());
            let latest = crate::tags::resolve_latest(&tags, &m.constraint)?;
            proof {
                assert(is_latest(spec_collect_tags(ev_stdout(e)), m.constraint, latest@));
            }
            let target = match m.policy {
                Policy::Major => {
                    if latest.major == u64::MAX {
                        return Err(ReleaseError::FormatError);
                    }
                    crate::version::increment_major(&latest)
                },
                Policy::Minor => {
                    if latest.minor == u64::MAX {
                        return Err(ReleaseError::FormatError);
                    }
                    crate::version::increment_minor(&latest)
                },
                Policy::Patch => {
                    if latest.patch == u64::MAX {
                        return Err(ReleaseError::FormatError);
                    }
                    crate::version::increment_patch(&latest)
                },
            };
            if crate::tags::contains_version(&tags, &target) {
                proof {
                    assert(is_latest(spec_collect_tags(ev_stdout(e)), m.constraint, latest@));
                }
                return Err(ReleaseError::VersionAlreadyReleased);
            }
            if target.minor == u64::MAX {
                proof {
                    assert(is_latest(spec_collect_tags(ev_stdout(e)), m.constraint, latest@));
                }
                return Err(ReleaseError::FormatError);
            }
            let next = crate::version::increment_minor(&target);
            let escalate = !crate::tags::contains_version(&tags, &next);
            let label: Vec<u8> = vec![0x64u8, 0x65, 0x76];
            proof {
                assert(label@ =~= dev_label());
                assert(crate::version::valid_id_text(label@)) by {
                    assert(crate::version::is_alnum(dev_label()[0]));
                    assert(crate::version::is_alnum(dev_label()[1]));
                    assert(crate::version::is_alnum(dev_label()[2]));
                }
            }
            let post = crate::version::with_prerelease(&next, label);
            let m2 = Machine {
                phase: Phase::ReadingManifest,
                target: Some(target),
                post: Some(post),
                escalate,
                ..m
            };
            proof {
                assert(is_latest(spec_collect_tags(ev_stdout(e)), m.constraint, latest@));
            }
            Ok((m2, Action::ReadManifest))
        },
        Phase::ReadingManifest => {
            let text = match e {
                Event::Manifest(t) => t,
                _ => {
                    return Err(ReleaseError::FormatError);
                },
            };
            let out = match &m.target {
                Some(target) => crate::manifest::patch_manifest(text.as_slice(), target)?,
                None => {
                    return Err(ReleaseError::FormatError);
                },
            };
            Ok((Machine { phase: Phase::WritingManifest, ..m }, Action::WriteManifest { text: out }))
        },
        Phase::WritingManifest => Ok(
            (Machine { phase: Phase::UpdatingDeps, ..m }, Action::RunCargoUpdate),
        ),
        Phase::UpdatingDeps => {
            let res = match e {
                Event::Ran(res) => res,
                _ => {
                    return Err(ReleaseError::FormatError);
                },
            };
            let _ok = check_success(res)?;
            Ok((Machine { phase: Phase::Linting, ..m }, Action::RunClippy))
        },
        Phase::Linting => {
            let res = match e {
                Event::Ran(res) => res,
                _ => {
                    return Err(ReleaseError::FormatError);
                },
            };
            let _ok = check_success(res)?;
            Ok((Machine { phase: Phase::Formatting, ..m }, Action::RunFmt))
        },
        Phase::Formatting => {
            let res = match e {
                Event::Ran(res) => res,
                _ => {
                    return Err(ReleaseError::FormatError);
                },
            };
            let _ok = check_success(res)?;
            let message = match &m.target {
                Some(target) => release_message_exec(target),
                None => {
                    return Err(ReleaseError::FormatError);
                },
            };
            Ok((Machine { phase: Phase::Committing, ..m }, Action::RunCommit { message }))
        },
        Phase::Committing => {
            let res = match e {
                Event::Ran(res) => res,
                _ => {
                    return Err(ReleaseError::FormatError);
                },
            };
            let _ok = check_success(res)?;
            let name = match &m.target {
                Some(target) => tag_name_exec(target),
                None => {
                    return Err(ReleaseError::FormatError);
                },
            };
            Ok((Machine { phase: Phase::Tagging, ..m }, Action::RunTag { name }))
        },
        Phase::Tagging => {
            let res = match e {
                Event::Ran(res) => res,
                _ => {
                    return Err(ReleaseError::FormatError);
                },
            };
            let _ok = check_success(res)?;
            if m.install {
                Ok((Machine { phase: Phase::Installing, ..m }, Action::RunInstall))
            } else if m.escalate {
                Ok((Machine { phase: Phase::ReadingManifestPost, ..m }, Action::ReadManifest))
            } else if m.no_push {
                Ok((Machine { phase: Phase::Done, ..m }, Action::Finish))
            } else {
                Ok((Machine { phase: Phase::Pushing, ..m }, Action::RunPush))
            }
        },
        Phase::Installing => {
            let res = match e {
                Event::Ran(res) => res,
                _ => {
                    return Err(ReleaseError::FormatError);
                },
            };
            let _ok = check_success(res)?;
            if m.escalate {
                Ok((Machine { phase: Phase::ReadingManifestPost, ..m }, Action::ReadManifest))
            } else if m.no_push {
                Ok((Machine { phase: Phase::Done, ..m }, Action::Finish))
            } else {
                Ok((Machine { phase: Phase::Pushing, ..m }, Action::RunPush))
            }
        },
        Phase::ReadingManifestPost => {
            let text = match e {
                Event::Manifest(t) => t,
                _ => {
                    return Err(ReleaseError::FormatError);
                },
            };
            let out = match &m.post {
                Some(post) => crate::manifest::patch_manifest(text.as_slice(), post)?,
                None => {
                    return Err(ReleaseError::FormatError);
                },
            };
            Ok(
                (
                    Machine { phase: Phase::WritingManifestPost, ..m },
                    Action::WriteManifest { text: out },
                ),
            )
        },
        Phase::WritingManifestPost => Ok(
            (Machine { phase: Phase::UpdatingDepsPost, ..m }, Action::RunCargoUpdate),
        ),
        Phase::UpdatingDepsPost => {
            let res = match e {
                Event::Ran(res) => res,
                _ => {
                    return Err(ReleaseError::FormatError);
                },
            };
            let _ok = check_success(res)?;
            let message: Vec<u8> = vec![
                0x50u8, 0x6f, 0x73, 0x74, 0x2d, 0x72, 0x65, 0x6c, 0x65, 0x61, 0x73, 0x65, 0x2e,
            ];
            proof {
                assert(message@ =~= post_message());
            }
            Ok((Machine { phase: Phase::CommittingPost, ..m }, Action::RunCommit { message }))
        },
        Phase::CommittingPost => {
            let res = match e {
                Event::Ran(res) => res,
                _ => {
                    return Err(ReleaseError::FormatError);
                },
            };
            let _ok = check_success(res)?;
            if m.no_push {
                Ok((Machine { phase: Phase::Done, ..m }, Action::Finish))
            } else {
                Ok((Machine { phase: Phase::Pushing, ..m }, Action::RunPush))
            }
        },
        Phase::Pushing => {
            let res = match e {
                Event::Ran(res) => res,
                _ => {
                    return Err(ReleaseError::FormatError);
                },
            };
            let _ok = check_success(res)?;
            let name = match &m.target {
                Some(target) => tag_name_exec(target),
                None => {
                    return Err(ReleaseError::FormatError);
                },
            };
            Ok((Machine { phase: Phase::PushingTag, ..m }, Action::RunPushTag { name }))
        },
        Phase::PushingTag => {
            let res = match e {
                Event::Ran(res) => res,
                _ => {
                    return Err(ReleaseError::FormatError);
                },
            };
            let _ok = check_success(res)?;
            Ok((Machine { phase: Phase::Done, ..m }, Action::Finish))
        },
        Phase::Done => Ok((Machine { phase: Phase::Done, ..m }, Action::Finish)),
    }
}

/// While the machine is still validating preconditions or resolving
/// versions, every action it hands out is a query: nothing is edited,
/// committed, tagged or pushed before resolution has succeeded.
pub proof fn lemma_no_mutation_before_resolution(m: Machine, e: Event, m2: Machine, a: Action)
    requires
        !phase_resolved(m.phase),
        step_post(m, e, Ok((m2, a))),
    ensures
        !is_mutating(a),
{
}

/// A target version whose tag already exists is rejected during
/// resolution, a phase from which (by the lemma above) no mutating action
/// has been available: the manifest and the repository are untouched.
pub proof fn lemma_already_released_rejected(m: Machine, e: Event, er: ReleaseError)
    requires
        step_post(m, e, Err(er)),
        er is VersionAlreadyReleased,
    ensures
        m.phase == Phase::ListingTags,
        !phase_resolved(m.phase),
{
}

/// Escalation is idempotent: when the next minor version already has a
/// tag, the machine skips straight from the tag (or install) to the push
/// or the end — it never reads or rewrites the manifest again and commits
/// nothing further.
pub proof fn lemma_escalation_idempotent(m: Machine, e: Event, m2: Machine, a: Action)
    requires
        (m.phase is Tagging && !m.install) || m.phase is Installing,
        !m.escalate,
        step_post(m, e, Ok((m2, a))),
    ensures
        a is Finish || a is RunPush,
        m2.phase is Done || m2.phase is Pushing,
        !(a is ReadManifest),
        !(a matches Action::WriteManifest { .. }),
        !(a matches Action::RunCommit { .. }),
{
}

} // verus!
