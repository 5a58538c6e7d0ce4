use semrel::command::CommandResult;
use semrel::constraint::Policy;
use semrel::machine::{start, step, Action, Config, Event, Machine};
use semrel::ReleaseError;

fn ok() -> CommandResult {
    CommandResult { success: true, stdout: vec![], stderr: vec![] }
}

fn ok_with(stdout: &[u8]) -> CommandResult {
    CommandResult { success: true, stdout: stdout.to_vec(), stderr: vec![] }
}

fn failed(stderr: &[u8]) -> CommandResult {
    CommandResult { success: false, stdout: vec![], stderr: stderr.to_vec() }
}

/// The repository and toolchain a run acts on, simulated: each action is
/// answered the way the real tools would answer it on a clean, up-to-date
/// repository with the given tags and manifest.
struct Sim {
    tags: Vec<Vec<u8>>,
    manifest: Vec<u8>,
    commits: Vec<Vec<u8>>,
    pushes: usize,
    pushed_tags: Vec<Vec<u8>>,
    manifest_writes: usize,
}

impl Sim {
    fn new(tags: &[&[u8]], manifest: &[u8]) -> Sim {
        Sim {
            tags: tags.iter().map(|t| t.to_vec()).collect(),
            manifest: manifest.to_vec(),
            commits: vec![],
            pushes: 0,
            pushed_tags: vec![],
            manifest_writes: 0,
        }
    }

    fn tag_listing(&self) -> Vec<u8> {
        let mut out = Vec::new();
        for (i, t) in self.tags.iter().enumerate() {
            if i > 0 {
                out.push(b'\n');
            }
            out.extend_from_slice(t);
        }
        out
    }

    fn respond(&mut self, action: &Action) -> Option<Event> {
        match action {
            Action::RunCheckout { .. } => Some(Event::Ran(ok())),
            Action::RunStatus => Some(Event::Ran(ok())),
            Action::RunFetch => Some(Event::Ran(ok())),
            Action::RunRevList => Some(Event::Ran(ok())),
            Action::RunTagList => Some(Event::Ran(ok_with(&self.tag_listing()))),
            Action::ReadManifest => Some(Event::Manifest(self.manifest.clone())),
            Action::WriteManifest { text } => {
                self.manifest = text.clone();
                self.manifest_writes += 1;
                Some(Event::Wrote)
            },
            Action::RunCargoUpdate => Some(Event::Ran(ok())),
            Action::RunClippy => Some(Event::Ran(ok())),
            Action::RunFmt => Some(Event::Ran(ok())),
            Action::RunCommit { message } => {
                self.commits.push(message.clone());
                Some(Event::Ran(ok()))
            },
            Action::RunTag { name } => {
                self.tags.push(name.clone());
                Some(Event::Ran(ok()))
            },
            Action::RunInstall => Some(Event::Ran(ok())),
            Action::RunPush => {
                self.pushes += 1;
                Some(Event::Ran(ok()))
            },
            Action::RunPushTag { name } => {
                self.pushed_tags.push(name.clone());
                Some(Event::Ran(ok()))
            },
            Action::Finish => None,
        }
    }
}

fn run(cfg: Config, sim: &mut Sim) -> Result<(), ReleaseError> {
    let (mut m, mut a) = start(cfg)?;
    for _ in 0..64 {
        let e = match sim.respond(&a) {
            Some(e) => e,
            None => return Ok(()),
        };
        let (m2, a2) = step(m, e)?;
        m = m2;
        a = a2;
    }
    panic!("run did not finish");
}

fn cfg(policy: Policy) -> Config {
    Config { policy, base: None, branch: None, install: false, no_push: false }
}

const MANIFEST: &[u8] = b"[package]\nname = \"demo\"\nversion = \"0.0.0\"\n";

#[test]
fn minor_release_end_to_end() {
    let mut sim = Sim::new(&[b"v1.0.0"], MANIFEST);
    run(cfg(Policy::Minor), &mut sim).expect("run succeeds");
    // The release went to 1.1.0 and the manifest then advanced to the next
    // development version.
    assert_eq!(sim.tags, vec![b"v1.0.0".to_vec(), b"v1.1.0".to_vec()]);
    assert_eq!(
        sim.manifest,
        b"[package]\nname = \"demo\"\nversion = \"1.2.0-dev\"\n".to_vec()
    );
    assert_eq!(
        sim.commits,
        vec![b"Release version 1.1.0.".to_vec(), b"Post-release.".to_vec()]
    );
    assert_eq!(sim.manifest_writes, 2);
    assert_eq!(sim.pushes, 1);
    assert_eq!(sim.pushed_tags, vec![b"v1.1.0".to_vec()]);
}

#[test]
fn patch_release_with_minor_line_base() {
    let mut sim = Sim::new(&[b"v1.0.0", b"v1.1.0"], MANIFEST);
    let config = Config {
        policy: Policy::Patch,
        base: Some(b"1.0".to_vec()),
        branch: None,
        install: false,
        no_push: false,
    };
    run(config, &mut sim).expect("run succeeds");
    assert!(sim.tags.contains(&b"v1.0.1".to_vec()));
    assert_eq!(sim.commits[0], b"Release version 1.0.1.".to_vec());
}

#[test]
fn minor_line_base_without_patch_policy_is_rejected() {
    let config = Config {
        policy: Policy::Minor,
        base: Some(b"1.0".to_vec()),
        branch: None,
        install: false,
        no_push: false,
    };
    assert!(matches!(start(config), Err(ReleaseError::FormatError)));
}

#[test]
fn already_released_target_aborts_before_any_mutation() {
    // A major release computed from the 1.x line targets 2.0.0, which is
    // already tagged: the run aborts during resolution.
    let mut sim = Sim::new(&[b"v1.0.0", b"v2.0.0"], MANIFEST);
    let config = Config {
        policy: Policy::Major,
        base: Some(b"1".to_vec()),
        branch: None,
        install: false,
        no_push: false,
    };
    let r = run(config, &mut sim);
    assert!(matches!(r, Err(ReleaseError::VersionAlreadyReleased)));
    assert_eq!(sim.manifest, MANIFEST.to_vec());
    assert_eq!(sim.manifest_writes, 0);
    assert!(sim.commits.is_empty());
    assert_eq!(sim.tags.len(), 2);
    assert_eq!(sim.pushes, 0);
}

#[test]
fn escalation_skipped_when_next_minor_already_tagged() {
    // Base line 1.0 under the patch policy: release 1.0.1; the next minor
    // 1.1.0 is already tagged, so no post-release edit or commit happens.
    let mut sim = Sim::new(&[b"v1.0.0", b"v1.1.0", b"v1.2.0"], MANIFEST);
    let config = Config {
        policy: Policy::Patch,
        base: Some(b"1.0".to_vec()),
        branch: None,
        install: false,
        no_push: false,
    };
    run(config, &mut sim).expect("run succeeds");
    assert_eq!(sim.commits, vec![b"Release version 1.0.1.".to_vec()]);
    assert_eq!(sim.manifest_writes, 1);
    assert_eq!(
        sim.manifest,
        b"[package]\nname = \"demo\"\nversion = \"1.0.1\"\n".to_vec()
    );
    assert_eq!(sim.pushes, 1);
    assert_eq!(sim.pushed_tags, vec![b"v1.0.1".to_vec()]);
}

#[test]
fn major_release_resets_lower_components() {
    let mut sim = Sim::new(&[b"v1.2.3"], MANIFEST);
    let config = Config {
        policy: Policy::Major,
        base: None,
        branch: None,
        install: false,
        no_push: true,
    };
    run(config, &mut sim).expect("run succeeds");
    assert!(sim.tags.contains(&b"v2.0.0".to_vec()));
    assert_eq!(sim.pushes, 0);
    assert_eq!(sim.pushed_tags.len(), 0);
}

#[test]
fn no_matching_tag_aborts() {
    let mut sim = Sim::new(&[b"nightly", b"v1.0.0-rc.1"], MANIFEST);
    let r = run(cfg(Policy::Minor), &mut sim);
    assert!(matches!(r, Err(ReleaseError::NoMatchingVersion)));
    assert_eq!(sim.manifest_writes, 0);
}

#[test]
fn dirty_repository_aborts() {
    let mut sim = Sim::new(&[b"v1.0.0"], MANIFEST);
    let (m, a) = start(cfg(Policy::Minor)).expect("valid config");
    assert!(matches!(a, Action::RunStatus));
    let dirty = CommandResult {
        success: true,
        stdout: b"1 .M N... 100644 src/lib.rs\n".to_vec(),
        stderr: vec![],
    };
    match step(m, Event::Ran(dirty)) {
        Err(ReleaseError::DirtyRepository { detail }) => {
            assert_eq!(detail, b"1 .M N... 100644 src/lib.rs".to_vec());
        },
        _ => panic!("expected DirtyRepository"),
    }
    assert_eq!(sim.manifest_writes, 0);
}

#[test]
fn behind_upstream_aborts() {
    let (m, _) = start(cfg(Policy::Minor)).expect("valid config");
    let (m, a) = step(m, Event::Ran(ok())).expect("clean");
    assert!(matches!(a, Action::RunFetch));
    let (m, a) = step(m, Event::Ran(ok())).expect("fetched");
    assert!(matches!(a, Action::RunRevList));
    let behind = CommandResult { success: true, stdout: b"abc123\n".to_vec(), stderr: vec![] };
    match step(m, Event::Ran(behind)) {
        Err(ReleaseError::BehindUpstream { detail }) => assert_eq!(detail, b"abc123".to_vec()),
        _ => panic!("expected BehindUpstream"),
    }
}

#[test]
fn checkout_failure_carries_diagnostic() {
    let config = Config {
        policy: Policy::Minor,
        base: None,
        branch: Some(b"main".to_vec()),
        install: false,
        no_push: false,
    };
    let (m, a) = start(config).expect("valid config");
    match &a {
        Action::RunCheckout { branch } => assert_eq!(branch, &b"main".to_vec()),
        _ => panic!("expected checkout first"),
    }
    match step(m, Event::Ran(failed(b"error: pathspec 'main' did not match\n"))) {
        Err(ReleaseError::CheckoutFailed { detail }) => {
            assert_eq!(detail, b"error: pathspec 'main' did not match".to_vec());
        },
        _ => panic!("expected CheckoutFailed"),
    }
}

#[test]
fn failed_command_aborts_with_stderr() {
    let (m, _) = start(cfg(Policy::Minor)).expect("valid config");
    match step(m, Event::Ran(failed(b" boom \n"))) {
        Err(ReleaseError::CommandFailed { detail }) => assert_eq!(detail, b"boom".to_vec()),
        _ => panic!("expected CommandFailed"),
    }
}

#[test]
fn missing_version_field_aborts_after_resolution() {
    let mut sim = Sim::new(&[b"v1.0.0"], b"[package]\nname = \"demo\"\n");
    let r = run(cfg(Policy::Minor), &mut sim);
    assert!(matches!(r, Err(ReleaseError::VersionFieldNotFound)));
    assert!(sim.commits.is_empty());
}

#[test]
fn install_runs_when_requested() {
    let mut sim = Sim::new(&[b"v1.0.0"], MANIFEST);
    let config = Config {
        policy: Policy::Minor,
        base: None,
        branch: None,
        install: true,
        no_push: true,
    };
    run(config, &mut sim).expect("run succeeds");
    assert!(sim.tags.contains(&b"v1.1.0".to_vec()));
    assert_eq!(sim.pushes, 0);
}

#[test]
fn toolchain_order_is_resync_lint_format() {
    let mut sim = Sim::new(&[b"v1.0.0"], MANIFEST);
    let (mut m, mut a) = start(cfg(Policy::Minor)).expect("valid config");
    let mut order: Vec<&'static str> = vec![];
    loop {
        match &a {
            Action::RunCargoUpdate => order.push("update"),
            Action::RunClippy => order.push("clippy"),
            Action::RunFmt => order.push("fmt"),
            Action::RunCommit { .. } => order.push("commit"),
            Action::RunTag { .. } => order.push("tag"),
            Action::Finish => break,
            _ => {},
        }
        let e = sim.respond(&a).expect("not finished");
        let (m2, a2) = step(m, e).expect("step succeeds");
        m = m2;
        a = a2;
    }
    assert_eq!(
        order,
        vec!["update", "clippy", "fmt", "commit", "tag", "update", "commit"]
    );
}

#[test]
fn machine_state_reaches_done() {
    let mut sim = Sim::new(&[b"v1.0.0"], MANIFEST);
    let (mut m, mut a) = start(cfg(Policy::Minor)).expect("valid config");
    while !matches!(a, Action::Finish) {
        let e = sim.respond(&a).expect("not finished");
        let next = step(m, e).expect("step succeeds");
        m = next.0;
        a = next.1;
    }
    let _: Machine = m;
}
