use build_hook::pipeline::{Action, Failure, Pipeline, RunResult};

struct Outcomes {
    fetch_ok: bool,
    dockerfiles: Vec<bool>,
    builds: Vec<bool>,
    cleanup_ok: bool,
    restarts: Vec<bool>,
}

#[derive(Default, Debug)]
struct Counts {
    fetches: usize,
    checks: usize,
    builds: Vec<usize>,
    cleanups: usize,
    restarts: Vec<usize>,
}

fn drive(w: &Outcomes) -> (Counts, RunResult) {
    let mut p = Pipeline::new(w.builds.len(), w.restarts.len());
    let mut c = Counts::default();
    while !p.is_finished() {
        let ok = match p.pending() {
            Action::Fetch => {
                c.fetches += 1;
                w.fetch_ok
            }
            Action::CheckDockerfile(i) => {
                c.checks += 1;
                w.dockerfiles[i]
            }
            Action::Build(i) => {
                c.builds.push(i);
                w.builds[i]
            }
            Action::Cleanup => {
                c.cleanups += 1;
                w.cleanup_ok
            }
            Action::Restart(i) => {
                c.restarts.push(i);
                w.restarts[i]
            }
            Action::Finish => true,
        };
        p.report(ok);
    }
    assert_eq!(p.pending(), Action::Finish);
    let r = p.result();
    (c, r)
}

#[test]
fn failing_image_at_k_builds_k_times() {
    let w = Outcomes {
        fetch_ok: true,
        dockerfiles: vec![true, true, true, true],
        builds: vec![true, false, true, true],
        cleanup_ok: true,
        restarts: vec![true, true],
    };
    let (c, r) = drive(&w);
    assert_eq!(c.builds, vec![0, 1]);
    assert!(c.restarts.is_empty());
    assert_eq!(c.cleanups, 1);
    assert!(matches!(r, RunResult::Failed(Failure::Build(1))));
}

#[test]
fn all_images_built_restarts_each_resource_once() {
    let w = Outcomes {
        fetch_ok: true,
        dockerfiles: vec![true, true],
        builds: vec![true, true],
        cleanup_ok: true,
        restarts: vec![false, true, false],
    };
    let (c, r) = drive(&w);
    assert_eq!(c.builds, vec![0, 1]);
    assert_eq!(c.restarts, vec![0, 1, 2]);
    match r {
        RunResult::RestartsFailed(v) => assert_eq!(v, vec![0, 2]),
        other => panic!("unexpected {:?}", other),
    }
}

#[test]
fn cleanup_failure_keeps_success() {
    let w = Outcomes {
        fetch_ok: true,
        dockerfiles: vec![true],
        builds: vec![true],
        cleanup_ok: false,
        restarts: vec![true],
    };
    let (c, r) = drive(&w);
    assert_eq!(c.cleanups, 1);
    assert!(matches!(r, RunResult::Done));
}

#[test]
fn cleanup_once_after_failed_build() {
    let w = Outcomes {
        fetch_ok: true,
        dockerfiles: vec![true, true],
        builds: vec![false, true],
        cleanup_ok: false,
        restarts: vec![true],
    };
    let (c, r) = drive(&w);
    assert_eq!(c.cleanups, 1);
    assert_eq!(c.builds, vec![0]);
    assert!(matches!(r, RunResult::Failed(Failure::Build(0))));
}

#[test]
fn missing_web_dockerfile_builds_nothing() {
    // project `api` with images [web, worker], web's Dockerfile missing
    let w = Outcomes {
        fetch_ok: true,
        dockerfiles: vec![false, true],
        builds: vec![true, true],
        cleanup_ok: true,
        restarts: vec![true],
    };
    let (c, r) = drive(&w);
    assert!(c.builds.is_empty());
    assert_eq!(c.cleanups, 1);
    assert!(c.restarts.is_empty());
    assert!(matches!(r, RunResult::Failed(Failure::MissingDockerfile(0))));
}

#[test]
fn missing_second_dockerfile_checked_before_any_build() {
    let w = Outcomes {
        fetch_ok: true,
        dockerfiles: vec![true, false],
        builds: vec![true, true],
        cleanup_ok: true,
        restarts: vec![true],
    };
    let (c, r) = drive(&w);
    assert_eq!(c.checks, 2);
    assert!(c.builds.is_empty());
    assert!(matches!(r, RunResult::Failed(Failure::MissingDockerfile(1))));
}

#[test]
fn one_of_two_restarts_fails() {
    // project `api`: both images build, the second of two restarts fails
    let w = Outcomes {
        fetch_ok: true,
        dockerfiles: vec![true, true],
        builds: vec![true, true],
        cleanup_ok: true,
        restarts: vec![true, false],
    };
    let (c, r) = drive(&w);
    assert_eq!(c.restarts, vec![0, 1]);
    match r {
        RunResult::RestartsFailed(v) => assert_eq!(v, vec![1]),
        other => panic!("unexpected {:?}", other),
    }
}

#[test]
fn failed_fetch_builds_nothing() {
    let w = Outcomes {
        fetch_ok: false,
        dockerfiles: vec![true],
        builds: vec![true],
        cleanup_ok: true,
        restarts: vec![true],
    };
    let (c, r) = drive(&w);
    assert_eq!(c.fetches, 1);
    assert_eq!(c.checks, 0);
    assert!(c.builds.is_empty());
    assert_eq!(c.cleanups, 0);
    assert!(c.restarts.is_empty());
    assert!(matches!(r, RunResult::Failed(Failure::Fetch)));
}

#[test]
fn successful_run_is_done() {
    let w = Outcomes {
        fetch_ok: true,
        dockerfiles: vec![true, true],
        builds: vec![true, true],
        cleanup_ok: true,
        restarts: vec![true, true],
    };
    let (c, r) = drive(&w);
    assert_eq!(c.fetches, 1);
    assert_eq!(c.checks, 2);
    assert_eq!(c.builds, vec![0, 1]);
    assert_eq!(c.cleanups, 1);
    assert_eq!(c.restarts, vec![0, 1]);
    assert!(matches!(r, RunResult::Done));
}

#[test]
fn actions_come_in_order() {
    let mut p = Pipeline::new(2, 1);
    let mut seen = Vec::new();
    while !p.is_finished() {
        seen.push(p.pending());
        p.report(true);
    }
    assert_eq!(
        seen,
        vec![
            Action::Fetch,
            Action::CheckDockerfile(0),
            Action::CheckDockerfile(1),
            Action::Build(0),
            Action::Build(1),
            Action::Cleanup,
            Action::Restart(0),
        ]
    );
}
