//! The pipeline coordinator: a state machine that, from the outcome of each
//! stage, decides the next external action of one build run.
//!
//! A run fetches the source, checks that every Dockerfile exists, builds the
//! images one at a time, removes the workspace, and restarts each workload.
//! The caller performs each action that `pending` names and hands its outcome
//! to `report`, until the run is finished.
use vstd::prelude::*;

verus! {

#[derive(Clone, Copy, Debug, PartialEq, Eq, Structural)]
pub enum Phase {
    Fetching,
    Checking(usize),
    Building(usize),
    CleaningUp,
    Restarting(usize),
    Finished,
}

/// Why a run failed before its restart stage.
#[derive(Clone, Copy, Debug, PartialEq, Eq, Structural)]
pub enum Failure {
    Fetch,
    MissingDockerfile(usize),
    Build(usize),
}

/// The external work that a run asks for next.
#[derive(Clone, Copy, Debug, PartialEq, Eq, Structural)]
pub enum Action {
    /// Remove the workspace and check out the branch afresh.
    Fetch,
    /// Check that the Dockerfile of the image at this index is a regular file.
    CheckDockerfile(usize),
    /// Build and push the image at this index.
    Build(usize),
    /// Remove the workspace.
    Cleanup,
    /// Restart the resource at this index.
    Restart(usize),
    /// Nothing: the run is over and its build lock is released.
    Finish,
}

/// How a finished run ended.
#[derive(Debug)]
pub enum RunResult {
    Done,
    Failed(Failure),
    /// Every image was built, and the restarts of these resources failed.
    RestartsFailed(Vec<usize>),
}

/// The model of a run: the sizes it was made with, where it stands, and what
/// failed so far.
pub struct RunState {
    pub images: nat,
    pub resources: nat,
    pub phase: Phase,
    pub failure: Option<Failure>,
    pub failed_restarts: Seq<usize>,
}

pub open spec fn initial(images: nat, resources: nat) -> RunState {
    RunState {
        images,
        resources,
        phase: Phase::Fetching,
        failure: None,
        failed_restarts: Seq::empty(),
    }
}

pub open spec fn pending_of(s: RunState) -> Action {
    match s.phase {
        Phase::Fetching => Action::Fetch,
        Phase::Checking(i) => Action::CheckDockerfile(i),
        Phase::Building(i) => Action::Build(i),
        Phase::CleaningUp => Action::Cleanup,
        Phase::Restarting(i) => Action::Restart(i),
        Phase::Finished => Action::Finish,
    }
}

/// The state after the pending action of `s` came back with outcome `ok`.
pub open spec fn advance(s: RunState, ok: bool) -> RunState {
    match s.phase {
        Phase::Fetching => if ok {
            RunState { phase: Phase::Checking(0), ..s }
        } else {
            RunState { phase: Phase::Finished, failure: Some(Failure::Fetch), ..s }
        },
        Phase::Checking(i) => if !ok {
            RunState { phase: Phase::CleaningUp, failure: Some(Failure::MissingDockerfile(i)), ..s }
        } else if i + 1 < s.images {
            RunState { phase: Phase::Checking((i + 1) as usize), ..s }
        } else {
            RunState { phase: Phase::Building(0), ..s }
        },
        Phase::Building(i) => if !ok {
            RunState { phase: Phase::CleaningUp, failure: Some(Failure::Build(i)), ..s }
        } else if i + 1 < s.images {
            RunState { phase: Phase::Building((i + 1) as usize), ..s }
        } else {
            RunState { phase: Phase::CleaningUp, ..s }
        },
        Phase::CleaningUp => if s.failure is Some || s.resources == 0 {
            RunState { phase: Phase::Finished, ..s }
        } else {
            RunState { phase: Phase::Restarting(0), ..s }
        },
        Phase::Restarting(i) => {
            let failed = if ok {
                s.failed_restarts
            } else {
                s.failed_restarts.push(i)
            };
            if i + 1 < s.resources {
                RunState { phase: Phase::Restarting((i + 1) as usize), failed_restarts: failed, ..s }
            } else {
                RunState { phase: Phase::Finished, failed_restarts: failed, ..s }
            }
        },
        Phase::Finished => s,
    }
}

/// A reachable state: indices in range, and a failure recorded only once the
/// run has left the stage where it happened.
pub open spec fn state_wf(s: RunState) -> bool {
    &&& 1 <= s.images <= usize::MAX
    &&& s.resources <= usize::MAX
    &&& s.failed_restarts.len() <= s.resources
    &&& match s.phase {
        Phase::Fetching => s.failure is None && s.failed_restarts.len() == 0,
        Phase::Checking(i) => i < s.images && s.failure is None && s.failed_restarts.len() == 0,
        Phase::Building(i) => i < s.images && s.failure is None && s.failed_restarts.len() == 0,
        Phase::CleaningUp => s.failed_restarts.len() == 0,
        Phase::Restarting(i) => i < s.resources && s.failure is None && s.failed_restarts.len()
            <= i,
        Phase::Finished => true,
    }
}

pub struct Pipeline {
    images: usize,
    resources: usize,
    phase: Phase,
    failure: Option<Failure>,
    failed_restarts: Vec<usize>,
}

impl View for Pipeline {
    type V = RunState;

    closed spec fn view(&self) -> RunState {
        RunState {
            images: self.images as nat,
            resources: self.resources as nat,
            phase: self.phase,
            failure: self.failure,
            failed_restarts: self.failed_restarts@,
        }
    }
}

impl Pipeline {
    /// A run over `images` images and `resources` restart resources, about to fetch.
    pub fn new(images: usize, resources: usize) -> (r: Pipeline)
        requires
            images >= 1,
        ensures
            r@ == initial(images as nat, resources as nat),
            state_wf(r@),
    {
        let r = Pipeline {
            images,
            resources,
            phase: Phase::Fetching,
            failure: None,
            failed_restarts: Vec::new(),
        };
        assert(r@.failed_restarts =~= Seq::<usize>::empty());
        r
    }

    pub fn pending(&self) -> (a: Action)
        ensures
            a == pending_of(self@),
    {
        match self.phase {
            Phase::Fetching => Action::Fetch,
            Phase::Checking(i) => Action::CheckDockerfile(i),
            Phase::Building(i) => Action::Build(i),
            Phase::CleaningUp => Action::Cleanup,
            Phase::Restarting(i) => Action::Restart(i),
            Phase::Finished => Action::Finish,
        }
    }

    pub fn is_finished(&self) -> (r: bool)
        ensures
            r == (self@.phase is Finished),
    {
        matches!(self.phase, Phase::Finished)
    }

    /// Hands in the outcome of the pending action and moves to the next one.
    pub fn report(&mut self, ok: bool)
        requires
            state_wf(old(self)@),
        ensures
            final(self)@ == advance(old(self)@, ok),
            state_wf(final(self)@),
    {
        match self.phase {
            Phase::Fetching => {
                if ok {
                    self.phase = Phase::Checking(0);
                } else {
                    self.phase = Phase::Finished;
                    self.failure = Some(Failure::Fetch);
                }
            },
            Phase::Checking(i) => {
                if !ok {
                    self.phase = Phase::CleaningUp;
                    self.failure = Some(Failure::MissingDockerfile(i));
                } else if i + 1 < self.images {
                    self.phase = Phase::Checking(i + 1);
                } else {
                    self.phase = Phase::Building(0);
                }
            },
            Phase::Building(i) => {
                if !ok {
                    self.phase = Phase::CleaningUp;
                    self.failure = Some(Failure::Build(i));
                } else if i + 1 < self.images {
                    self.phase = Phase::Building(i + 1);
                } else {
                    self.phase = Phase::CleaningUp;
                }
            },
            Phase::CleaningUp => {
                if self.failure.is_some() || self.resources == 0 {
                    self.phase = Phase::Finished;
                } else {
                    self.phase = Phase::Restarting(0);
                }
            },
            Phase::Restarting(i) => {
                if !ok {
                    self.failed_restarts.push(i);
                }
                if i + 1 < self.resources {
                    self.phase = Phase::Restarting(i + 1);
                } else {
                    self.phase = Phase::Finished;
                }
            },
            Phase::Finished => {},
        }
    }

    /// How the run ended: its first stage failure if any, else the restarts
    /// that failed, else success.
    pub fn result(&self) -> (r: RunResult)
        requires
            self@.phase is Finished,
        ensures
            r is Done <==> (self@.failure is None && self@.failed_restarts.len() == 0),
            forall|f: Failure| (r == RunResult::Failed(f)) <==> self@.failure == Some(f),
            r is RestartsFailed <==> (self@.failure is None && self@.failed_restarts.len() > 0),
            r matches RunResult::RestartsFailed(v) ==> v@ == self@.failed_restarts,
    {
        match self.failure {
            Some(f) => RunResult::Failed(f),
            None => if self.failed_restarts.len() == 0 {
                RunResult::Done
            } else {
                RunResult::RestartsFailed(self.failed_restarts.clone())
            },
        }
    }
}

/// The outcome that each external action would have: whether the fetch
/// works, which Dockerfiles exist, which builds succeed, whether removing the
/// workspace works, and which restarts succeed.
pub struct World {
    pub fetch_ok: bool,
    pub dockerfiles: Seq<bool>,
    pub builds: Seq<bool>,
    pub cleanup_ok: bool,
    pub restarts: Seq<bool>,
}

pub open spec fn world_fits(w: World, images: nat, resources: nat) -> bool {
    w.dockerfiles.len() == images && w.builds.len() == images && w.restarts.len() == resources
}

pub open spec fn outcome_in(w: World, a: Action) -> bool {
    match a {
        Action::Fetch => w.fetch_ok,
        Action::CheckDockerfile(i) => w.dockerfiles[i as int],
        Action::Build(i) => w.builds[i as int],
        Action::Cleanup => w.cleanup_ok,
        Action::Restart(i) => w.restarts[i as int],
        Action::Finish => true,
    }
}

/// The actions that a run performs from `s` in world `w`, for at most `fuel` steps.
pub open spec fn run(w: World, s: RunState, fuel: nat) -> Seq<Action>
    decreases fuel,
{
    if fuel == 0 || s.phase is Finished {
        Seq::empty()
    } else {
        seq![pending_of(s)] + run(w, advance(s, outcome_in(w, pending_of(s))), (fuel - 1) as nat)
    }
}

/// The state in which that run stops.
pub open spec fn run_end(w: World, s: RunState, fuel: nat) -> RunState
    decreases fuel,
{
    if fuel == 0 || s.phase is Finished {
        s
    } else {
        run_end(w, advance(s, outcome_in(w, pending_of(s))), (fuel - 1) as nat)
    }
}

/// Enough steps for a whole run.
pub open spec fn max_steps(images: nat, resources: nat) -> nat {
    2 * images + resources + 2
}

/// How many times each kind of action occurs in a trace.
pub struct Tally {
    pub fetches: nat,
    pub checks: nat,
    pub builds: nat,
    pub cleanups: nat,
    pub restarts: nat,
}

pub open spec fn bump(t: Tally, a: Action) -> Tally {
    match a {
        Action::Fetch => Tally { fetches: t.fetches + 1, ..t },
        Action::CheckDockerfile(_) => Tally { checks: t.checks + 1, ..t },
        Action::Build(_) => Tally { builds: t.builds + 1, ..t },
        Action::Cleanup => Tally { cleanups: t.cleanups + 1, ..t },
        Action::Restart(_) => Tally { restarts: t.restarts + 1, ..t },
        Action::Finish => t,
    }
}

pub open spec fn tally(t: Seq<Action>) -> Tally
    decreases t.len(),
{
    if t.len() == 0 {
        Tally { fetches: 0, checks: 0, builds: 0, cleanups: 0, restarts: 0 }
    } else {
        bump(tally(t.subrange(1, t.len() as int)), t[0])
    }
}

/// How many times `a` occurs in a trace.
pub open spec fn times(t: Seq<Action>, a: Action) -> nat
    decreases t.len(),
{
    if t.len() == 0 {
        0
    } else {
        (if t[0] == a {
            1nat
        } else {
            0nat
        }) + times(t.subrange(1, t.len() as int), a)
    }
}

/// Restarts of the resources from `i` to `m` (exclusive), once each.
pub open spec fn restarts_due(i: nat, m: nat, a: Action) -> nat {
    match a {
        Action::Restart(j) => if i <= j < m {
            1
        } else {
            0
        },
        _ => 0,
    }
}

/// The first index from `i` on where `s` is false, or its length.
pub open spec fn first_false(s: Seq<bool>, i: int) -> int
    decreases s.len() - i,
{
    if i >= s.len() || i < 0 {
        s.len() as int
    } else if !s[i] {
        i
    } else {
        first_false(s, i + 1)
    }
}

proof fn lemma_tally_cons(a: Action, t: Seq<Action>)
    ensures
        tally(seq![a] + t) == bump(tally(t), a),
        forall|b: Action|
            #[trigger] times(seq![a] + t, b) == (if a == b {
                1nat
            } else {
                0nat
            }) + times(t, b),
{
    let c = seq![a] + t;
    assert(c.subrange(1, c.len() as int) =~= t);
}

proof fn lemma_run_step(w: World, s: RunState, fuel: nat)
    requires
        fuel > 0,
        !(s.phase is Finished),
    ensures
        tally(run(w, s, fuel)) == bump(
            tally(run(w, advance(s, outcome_in(w, pending_of(s))), (fuel - 1) as nat)),
            pending_of(s),
        ),
        forall|b: Action|
            #[trigger] times(run(w, s, fuel), b) == (if pending_of(s) == b {
                1nat
            } else {
                0nat
            }) + times(run(w, advance(s, outcome_in(w, pending_of(s))), (fuel - 1) as nat), b),
{
    lemma_tally_cons(pending_of(s), run(w, advance(s, outcome_in(w, pending_of(s))), (fuel - 1) as nat));
}

proof fn lemma_finished(w: World, s: RunState, fuel: nat)
    requires
        s.phase is Finished,
    ensures
        tally(run(w, s, fuel)) == (Tally { fetches: 0, checks: 0, builds: 0, cleanups: 0, restarts: 0 }),
        run_end(w, s, fuel) == s,
        forall|b: Action| #[trigger] times(run(w, s, fuel), b) == 0,
{
}

proof fn lemma_restarting(w: World, s: RunState, i: usize, fuel: nat)
    requires
        state_wf(s),
        s.phase == Phase::Restarting(i),
        world_fits(w, s.images, s.resources),
        fuel >= s.resources - i,
    ensures
        tally(run(w, s, fuel)) == (Tally {
            fetches: 0,
            checks: 0,
            builds: 0,
            cleanups: 0,
            restarts: (s.resources - i) as nat,
        }),
        run_end(w, s, fuel).phase is Finished,
        run_end(w, s, fuel).failure is None,
        forall|b: Action|
            #[trigger] times(run(w, s, fuel), b) == restarts_due(i as nat, s.resources, b),
    decreases s.resources - i,
{
    let s2 = advance(s, outcome_in(w, pending_of(s)));
    lemma_run_step(w, s, fuel);
    if i + 1 < s.resources {
        lemma_restarting(w, s2, (i + 1) as usize, (fuel - 1) as nat);
    } else {
        lemma_finished(w, s2, (fuel - 1) as nat);
    }
}

proof fn lemma_cleaning(w: World, s: RunState, fuel: nat)
    requires
        state_wf(s),
        s.phase is CleaningUp,
        world_fits(w, s.images, s.resources),
        fuel >= s.resources + 1,
    ensures
        tally(run(w, s, fuel)) == (Tally {
            fetches: 0,
            checks: 0,
            builds: 0,
            cleanups: 1,
            restarts: if s.failure is Some { 0 } else { s.resources },
        }),
        run_end(w, s, fuel).phase is Finished,
        run_end(w, s, fuel).failure == s.failure,
        forall|b: Action|
            b is Restart ==> #[trigger] times(run(w, s, fuel), b) == if s.failure is Some {
                0
            } else {
                restarts_due(0, s.resources, b)
            },
{
    let s2 = advance(s, outcome_in(w, pending_of(s)));
    lemma_run_step(w, s, fuel);
    if s.failure is Some || s.resources == 0 {
        lemma_finished(w, s2, (fuel - 1) as nat);
    } else {
        lemma_restarting(w, s2, 0, (fuel - 1) as nat);
    }
}

proof fn lemma_building(w: World, s: RunState, i: usize, fuel: nat)
    requires
        state_wf(s),
        s.phase == Phase::Building(i),
        world_fits(w, s.images, s.resources),
        fuel >= s.images - i + 1 + s.resources,
    ensures
        ({
            let j = first_false(w.builds, i as int);
            let t = tally(run(w, s, fuel));
            let e = run_end(w, s, fuel);
            &&& t.fetches == 0 && t.checks == 0 && t.cleanups == 1
            &&& e.phase is Finished
            &&& j < s.images ==> t.builds == j - i + 1 && t.restarts == 0 && e.failure == Some(
                Failure::Build(j as usize),
            )
            &&& j >= s.images ==> t.builds == s.images - i && t.restarts == s.resources
                && e.failure is None
        }),
        forall|b: Action|
            b is Restart ==> #[trigger] times(run(w, s, fuel), b) == if first_false(
                w.builds,
                i as int,
            ) < s.images {
                0
            } else {
                restarts_due(0, s.resources, b)
            },
    decreases s.images - i,
{
    let s2 = advance(s, outcome_in(w, pending_of(s)));
    lemma_run_step(w, s, fuel);
    if !w.builds[i as int] {
        lemma_cleaning(w, s2, (fuel - 1) as nat);
    } else if i + 1 < s.images {
        lemma_building(w, s2, (i + 1) as usize, (fuel - 1) as nat);
    } else {
        lemma_cleaning(w, s2, (fuel - 1) as nat);
        assert(first_false(w.builds, i + 1) == s.images);
    }
}

proof fn lemma_checking(w: World, s: RunState, i: usize, fuel: nat)
    requires
        state_wf(s),
        s.phase == Phase::Checking(i),
        world_fits(w, s.images, s.resources),
        fuel >= s.images - i + s.images + 1 + s.resources,
    ensures
        ({
            let j = first_false(w.dockerfiles, i as int);
            let b = first_false(w.builds, 0);
            let t = tally(run(w, s, fuel));
            let e = run_end(w, s, fuel);
            &&& t.fetches == 0 && t.cleanups == 1
            &&& e.phase is Finished
            &&& j < s.images ==> t.checks == j - i + 1 && t.builds == 0 && t.restarts == 0
                && e.failure == Some(Failure::MissingDockerfile(j as usize))
            &&& j >= s.images ==> t.checks == s.images - i
            &&& (j >= s.images && b < s.images) ==> t.builds == b + 1 && t.restarts == 0
                && e.failure == Some(Failure::Build(b as usize))
            &&& (j >= s.images && b >= s.images) ==> t.builds == s.images && t.restarts
                == s.resources && e.failure is None
        }),
        forall|a: Action|
            a is Restart ==> #[trigger] times(run(w, s, fuel), a) == if first_false(
                w.dockerfiles,
                i as int,
            ) < s.images || first_false(w.builds, 0) < s.images {
                0
            } else {
                restarts_due(0, s.resources, a)
            },
    decreases s.images - i,
{
    let s2 = advance(s, outcome_in(w, pending_of(s)));
    lemma_run_step(w, s, fuel);
    if !w.dockerfiles[i as int] {
        lemma_cleaning(w, s2, (fuel - 1) as nat);
    } else if i + 1 < s.images {
        lemma_checking(w, s2, (i + 1) as usize, (fuel - 1) as nat);
    } else {
        lemma_building(w, s2, 0, (fuel - 1) as nat);
        assert(first_false(w.dockerfiles, i + 1) == s.images);
    }
}

proof fn lemma_whole_run(w: World, images: nat, resources: nat)
    requires
        1 <= images <= usize::MAX,
        resources <= usize::MAX,
        world_fits(w, images, resources),
        w.fetch_ok,
    ensures
        ({
            let j = first_false(w.dockerfiles, 0);
            let b = first_false(w.builds, 0);
            let t = tally(run(w, initial(images, resources), max_steps(images, resources)));
            let e = run_end(w, initial(images, resources), max_steps(images, resources));
            &&& t.fetches == 1 && t.cleanups == 1
            &&& e.phase is Finished
            &&& j < images ==> t.builds == 0 && t.restarts == 0 && e.failure == Some(
                Failure::MissingDockerfile(j as usize),
            )
            &&& (j >= images && b < images) ==> t.builds == b + 1 && t.restarts == 0
                && e.failure == Some(Failure::Build(b as usize))
            &&& (j >= images && b >= images) ==> t.builds == images && t.restarts == resources
                && e.failure is None
        }),
        forall|a: Action|
            a is Restart ==> #[trigger] times(
                run(w, initial(images, resources), max_steps(images, resources)),
                a,
            ) == if first_false(w.dockerfiles, 0) < images || first_false(w.builds, 0) < images {
                0
            } else {
                restarts_due(0, resources, a)
            },
{
    let s = initial(images, resources);
    let fuel = max_steps(images, resources);
    lemma_run_step(w, s, fuel);
    lemma_checking(w, advance(s, true), 0, (fuel - 1) as nat);
}

/// A run whose first failing build is the `k`-th image (counting from one), all
/// Dockerfiles being present, invokes the builder exactly `k` times, on the
/// first `k` images in order, then removes the workspace, never restarts a
/// workload, and fails at image `k`.
pub proof fn lemma_failing_image_stops_sequence(w: World, images: nat, resources: nat, k: nat)
    requires
        1 <= images <= usize::MAX,
        resources <= usize::MAX,
        world_fits(w, images, resources),
        w.fetch_ok,
        forall|i: int| 0 <= i < images ==> #[trigger] w.dockerfiles[i],
        1 <= k <= images,
        forall|i: int| 0 <= i < k - 1 ==> #[trigger] w.builds[i],
        !w.builds[k - 1],
    ensures
        tally(run(w, initial(images, resources), max_steps(images, resources))).builds == k,
        tally(run(w, initial(images, resources), max_steps(images, resources))).restarts == 0,
        run_end(w, initial(images, resources), max_steps(images, resources)).failure == Some(
            Failure::Build((k - 1) as usize),
        ),
        run(w, initial(images, resources), max_steps(images, resources)) == seq![Action::Fetch]
            + check_span(0, images) + build_span(0, k) + seq![Action::Cleanup],
{
    lemma_first_false_at(w.dockerfiles, 0, images as int);
    lemma_first_false_at(w.builds, 0, k - 1);
    lemma_whole_run(w, images, resources);
    lemma_run_trace(w, images, resources);
}

/// A run in which every image builds restarts every configured resource
/// exactly once, in declaration order, whatever the restarts themselves
/// return, and no stage before the restarts has failed.
pub proof fn lemma_all_images_built_restarts_each_resource(
    w: World,
    images: nat,
    resources: nat,
)
    requires
        1 <= images <= usize::MAX,
        resources <= usize::MAX,
        world_fits(w, images, resources),
        w.fetch_ok,
        forall|i: int| 0 <= i < images ==> #[trigger] w.dockerfiles[i],
        forall|i: int| 0 <= i < images ==> #[trigger] w.builds[i],
    ensures
        tally(run(w, initial(images, resources), max_steps(images, resources))).builds == images,
        tally(run(w, initial(images, resources), max_steps(images, resources))).restarts
            == resources,
        forall|j: usize|
            j < resources ==> #[trigger] times(
                run(w, initial(images, resources), max_steps(images, resources)),
                Action::Restart(j),
            ) == 1,
        run_end(w, initial(images, resources), max_steps(images, resources)).phase is Finished,
        run_end(w, initial(images, resources), max_steps(images, resources)).failure is None,
        run(w, initial(images, resources), max_steps(images, resources)) == seq![Action::Fetch]
            + check_span(0, images) + build_span(0, images) + seq![Action::Cleanup]
            + restart_span(0, resources),
{
    lemma_first_false_at(w.dockerfiles, 0, images as int);
    lemma_first_false_at(w.builds, 0, images as int);
    lemma_whole_run(w, images, resources);
    lemma_run_trace(w, images, resources);
}

/// A missing Dockerfile fails the run before the builder is invoked at all:
/// the workspace is still removed once, and no workload is restarted.
pub proof fn lemma_missing_dockerfile_builds_nothing(
    w: World,
    images: nat,
    resources: nat,
    k: nat,
)
    requires
        1 <= images <= usize::MAX,
        resources <= usize::MAX,
        world_fits(w, images, resources),
        w.fetch_ok,
        k < images,
        !w.dockerfiles[k as int],
    ensures
        tally(run(w, initial(images, resources), max_steps(images, resources))).builds == 0,
        tally(run(w, initial(images, resources), max_steps(images, resources))).cleanups == 1,
        tally(run(w, initial(images, resources), max_steps(images, resources))).restarts == 0,
        run(w, initial(images, resources), max_steps(images, resources)) == seq![Action::Fetch]
            + check_span(0, (first_false(w.dockerfiles, 0) + 1) as nat) + seq![Action::Cleanup],
{
    lemma_first_false_le(w.dockerfiles, 0, k as int);
    lemma_whole_run(w, images, resources);
    lemma_run_trace(w, images, resources);
}

/// Once the source is fetched, the workspace is removed exactly once, however
/// the run goes on, right after the last attempted build or the first missing
/// Dockerfile; and whether that removal works never changes how the run ends.
pub proof fn lemma_cleanup_once_and_harmless(w: World, images: nat, resources: nat)
    requires
        1 <= images <= usize::MAX,
        resources <= usize::MAX,
        world_fits(w, images, resources),
        w.fetch_ok,
    ensures
        tally(run(w, initial(images, resources), max_steps(images, resources))).cleanups == 1,
        run_end(w, initial(images, resources), max_steps(images, resources)) == run_end(
            World { cleanup_ok: !w.cleanup_ok, ..w },
            initial(images, resources),
            max_steps(images, resources),
        ),
        run(w, initial(images, resources), max_steps(images, resources)) == expected_run(
            w,
            images,
            resources,
        ),
{
    lemma_whole_run(w, images, resources);
    lemma_run_trace(w, images, resources);
    lemma_cleanup_outcome_ignored(
        w,
        World { cleanup_ok: !w.cleanup_ok, ..w },
        initial(images, resources),
        max_steps(images, resources),
    );
}

proof fn lemma_cleanup_outcome_ignored(w1: World, w2: World, s: RunState, fuel: nat)
    requires
        w1.fetch_ok == w2.fetch_ok,
        w1.dockerfiles == w2.dockerfiles,
        w1.builds == w2.builds,
        w1.restarts == w2.restarts,
    ensures
        run_end(w1, s, fuel) == run_end(w2, s, fuel),
    decreases fuel,
{
    if fuel > 0 && !(s.phase is Finished) {
        let a = pending_of(s);
        assert(advance(s, outcome_in(w1, a)) == advance(s, outcome_in(w2, a)));
        lemma_cleanup_outcome_ignored(w1, w2, advance(s, outcome_in(w1, a)), (fuel - 1) as nat);
    }
}

proof fn lemma_first_false_at(s: Seq<bool>, i: int, k: int)
    requires
        0 <= i <= k <= s.len(),
        forall|j: int| i <= j < k ==> #[trigger] s[j],
        k < s.len() ==> !s[k],
    ensures
        first_false(s, i) == k,
    decreases k - i,
{
    if i < k {
        lemma_first_false_at(s, i + 1, k);
    }
}

proof fn lemma_first_false_ge(s: Seq<bool>, i: int)
    requires
        0 <= i <= s.len(),
    ensures
        i <= first_false(s, i) <= s.len(),
    decreases s.len() - i,
{
    if i < s.len() && s[i] {
        lemma_first_false_ge(s, i + 1);
    }
}

proof fn lemma_first_false_le(s: Seq<bool>, i: int, k: int)
    requires
        0 <= i <= k < s.len(),
        !s[k],
    ensures
        first_false(s, i) <= k,
    decreases k - i,
{
    if i < k && s[i] {
        lemma_first_false_le(s, i + 1, k);
    }
}

/// Checks of the Dockerfiles from index `i` up to `k` (exclusive), in order.
pub open spec fn check_span(i: nat, k: nat) -> Seq<Action>
    decreases k - i,
{
    if i >= k {
        Seq::empty()
    } else {
        seq![Action::CheckDockerfile(i as usize)] + check_span(i + 1, k)
    }
}

/// Builds of the images from index `i` up to `k` (exclusive), in order.
pub open spec fn build_span(i: nat, k: nat) -> Seq<Action>
    decreases k - i,
{
    if i >= k {
        Seq::empty()
    } else {
        seq![Action::Build(i as usize)] + build_span(i + 1, k)
    }
}

/// Restarts of the resources from index `i` up to `k` (exclusive), in order.
pub open spec fn restart_span(i: nat, k: nat) -> Seq<Action>
    decreases k - i,
{
    if i >= k {
        Seq::empty()
    } else {
        seq![Action::Restart(i as usize)] + restart_span(i + 1, k)
    }
}

/// The whole trace of a run over `images` images and `resources` resources in
/// world `w`: the fetch; then, if it worked, the Dockerfile checks up to the
/// first missing one, the builds up to the first failing one, the removal of
/// the workspace, and the restarts only if every image was built.
pub open spec fn expected_run(w: World, images: nat, resources: nat) -> Seq<Action> {
    let j = first_false(w.dockerfiles, 0);
    let b = first_false(w.builds, 0);
    if !w.fetch_ok {
        seq![Action::Fetch]
    } else if j < images {
        seq![Action::Fetch] + check_span(0, (j + 1) as nat) + seq![Action::Cleanup]
    } else if b < images {
        seq![Action::Fetch] + check_span(0, images) + build_span(0, (b + 1) as nat) + seq![
            Action::Cleanup,
        ]
    } else {
        seq![Action::Fetch] + check_span(0, images) + build_span(0, images) + seq![Action::Cleanup]
            + restart_span(0, resources)
    }
}

proof fn lemma_trace_restarting(w: World, s: RunState, i: usize, fuel: nat)
    requires
        state_wf(s),
        s.phase == Phase::Restarting(i),
        world_fits(w, s.images, s.resources),
        fuel >= s.resources - i,
    ensures
        run(w, s, fuel) == restart_span(i as nat, s.resources),
    decreases s.resources - i,
{
    let s2 = advance(s, outcome_in(w, pending_of(s)));
    assert(run(w, s, fuel) == seq![pending_of(s)] + run(w, s2, (fuel - 1) as nat));
    if i + 1 < s.resources {
        lemma_trace_restarting(w, s2, (i + 1) as usize, (fuel - 1) as nat);
    } else {
        assert(restart_span((i + 1) as nat, s.resources) == Seq::<Action>::empty());
    }
    assert(seq![pending_of(s)] + restart_span((i + 1) as nat, s.resources) == restart_span(i as nat, s.resources));
}

proof fn lemma_trace_cleaning(w: World, s: RunState, fuel: nat)
    requires
        state_wf(s),
        s.phase is CleaningUp,
        world_fits(w, s.images, s.resources),
        fuel >= s.resources + 1,
    ensures
        run(w, s, fuel) == seq![Action::Cleanup] + if s.failure is Some {
            Seq::<Action>::empty()
        } else {
            restart_span(0, s.resources)
        },
{
    let s2 = advance(s, outcome_in(w, pending_of(s)));
    assert(run(w, s, fuel) == seq![pending_of(s)] + run(w, s2, (fuel - 1) as nat));
    if s.failure is Some {
    } else if s.resources == 0 {
        assert(restart_span(0, s.resources) == Seq::<Action>::empty());
    } else {
        lemma_trace_restarting(w, s2, 0, (fuel - 1) as nat);
    }
}

proof fn lemma_trace_building(w: World, s: RunState, i: usize, fuel: nat)
    requires
        state_wf(s),
        s.phase == Phase::Building(i),
        world_fits(w, s.images, s.resources),
        fuel >= s.images - i + 1 + s.resources,
    ensures
        ({
            let j = first_false(w.builds, i as int);
            &&& j < s.images ==> run(w, s, fuel) == build_span(i as nat, (j + 1) as nat) + seq![
                Action::Cleanup,
            ]
            &&& j >= s.images ==> run(w, s, fuel) == build_span(i as nat, s.images) + seq![
                Action::Cleanup,
            ] + restart_span(0, s.resources)
        }),
    decreases s.images - i,
{
    let a = pending_of(s);
    let s2 = advance(s, outcome_in(w, a));
    let rest = run(w, s2, (fuel - 1) as nat);
    assert(run(w, s, fuel) == seq![a] + rest);
    let j = first_false(w.builds, i as int);
    if !w.builds[i as int] {
        lemma_trace_cleaning(w, s2, (fuel - 1) as nat);
        assert(build_span((i + 1) as nat, (i + 1) as nat) == Seq::<Action>::empty());
        assert(build_span(i as nat, (i + 1) as nat) =~= seq![a]);
        assert(rest =~= seq![Action::Cleanup]);
    } else if i + 1 < s.images {
        lemma_trace_building(w, s2, (i + 1) as usize, (fuel - 1) as nat);
        if j < s.images {
            lemma_first_false_ge(w.builds, i + 1);
            assert(build_span(i as nat, (j + 1) as nat) == seq![a] + build_span((i + 1) as nat, (j + 1) as nat));
            assert(seq![a] + (build_span((i + 1) as nat, (j + 1) as nat) + seq![Action::Cleanup])
                =~= build_span(i as nat, (j + 1) as nat) + seq![Action::Cleanup]);
        } else {
            assert(build_span(i as nat, s.images) == seq![a] + build_span((i + 1) as nat, s.images));
            assert(seq![a] + (build_span((i + 1) as nat, s.images) + seq![Action::Cleanup]
                + restart_span(0, s.resources)) =~= build_span(i as nat, s.images) + seq![
                Action::Cleanup,
            ] + restart_span(0, s.resources));
        }
    } else {
        lemma_trace_cleaning(w, s2, (fuel - 1) as nat);
        assert(first_false(w.builds, i + 1) == s.images);
        assert(build_span((i + 1) as nat, s.images) == Seq::<Action>::empty());
        assert(build_span(i as nat, s.images) =~= seq![a]);
        assert(seq![a] + (seq![Action::Cleanup] + restart_span(0, s.resources)) =~= build_span(
            i as nat,
            s.images,
        ) + seq![Action::Cleanup] + restart_span(0, s.resources));
    }
}

proof fn lemma_trace_checking(w: World, s: RunState, i: usize, fuel: nat)
    requires
        state_wf(s),
        s.phase == Phase::Checking(i),
        world_fits(w, s.images, s.resources),
        fuel >= s.images - i + s.images + 1 + s.resources,
    ensures
        ({
            let j = first_false(w.dockerfiles, i as int);
            let b = first_false(w.builds, 0);
            &&& j < s.images ==> run(w, s, fuel) == check_span(i as nat, (j + 1) as nat) + seq![
                Action::Cleanup,
            ]
            &&& (j >= s.images && b < s.images) ==> run(w, s, fuel) == check_span(
                i as nat,
                s.images,
            ) + build_span(0, (b + 1) as nat) + seq![Action::Cleanup]
            &&& (j >= s.images && b >= s.images) ==> run(w, s, fuel) == check_span(
                i as nat,
                s.images,
            ) + build_span(0, s.images) + seq![Action::Cleanup] + restart_span(0, s.resources)
        }),
    decreases s.images - i,
{
    let a = pending_of(s);
    let s2 = advance(s, outcome_in(w, a));
    let rest = run(w, s2, (fuel - 1) as nat);
    assert(run(w, s, fuel) == seq![a] + rest);
    let j = first_false(w.dockerfiles, i as int);
    let b = first_false(w.builds, 0);
    assert(check_span(i as nat, s.images) == seq![a] + check_span((i + 1) as nat, s.images));
    if !w.dockerfiles[i as int] {
        lemma_trace_cleaning(w, s2, (fuel - 1) as nat);
        assert(check_span((i + 1) as nat, (i + 1) as nat) == Seq::<Action>::empty());
        assert(check_span(i as nat, (i + 1) as nat) =~= seq![a]);
        assert(rest =~= seq![Action::Cleanup]);
    } else if i + 1 < s.images {
        lemma_trace_checking(w, s2, (i + 1) as usize, (fuel - 1) as nat);
        if j < s.images {
            lemma_first_false_ge(w.dockerfiles, i + 1);
            assert(check_span(i as nat, (j + 1) as nat) == seq![a] + check_span((i + 1) as nat, (j + 1) as nat));
            assert(seq![a] + (check_span((i + 1) as nat, (j + 1) as nat) + seq![Action::Cleanup])
                =~= check_span(i as nat, (j + 1) as nat) + seq![Action::Cleanup]);
        } else if b < s.images {
            assert(seq![a] + (check_span((i + 1) as nat, s.images) + build_span(0, (b + 1) as nat)
                + seq![Action::Cleanup]) =~= check_span(i as nat, s.images) + build_span(
                0,
                (b + 1) as nat,
            ) + seq![Action::Cleanup]);
        } else {
            assert(seq![a] + (check_span((i + 1) as nat, s.images) + build_span(0, s.images)
                + seq![Action::Cleanup] + restart_span(0, s.resources)) =~= check_span(
                i as nat,
                s.images,
            ) + build_span(0, s.images) + seq![Action::Cleanup] + restart_span(0, s.resources));
        }
    } else {
        lemma_trace_building(w, s2, 0, (fuel - 1) as nat);
        assert(first_false(w.dockerfiles, i + 1) == s.images);
        assert(check_span((i + 1) as nat, s.images) == Seq::<Action>::empty());
        assert(check_span(i as nat, s.images) =~= seq![a]);
        if b < s.images {
            assert(seq![a] + (build_span(0, (b + 1) as nat) + seq![Action::Cleanup]) =~= check_span(
                i as nat,
                s.images,
            ) + build_span(0, (b + 1) as nat) + seq![Action::Cleanup]);
        } else {
            assert(seq![a] + (build_span(0, s.images) + seq![Action::Cleanup] + restart_span(
                0,
                s.resources,
            )) =~= check_span(i as nat, s.images) + build_span(0, s.images) + seq![Action::Cleanup]
                + restart_span(0, s.resources));
        }
    }
}

/// A run performs exactly the actions of `expected_run`, in that order: the
/// builds go one at a time in declaration order, the workspace is removed
/// right after the last attempted build (or the first missing Dockerfile),
/// and the restarts, in declaration order, follow only a full set of builds.
pub proof fn lemma_run_trace(w: World, images: nat, resources: nat)
    requires
        1 <= images <= usize::MAX,
        resources <= usize::MAX,
        world_fits(w, images, resources),
    ensures
        run(w, initial(images, resources), max_steps(images, resources)) == expected_run(
            w,
            images,
            resources,
        ),
{
    let s = initial(images, resources);
    let fuel = max_steps(images, resources);
    let s2 = advance(s, outcome_in(w, pending_of(s)));
    assert(run(w, s, fuel) == seq![Action::Fetch] + run(w, s2, (fuel - 1) as nat));
    if w.fetch_ok {
        lemma_trace_checking(w, s2, 0, (fuel - 1) as nat);
        let j = first_false(w.dockerfiles, 0);
        let b = first_false(w.builds, 0);
        if j < images {
            assert(seq![Action::Fetch] + (check_span(0, (j + 1) as nat) + seq![Action::Cleanup])
                =~= seq![Action::Fetch] + check_span(0, (j + 1) as nat) + seq![Action::Cleanup]);
        } else if b < images {
            assert(seq![Action::Fetch] + (check_span(0, images) + build_span(0, (b + 1) as nat)
                + seq![Action::Cleanup]) =~= seq![Action::Fetch] + check_span(0, images)
                + build_span(0, (b + 1) as nat) + seq![Action::Cleanup]);
        } else {
            assert(seq![Action::Fetch] + (check_span(0, images) + build_span(0, images) + seq![
                Action::Cleanup,
            ] + restart_span(0, resources)) =~= seq![Action::Fetch] + check_span(0, images)
                + build_span(0, images) + seq![Action::Cleanup] + restart_span(0, resources));
        }
    } else {
        assert(run(w, s2, (fuel - 1) as nat) == Seq::<Action>::empty());
        assert(seq![Action::Fetch] + Seq::<Action>::empty() =~= seq![Action::Fetch]);
    }
}

} // verus!
