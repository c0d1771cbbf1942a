//! What the HTTP layer asks of the core: the decision on a trigger request,
//! from the configuration, the builder's readiness and the build gate.
use vstd::prelude::*;
use vstd::string::*;
use crate::config::{slugs_unique, ConfigFile};
use crate::gate::{
    acquire, gate_wf, has_slug, is_held, lemma_slot_is, release, slot_of, BuildLocks, GateResult,
    GateState,
};
use crate::project::{run_of, BuildRun, ProjectConfig};
use crate::text::same_text;

verus! {

/// The answer to a trigger that started a build.
pub struct BuildHookResponse;

pub open spec fn started_body() -> Seq<char> {
    "Build started; rollout restart will run after build completes\n"@
}

impl BuildHookResponse {
    pub fn status(&self) -> (r: u16)
        ensures
            r == 200,
    {
        200
    }

    pub fn body(&self) -> (r: &'static str)
        ensures
            r@ == started_body(),
    {
        "Build started; rollout restart will run after build completes\n"
    }
}

/// An HTTP status and body.
pub struct TriggerResponse {
    pub status: u16,
    pub body: String,
}

pub open spec fn not_found_body(slug: Seq<char>) -> Seq<char> {
    "No configuration found for project `"@ + slug + "`\n"@
}

pub open spec fn not_ready_body(slug: Seq<char>) -> Seq<char> {
    "Image builder is not ready; build of project `"@ + slug + "` not started\n"@
}

pub open spec fn busy_body(slug: Seq<char>) -> Seq<char> {
    "Build already in progress for project `"@ + slug + "`\n"@
}

pub open spec fn lock_missing_body(slug: Seq<char>) -> Seq<char> {
    "Build lock missing for project `"@ + slug + "`\n"@
}

/// Some configured project has this slug.
pub open spec fn configured(ps: Seq<ProjectConfig>, slug: Seq<char>) -> bool {
    exists|i: int| 0 <= i < ps.len() && #[trigger] ps[i].slug@ == slug
}

pub open spec fn project_slugs(ps: Seq<ProjectConfig>) -> Seq<Seq<char>> {
    ps.map_values(|p: ProjectConfig| p.slug@)
}

/// The process-wide state of the service: the configuration, the token for
/// private repositories, one build lock per project, and whether the image
/// builder is ready.
pub struct AppState {
    config: ConfigFile,
    github_token: String,
    build_locks: BuildLocks,
    builder_ready: bool,
}

impl AppState {
    pub closed spec fn gate(&self) -> GateState {
        self.build_locks@
    }

    pub closed spec fn projects(&self) -> Seq<ProjectConfig> {
        self.config.projects@
    }

    pub closed spec fn registry(&self) -> Seq<char> {
        self.config.app.registry@
    }

    pub closed spec fn ready(&self) -> bool {
        self.builder_ready
    }

    /// One lock for each project, keyed by its slug; each project has an image.
    pub closed spec fn wf(&self) -> bool {
        &&& gate_wf(self.build_locks@)
        &&& self.build_locks@.slugs == project_slugs(self.config.projects@)
        &&& forall|i: int|
            0 <= i < self.config.projects@.len() ==> #[trigger] self.config.projects@[i].image@.len()
                >= 1
    }

    /// The locks are exactly those of the configured projects, one per slug.
    pub proof fn lemma_locks_match_projects(&self)
        requires
            self.wf(),
        ensures
            gate_wf(self.gate()),
            self.gate().slugs == project_slugs(self.projects()),
            forall|slug: Seq<char>|
                has_slug(self.gate(), slug) <==> #[trigger] configured(self.projects(), slug),
    {
        assert forall|slug: Seq<char>|
            has_slug(self.gate(), slug) <==> #[trigger] configured(self.projects(), slug) by {
            if configured(self.projects(), slug) {
                let i = choose|i: int|
                    0 <= i < self.projects().len() && #[trigger] self.projects()[i].slug@ == slug;
                assert(self.gate().slugs[i] == slug);
            }
            if has_slug(self.gate(), slug) {
                let i = choose|i: int|
                    0 <= i < self.gate().slugs.len() && self.gate().slugs[i] == slug;
                assert(self.projects()[i].slug@ == slug);
            }
        }
    }

    /// The state of a service that has loaded `config`: every lock free, the
    /// builder not ready yet.
    pub fn new(config: ConfigFile, github_token: String) -> (r: AppState)
        requires
            slugs_unique(config.projects@),
            forall|i: int|
                0 <= i < config.projects@.len() ==> #[trigger] config.projects@[i].image@.len()
                    >= 1,
        ensures
            r.wf(),
            gate_wf(r.gate()),
            r.gate().slugs == project_slugs(config.projects@),
            r.projects() == config.projects@,
            r.registry() == config.app.registry@,
            r.token() == github_token@,
            !r.ready(),
            forall|i: int| 0 <= i < r.gate().held.len() ==> !#[trigger] r.gate().held[i],
    {
        let mut slugs: Vec<String> = Vec::new();
        let mut i: usize = 0;
        while i < config.projects.len()
            invariant
                i <= config.projects@.len(),
                slugs@.len() == i,
                forall|j: int| 0 <= j < i ==> #[trigger] slugs@[j]@ == config.projects@[j].slug@,
            decreases config.projects@.len() - i,
        {
            slugs.push(config.projects[i].slug.clone());
            i += 1;
        }
        let build_locks = BuildLocks::new(&slugs);
        assert(build_locks@.slugs =~= project_slugs(config.projects@));
        AppState { config, github_token, build_locks, builder_ready: false }
    }

    pub fn config(&self) -> (r: &ConfigFile)
        ensures
            r.projects@ == self.projects(),
            r.app.registry@ == self.registry(),
    {
        &self.config
    }

    pub closed spec fn token(&self) -> Seq<char> {
        self.github_token@
    }

    /// The access token for private repositories.
    pub fn github_token(&self) -> (r: &str)
        ensures
            r@ == self.token(),
    {
        self.github_token.as_str()
    }

    pub fn builder_ready(&self) -> (r: bool)
        ensures
            r == self.ready(),
    {
        self.builder_ready
    }

    /// Records whether the image builder is ready for builds.
    pub fn set_builder_ready(&mut self, ready: bool)
        requires
            old(self).wf(),
        ensures
            final(self).wf(),
            final(self).ready() == ready,
            final(self).gate() == old(self).gate(),
            final(self).projects() == old(self).projects(),
            final(self).registry() == old(self).registry(),
    {
        self.builder_ready = ready;
    }

    fn find_project(&self, slug: &str) -> (r: Option<usize>)
        requires
            self.wf(),
        ensures
            r is None <==> !has_slug(self.gate(), slug@),
            r matches Some(i) ==> i < self.projects().len() && self.projects()[i as int].slug@
                == slug@,
    {
        let mut i: usize = 0;
        while i < self.config.projects.len()
            invariant
                self.wf(),
                i <= self.config.projects@.len(),
                forall|j: int| 0 <= j < i ==> self.config.projects@[j].slug@ != slug@,
            decreases self.config.projects@.len() - i,
        {
            if same_text(self.config.projects[i].slug.as_str(), slug) {
                assert(self.build_locks@.slugs[i as int] == slug@);
                return Some(i);
            }
            i += 1;
        }
        assert(!has_slug(self.gate(), slug@)) by {
            if has_slug(self.gate(), slug@) {
                let k = choose|k: int| 0 <= k < self.gate().slugs.len() && self.gate().slugs[k] == slug@;
                assert(self.config.projects@[k].slug@ == slug@);
            }
        }
        None
    }

    /// The decision on a trigger for `slug`: `404` for an unknown project and
    /// `503` while the builder is not ready, both leaving every lock alone;
    /// `409` while a build of the project is in flight; otherwise the
    /// project's lock is taken, the answer is `200`, and the run to start
    /// comes with it.
    pub fn trigger(&mut self, slug: &str) -> (r: (TriggerResponse, Option<BuildRun>))
        requires
            old(self).wf(),
        ensures
            final(self).wf(),
            final(self).projects() == old(self).projects(),
            final(self).registry() == old(self).registry(),
            final(self).ready() == old(self).ready(),
            !configured(old(self).projects(), slug@) ==> r.0.status == 404 && r.0.body@
                == not_found_body(slug@) && r.1 is None && final(self).gate() == old(self).gate(),
            configured(old(self).projects(), slug@) && !old(self).ready() ==> r.0.status == 503
                && r.0.body@ == not_ready_body(slug@) && r.1 is None && final(self).gate() == old(self).gate(),
            configured(old(self).projects(), slug@) && old(self).ready() && is_held(
                old(self).gate(),
                slug@,
            ) ==> r.0.status == 409 && r.0.body@ == busy_body(slug@) && r.1 is None && final(self).gate() == old(self).gate(),
            configured(old(self).projects(), slug@) && old(self).ready() && !is_held(
                old(self).gate(),
                slug@,
            ) ==> ({
                &&& r.0.status == 200
                &&& r.0.body@ == started_body()
                &&& final(self).gate() == acquire(old(self).gate(), slug@).0
                &&& is_held(final(self).gate(), slug@)
                &&& r.1 is Some
                &&& forall|i: int|
                    0 <= i < old(self).projects().len() && #[trigger] old(self).projects()[i].slug@
                        == slug@ ==> run_of(r.1->Some_0, old(self).projects()[i], old(self).registry())
            }),
    {
        let found = self.find_project(slug);
        match found {
            None => {
                proof {
                    self.lemma_locks_match_projects();
                }
                let body = String::from_str("No configuration found for project `").concat(
                    slug,
                ).concat("`\n");
                (TriggerResponse { status: 404, body }, None)
            },
            Some(i) => {
                proof {
                    self.lemma_locks_match_projects();
                    lemma_slot_is(self.gate(), slug@, i as int);
                }
                if !self.builder_ready {
                    let body = String::from_str(
                        "Image builder is not ready; build of project `",
                    ).concat(slug).concat("` not started\n");
                    return (TriggerResponse { status: 503, body }, None);
                }
                match self.build_locks.try_acquire(slug) {
                    GateResult::Busy => {
                        let body = String::from_str("Build already in progress for project `").concat(
                            slug,
                        ).concat("`\n");
                        (TriggerResponse { status: 409, body }, None)
                    },
                    GateResult::Unknown => {
                        let body = String::from_str("Build lock missing for project `").concat(
                            slug,
                        ).concat("`\n");
                        (TriggerResponse { status: 500, body }, None)
                    },
                    GateResult::Acquired => {
                        let project = &self.config.projects[i];
                        let run = project.build(self.config.app.registry.as_str());
                        proof {
                            lemma_slot_is(self.gate(), slug@, i as int);
                            assert forall|k: int|
                                0 <= k < old(self).projects().len() && #[trigger] old(self).projects()[k].slug@ == slug@ implies k == i by {
                                assert(old(self).gate().slugs[k] == slug@);
                                assert(old(self).gate().slugs[i as int] == slug@);
                            }
                        }
                        let body = String::from_str(BuildHookResponse.body());
                        (TriggerResponse { status: 200, body }, Some(run))
                    },
                }
            },
        }
    }

    /// Gives back the lock of `slug` once its run is over.
    pub fn finish(&mut self, slug: &str)
        requires
            old(self).wf(),
        ensures
            final(self).wf(),
            final(self).gate() == release(old(self).gate(), slug@),
            final(self).projects() == old(self).projects(),
            final(self).registry() == old(self).registry(),
            final(self).ready() == old(self).ready(),
    {
        self.build_locks.release(slug);
    }

    /// Whether a build of `slug` is in flight.
    pub fn is_building(&self, slug: &str) -> (r: bool)
        requires
            self.wf(),
        ensures
            r == crate::gate::is_held(self.gate(), slug@),
    {
        self.build_locks.is_held(slug)
    }
}

} // verus!
