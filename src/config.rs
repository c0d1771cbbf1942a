//! The configuration file as a whole: the registry, the projects, and the
//! checks made once when it is loaded.
use vstd::prelude::*;
use vstd::string::*;
use crate::command::views;
use crate::project::{
    as_result, project_error, project_lines, url_scheme, url_verdict, validate_url, ConfigError,
    Field, ProjectConfig,
};
use crate::text::{decimal, decimal_text, same_text};

verus! {

pub struct AppConfig {
    /// The registry under which images are pushed.
    pub registry: String,
    pub cache: bool,
}

pub struct ConfigFile {
    pub app: AppConfig,
    pub projects: Vec<ProjectConfig>,
}

/// The first error among the projects from index `i` on.
pub open spec fn projects_error(ps: Seq<ProjectConfig>, i: int) -> Option<ConfigError>
    decreases ps.len() - i,
{
    if i < 0 || i >= ps.len() {
        None
    } else if project_error(ps[i], url_scheme(ps[i].code.url@)) is Some {
        project_error(ps[i], url_scheme(ps[i].code.url@))
    } else {
        projects_error(ps, i + 1)
    }
}

pub open spec fn slugs_unique(ps: Seq<ProjectConfig>) -> bool {
    forall|i: int, j: int| 0 <= i < ps.len() && 0 <= j < ps.len() && i != j ==> ps[i].slug@ != ps[j].slug@
}

/// The first violation in a configuration file: its registry URL, then each
/// project in order, then two projects that share a slug.
pub open spec fn config_error(c: ConfigFile) -> Option<ConfigError> {
    if url_verdict(Field::Registry, url_scheme(c.app.registry@)) is Err {
        Some(url_verdict(Field::Registry, url_scheme(c.app.registry@))->Err_0)
    } else if projects_error(c.projects@, 0) is Some {
        projects_error(c.projects@, 0)
    } else if !slugs_unique(c.projects@) {
        Some(ConfigError::DuplicateSlug)
    } else {
        None
    }
}

proof fn lemma_projects_error_skip(ps: Seq<ProjectConfig>, i: int)
    requires
        0 <= i < ps.len(),
        project_error(ps[i], url_scheme(ps[i].code.url@)) is None,
    ensures
        projects_error(ps, i) == projects_error(ps, i + 1),
{
}

pub fn slugs_are_unique(ps: &Vec<ProjectConfig>) -> (r: bool)
    ensures
        r == slugs_unique(ps@),
{
    let mut i: usize = 0;
    while i < ps.len()
        invariant
            i <= ps@.len(),
            forall|a: int, b: int| 0 <= a < i && 0 <= b < ps@.len() && a != b ==> ps@[a].slug@ != ps@[b].slug@,
        decreases ps@.len() - i,
    {
        let mut j: usize = 0;
        while j < ps.len()
            invariant
                i < ps@.len(),
                j <= ps@.len(),
                forall|a: int, b: int| 0 <= a < i && 0 <= b < ps@.len() && a != b ==> ps@[a].slug@ != ps@[b].slug@,
                forall|b: int| 0 <= b < j && b != i ==> ps@[i as int].slug@ != ps@[b].slug@,
            decreases ps@.len() - j,
        {
            if j != i && same_text(ps[i].slug.as_str(), ps[j].slug.as_str()) {
                return false;
            }
            j += 1;
        }
        i += 1;
    }
    true
}

/// Checks a loaded configuration file; the first violation found is returned.
pub fn validate(config: &ConfigFile) -> (r: Result<(), ConfigError>)
    ensures
        r == as_result(config_error(*config)),
{
    match validate_url(config.app.registry.as_str(), Field::Registry) {
        Err(e) => {
            return Err(e);
        },
        Ok(()) => {},
    }
    let mut i: usize = 0;
    while i < config.projects.len()
        invariant
            i <= config.projects@.len(),
            url_verdict(Field::Registry, url_scheme(config.app.registry@)) is Ok,
            projects_error(config.projects@, 0) == projects_error(config.projects@, i as int),
        decreases config.projects@.len() - i,
    {
        match config.projects[i].validate() {
            Err(e) => {
                assert(projects_error(config.projects@, i as int) == Some(e));
                return Err(e);
            },
            Ok(()) => {
                proof {
                    lemma_projects_error_skip(config.projects@, i as int);
                }
            },
        }
        i += 1;
    }
    if !slugs_are_unique(&config.projects) {
        return Err(ConfigError::DuplicateSlug);
    }
    Ok(())
}

pub open spec fn bool_word(b: bool) -> Seq<char> {
    if b {
        "true"@
    } else {
        "false"@
    }
}

/// The lines that describe the projects before `k`, in order.
pub open spec fn projects_lines(ps: Seq<ProjectConfig>, k: int) -> Seq<Seq<char>>
    decreases k,
{
    if k <= 0 {
        Seq::empty()
    } else {
        projects_lines(ps, k - 1) + project_lines(ps[k - 1])
    }
}

/// The lines that describe a loaded configuration.
pub open spec fn config_lines(app: AppConfig, ps: Seq<ProjectConfig>) -> Seq<Seq<char>> {
    seq![
        "Builds should be cached: "@ + bool_word(app.cache),
        "Loaded "@ + decimal(ps.len()) + " project(s):"@,
    ] + projects_lines(ps, ps.len() as int)
}

pub fn log(app_config: &AppConfig, projects: &Vec<ProjectConfig>) -> (r: Vec<String>)
    ensures
        views(r@) == config_lines(*app_config, projects@),
{
    let mut r: Vec<String> = Vec::new();
    r.push(
        String::from_str("Builds should be cached: ").concat(
            if app_config.cache {
                "true"
            } else {
                "false"
            },
        ),
    );
    r.push(
        String::from_str("Loaded ").concat(decimal_text(projects.len()).as_str()).concat(
            " project(s):",
        ),
    );
    let ghost head = views(r@);
    assert(head =~= head + projects_lines(projects@, 0));
    let mut i: usize = 0;
    while i < projects.len()
        invariant
            i <= projects@.len(),
            head == seq![
                "Builds should be cached: "@ + bool_word(app_config.cache),
                "Loaded "@ + decimal(projects@.len()) + " project(s):"@,
            ],
            views(r@) == head + projects_lines(projects@, i as int),
        decreases projects@.len() - i,
    {
        let lines = projects[i].log();
        let ghost before = views(r@);
        let mut k: usize = 0;
        while k < lines.len()
            invariant
                i < projects@.len(),
                k <= lines@.len(),
                views(lines@) == project_lines(projects@[i as int]),
                before == head + projects_lines(projects@, i as int),
                views(r@) == before + views(lines@).subrange(0, k as int),
            decreases lines@.len() - k,
        {
            let ghost b2 = views(r@);
            r.push(lines[k].clone());
            assert(views(r@) =~= b2.push(lines@[k as int]@));
            assert(views(lines@).subrange(0, k + 1) =~= views(lines@).subrange(0, k as int).push(
                lines@[k as int]@,
            ));
            k += 1;
        }
        assert(views(lines@).subrange(0, lines@.len() as int) =~= views(lines@));
        assert(projects_lines(projects@, i + 1) == projects_lines(projects@, i as int)
            + project_lines(projects@[i as int]));
        assert(views(r@) =~= head + projects_lines(projects@, i + 1));
        i += 1;
    }
    r
}

} // verus!
