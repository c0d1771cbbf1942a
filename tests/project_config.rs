use build_hook::config::{log, slugs_are_unique, validate, AppConfig, ConfigFile};
use build_hook::text::decimal_text;
use build_hook::kube::restart_command;
use build_hook::project::{
    build_command, check_url_scheme, join_dir, parent_of, validate_url, workspace_path, CodeConfig,
    ConfigError, DeploymentConfig, Field, ImageConfig, ProjectConfig,
};

fn image(repository: &str, location: &str, tag: &str) -> ImageConfig {
    ImageConfig {
        repository: repository.to_string(),
        location: location.to_string(),
        tag: tag.to_string(),
    }
}

fn project(slug: &str) -> ProjectConfig {
    ProjectConfig {
        name: "API".to_string(),
        slug: slug.to_string(),
        code: CodeConfig {
            url: "https://github.com/acme/api.git".to_string(),
            branch: "main".to_string(),
            public: false,
        },
        image: vec![
            image("acme/web", "web/Dockerfile", "latest"),
            image("acme/worker", "worker/Dockerfile", "v1"),
        ],
        deployments: DeploymentConfig {
            namespace: "prod".to_string(),
            resources: vec!["deployment/web".to_string(), "deployment/worker".to_string()],
        },
    }
}

#[test]
fn valid_project_passes() {
    assert_eq!(project("api").validate(), Ok(()));
}

#[test]
fn blank_name_is_rejected() {
    let mut p = project("api");
    p.name = " \t".to_string();
    assert_eq!(p.validate(), Err(ConfigError::Blank(Field::Name)));
    assert_eq!(
        ConfigError::Blank(Field::Name).message(),
        "project.name must not be empty!"
    );
}

#[test]
fn blank_slug_is_rejected() {
    let mut p = project("api");
    p.slug = "".to_string();
    assert_eq!(p.validate(), Err(ConfigError::Blank(Field::Slug)));
}

#[test]
fn http_code_url_is_rejected() {
    let mut p = project("api");
    p.code.url = "http://github.com/acme/api.git".to_string();
    assert_eq!(p.validate(), Err(ConfigError::NotHttps(Field::CodeUrl)));
    assert_eq!(
        ConfigError::NotHttps(Field::CodeUrl).message(),
        "`project.code.url` must use HTTPS!"
    );
}

#[test]
fn malformed_code_url_is_rejected() {
    let mut p = project("api");
    p.code.url = "not a url".to_string();
    assert_eq!(p.validate(), Err(ConfigError::InvalidUrl(Field::CodeUrl)));
    assert_eq!(
        ConfigError::InvalidUrl(Field::CodeUrl).message(),
        "`project.code.url` must be a valid URL!"
    );
}

#[test]
fn url_scheme_verdicts() {
    assert_eq!(validate_url("https://registry.example.com", Field::Registry), Ok(()));
    assert_eq!(
        validate_url("ftp://registry.example.com", Field::Registry),
        Err(ConfigError::NotHttps(Field::Registry))
    );
    assert_eq!(check_url_scheme(Field::CodeUrl, Some("https")), Ok(()));
    assert_eq!(
        check_url_scheme(Field::CodeUrl, Some("http")),
        Err(ConfigError::NotHttps(Field::CodeUrl))
    );
    assert_eq!(
        check_url_scheme(Field::CodeUrl, None),
        Err(ConfigError::InvalidUrl(Field::CodeUrl))
    );
}

#[test]
fn blank_branch_is_rejected() {
    let mut p = project("api");
    p.code.branch = "  ".to_string();
    assert_eq!(p.validate(), Err(ConfigError::Blank(Field::CodeBranch)));
}

#[test]
fn no_images_is_rejected() {
    let mut p = project("api");
    p.image.clear();
    assert_eq!(p.validate(), Err(ConfigError::NoImages));
}

#[test]
fn image_field_errors() {
    let mut p = project("api");
    p.image[1] = image(" ", "Dockerfile", "v1");
    assert_eq!(p.validate(), Err(ConfigError::Blank(Field::ImageRepository)));
    p.image[1] = image("acme/worker", "", "v1");
    assert_eq!(p.validate(), Err(ConfigError::Blank(Field::ImageLocation)));
    p.image[1] = image("acme/worker", "/etc/Dockerfile", "v1");
    assert_eq!(p.validate(), Err(ConfigError::AbsoluteLocation));
    p.image[1] = image("acme/worker", "docker/../../Dockerfile", "v1");
    assert_eq!(p.validate(), Err(ConfigError::ParentLocation));
    p.image[1] = image("acme/worker", "Dockerfile", "\n");
    assert_eq!(p.validate(), Err(ConfigError::Blank(Field::ImageTag)));
    p.image[1] = image("acme/worker", "..hidden/Dockerfile", "v1");
    assert_eq!(p.validate(), Ok(()));
}

#[test]
fn deployment_errors() {
    let mut p = project("api");
    p.deployments.namespace = "".to_string();
    assert_eq!(p.validate(), Err(ConfigError::Blank(Field::DeploymentNamespace)));
    let mut q = project("api");
    q.deployments.resources.clear();
    assert_eq!(q.validate(), Err(ConfigError::NoResources));
    assert_eq!(
        ConfigError::NoResources.message(),
        "project.deployments.resources must have at least one item!"
    );
}

#[test]
fn config_file_checks_registry_projects_and_slugs() {
    let good = ConfigFile {
        app: AppConfig { registry: "https://registry.example.com".to_string(), cache: false },
        projects: vec![project("api"), project("web")],
    };
    assert_eq!(validate(&good), Ok(()));
    let bad_registry = ConfigFile {
        app: AppConfig { registry: "registry".to_string(), cache: false },
        projects: vec![project("api")],
    };
    assert_eq!(validate(&bad_registry), Err(ConfigError::InvalidUrl(Field::Registry)));
    let duplicate = ConfigFile {
        app: AppConfig { registry: "https://r.example.com".to_string(), cache: false },
        projects: vec![project("api"), project("api")],
    };
    assert_eq!(validate(&duplicate), Err(ConfigError::DuplicateSlug));
    assert!(!slugs_are_unique(&duplicate.projects));
}

#[test]
fn build_images_are_placed_in_the_workspace() {
    let images = project("api").build_images("registry.example.com");
    assert_eq!(images.len(), 2);
    assert_eq!(images[0].tag, "registry.example.com/acme/web:latest");
    assert_eq!(images[0].dockerfile_path, "/tmp/api/web/Dockerfile");
    assert_eq!(images[0].context_dir, "/tmp/api/web");
    assert_eq!(images[1].tag, "registry.example.com/acme/worker:v1");
    assert_eq!(images[1].context_dir, "/tmp/api/worker");
}

#[test]
fn paths() {
    assert_eq!(workspace_path("api"), "/tmp/api");
    assert_eq!(join_dir("/tmp/api", "Dockerfile"), "/tmp/api/Dockerfile");
    assert_eq!(join_dir("/tmp/api/", "Dockerfile"), "/tmp/api/Dockerfile");
    assert_eq!(parent_of("/tmp/api/Dockerfile"), "/tmp/api");
    assert_eq!(parent_of("/Dockerfile"), "/");
    assert_eq!(parent_of("Dockerfile"), "");
}

#[test]
fn build_run_matches_project() {
    let run = project("api").build("registry.example.com");
    assert_eq!(run.slug, "api");
    assert_eq!(run.workspace, "/tmp/api");
    assert_eq!(run.branch, "main");
    assert_eq!(run.namespace, "prod");
    assert_eq!(run.resources, vec!["deployment/web".to_string(), "deployment/worker".to_string()]);
    assert_eq!(run.images.len(), 2);
}

#[test]
fn build_command_is_uncached_push() {
    let images = project("api").build_images("r.example.com");
    let c = build_command(&images[0]);
    assert_eq!(c.program, "docker");
    assert_eq!(
        c.args,
        vec![
            "buildx", "build", "--builder", "builder", "--no-cache", "--push", "-t",
            "r.example.com/acme/web:latest", "--file", "/tmp/api/web/Dockerfile", "/tmp/api/web",
        ]
    );
    assert!(c.env.is_empty());
}

#[test]
fn restart_command_names_namespace_and_resource() {
    let c = restart_command("prod", "deployment/web");
    assert_eq!(c.program, "kubectl");
    assert_eq!(c.args, vec!["rollout", "restart", "-n", "prod", "deployment/web"]);
}

#[test]
fn project_log_lines() {
    let lines = project("api").log();
    assert_eq!(
        lines,
        vec![
            "---",
            "Project: API, api",
            "  Code URL: https://github.com/acme/api.git",
            "  Code Branch: main",
            "  Code is Public: false",
            "  Images: 2",
            "  Image: acme/web:latest (Dockerfile: web/Dockerfile)",
            "  Image: acme/worker:v1 (Dockerfile: worker/Dockerfile)",
            "  Deployment Namespace: prod",
            "  Deployment Resources: deployment/web, deployment/worker",
        ]
    );
    assert_eq!(project("api").slug(), "api");
}

#[test]
fn config_log_lines() {
    let app = AppConfig { registry: "https://r.example.com".to_string(), cache: true };
    let lines = log(&app, &vec![project("api")]);
    assert_eq!(lines[0], "Builds should be cached: true");
    assert_eq!(lines[1], "Loaded 1 project(s):");
    assert_eq!(lines.len(), 12);
    assert_eq!(lines[2], "---");
    assert_eq!(lines[7], "  Images: 2");
    assert_eq!(decimal_text(0), "0");
    assert_eq!(decimal_text(1204), "1204");
}
