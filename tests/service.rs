use build_hook::api::{AppState, BuildHookResponse};
use build_hook::auth::{
    authenticate, authorize_bearer, parse_bearer, parse_token_list, AuthError, CurrentUser,
};
use build_hook::buildx::{builder_listed, BuilderSetup, SetupError, SetupStep};
use build_hook::config::{AppConfig, ConfigFile};
use build_hook::project::{CodeConfig, DeploymentConfig, ImageConfig, ProjectConfig};
use build_hook::repo::{access_token, credentials_for};
use build_hook::text::{blank, first_field_str, same_text, split_str, split_trimmed, trim_str};

fn project(slug: &str) -> ProjectConfig {
    ProjectConfig {
        name: slug.to_uppercase(),
        slug: slug.to_string(),
        code: CodeConfig {
            url: "https://github.com/acme/x.git".to_string(),
            branch: "main".to_string(),
            public: true,
        },
        image: vec![ImageConfig {
            repository: "acme/web".to_string(),
            location: "Dockerfile".to_string(),
            tag: "latest".to_string(),
        }],
        deployments: DeploymentConfig {
            namespace: "prod".to_string(),
            resources: vec!["deployment/web".to_string()],
        },
    }
}

fn state() -> AppState {
    let config = ConfigFile {
        app: AppConfig { registry: "https://r.example.com".to_string(), cache: false },
        projects: vec![project("api"), project("web")],
    };
    AppState::new(config, "SECRET-REDACTED".to_string())
}

#[test]
fn second_trigger_while_building_is_busy() {
    let mut s = state();
    s.set_builder_ready(true);
    let (first, run) = s.trigger("api");
    assert_eq!(first.status, 200);
    assert_eq!(first.body, BuildHookResponse.body());
    let run = run.unwrap();
    assert_eq!(run.workspace, "/tmp/api");
    let (second, none) = s.trigger("api");
    assert_eq!(second.status, 409);
    assert_eq!(second.body, "Build already in progress for project `api`\n");
    assert!(none.is_none());
    assert!(s.is_building("api"));
    s.finish("api");
    assert!(!s.is_building("api"));
    let (third, _) = s.trigger("api");
    assert_eq!(third.status, 200);
}

#[test]
fn started_run_is_the_configured_project() {
    let mut s = state();
    s.set_builder_ready(true);
    let (_, run) = s.trigger("web");
    let run = run.unwrap();
    assert_eq!(run.slug, "web");
    assert_eq!(run.url, "https://github.com/acme/x.git");
    assert_eq!(run.branch, "main");
    assert_eq!(run.namespace, "prod");
    assert_eq!(run.resources, vec!["deployment/web".to_string()]);
    assert_eq!(run.images[0].tag, "https://r.example.com/acme/web:latest");
    assert_eq!(run.images[0].dockerfile_path, "/tmp/web/Dockerfile");
    assert!(!s.is_building("api"));
}

#[test]
fn unknown_project_is_not_found() {
    let mut s = state();
    s.set_builder_ready(true);
    let (r, run) = s.trigger("nope");
    assert_eq!(r.status, 404);
    assert_eq!(r.body, "No configuration found for project `nope`\n");
    assert!(run.is_none());
    assert!(!s.is_building("api"));
    assert!(!s.is_building("web"));
}

#[test]
fn trigger_before_builder_ready_is_refused() {
    let mut s = state();
    let (r, run) = s.trigger("api");
    assert_eq!(r.status, 503);
    assert!(run.is_none());
    assert!(!s.is_building("api"));
    assert_eq!(BuildHookResponse.status(), 200);
    assert_eq!(s.github_token(), "SECRET-REDACTED");
}

#[test]
fn bearer_header_parsing() {
    assert_eq!(parse_bearer("Bearer abc"), Some("abc".to_string()));
    assert_eq!(parse_bearer("bEaReR abc def"), Some("abc def".to_string()));
    assert_eq!(parse_bearer("Bearer "), None);
    assert_eq!(parse_bearer("Basic abc"), None);
    assert_eq!(parse_bearer("Bearerabc"), None);
}

#[test]
fn token_allow_list() {
    let tokens = parse_token_list(" one, two ,three");
    assert_eq!(tokens, vec!["one".to_string(), "two".to_string(), "three".to_string()]);
    assert_eq!(authorize_bearer(&tokens, "two"), Some(CurrentUser));
    assert_eq!(authorize_bearer(&tokens, "four"), None);
    assert_eq!(authenticate(None, &tokens), Err(AuthError::MissingHeader));
    assert_eq!(authenticate(Some("Token one"), &tokens), Err(AuthError::BadFormat));
    assert_eq!(authenticate(Some("Bearer four"), &tokens), Err(AuthError::InvalidToken));
    assert_eq!(authenticate(Some("Bearer one"), &tokens), Ok(CurrentUser));
    assert_eq!(
        AuthError::InvalidToken.message(),
        "Unauthorized: Invalid or missing bearer token"
    );
}

fn run_setup(s: &mut BuilderSetup, present: bool) -> Vec<SetupStep> {
    let mut steps = Vec::new();
    while !s.is_over() {
        steps.push(s.pending());
        let out = if present { "NAME/NODE\nbuilder kubernetes\n" } else { "default docker\n" };
        s.report(true, out);
    }
    steps
}

#[test]
fn setup_twice_creates_once() {
    let mut first = BuilderSetup::new(None, None, None);
    let t1 = run_setup(&mut first, false);
    assert_eq!(
        t1,
        vec![
            SetupStep::ListBuilders,
            SetupStep::CreateBuilder,
            SetupStep::BootstrapBuilder,
            SetupStep::UseBuilder,
        ]
    );
    assert_eq!(first.pending(), SetupStep::Ready);
    let mut second = BuilderSetup::new(None, None, None);
    let t2 = run_setup(&mut second, true);
    assert_eq!(t2, vec![SetupStep::ListBuilders, SetupStep::UseBuilder]);
    assert_eq!(second.pending(), SetupStep::Ready);
}

#[test]
fn setup_in_cluster_writes_credentials_first() {
    let mut s = BuilderSetup::new(Some("tok"), Some("10.0.0.1"), Some("443"));
    let c = s.command().unwrap();
    assert_eq!(c.program, "kubectl");
    assert_eq!(
        c.args,
        vec![
            "config", "set-cluster", "k8s", "--server", "https://10.0.0.1:443",
            "--certificate-authority", "/var/run/secrets/kubernetes.io/serviceaccount/ca.crt",
        ]
    );
    assert_eq!(c.env, vec![("KUBECONFIG".to_string(), "/tmp/kubeconfig".to_string())]);
    s.report(true, "");
    assert_eq!(s.command().unwrap().args, vec!["config", "set-credentials", "k8s", "--token", "tok"]);
    s.report(false, "");
    assert_eq!(s.pending(), SetupStep::Fatal(SetupError::ClusterConfig(1)));
    assert!(s.command().is_none());
    assert_eq!(SetupError::ClusterConfig(1).message(), "Failed to set credentials");
}

#[test]
fn setup_without_host_is_fatal() {
    let s = BuilderSetup::new(Some("tok"), None, Some("443"));
    assert_eq!(s.pending(), SetupStep::Fatal(SetupError::MissingHost));
    let t = BuilderSetup::new(Some("tok"), Some("h"), None);
    assert_eq!(t.pending(), SetupStep::Fatal(SetupError::MissingPort));
}

#[test]
fn setup_failure_of_listing_is_fatal() {
    let mut s = BuilderSetup::new(None, None, None);
    assert_eq!(s.command().unwrap().args, vec!["buildx", "ls"]);
    s.report(false, "");
    assert_eq!(s.pending(), SetupStep::Fatal(SetupError::ListFailed));
}

#[test]
fn builder_listing() {
    assert!(builder_listed("builder*   kubernetes"));
    assert!(builder_listed("NAME/NODE DRIVER\ndefault docker\nbuilder kubernetes running\n"));
    assert!(!builder_listed("default   docker"));
    assert!(!builder_listed("NAME/NODE DRIVER\nmybuilder docker-container\n"));
    assert!(!builder_listed("builder0 kubernetes\n \\_ builder0-pod running"));
    assert!(!builder_listed("default docker  # builder"));
}

#[test]
fn fetch_credentials() {
    assert_eq!(access_token(Some("  abc \n")), Some("abc".to_string()));
    assert_eq!(access_token(Some("   ")), None);
    assert_eq!(access_token(None), None);
    assert_eq!(
        credentials_for(Some("abc"), None),
        Some(("x-access-token".to_string(), "abc".to_string()))
    );
    assert_eq!(
        credentials_for(Some("abc"), Some("git")),
        Some(("git".to_string(), "abc".to_string()))
    );
    assert_eq!(credentials_for(None, Some("git")), None);
}

#[test]
fn text_helpers() {
    assert_eq!(trim_str("\u{3000} a b \t"), "a b");
    assert_eq!(trim_str(""), "");
    assert!(blank(" \u{a0}\n"));
    assert!(!blank(" x "));
    assert_eq!(split_trimmed("", ','), vec!["".to_string()]);
    assert_eq!(split_trimmed("a,,b ", ','), vec!["a".to_string(), "".to_string(), "b".to_string()]);
    assert_eq!(split_str("a\nb\n", '\n'), vec!["a".to_string(), "b".to_string(), "".to_string()]);
    assert_eq!(first_field_str("  builder*  kubernetes"), "builder*");
    assert_eq!(first_field_str("   "), "");
    assert!(same_text("é", "é"));
    assert!(!same_text("a", "ab"));
}
