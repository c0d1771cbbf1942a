//! The lifecycle of the remote image builder: optionally give the cluster
//! CLI credentials, then select the named builder, creating and starting it
//! first where it does not exist yet.
//!
//! Like the pipeline, this is a state machine: the caller runs the command of
//! the pending step and reports its outcome, until the builder is ready or
//! setup has failed.
use vstd::prelude::*;
use vstd::string::*;
use crate::command::{owned, str_views, views, CommandLine};
use crate::text::{first_field, first_field_str, same_text, split_on, split_str};

verus! {

/// The name of the builder that every image build runs on.
pub open spec fn builder_name() -> Seq<char> {
    "builder"@
}

#[derive(Clone, Copy, Debug, PartialEq, Eq, Structural)]
pub enum SetupError {
    MissingHost,
    MissingPort,
    /// A cluster configuration command failed (by its position, from 0 to 3).
    ClusterConfig(usize),
    ListFailed,
    UseFailed,
    CreateFailed,
    BootstrapFailed,
}

#[derive(Clone, Copy, Debug, PartialEq, Eq, Structural)]
pub enum SetupStep {
    /// One of the four commands that write the cluster credentials.
    ConfigureCluster(usize),
    ListBuilders,
    UseBuilder,
    CreateBuilder,
    BootstrapBuilder,
    Ready,
    Fatal(SetupError),
}

pub open spec fn is_over(s: SetupStep) -> bool {
    s is Ready || s is Fatal
}

/// The first step: cluster credentials where a service-account token is
/// present (which needs the API server's host and port), else the listing of
/// builders.
pub open spec fn start_step(has_token: bool, has_host: bool, has_port: bool) -> SetupStep {
    if !has_token {
        SetupStep::ListBuilders
    } else if !has_host {
        SetupStep::Fatal(SetupError::MissingHost)
    } else if !has_port {
        SetupStep::Fatal(SetupError::MissingPort)
    } else {
        SetupStep::ConfigureCluster(0)
    }
}

/// The step after `s` ran with outcome `ok`; for the listing, `listed` says
/// whether the builder's name appeared in what it printed.
pub open spec fn next_step(s: SetupStep, ok: bool, listed: bool) -> SetupStep {
    match s {
        SetupStep::ConfigureCluster(i) => if !ok {
            SetupStep::Fatal(SetupError::ClusterConfig(i))
        } else if i < 3 {
            SetupStep::ConfigureCluster((i + 1) as usize)
        } else {
            SetupStep::ListBuilders
        },
        SetupStep::ListBuilders => if !ok {
            SetupStep::Fatal(SetupError::ListFailed)
        } else if listed {
            SetupStep::UseBuilder
        } else {
            SetupStep::CreateBuilder
        },
        SetupStep::CreateBuilder => if !ok {
            SetupStep::Fatal(SetupError::CreateFailed)
        } else {
            SetupStep::BootstrapBuilder
        },
        SetupStep::BootstrapBuilder => if !ok {
            SetupStep::Fatal(SetupError::BootstrapFailed)
        } else {
            SetupStep::UseBuilder
        },
        SetupStep::UseBuilder => if !ok {
            SetupStep::Fatal(SetupError::UseFailed)
        } else {
            SetupStep::Ready
        },
        _ => s,
    }
}

pub open spec fn step_wf(s: SetupStep) -> bool {
    s matches SetupStep::ConfigureCluster(i) ==> i < 4
}

pub open spec fn kubeconfig_path() -> Seq<char> {
    "/tmp/kubeconfig"@
}

pub open spec fn ca_cert_path() -> Seq<char> {
    "/var/run/secrets/kubernetes.io/serviceaccount/ca.crt"@
}

/// The program and arguments of a step, and whether it writes the cluster
/// credentials file (named by `KUBECONFIG`).
pub open spec fn step_command(
    s: SetupStep,
    host: Seq<char>,
    port: Seq<char>,
    token: Seq<char>,
) -> Option<(Seq<char>, Seq<Seq<char>>, bool)> {
    match s {
        SetupStep::ConfigureCluster(i) => Some(
            (
                "kubectl"@,
                if i == 0 {
                    seq![
                        "config"@,
                        "set-cluster"@,
                        "k8s"@,
                        "--server"@,
                        "https://"@ + host + ":"@ + port,
                        "--certificate-authority"@,
                        ca_cert_path(),
                    ]
                } else if i == 1 {
                    seq!["config"@, "set-credentials"@, "k8s"@, "--token"@, token]
                } else if i == 2 {
                    seq![
                        "config"@,
                        "set-context"@,
                        "k8s"@,
                        "--cluster"@,
                        "k8s"@,
                        "--user"@,
                        "k8s"@,
                    ]
                } else {
                    seq!["config"@, "use-context"@, "k8s"@]
                },
                true,
            ),
        ),
        SetupStep::ListBuilders => Some(("docker"@, seq!["buildx"@, "ls"@], false)),
        SetupStep::UseBuilder => Some(("docker"@, seq!["buildx"@, "use"@, builder_name()], false)),
        SetupStep::CreateBuilder => Some(
            (
                "docker"@,
                seq![
                    "buildx"@,
                    "create"@,
                    "--driver"@,
                    "kubernetes"@,
                    "--name"@,
                    builder_name(),
                    "--driver-opt"@,
                    "namespace=build"@,
                    "--driver-opt"@,
                    "replicas=1"@,
                    "--driver-opt"@,
                    "requests.cpu=2"@,
                    "--driver-opt"@,
                    "requests.memory=2Gi"@,
                    "--driver-opt"@,
                    "limits.cpu=4"@,
                    "--driver-opt"@,
                    "limits.memory=4Gi"@,
                    "--use"@,
                ],
                false,
            ),
        ),
        SetupStep::BootstrapBuilder => Some(
            ("docker"@, seq!["buildx"@, "inspect"@, "--bootstrap"@], false),
        ),
        _ => None,
    }
}

pub open spec fn command_view(c: CommandLine) -> (Seq<char>, Seq<Seq<char>>, bool) {
    (
        c.program@,
        views(c.args@),
        c.env@.len() == 1 && c.env@[0].0@ == "KUBECONFIG"@ && c.env@[0].1@ == kubeconfig_path(),
    )
}

pub struct BuilderSetup {
    step: SetupStep,
    host: String,
    port: String,
    token: String,
}

impl View for BuilderSetup {
    type V = SetupStep;

    closed spec fn view(&self) -> SetupStep {
        self.step
    }
}

impl BuilderSetup {
    pub closed spec fn host(&self) -> Seq<char> {
        self.host@
    }

    pub closed spec fn port(&self) -> Seq<char> {
        self.port@
    }

    pub closed spec fn token(&self) -> Seq<char> {
        self.token@
    }

    /// A setup given the service-account token, if one is present, and the
    /// API server's host and port, where they are known.
    pub fn new(token: Option<&str>, host: Option<&str>, port: Option<&str>) -> (r: BuilderSetup)
        ensures
            r@ == start_step(token is Some, host is Some, port is Some),
            step_wf(r@),
            token matches Some(t) ==> r.token() == t@,
            host matches Some(h) ==> r.host() == h@,
            port matches Some(p) ==> r.port() == p@,
    {
        let step = if token.is_none() {
            SetupStep::ListBuilders
        } else if host.is_none() {
            SetupStep::Fatal(SetupError::MissingHost)
        } else if port.is_none() {
            SetupStep::Fatal(SetupError::MissingPort)
        } else {
            SetupStep::ConfigureCluster(0)
        };
        let text = |o: Option<&str>| -> (r: String)
            ensures
                o matches Some(s) ==> r@ == s@,
            {
                match o {
                    Some(s) => String::from_str(s),
                    None => String::new(),
                }
            };
        BuilderSetup { step, host: text(host), port: text(port), token: text(token) }
    }

    pub fn pending(&self) -> (r: SetupStep)
        ensures
            r == self@,
    {
        self.step
    }

    pub fn is_over(&self) -> (r: bool)
        ensures
            r == is_over(self@),
    {
        matches!(self.step, SetupStep::Ready | SetupStep::Fatal(_))
    }

    /// The command of the pending step; none once setup is over.
    pub fn command(&self) -> (r: Option<CommandLine>)
        requires
            step_wf(self@),
        ensures
            r is None <==> is_over(self@),
            r matches Some(c) ==> step_command(self@, self.host(), self.port(), self.token())
                == Some(command_view(c)),
    {
        let ghost expected = step_command(self@, self.host(), self.port(), self.token());
        match self.step {
            SetupStep::ConfigureCluster(i) => {
                let args = if i == 0 {
                    let server = String::from_str("https://").concat(self.host.as_str()).concat(
                        ":",
                    ).concat(self.port.as_str());
                    let words = vec![
                        "config",
                        "set-cluster",
                        "k8s",
                        "--server",
                        server.as_str(),
                        "--certificate-authority",
                        "/var/run/secrets/kubernetes.io/serviceaccount/ca.crt",
                    ];
                    let a = owned(&words);
                    assert(views(a@) =~= expected->Some_0.1) by {
                        assert(views(a@) == str_views(words@));
                    }
                    a
                } else if i == 1 {
                    let words = vec!["config", "set-credentials", "k8s", "--token", self.token.as_str()];
                    let a = owned(&words);
                    assert(views(a@) =~= expected->Some_0.1) by {
                        assert(views(a@) == str_views(words@));
                    }
                    a
                } else if i == 2 {
                    let words = vec!["config", "set-context", "k8s", "--cluster", "k8s", "--user", "k8s"];
                    let a = owned(&words);
                    assert(views(a@) =~= expected->Some_0.1) by {
                        assert(views(a@) == str_views(words@));
                    }
                    a
                } else {
                    let words = vec!["config", "use-context", "k8s"];
                    let a = owned(&words);
                    assert(views(a@) =~= expected->Some_0.1) by {
                        assert(views(a@) == str_views(words@));
                    }
                    a
                };
                let mut env: Vec<(String, String)> = Vec::new();
                env.push((String::from_str("KUBECONFIG"), String::from_str("/tmp/kubeconfig")));
                Some(CommandLine { program: String::from_str("kubectl"), args, env })
            },
            SetupStep::ListBuilders => {
                let words = vec!["buildx", "ls"];
                let args = owned(&words);
                assert(views(args@) =~= expected->Some_0.1) by {
                    assert(views(args@) == str_views(words@));
                }
                Some(CommandLine { program: String::from_str("docker"), args, env: Vec::new() })
            },
            SetupStep::UseBuilder => {
                let words = vec!["buildx", "use", "builder"];
                let args = owned(&words);
                assert(views(args@) =~= expected->Some_0.1) by {
                    assert(views(args@) == str_views(words@));
                }
                Some(CommandLine { program: String::from_str("docker"), args, env: Vec::new() })
            },
            SetupStep::CreateBuilder => {
                let words = vec![
                    "buildx",
                    "create",
                    "--driver",
                    "kubernetes",
                    "--name",
                    "builder",
                    "--driver-opt",
                    "namespace=build",
                    "--driver-opt",
                    "replicas=1",
                    "--driver-opt",
                    "requests.cpu=2",
                    "--driver-opt",
                    "requests.memory=2Gi",
                    "--driver-opt",
                    "limits.cpu=4",
                    "--driver-opt",
                    "limits.memory=4Gi",
                    "--use",
                ];
                let args = owned(&words);
                assert(views(args@) =~= expected->Some_0.1) by {
                    assert(views(args@) == str_views(words@));
                }
                Some(CommandLine { program: String::from_str("docker"), args, env: Vec::new() })
            },
            SetupStep::BootstrapBuilder => {
                let words = vec!["buildx", "inspect", "--bootstrap"];
                let args = owned(&words);
                assert(views(args@) =~= expected->Some_0.1) by {
                    assert(views(args@) == str_views(words@));
                }
                Some(CommandLine { program: String::from_str("docker"), args, env: Vec::new() })
            },
            _ => None,
        }
    }

    /// Hands in the outcome of the pending step's command, with what it printed.
    pub fn report(&mut self, ok: bool, stdout: &str)
        requires
            step_wf(old(self)@),
        ensures
            final(self)@ == next_step(old(self)@, ok, lists_builder(stdout@)),
            step_wf(final(self)@),
            final(self).host() == old(self).host(),
            final(self).port() == old(self).port(),
            final(self).token() == old(self).token(),
    {
        let listed = builder_listed(stdout);
        self.step = match self.step {
            SetupStep::ConfigureCluster(i) => if !ok {
                SetupStep::Fatal(SetupError::ClusterConfig(i))
            } else if i < 3 {
                SetupStep::ConfigureCluster(i + 1)
            } else {
                SetupStep::ListBuilders
            },
            SetupStep::ListBuilders => if !ok {
                SetupStep::Fatal(SetupError::ListFailed)
            } else if listed {
                SetupStep::UseBuilder
            } else {
                SetupStep::CreateBuilder
            },
            SetupStep::CreateBuilder => if !ok {
                SetupStep::Fatal(SetupError::CreateFailed)
            } else {
                SetupStep::BootstrapBuilder
            },
            SetupStep::BootstrapBuilder => if !ok {
                SetupStep::Fatal(SetupError::BootstrapFailed)
            } else {
                SetupStep::UseBuilder
            },
            SetupStep::UseBuilder => if !ok {
                SetupStep::Fatal(SetupError::UseFailed)
            } else {
                SetupStep::Ready
            },
            s => s,
        };
    }
}

/// A field without the `*` that marks the builder in use.
pub open spec fn strip_star(f: Seq<char>) -> Seq<char> {
    if f.len() > 0 && f.last() == '*' {
        f.drop_last()
    } else {
        f
    }
}

/// A line of `docker buildx ls` whose name column is the builder.
pub open spec fn names_builder(line: Seq<char>) -> bool {
    strip_star(first_field(line)) == builder_name()
}

/// The listing of builders has a line for the builder of that exact name.
pub open spec fn lists_builder(out: Seq<char>) -> bool {
    exists|i: int| 0 <= i < split_on(out, '\n').len() && names_builder(#[trigger] split_on(out, '\n')[i])
}

fn line_names_builder(line: &str) -> (r: bool)
    ensures
        r == names_builder(line@),
{
    let field = first_field_str(line);
    let n = field.as_str().unicode_len();
    if n > 0 && field.as_str().get_char(n - 1) == '*' {
        let name = field.as_str().substring_char(0, n - 1);
        assert(name@ =~= field@.drop_last());
        same_text(name, "builder")
    } else {
        same_text(field.as_str(), "builder")
    }
}

/// Whether the listing of builders has a line for the builder, by its
/// exact name.
pub fn builder_listed(stdout: &str) -> (r: bool)
    ensures
        r == lists_builder(stdout@),
{
    let lines = split_str(stdout, '\n');
    let ghost ls = split_on(stdout@, '\n');
    assert(lines@.len() == ls.len()) by {
        assert(lines@.map_values(|p: String| p@).len() == lines@.len());
    }
    let mut i: usize = 0;
    while i < lines.len()
        invariant
            i <= lines@.len(),
            ls == split_on(stdout@, '\n'),
            lines@.map_values(|p: String| p@) == ls,
            lines@.len() == ls.len(),
            forall|j: int| 0 <= j < i ==> !names_builder(#[trigger] ls[j]),
        decreases lines@.len() - i,
    {
        assert(lines@[i as int]@ == ls[i as int]);
        if line_names_builder(lines[i].as_str()) {
            return true;
        }
        i += 1;
    }
    false
}

pub open spec fn setup_message(e: SetupError) -> Seq<char> {
    match e {
        SetupError::MissingHost => "KUBERNETES_SERVICE_HOST not set"@,
        SetupError::MissingPort => "KUBERNETES_SERVICE_PORT not set"@,
        SetupError::ClusterConfig(i) => if i == 0 {
            "Failed to set cluster"@
        } else if i == 1 {
            "Failed to set credentials"@
        } else if i == 2 {
            "Failed to set context"@
        } else {
            "Failed to use context"@
        },
        SetupError::ListFailed => "Failed to list builders"@,
        SetupError::UseFailed => "Failed to use builder"@,
        SetupError::CreateFailed => "Failed to create builder"@,
        SetupError::BootstrapFailed => "Failed to bootstrap builder"@,
    }
}

impl SetupError {
    pub fn message(&self) -> (r: &'static str)
        ensures
            r@ == setup_message(*self),
    {
        match *self {
            SetupError::MissingHost => "KUBERNETES_SERVICE_HOST not set",
            SetupError::MissingPort => "KUBERNETES_SERVICE_PORT not set",
            SetupError::ClusterConfig(i) => if i == 0 {
                "Failed to set cluster"
            } else if i == 1 {
                "Failed to set credentials"
            } else if i == 2 {
                "Failed to set context"
            } else {
                "Failed to use context"
            },
            SetupError::ListFailed => "Failed to list builders",
            SetupError::UseFailed => "Failed to use builder",
            SetupError::CreateFailed => "Failed to create builder",
            SetupError::BootstrapFailed => "Failed to bootstrap builder",
        }
    }
}

/// The steps that setup performs from `s` when every command succeeds and
/// the listing shows the builder exactly when `present`.
pub open spec fn setup_trace(s: SetupStep, present: bool, fuel: nat) -> Seq<SetupStep>
    decreases fuel,
{
    if fuel == 0 || is_over(s) {
        Seq::empty()
    } else {
        seq![s] + setup_trace(next_step(s, true, present), present, (fuel - 1) as nat)
    }
}

pub open spec fn setup_end(s: SetupStep, present: bool, fuel: nat) -> SetupStep
    decreases fuel,
{
    if fuel == 0 || is_over(s) {
        s
    } else {
        setup_end(next_step(s, true, present), present, (fuel - 1) as nat)
    }
}

/// Whether a trace of setup steps creates the builder.
pub open spec fn creates(t: Seq<SetupStep>) -> bool {
    exists|i: int| 0 <= i < t.len() && t[i] == SetupStep::CreateBuilder
}

/// Enough steps for a whole setup.
pub open spec fn setup_steps() -> nat {
    9
}

/// Setting up twice converges: where every command succeeds, the first setup
/// leaves the builder in existence (creating it only where it was missing),
/// and the second, finding it listed, selects that same builder and creates
/// nothing. Both end ready, having selected the builder last.
pub proof fn lemma_setup_idempotent(has_token: bool, has_host: bool, has_port: bool, present: bool)
    requires
        !(start_step(has_token, has_host, has_port) is Fatal),
    ensures
        ({
            let s0 = start_step(has_token, has_host, has_port);
            let t1 = setup_trace(s0, present, setup_steps());
            let after = present || creates(t1);
            let t2 = setup_trace(s0, after, setup_steps());
            &&& setup_end(s0, present, setup_steps()) == SetupStep::Ready
            &&& setup_end(s0, after, setup_steps()) == SetupStep::Ready
            &&& after
            &&& present ==> !creates(t1)
            &&& !creates(t2)
            &&& t1.last() == SetupStep::UseBuilder
            &&& t2.last() == SetupStep::UseBuilder
        }),
{
    reveal_with_fuel(setup_trace, 10);
    reveal_with_fuel(setup_end, 10);
    let s0 = start_step(has_token, has_host, has_port);
    let t1 = setup_trace(s0, present, setup_steps());
    assert(setup_end(s0, present, setup_steps()) == SetupStep::Ready);
    assert(setup_end(s0, true, setup_steps()) == SetupStep::Ready);
    if has_token {
        if present {
            assert(t1 =~= seq![
                SetupStep::ConfigureCluster(0),
                SetupStep::ConfigureCluster(1),
                SetupStep::ConfigureCluster(2),
                SetupStep::ConfigureCluster(3),
                SetupStep::ListBuilders,
                SetupStep::UseBuilder,
            ]);
            assert(!creates(t1)) by {
                if creates(t1) {
                    let k = choose|k: int| 0 <= k < t1.len() && t1[k] == SetupStep::CreateBuilder;
                }
            }
        } else {
            assert(t1 =~= seq![
                SetupStep::ConfigureCluster(0),
                SetupStep::ConfigureCluster(1),
                SetupStep::ConfigureCluster(2),
                SetupStep::ConfigureCluster(3),
                SetupStep::ListBuilders,
                SetupStep::CreateBuilder,
                SetupStep::BootstrapBuilder,
                SetupStep::UseBuilder,
            ]);
            assert(t1[5] == SetupStep::CreateBuilder);
            assert(creates(t1));
        }
        let t2 = setup_trace(s0, true, setup_steps());
        assert(t2 =~= seq![
            SetupStep::ConfigureCluster(0),
            SetupStep::ConfigureCluster(1),
            SetupStep::ConfigureCluster(2),
            SetupStep::ConfigureCluster(3),
            SetupStep::ListBuilders,
            SetupStep::UseBuilder,
        ]);
        assert(!creates(t2)) by {
            if creates(t2) {
                let k = choose|k: int| 0 <= k < t2.len() && t2[k] == SetupStep::CreateBuilder;
            }
        }
    } else {
        if present {
            assert(t1 =~= seq![SetupStep::ListBuilders, SetupStep::UseBuilder]);
            assert(!creates(t1)) by {
                if creates(t1) {
                    let k = choose|k: int| 0 <= k < t1.len() && t1[k] == SetupStep::CreateBuilder;
                }
            }
        } else {
            assert(t1 =~= seq![
                SetupStep::ListBuilders,
                SetupStep::CreateBuilder,
                SetupStep::BootstrapBuilder,
                SetupStep::UseBuilder,
            ]);
            assert(t1[1] == SetupStep::CreateBuilder);
            assert(creates(t1));
        }
        let t2 = setup_trace(s0, true, setup_steps());
        assert(t2 =~= seq![SetupStep::ListBuilders, SetupStep::UseBuilder]);
        assert(!creates(t2)) by {
            if creates(t2) {
                let k = choose|k: int| 0 <= k < t2.len() && t2[k] == SetupStep::CreateBuilder;
            }
        }
    }
}

} // verus!
