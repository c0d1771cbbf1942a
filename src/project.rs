//! A project's configuration, its validation, and what a build of it is made
//! of: the images to build, where their Dockerfiles lie, and the commands.
use vstd::prelude::*;
use vstd::string::*;
use crate::command::{owned, views, str_views, CommandLine};
use crate::pipeline::{initial, Pipeline};
use crate::text::{blank, decimal, decimal_text, is_blank, same_text};

verus! {

pub struct CodeConfig {
    pub url: String,
    pub branch: String,
    pub public: bool,
}

pub struct ImageConfig {
    pub repository: String,
    /// The Dockerfile, relative to the repository root.
    pub location: String,
    pub tag: String,
}

pub struct DeploymentConfig {
    pub namespace: String,
    /// Resources in the form `<kind>/<name>`.
    pub resources: Vec<String>,
}

pub struct ProjectConfig {
    pub name: String,
    pub slug: String,
    pub code: CodeConfig,
    pub image: Vec<ImageConfig>,
    pub deployments: DeploymentConfig,
}

/// The configuration fields that validation names.
#[derive(Clone, Copy, Debug, PartialEq, Eq, Structural)]
pub enum Field {
    Registry,
    Name,
    Slug,
    CodeUrl,
    CodeBranch,
    ImageRepository,
    ImageLocation,
    ImageTag,
    DeploymentNamespace,
}

/// The first violation that validation finds.
#[derive(Clone, Copy, Debug, PartialEq, Eq, Structural)]
pub enum ConfigError {
    Blank(Field),
    InvalidUrl(Field),
    NotHttps(Field),
    NoImages,
    AbsoluteLocation,
    ParentLocation,
    NoResources,
    DuplicateSlug,
}

pub open spec fn field_name(f: Field) -> Seq<char> {
    match f {
        Field::Registry => "app.registry"@,
        Field::Name => "project.name"@,
        Field::Slug => "project.slug"@,
        Field::CodeUrl => "project.code.url"@,
        Field::CodeBranch => "project.code.branch"@,
        Field::ImageRepository => "project.image.repository"@,
        Field::ImageLocation => "project.image.location"@,
        Field::ImageTag => "project.image.tag"@,
        Field::DeploymentNamespace => "project.deployments.namespace"@,
    }
}

pub open spec fn error_message(e: ConfigError) -> Seq<char> {
    match e {
        ConfigError::Blank(f) => field_name(f) + " must not be empty!"@,
        ConfigError::InvalidUrl(f) => "`"@ + field_name(f) + "` must be a valid URL!"@,
        ConfigError::NotHttps(f) => "`"@ + field_name(f) + "` must use HTTPS!"@,
        ConfigError::NoImages => "project.image must have at least one entry!"@,
        ConfigError::AbsoluteLocation => "project.image.location must be a relative path!"@,
        ConfigError::ParentLocation => "project.image.location must not contain parent paths!"@,
        ConfigError::NoResources => "project.deployments.resources must have at least one item!"@,
        ConfigError::DuplicateSlug => "project.slug must be unique!"@,
    }
}

pub fn field_text(f: Field) -> (r: &'static str)
    ensures
        r@ == field_name(f),
{
    match f {
        Field::Registry => "app.registry",
        Field::Name => "project.name",
        Field::Slug => "project.slug",
        Field::CodeUrl => "project.code.url",
        Field::CodeBranch => "project.code.branch",
        Field::ImageRepository => "project.image.repository",
        Field::ImageLocation => "project.image.location",
        Field::ImageTag => "project.image.tag",
        Field::DeploymentNamespace => "project.deployments.namespace",
    }
}

impl ConfigError {
    /// The message that halts startup.
    pub fn message(&self) -> (r: String)
        ensures
            r@ == error_message(*self),
    {
        match *self {
            ConfigError::Blank(f) => String::from_str(field_text(f)).concat(" must not be empty!"),
            ConfigError::InvalidUrl(f) => String::from_str("`").concat(field_text(f)).concat(
                "` must be a valid URL!",
            ),
            ConfigError::NotHttps(f) => String::from_str("`").concat(field_text(f)).concat(
                "` must use HTTPS!",
            ),
            ConfigError::NoImages => String::from_str("project.image must have at least one entry!"),
            ConfigError::AbsoluteLocation => String::from_str(
                "project.image.location must be a relative path!",
            ),
            ConfigError::ParentLocation => String::from_str(
                "project.image.location must not contain parent paths!",
            ),
            ConfigError::NoResources => String::from_str(
                "project.deployments.resources must have at least one item!",
            ),
            ConfigError::DuplicateSlug => String::from_str("project.slug must be unique!"),
        }
    }
}

/// What `url::Url::parse` makes of a string: the scheme of the URL, or
/// nothing where the string is no URL.
pub uninterp spec fn url_scheme(s: Seq<char>) -> Option<Seq<char>>;

/// Relies on `url::Url::parse`, and on `Url::scheme` of the parsed value,
/// being functions of the input string alone.
#[verifier::external_body]
fn parse_url_scheme(s: &str) -> (r: Option<String>)
    ensures
        r is None ==> url_scheme(s@) is None,
        r matches Some(x) ==> url_scheme(s@) == Some(x@),
{
    match url::Url::parse(s) {
        Ok(u) => Some(u.scheme().to_string()),
        Err(_) => None,
    }
}

pub open spec fn opt_view(o: Option<&str>) -> Option<Seq<char>> {
    match o {
        Some(s) => Some(s@),
        None => None,
    }
}

/// The verdict on a URL field from what parsing it gave.
pub open spec fn url_verdict(field: Field, scheme: Option<Seq<char>>) -> Result<(), ConfigError> {
    match scheme {
        None => Err(ConfigError::InvalidUrl(field)),
        Some(s) => if s == "https"@ {
            Ok(())
        } else {
            Err(ConfigError::NotHttps(field))
        },
    }
}

/// Accepts a URL field only where it parsed, with scheme `https`.
pub fn check_url_scheme(field: Field, scheme: Option<&str>) -> (r: Result<(), ConfigError>)
    ensures
        r == url_verdict(field, opt_view(scheme)),
{
    match scheme {
        None => Err(ConfigError::InvalidUrl(field)),
        Some(s) => if same_text(s, "https") {
            Ok(())
        } else {
            Err(ConfigError::NotHttps(field))
        },
    }
}

/// Parses `url` and accepts it only as an HTTPS URL.
pub fn validate_url(url: &str, field: Field) -> (r: Result<(), ConfigError>)
    ensures
        r == url_verdict(field, url_scheme(url@)),
{
    let scheme = parse_url_scheme(url);
    match scheme {
        None => check_url_scheme(field, None),
        Some(s) => check_url_scheme(field, Some(s.as_str())),
    }
}

/// A path that starts at the root, as `Path::is_absolute` has it on Unix.
pub open spec fn is_absolute(p: Seq<char>) -> bool {
    p.len() > 0 && p[0] == '/'
}

/// A `..` component at position `i` of `p`.
pub open spec fn parent_component_at(p: Seq<char>, i: int) -> bool {
    &&& 0 <= i && i + 2 <= p.len()
    &&& p[i] == '.' && p[i + 1] == '.'
    &&& (i == 0 || p[i - 1] == '/')
    &&& (i + 2 == p.len() || p[i + 2] == '/')
}

pub open spec fn has_parent_component(p: Seq<char>) -> bool {
    exists|i: int| parent_component_at(p, i)
}

pub fn absolute_path(p: &str) -> (r: bool)
    ensures
        r == is_absolute(p@),
{
    p.unicode_len() > 0 && p.get_char(0) == '/'
}

pub fn parent_path_component(p: &str) -> (r: bool)
    ensures
        r == has_parent_component(p@),
{
    let n = p.unicode_len();
    let mut i: usize = 0;
    while i < n && n - i >= 2
        invariant
            n == p@.len(),
            i <= n,
            forall|j: int| 0 <= j < i ==> !parent_component_at(p@, j),
        decreases n - i,
    {
        if p.get_char(i) == '.' && p.get_char(i + 1) == '.' && (i == 0 || p.get_char(i - 1)
            == '/') && (i + 2 == n || p.get_char(i + 2) == '/') {
            assert(parent_component_at(p@, i as int));
            return true;
        }
        i += 1;
    }
    false
}

pub open spec fn image_error(im: ImageConfig) -> Option<ConfigError> {
    if is_blank(im.repository@) {
        Some(ConfigError::Blank(Field::ImageRepository))
    } else if is_blank(im.location@) {
        Some(ConfigError::Blank(Field::ImageLocation))
    } else if is_absolute(im.location@) {
        Some(ConfigError::AbsoluteLocation)
    } else if has_parent_component(im.location@) {
        Some(ConfigError::ParentLocation)
    } else if is_blank(im.tag@) {
        Some(ConfigError::Blank(Field::ImageTag))
    } else {
        None
    }
}

/// The first error among the images from index `i` on.
pub open spec fn images_error(images: Seq<ImageConfig>, i: int) -> Option<ConfigError>
    decreases images.len() - i,
{
    if i < 0 || i >= images.len() {
        None
    } else if image_error(images[i]) is Some {
        image_error(images[i])
    } else {
        images_error(images, i + 1)
    }
}

/// The first violation in a project, its URL having parsed to `scheme`.
pub open spec fn project_error(p: ProjectConfig, scheme: Option<Seq<char>>) -> Option<ConfigError> {
    if is_blank(p.name@) {
        Some(ConfigError::Blank(Field::Name))
    } else if is_blank(p.slug@) {
        Some(ConfigError::Blank(Field::Slug))
    } else if url_verdict(Field::CodeUrl, scheme) is Err {
        Some(url_verdict(Field::CodeUrl, scheme)->Err_0)
    } else if is_blank(p.code.branch@) {
        Some(ConfigError::Blank(Field::CodeBranch))
    } else if p.image@.len() == 0 {
        Some(ConfigError::NoImages)
    } else if images_error(p.image@, 0) is Some {
        images_error(p.image@, 0)
    } else if is_blank(p.deployments.namespace@) {
        Some(ConfigError::Blank(Field::DeploymentNamespace))
    } else if p.deployments.resources@.len() == 0 {
        Some(ConfigError::NoResources)
    } else {
        None
    }
}

pub open spec fn as_result(e: Option<ConfigError>) -> Result<(), ConfigError> {
    match e {
        Some(e) => Err(e),
        None => Ok(()),
    }
}

pub fn check_image(im: &ImageConfig) -> (r: Option<ConfigError>)
    ensures
        r == image_error(*im),
{
    if blank(im.repository.as_str()) {
        Some(ConfigError::Blank(Field::ImageRepository))
    } else if blank(im.location.as_str()) {
        Some(ConfigError::Blank(Field::ImageLocation))
    } else if absolute_path(im.location.as_str()) {
        Some(ConfigError::AbsoluteLocation)
    } else if parent_path_component(im.location.as_str()) {
        Some(ConfigError::ParentLocation)
    } else if blank(im.tag.as_str()) {
        Some(ConfigError::Blank(Field::ImageTag))
    } else {
        None
    }
}

proof fn lemma_images_error_skip(images: Seq<ImageConfig>, i: int)
    requires
        0 <= i < images.len(),
        image_error(images[i]) is None,
    ensures
        images_error(images, i) == images_error(images, i + 1),
{
}

impl ProjectConfig {
    /// The first violation in this project, after its code URL went through
    /// the URL parser and gave `scheme`.
    pub fn validate_with_scheme(&self, scheme: Option<&str>) -> (r: Result<(), ConfigError>)
        ensures
            r == as_result(project_error(*self, opt_view(scheme))),
    {
        if blank(self.name.as_str()) {
            return Err(ConfigError::Blank(Field::Name));
        }
        if blank(self.slug.as_str()) {
            return Err(ConfigError::Blank(Field::Slug));
        }
        match check_url_scheme(Field::CodeUrl, scheme) {
            Err(e) => {
                return Err(e);
            },
            Ok(()) => {},
        }
        if blank(self.code.branch.as_str()) {
            return Err(ConfigError::Blank(Field::CodeBranch));
        }
        if self.image.len() == 0 {
            return Err(ConfigError::NoImages);
        }
        let mut i: usize = 0;
        while i < self.image.len()
            invariant
                i <= self.image@.len(),
                !is_blank(self.name@),
                !is_blank(self.slug@),
                url_verdict(Field::CodeUrl, opt_view(scheme)) is Ok,
                !is_blank(self.code.branch@),
                self.image@.len() > 0,
                images_error(self.image@, 0) == images_error(self.image@, i as int),
            decreases self.image@.len() - i,
        {
            match check_image(&self.image[i]) {
                Some(e) => {
                    assert(images_error(self.image@, i as int) == image_error(self.image@[i as int]));
                    return Err(e);
                },
                None => {
                    proof {
                        lemma_images_error_skip(self.image@, i as int);
                    }
                },
            }
            i += 1;
        }
        if blank(self.deployments.namespace.as_str()) {
            return Err(ConfigError::Blank(Field::DeploymentNamespace));
        }
        if self.deployments.resources.len() == 0 {
            return Err(ConfigError::NoResources);
        }
        Ok(())
    }

    /// The first violation in this project: blank fields, a code URL that is
    /// not HTTPS, no images, a Dockerfile location that is absolute or climbs
    /// out of the repository, no resources to restart.
    pub fn validate(&self) -> (r: Result<(), ConfigError>)
        ensures
            r == as_result(project_error(*self, url_scheme(self.code.url@))),
    {
        let scheme = parse_url_scheme(self.code.url.as_str());
        match scheme {
            None => self.validate_with_scheme(None),
            Some(s) => self.validate_with_scheme(Some(s.as_str())),
        }
    }

    pub fn slug(&self) -> (r: &str)
        ensures
            r@ == self.slug@,
    {
        self.slug.as_str()
    }
}

/// One image to build in one run: the destination tag, the Dockerfile and
/// the build context, all as absolute paths inside the workspace.
pub struct BuildImage {
    pub tag: String,
    pub dockerfile_path: String,
    pub context_dir: String,
}

/// The scratch directory under which each project's workspace lies.
pub open spec fn scratch_root() -> Seq<char> {
    "/tmp/"@
}

/// The workspace of the project `slug`.
pub open spec fn workspace_of(slug: Seq<char>) -> Seq<char> {
    scratch_root() + slug
}

/// `Path::join` of a relative path onto a directory.
pub open spec fn join_path(dir: Seq<char>, rel: Seq<char>) -> Seq<char> {
    if dir.len() > 0 && dir.last() == '/' {
        dir + rel
    } else {
        dir + "/"@ + rel
    }
}

/// The index of the last `/` in `p` before position `end`, or -1.
pub open spec fn last_slash(p: Seq<char>, end: int) -> int
    decreases end,
{
    if end <= 0 {
        -1
    } else if p[end - 1] == '/' {
        end - 1
    } else {
        last_slash(p, end - 1)
    }
}

/// The directory that holds the file at `p`: everything before the last `/`,
/// or the root itself where that `/` is the first character.
pub open spec fn parent_dir(p: Seq<char>) -> Seq<char> {
    let k = last_slash(p, p.len() as int);
    if k < 0 {
        Seq::empty()
    } else if k == 0 {
        "/"@
    } else {
        p.subrange(0, k)
    }
}

/// `registry/repository:tag`.
pub open spec fn image_tag(registry: Seq<char>, im: ImageConfig) -> Seq<char> {
    registry + "/"@ + im.repository@ + ":"@ + im.tag@
}

pub open spec fn build_image_of(registry: Seq<char>, workspace: Seq<char>, im: ImageConfig) -> (
    Seq<char>,
    Seq<char>,
    Seq<char>,
) {
    let dockerfile = join_path(workspace, im.location@);
    (image_tag(registry, im), dockerfile, parent_dir(dockerfile))
}

pub open spec fn build_image_view(b: BuildImage) -> (Seq<char>, Seq<char>, Seq<char>) {
    (b.tag@, b.dockerfile_path@, b.context_dir@)
}

pub fn workspace_path(slug: &str) -> (r: String)
    ensures
        r@ == workspace_of(slug@),
{
    String::from_str("/tmp/").concat(slug)
}

pub fn join_dir(dir: &str, rel: &str) -> (r: String)
    ensures
        r@ == join_path(dir@, rel@),
{
    let n = dir.unicode_len();
    if n > 0 && dir.get_char(n - 1) == '/' {
        String::from_str(dir).concat(rel)
    } else {
        String::from_str(dir).concat("/").concat(rel)
    }
}

pub fn parent_of(p: &str) -> (r: String)
    ensures
        r@ == parent_dir(p@),
{
    let n = p.unicode_len();
    let mut end: usize = n;
    while end > 0 && p.get_char(end - 1) != '/'
        invariant
            n == p@.len(),
            end <= n,
            last_slash(p@, n as int) == last_slash(p@, end as int),
        decreases end,
    {
        end -= 1;
    }
    if end == 0 {
        String::new()
    } else if end == 1 {
        String::from_str("/")
    } else {
        String::from_str(p.substring_char(0, end - 1))
    }
}

/// `docker buildx build` of one image on the named builder, with no cache,
/// pushing the result.
pub open spec fn build_args(b: (Seq<char>, Seq<char>, Seq<char>)) -> Seq<Seq<char>> {
    seq![
        "buildx"@,
        "build"@,
        "--builder"@,
        "builder"@,
        "--no-cache"@,
        "--push"@,
        "-t"@,
        b.0,
        "--file"@,
        b.1,
        b.2,
    ]
}

pub fn build_command(b: &BuildImage) -> (r: CommandLine)
    ensures
        r.program@ == "docker"@,
        views(r.args@) == build_args(build_image_view(*b)),
        r.env@.len() == 0,
{
    let words = vec!["buildx", "build", "--builder", "builder", "--no-cache", "--push", "-t"];
    let mut args = owned(&words);
    let ghost a0 = views(args@);
    assert(a0 =~= seq![
        "buildx"@,
        "build"@,
        "--builder"@,
        "builder"@,
        "--no-cache"@,
        "--push"@,
        "-t"@,
    ]) by {
        assert(a0 == str_views(words@));
        assert(a0.len() == 7);
    }
    args.push(b.tag.clone());
    args.push(String::from_str("--file"));
    args.push(b.dockerfile_path.clone());
    args.push(b.context_dir.clone());
    assert(views(args@) =~= a0.push(b.tag@).push("--file"@).push(b.dockerfile_path@).push(
        b.context_dir@,
    ));
    assert(views(args@) =~= build_args(build_image_view(*b)));
    CommandLine { program: String::from_str("docker"), args, env: Vec::new() }
}

/// `items` joined with `sep` between them.
pub open spec fn join_with(items: Seq<Seq<char>>, sep: Seq<char>) -> Seq<char>
    decreases items.len(),
{
    if items.len() == 0 {
        Seq::empty()
    } else if items.len() == 1 {
        items[0]
    } else {
        join_with(items.drop_last(), sep) + sep + items.last()
    }
}

pub fn join_strings(items: &Vec<String>, sep: &str) -> (r: String)
    ensures
        r@ == join_with(views(items@), sep@),
{
    let mut r = String::new();
    let mut i: usize = 0;
    while i < items.len()
        invariant
            i <= items@.len(),
            r@ == join_with(views(items@.subrange(0, i as int)), sep@),
        decreases items@.len() - i,
    {
        let ghost before = views(items@.subrange(0, i as int));
        let ghost after = views(items@.subrange(0, i + 1));
        assert(after.drop_last() =~= before);
        if i == 0 {
            assert(after =~= seq![items@[0]@]);
            r = items[0].clone();
        } else {
            r = r.concat(sep).concat(items[i].as_str());
        }
        i += 1;
    }
    assert(items@.subrange(0, items@.len() as int) =~= items@);
    r
}

pub open spec fn bool_text(b: bool) -> Seq<char> {
    if b {
        "true"@
    } else {
        "false"@
    }
}

pub open spec fn image_line(im: ImageConfig) -> Seq<char> {
    "  Image: "@ + im.repository@ + ":"@ + im.tag@ + " (Dockerfile: "@ + im.location@ + ")"@
}

/// The lines that describe a project when the configuration is loaded.
pub open spec fn project_lines(p: ProjectConfig) -> Seq<Seq<char>> {
    seq![
        "---"@,
        "Project: "@ + p.name@ + ", "@ + p.slug@,
        "  Code URL: "@ + p.code.url@,
        "  Code Branch: "@ + p.code.branch@,
        "  Code is Public: "@ + bool_text(p.code.public),
        "  Images: "@ + decimal(p.image@.len()),
    ] + p.image@.map_values(|im: ImageConfig| image_line(im)) + seq![
        "  Deployment Namespace: "@ + p.deployments.namespace@,
        "  Deployment Resources: "@ + join_with(views(p.deployments.resources@), ", "@),
    ]
}

impl ProjectConfig {
    /// The images of one build of this project, with its workspace under the
    /// scratch root and its tags under `registry`.
    pub fn build_images(&self, registry: &str) -> (r: Vec<BuildImage>)
        ensures
            r@.len() == self.image@.len(),
            forall|i: int|
                0 <= i < r@.len() ==> build_image_view(#[trigger] r@[i]) == build_image_of(
                    registry@,
                    workspace_of(self.slug@),
                    self.image@[i],
                ),
    {
        let workspace = workspace_path(self.slug.as_str());
        let mut r: Vec<BuildImage> = Vec::new();
        let mut i: usize = 0;
        while i < self.image.len()
            invariant
                i <= self.image@.len(),
                workspace@ == workspace_of(self.slug@),
                r@.len() == i,
                forall|j: int|
                    0 <= j < i ==> build_image_view(#[trigger] r@[j]) == build_image_of(
                        registry@,
                        workspace_of(self.slug@),
                        self.image@[j],
                    ),
            decreases self.image@.len() - i,
        {
            let im = &self.image[i];
            let tag = String::from_str(registry).concat("/").concat(im.repository.as_str()).concat(
                ":",
            ).concat(im.tag.as_str());
            let dockerfile_path = join_dir(workspace.as_str(), im.location.as_str());
            let context_dir = parent_of(dockerfile_path.as_str());
            r.push(BuildImage { tag, dockerfile_path, context_dir });
            i += 1;
        }
        r
    }

    /// The lines that describe this project.
    pub fn log(&self) -> (r: Vec<String>)
        ensures
            views(r@) == project_lines(*self),
    {
        let mut r: Vec<String> = Vec::new();
        r.push(String::from_str("---"));
        r.push(
            String::from_str("Project: ").concat(self.name.as_str()).concat(", ").concat(
                self.slug.as_str(),
            ),
        );
        r.push(String::from_str("  Code URL: ").concat(self.code.url.as_str()));
        r.push(String::from_str("  Code Branch: ").concat(self.code.branch.as_str()));
        r.push(
            String::from_str("  Code is Public: ").concat(
                if self.code.public {
                    "true"
                } else {
                    "false"
                },
            ),
        );
        r.push(String::from_str("  Images: ").concat(decimal_text(self.image.len()).as_str()));
        let ghost head = views(r@);
        assert(head =~= seq![
            "---"@,
            "Project: "@ + self.name@ + ", "@ + self.slug@,
            "  Code URL: "@ + self.code.url@,
            "  Code Branch: "@ + self.code.branch@,
            "  Code is Public: "@ + bool_text(self.code.public),
            "  Images: "@ + decimal(self.image@.len()),
        ]);
        assert(self.image@.subrange(0, 0).map_values(|im: ImageConfig| image_line(im)) =~= Seq::<
            Seq<char>,
        >::empty());
        assert(head =~= head + Seq::<Seq<char>>::empty());
        let mut i: usize = 0;
        while i < self.image.len()
            invariant
                i <= self.image@.len(),
                views(r@) == head + self.image@.subrange(0, i as int).map_values(
                    |im: ImageConfig| image_line(im),
                ),
            decreases self.image@.len() - i,
        {
            let im = &self.image[i];
            let line = String::from_str("  Image: ").concat(im.repository.as_str()).concat(
                ":",
            ).concat(im.tag.as_str()).concat(" (Dockerfile: ").concat(im.location.as_str()).concat(
                ")",
            );
            let ghost before = views(r@);
            r.push(line);
            assert(views(r@) =~= before.push(image_line(self.image@[i as int])));
            assert(self.image@.subrange(0, i + 1).map_values(|im: ImageConfig| image_line(im))
                =~= self.image@.subrange(0, i as int).map_values(|im: ImageConfig| image_line(im)).push(
                image_line(self.image@[i as int]),
            ));
            i += 1;
        }
        assert(self.image@.subrange(0, self.image@.len() as int) =~= self.image@);
        let ghost mid = views(r@);
        r.push(
            String::from_str("  Deployment Namespace: ").concat(
                self.deployments.namespace.as_str(),
            ),
        );
        r.push(
            String::from_str("  Deployment Resources: ").concat(
                join_strings(&self.deployments.resources, ", ").as_str(),
            ),
        );
        assert(views(r@) =~= mid.push(
            "  Deployment Namespace: "@ + self.deployments.namespace@,
        ).push("  Deployment Resources: "@ + join_with(views(self.deployments.resources@), ", "@)));
        assert(views(r@) =~= project_lines(*self));
        r
    }
}

/// Everything one build run of a project needs: where it fetches from and
/// into, the images it builds, the resources it restarts, and the state of
/// the run.
pub struct BuildRun {
    pub slug: String,
    pub workspace: String,
    pub url: String,
    pub branch: String,
    pub images: Vec<BuildImage>,
    pub namespace: String,
    pub resources: Vec<String>,
    pub pipeline: Pipeline,
}

/// `run` is a fresh run of project `p` with images pushed under `registry`.
pub open spec fn run_of(run: BuildRun, p: ProjectConfig, registry: Seq<char>) -> bool {
    &&& run.slug@ == p.slug@
    &&& run.workspace@ == workspace_of(p.slug@)
    &&& run.url@ == p.code.url@
    &&& run.branch@ == p.code.branch@
    &&& run.images@.len() == p.image@.len()
    &&& forall|i: int|
        0 <= i < run.images@.len() ==> build_image_view(#[trigger] run.images@[i]) == build_image_of(
            registry,
            workspace_of(p.slug@),
            p.image@[i],
        )
    &&& run.namespace@ == p.deployments.namespace@
    &&& views(run.resources@) == views(p.deployments.resources@)
    &&& run.pipeline@ == initial(p.image@.len(), p.deployments.resources@.len())
}

impl ProjectConfig {
    /// A fresh run of this project, about to fetch its source.
    pub fn build(&self, registry: &str) -> (r: BuildRun)
        requires
            self.image@.len() >= 1,
        ensures
            run_of(r, *self, registry@),
    {
        let mut resources: Vec<String> = Vec::new();
        let mut i: usize = 0;
        while i < self.deployments.resources.len()
            invariant
                i <= self.deployments.resources@.len(),
                resources@.len() == i,
                forall|j: int|
                    0 <= j < i ==> #[trigger] resources@[j]@ == self.deployments.resources@[j]@,
            decreases self.deployments.resources@.len() - i,
        {
            resources.push(self.deployments.resources[i].clone());
            i += 1;
        }
        assert(views(resources@) =~= views(self.deployments.resources@));
        BuildRun {
            slug: self.slug.clone(),
            workspace: workspace_path(self.slug.as_str()),
            url: self.code.url.clone(),
            branch: self.code.branch.clone(),
            images: self.build_images(registry),
            namespace: self.deployments.namespace.clone(),
            resources,
            pipeline: Pipeline::new(self.image.len(), self.deployments.resources.len()),
        }
    }
}

} // verus!
