//! Building machine images with Packer: the command lines of `packer init`,
//! `packer build` and refinement builds, and the stored image templates.
use crate::cli_args::{kv_args, kv_text, kv_string, push_arg, push_kv_args};
use crate::packer_template::opt_view;
use crate::paths::{path_join, path_join_exec};
use crate::string_map::pairs_view;
use crate::terraform_parse::InfraError;
use crate::text::{append_str, copy_string, views};
use vstd::prelude::*;

verus! {

/// The operating system an image is built for.
#[derive(Debug, Clone, Copy, PartialEq, Eq, Structural)]
pub enum Platform {
    Windows,
    Linux,
}

/// A base image build.
#[derive(Debug)]
pub struct BuilderConfig {
    pub platform: Platform,
    pub name: String,
    pub iso: Option<String>,
    pub force: bool,
    pub working_dir: Option<String>,
    pub variables: Vec<(String, String)>,
}

/// A build that refines a base image with a playbook.
#[derive(Debug)]
pub struct RefineConfig {
    pub base: String,
    pub name: String,
    pub playbook: String,
    pub force: bool,
    pub variables: Vec<(String, String)>,
}

/// A stored image template.
#[derive(Debug)]
pub struct Template {
    pub name: String,
    pub platform: Platform,
    pub description: String,
    pub base: Option<String>,
    pub variables: Vec<(String, String)>,
    pub playbooks: Vec<String>,
}

/// The directory name of a platform.
pub open spec fn platform_dir(p: Platform) -> Seq<char> {
    match p {
        Platform::Windows => "windows"@,
        Platform::Linux => "linux"@,
    }
}

/// The base template of a platform: `<config>/templates/<platform>/base.pkr.hcl`.
pub fn template_path(config_dir: &str, platform: Platform) -> (r: String)
    ensures
        r@ == path_join(path_join(path_join(config_dir@, "templates"@), platform_dir(platform)), "base.pkr.hcl"@),
{
    let a = path_join_exec(config_dir, "templates");
    let p = match platform {
        Platform::Windows => "windows",
        Platform::Linux => "linux",
    };
    let b = path_join_exec(a.as_str(), p);
    path_join_exec(b.as_str(), "base.pkr.hcl")
}

/// The directory `packer init` runs in: the one given, else the configuration
/// directory; an existing directory is refused unless forced.
pub fn init_dir(working_dir: Option<String>, config_dir: &str, force: bool, exists: bool) -> (r: Result<String, InfraError>)
    ensures
        ({
            let dir = match working_dir {
                Some(d) => d@,
                None => config_dir@,
            };
            if !force && exists {
                r matches Err(InfraError::Config(m)) && m@ == "Directory "@ + dir + " already exists. Use --force to overwrite"@
            } else {
                r matches Ok(d) && d@ == dir
            }
        }),
{
    let dir = match working_dir {
        Some(d) => d,
        None => String::from_str(config_dir),
    };
    if !force && exists {
        let mut m = String::from_str("Directory ");
        append_str(&mut m, dir.as_str());
        append_str(&mut m, " already exists. Use --force to overwrite");
        return Err(InfraError::Config(m));
    }
    Ok(dir)
}

/// The arguments of `packer init`.
pub fn init_args() -> (r: Vec<String>)
    ensures
        views(r@) == seq!["init"@, "templates/packer_plugins.pkr.hcl"@],
{
    let mut a: Vec<String> = Vec::new();
    push_arg(&mut a, "init");
    push_arg(&mut a, "templates/packer_plugins.pkr.hcl");
    assert(views(a@) =~= seq!["init"@, "templates/packer_plugins.pkr.hcl"@]);
    a
}

/// `-force` when forced.
pub open spec fn force_args(force: bool) -> Seq<Seq<char>> {
    if force {
        seq!["-force"@]
    } else {
        Seq::empty()
    }
}

/// `-var iso_path=<iso>` when there is an ISO.
pub open spec fn iso_args(iso: Option<Seq<char>>) -> Seq<Seq<char>> {
    match iso {
        Some(i) => seq!["-var"@, kv_text("iso_path"@, i)],
        None => Seq::empty(),
    }
}

fn start_build(force: bool) -> (r: Vec<String>)
    ensures
        views(r@) == seq!["build"@, "-timestamp-ui"@] + force_args(force),
{
    let mut a: Vec<String> = Vec::new();
    push_arg(&mut a, "build");
    push_arg(&mut a, "-timestamp-ui");
    if force {
        push_arg(&mut a, "-force");
    }
    assert(views(a@) =~= seq!["build"@, "-timestamp-ui"@] + force_args(force));
    a
}

/// The arguments of `packer build` for a base image: `-force` when forced, the
/// variables, the ISO, then the template.
pub fn build_args(config: &BuilderConfig, template: &str) -> (r: Vec<String>)
    ensures
        views(r@) == seq!["build"@, "-timestamp-ui"@] + force_args(config.force)
            + kv_args("-var"@, pairs_view(config.variables@)) + iso_args(opt_view(config.iso)) + seq![template@],
{
    let mut a = start_build(config.force);
    push_kv_args(&mut a, "-var", &config.variables);
    let ghost mid = views(a@);
    match &config.iso {
        Some(iso) => {
            push_arg(&mut a, "-var");
            let kv = kv_string("iso_path", iso.as_str());
            push_arg(&mut a, kv.as_str());
        },
        None => {},
    }
    assert(views(a@) =~= mid + iso_args(opt_view(config.iso)));
    let ghost mid2 = views(a@);
    push_arg(&mut a, template);
    assert(views(a@) =~= mid2 + seq![template@]);
    a
}

/// The source a refinement starts from: `source.vsphere-iso.<base>`.
pub open spec fn refine_source(base: Seq<char>) -> Seq<char> {
    "source.vsphere-iso."@ + base
}

/// The template of a refinement: `templates/<playbook>/refinements/<name>.pkr.hcl`.
pub open spec fn refine_template(playbook: Seq<char>, name: Seq<char>) -> Seq<char> {
    "templates/"@ + playbook + "/refinements/"@ + name + ".pkr.hcl"@
}

/// The arguments of `packer build` for a refinement: `-force` when forced, the
/// source image, the variables, then the refinement's template.
pub fn refine_args(config: &RefineConfig) -> (r: Vec<String>)
    ensures
        views(r@) == seq!["build"@, "-timestamp-ui"@] + force_args(config.force)
            + seq!["-var"@, kv_text("source_image"@, refine_source(config.base@))]
            + kv_args("-var"@, pairs_view(config.variables@))
            + seq![refine_template(config.playbook@, config.name@)],
{
    let mut a = start_build(config.force);
    let ghost m0 = views(a@);
    let mut src = String::from_str("source.vsphere-iso.");
    append_str(&mut src, config.base.as_str());
    push_arg(&mut a, "-var");
    let kv = kv_string("source_image", src.as_str());
    push_arg(&mut a, kv.as_str());
    assert(views(a@) =~= m0 + seq!["-var"@, kv_text("source_image"@, refine_source(config.base@))]);
    push_kv_args(&mut a, "-var", &config.variables);
    let ghost m1 = views(a@);
    let mut t = String::from_str("templates/");
    append_str(&mut t, config.playbook.as_str());
    append_str(&mut t, "/refinements/");
    append_str(&mut t, config.name.as_str());
    append_str(&mut t, ".pkr.hcl");
    push_arg(&mut a, t.as_str());
    assert(views(a@) =~= m1 + seq![refine_template(config.playbook@, config.name@)]);
    a
}

/// The outcome of a Packer command: its error output when it failed.
pub fn build_outcome(success: bool, stderr: String) -> (r: Result<(), InfraError>)
    ensures
        success ==> r is Ok,
        !success ==> (r matches Err(InfraError::Build(m)) && m@ == stderr@),
{
    if success {
        Ok(())
    } else {
        Err(InfraError::Build(stderr))
    }
}

/// The file of a stored template: `<templates>/<name>.toml`.
pub fn template_file(templates_dir: &str, name: &str) -> (r: String)
    ensures
        r@ == path_join(templates_dir@, name@ + ".toml"@),
{
    let mut f = String::from_str(name);
    append_str(&mut f, ".toml");
    path_join_exec(templates_dir, f.as_str())
}

/// The error for a template that is already stored.
pub fn template_exists(name: &str) -> (r: InfraError)
    ensures
        r matches InfraError::Template(m) && m@ == "Template "@ + name@ + " already exists"@,
{
    let mut m = String::from_str("Template ");
    append_str(&mut m, name);
    append_str(&mut m, " already exists");
    InfraError::Template(m)
}

/// The error for a template that is not stored.
pub fn template_not_found(name: &str) -> (r: InfraError)
    ensures
        r matches InfraError::NotFound(m) && m@ == "Template "@ + name@ + " not found"@,
{
    let mut m = String::from_str("Template ");
    append_str(&mut m, name);
    append_str(&mut m, " not found");
    InfraError::NotFound(m)
}

/// Whether a stored template is listed: all are without a platform, else those of it.
pub fn listed(template: &Template, platform: Option<Platform>) -> (r: bool)
    ensures
        r == match platform {
            Some(p) => template.platform == p,
            None => true,
        },
{
    match platform {
        Some(p) => template.platform == p,
        None => true,
    }
}

} // verus!
