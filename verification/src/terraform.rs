//! Terraform workspaces: the command lines that init, plan, apply, destroy, import
//! and show them, the variables they get, and the machines they provision.
use crate::cli_args::{kv_args, push_arg, push_kv_args};
use crate::machines::{Machine, MachineArch, MachinePlatform};
use crate::packer_template::opt_view;
use crate::paths::{path_join, path_join_exec};
use crate::seqs::insert_entry;
use crate::string_map::{insert_all, map_insert, pairs_view};
use crate::terraform_parse::{copy_pairs, InfraError};
use crate::text::{append_str, chars_of, copy_opt_string, copy_string, decimal, decimal_exec, lines, lines_exec, string_of, views};
use vstd::prelude::*;

verus! {

/// A Terraform workspace to run commands in.
#[derive(Debug)]
pub struct WorkspaceConfig {
    pub name: String,
    pub working_dir: String,
    pub workspace: String,
    pub variables: Vec<(String, String)>,
    pub backend_config: Vec<(String, String)>,
    pub target: Option<String>,
    pub auto_approve: bool,
}

/// `-target <target>` when there is a target.
pub open spec fn target_args(t: Option<String>) -> Seq<Seq<char>> {
    match t {
        Some(t) => seq!["-target"@, t@],
        None => Seq::empty(),
    }
}

/// `-auto-approve` when approval is automatic.
pub open spec fn approve_args(auto: bool) -> Seq<Seq<char>> {
    if auto {
        seq!["-auto-approve"@]
    } else {
        Seq::empty()
    }
}

fn push_target(args: &mut Vec<String>, t: &Option<String>)
    ensures
        views(final(args)@) == views(old(args)@) + target_args(*t),
{
    match t {
        Some(x) => {
            push_arg(args, "-target");
            push_arg(args, x.as_str());
            assert(views(args@) =~= views(old(args)@) + target_args(*t));
        },
        None => {
            assert(views(args@) =~= views(old(args)@) + target_args(*t));
        },
    }
}

fn push_approve(args: &mut Vec<String>, auto: bool)
    ensures
        views(final(args)@) == views(old(args)@) + approve_args(auto),
{
    if auto {
        push_arg(args, "-auto-approve");
    }
    assert(views(args@) =~= views(old(args)@) + approve_args(auto));
}

fn start_args(first: &str) -> (r: Vec<String>)
    ensures
        views(r@) == seq![first@],
{
    let mut a: Vec<String> = Vec::new();
    push_arg(&mut a, first);
    assert(views(a@) =~= seq![first@]);
    a
}

impl WorkspaceConfig {
    /// `terraform init` with each backend setting.
    pub fn init_args(&self) -> (r: Vec<String>)
        ensures
            views(r@) == seq!["init"@] + kv_args("-backend-config"@, pairs_view(self.backend_config@)),
    {
        let mut a = start_args("init");
        push_kv_args(&mut a, "-backend-config", &self.backend_config);
        a
    }

    /// `terraform apply`: approval, variables, target.
    pub fn apply_args(&self) -> (r: Vec<String>)
        ensures
            views(r@) == seq!["apply"@] + approve_args(self.auto_approve)
                + kv_args("-var"@, pairs_view(self.variables@)) + target_args(self.target),
    {
        let mut a = start_args("apply");
        push_approve(&mut a, self.auto_approve);
        push_kv_args(&mut a, "-var", &self.variables);
        push_target(&mut a, &self.target);
        a
    }

    /// `terraform destroy`: approval and variables.
    pub fn destroy_args(&self) -> (r: Vec<String>)
        ensures
            views(r@) == seq!["destroy"@] + approve_args(self.auto_approve)
                + kv_args("-var"@, pairs_view(self.variables@)),
    {
        let mut a = start_args("destroy");
        push_approve(&mut a, self.auto_approve);
        push_kv_args(&mut a, "-var", &self.variables);
        a
    }

    /// `terraform plan`: variables and target.
    pub fn plan_args(&self) -> (r: Vec<String>)
        ensures
            views(r@) == seq!["plan"@] + kv_args("-var"@, pairs_view(self.variables@)) + target_args(self.target),
    {
        let mut a = start_args("plan");
        push_kv_args(&mut a, "-var", &self.variables);
        push_target(&mut a, &self.target);
        a
    }

    /// `terraform workspace select <workspace>`.
    pub fn select_workspace_args(&self) -> (r: Vec<String>)
        ensures
            views(r@) == seq!["workspace"@, "select"@, self.workspace@],
    {
        let mut a = start_args("workspace");
        push_arg(&mut a, "select");
        push_arg(&mut a, self.workspace.as_str());
        assert(views(a@) =~= seq!["workspace"@, "select"@, self.workspace@]);
        a
    }

    /// `terraform import`: backend settings, variables, then the address and the id.
    pub fn import_args(&self, address: &str, id: &str) -> (r: Vec<String>)
        ensures
            views(r@) == seq!["import"@] + kv_args("-backend-config"@, pairs_view(self.backend_config@))
                + kv_args("-var"@, pairs_view(self.variables@)) + seq![address@, id@],
    {
        let mut a = start_args("import");
        push_kv_args(&mut a, "-backend-config", &self.backend_config);
        push_kv_args(&mut a, "-var", &self.variables);
        let ghost mid = views(a@);
        push_arg(&mut a, address);
        push_arg(&mut a, id);
        assert(views(a@) =~= mid + seq![address@, id@]);
        a
    }

    /// `terraform show`.
    pub fn show_args(&self) -> (r: Vec<String>)
        ensures
            views(r@) == seq!["show"@],
    {
        start_args("show")
    }
}

/// The outcome of a Terraform command: its error output when it failed.
pub fn command_outcome(success: bool, stderr: String) -> (r: Result<(), InfraError>)
    ensures
        success ==> r is Ok,
        !success ==> (r matches Err(InfraError::Terraform(m)) && m@ == stderr@),
{
    if success {
        Ok(())
    } else {
        Err(InfraError::Terraform(stderr))
    }
}

/// The outcome of selecting a workspace.
pub fn select_outcome(success: bool, stderr: &str) -> (r: Result<(), InfraError>)
    ensures
        success ==> r is Ok,
        !success ==> (r matches Err(InfraError::Terraform(m)) && m@ == "Failed to select workspace: "@ + stderr@),
{
    if success {
        Ok(())
    } else {
        let mut m = String::from_str("Failed to select workspace: ");
        append_str(&mut m, stderr);
        Err(InfraError::Terraform(m))
    }
}

/// The outcome of `terraform show`: its output, or its error output.
pub fn show_outcome(success: bool, stdout: String, stderr: String) -> (r: Result<String, InfraError>)
    ensures
        success ==> (r matches Ok(s) && s@ == stdout@),
        !success ==> (r matches Err(InfraError::Terraform(m)) && m@ == stderr@),
{
    if success {
        Ok(stdout)
    } else {
        Err(InfraError::Terraform(stderr))
    }
}

/// The version Terraform reports: the first line of `terraform version`, or
/// `unknown version`; an error when the command failed.
pub open spec fn version_line(out: Seq<char>) -> Seq<char> {
    if lines(out).len() > 0 {
        lines(out)[0]
    } else {
        "unknown version"@
    }
}

/// Checks that Terraform runs, and gives the version it reports.
pub fn terraform_version(success: bool, stdout: &str) -> (r: Result<String, InfraError>)
    ensures
        success ==> (r matches Ok(v) && v@ == version_line(stdout@)),
        !success ==> (r matches Err(InfraError::Terraform(m))
            && m@ == "Terraform not found or not executable. Make sure you have properly installed Terraform."@),
{
    if !success {
        return Err(InfraError::Terraform(String::from_str(
            "Terraform not found or not executable. Make sure you have properly installed Terraform.",
        )));
    }
    let c = chars_of(stdout);
    let ls = lines_exec(c.as_slice());
    if ls.len() > 0 {
        Ok(string_of(ls[0].as_slice()))
    } else {
        Ok(String::from_str("unknown version"))
    }
}

/// The text of a path as `Path`'s `Debug` shows it: quoted and escaped.
pub uninterp spec fn debug_path(p: Seq<char>) -> Seq<char>;

/// The `Debug` rendering of a path; the text is named, not spelled out.
#[verifier::external_body]
pub(crate) fn debug_path_exec(p: &str) -> (r: String)
    ensures
        r@ == debug_path(p@),
{
    format!("{:?}", std::path::Path::new(p))
}

/// The error for a missing infrastructure directory.
pub fn missing_infrastructure(dir: &str) -> (r: InfraError)
    ensures
        r matches InfraError::Terraform(m) && m@ == "Infrastructure directory not found: "@ + debug_path(dir@),
{
    let mut m = String::from_str("Infrastructure directory not found: ");
    let d = debug_path_exec(dir);
    append_str(&mut m, d.as_str());
    InfraError::Terraform(m)
}

/// The error for a missing environment directory.
pub fn missing_environment(dir: &str) -> (r: InfraError)
    ensures
        r matches InfraError::Terraform(m) && m@ == "Environment directory not found: "@ + debug_path(dir@),
{
    let mut m = String::from_str("Environment directory not found: ");
    let d = debug_path_exec(dir);
    append_str(&mut m, d.as_str());
    InfraError::Terraform(m)
}

/// The environment a platform's machines are provisioned in.
pub open spec fn env_name_of(p: MachinePlatform) -> Seq<char> {
    match p {
        MachinePlatform::Windows => "windows"@,
        MachinePlatform::Linux => "linux"@,
        _ => "default"@,
    }
}

/// The environment a platform's machines are provisioned in.
pub fn env_name(p: MachinePlatform) -> (r: &'static str)
    ensures
        r@ == env_name_of(p),
{
    match p {
        MachinePlatform::Windows => "windows",
        MachinePlatform::Linux => "linux",
        _ => "default",
    }
}

/// The directory of an environment: `<infrastructure>/environments/env_name`, the
/// same for every environment.
pub fn environment_dir(infrastructure_dir: &str) -> (r: String)
    ensures
        r@ == path_join(path_join(infrastructure_dir@, "environments"@), "env_name"@),
{
    let a = path_join_exec(infrastructure_dir, "environments");
    path_join_exec(a.as_str(), "env_name")
}

/// The variables file of an environment directory.
pub fn tfvars_path(env_dir: &str) -> (r: String)
    ensures
        r@ == path_join(env_dir@, "terraform.tfvars"@),
{
    path_join_exec(env_dir, "terraform.tfvars")
}

fn insert_pairs(m: &mut Vec<(String, String)>, entries: &Vec<(String, String)>)
    ensures
        pairs_view(final(m)@) == insert_all(pairs_view(old(m)@), pairs_view(entries@)),
{
    let ghost start = pairs_view(m@);
    let ghost ev = pairs_view(entries@);
    let mut i: usize = 0;
    while i < entries.len()
        invariant
            i <= entries.len(),
            ev == pairs_view(entries@),
            pairs_view(m@) == insert_all(start, ev.take(i as int)),
        decreases entries.len() - i,
    {
        proof {
            assert(ev.take(i + 1).drop_last() =~= ev.take(i as int));
        }
        map_insert(m, copy_string(&entries[i].0), copy_string(&entries[i].1));
        i = i + 1;
    }
    assert(ev.take(entries@.len() as int) =~= ev);
}

/// The workspace of an environment: named after it, in `env_dir`, with the
/// configured variables, overridden by those of the environment's variables file
/// when there is one.
pub fn workspace_config(
    env_name: &str,
    env_dir: &str,
    config_variables: &Vec<(String, String)>,
    file_variables: Option<&Vec<(String, String)>>,
    backend_config: &Vec<(String, String)>,
    auto_approve: bool,
) -> (r: WorkspaceConfig)
    ensures
        r.name@ == env_name@,
        r.working_dir@ == env_dir@,
        r.workspace@ == env_name@,
        pairs_view(r.variables@) == match file_variables {
            Some(f) => insert_all(insert_all(Seq::empty(), pairs_view(config_variables@)), pairs_view(f@)),
            None => insert_all(Seq::empty(), pairs_view(config_variables@)),
        },
        pairs_view(r.backend_config@) == pairs_view(backend_config@),
        r.target is None,
        r.auto_approve == auto_approve,
        crate::seqs::distinct_keys(pairs_view(r.variables@)),
{
    proof {
        let e = Seq::<(Seq<char>, Seq<char>)>::empty();
        crate::string_map::lemma_insert_all_distinct(e, pairs_view(config_variables@));
        match file_variables {
            Some(f) => crate::string_map::lemma_insert_all_distinct(
                insert_all(e, pairs_view(config_variables@)),
                pairs_view(f@),
            ),
            None => {},
        }
    }
    let mut variables: Vec<(String, String)> = Vec::new();
    assert(pairs_view(variables@) =~= Seq::empty());
    insert_pairs(&mut variables, config_variables);
    match file_variables {
        Some(f) => insert_pairs(&mut variables, f),
        None => {},
    }
    WorkspaceConfig {
        name: String::from_str(env_name),
        working_dir: String::from_str(env_dir),
        workspace: String::from_str(env_name),
        variables,
        backend_config: copy_pairs(backend_config),
        target: None,
        auto_approve,
    }
}

/// A machine to provision.
#[derive(Debug)]
pub struct VmConfig {
    pub name: String,
    pub platform: MachinePlatform,
    pub memory: u32,
    pub cpus: u32,
    pub disk_size: u32,
    pub snapshot: Option<String>,
}

/// A provisioned machine.
#[derive(Debug)]
pub struct VmInstance {
    pub id: String,
    pub name: String,
    pub ip: String,
    pub platform: MachinePlatform,
    pub interface: Option<String>,
    pub snapshot: Option<String>,
}

/// The Terraform address of a machine: `module.vm.<name>`.
pub open spec fn vm_target(name: Seq<char>) -> Seq<char> {
    "module.vm."@ + name
}

fn vm_target_exec(name: &str) -> (r: String)
    ensures
        r@ == vm_target(name@),
{
    let mut t = String::from_str("module.vm.");
    append_str(&mut t, name);
    t
}

/// The variables a machine's provisioning sets: its name, memory, processors, disk
/// size, and snapshot when it has one.
pub open spec fn vm_variables(vars: Seq<(Seq<char>, Seq<char>)>, vm: VmConfig) -> Seq<(Seq<char>, Seq<char>)> {
    let a = insert_entry(vars, "vm_name"@, vm.name@);
    let b = insert_entry(a, "memory"@, decimal(vm.memory as nat));
    let c = insert_entry(b, "cpus"@, decimal(vm.cpus as nat));
    let d = insert_entry(c, "disk_size"@, decimal(vm.disk_size as nat));
    match vm.snapshot {
        Some(s) => insert_entry(d, "snapshot"@, s@),
        None => d,
    }
}

impl WorkspaceConfig {
    /// The workspace set up to provision one machine: its variables, and the
    /// machine as the only target.
    pub fn for_vm(self, vm: &VmConfig) -> (r: WorkspaceConfig)
        ensures
            pairs_view(r.variables@) == vm_variables(pairs_view(self.variables@), *vm),
            r.target matches Some(t) && t@ == vm_target(vm.name@),
            r.name == self.name && r.working_dir == self.working_dir && r.workspace == self.workspace,
            r.backend_config == self.backend_config && r.auto_approve == self.auto_approve,
            crate::seqs::distinct_keys(pairs_view(self.variables@)) ==> crate::seqs::distinct_keys(
                pairs_view(r.variables@),
            ),
    {
        proof {
            if crate::seqs::distinct_keys(pairs_view(self.variables@)) {
                lemma_vm_variables_distinct(pairs_view(self.variables@), *vm);
            }
        }
        let mut w = self;
        map_insert(&mut w.variables, String::from_str("vm_name"), copy_string(&vm.name));
        map_insert(&mut w.variables, String::from_str("memory"), decimal_exec(vm.memory as u64));
        map_insert(&mut w.variables, String::from_str("cpus"), decimal_exec(vm.cpus as u64));
        map_insert(&mut w.variables, String::from_str("disk_size"), decimal_exec(vm.disk_size as u64));
        match &vm.snapshot {
            Some(s) => map_insert(&mut w.variables, String::from_str("snapshot"), copy_string(s)),
            None => {},
        }
        w.target = Some(vm_target_exec(vm.name.as_str()));
        w
    }

    /// The workspace set up to act on one machine only.
    pub fn targeting(self, vm_name: &str) -> (r: WorkspaceConfig)
        ensures
            r.target matches Some(t) && t@ == vm_target(vm_name@),
            r.name == self.name && r.working_dir == self.working_dir && r.workspace == self.workspace,
            r.variables == self.variables && r.backend_config == self.backend_config,
            r.auto_approve == self.auto_approve,
    {
        let mut w = self;
        w.target = Some(vm_target_exec(vm_name));
        w
    }
}

/// The machine a provisioning gives: as configured, with the identity and address
/// that provisioning assigns (`1234`, `10.10.10.10`, interface `eth0`).
pub fn provisioned_instance(vm: &VmConfig) -> (r: VmInstance)
    ensures
        r.id@ == "1234"@,
        r.name@ == vm.name@,
        r.ip@ == "10.10.10.10"@,
        r.platform == vm.platform,
        r.interface matches Some(i) && i@ == "eth0"@,
        opt_view(r.snapshot) == opt_view(vm.snapshot),
{
    VmInstance {
        id: String::from_str("1234"),
        name: copy_string(&vm.name),
        ip: String::from_str("10.10.10.10"),
        platform: vm.platform,
        interface: Some(String::from_str("eth0")),
        snapshot: copy_opt_string(&vm.snapshot),
    }
}

/// The database record of a provisioned machine: labelled by its name, x64, ready,
/// unlocked and unreserved.
pub fn machine_for_vm(vm: &VmInstance) -> (r: Machine)
    ensures
        r.name@ == vm.name@,
        r.label@ == vm.name@,
        r.arch == MachineArch::X64,
        r.platform == vm.platform,
        r.ip@ == vm.ip@,
        r.tags is None,
        opt_view(r.interface) == opt_view(vm.interface),
        opt_view(r.snapshot) == opt_view(vm.snapshot),
        !r.locked && r.locked_changed_on is None,
        r.status matches Some(s) && s@ == "ready"@,
        r.status_changed_on is None,
        r.result_server_ip is None && r.result_server_port is None,
        !r.reserved,
{
    Machine {
        name: copy_string(&vm.name),
        label: copy_string(&vm.name),
        arch: MachineArch::X64,
        platform: vm.platform,
        ip: copy_string(&vm.ip),
        tags: None,
        interface: copy_opt_string(&vm.interface),
        snapshot: copy_opt_string(&vm.snapshot),
        locked: false,
        locked_changed_on: None,
        status: Some(String::from_str("ready")),
        status_changed_on: None,
        result_server_ip: None,
        result_server_port: None,
        reserved: false,
    }
}

/// Law: a workspace names each of its variables once: the configured ones, those of
/// the environment's variables file, and those of a machine to provision.
pub proof fn law_workspace_variables_named_once(
    config_variables: Seq<(Seq<char>, Seq<char>)>,
    file_variables: Seq<(Seq<char>, Seq<char>)>,
    vm: VmConfig,
)
    ensures
        crate::seqs::distinct_keys(insert_all(Seq::empty(), config_variables)),
        crate::seqs::distinct_keys(insert_all(insert_all(Seq::empty(), config_variables), file_variables)),
        crate::seqs::distinct_keys(vm_variables(insert_all(insert_all(Seq::empty(), config_variables), file_variables), vm)),
{
    let e = Seq::<(Seq<char>, Seq<char>)>::empty();
    crate::string_map::lemma_insert_all_distinct(e, config_variables);
    let a = insert_all(e, config_variables);
    crate::string_map::lemma_insert_all_distinct(a, file_variables);
    lemma_vm_variables_distinct(insert_all(a, file_variables), vm);
}

/// Adding a machine's variables keeps each name once.
pub proof fn lemma_vm_variables_distinct(m: Seq<(Seq<char>, Seq<char>)>, vm: VmConfig)
    requires
        crate::seqs::distinct_keys(m),
    ensures
        crate::seqs::distinct_keys(vm_variables(m, vm)),
{
    crate::seqs::lemma_insert_entry_distinct(m, "vm_name"@, vm.name@);
    let c1 = insert_entry(m, "vm_name"@, vm.name@);
    crate::seqs::lemma_insert_entry_distinct(c1, "memory"@, decimal(vm.memory as nat));
    let c2 = insert_entry(c1, "memory"@, decimal(vm.memory as nat));
    crate::seqs::lemma_insert_entry_distinct(c2, "cpus"@, decimal(vm.cpus as nat));
    let c3 = insert_entry(c2, "cpus"@, decimal(vm.cpus as nat));
    crate::seqs::lemma_insert_entry_distinct(c3, "disk_size"@, decimal(vm.disk_size as nat));
    let c4 = insert_entry(c3, "disk_size"@, decimal(vm.disk_size as nat));
    match vm.snapshot {
        Some(sn) => crate::seqs::lemma_insert_entry_distinct(c4, "snapshot"@, sn@),
        None => {},
    }
}

} // verus!
