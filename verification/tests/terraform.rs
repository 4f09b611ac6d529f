use malbox::hcl_tree::{ExprKind, TreeAttr, TreeBlock, TreeBody, TreeExpr, TreeItem};
use malbox::machines::{MachineArch, MachinePlatform};
use malbox::terraform::{
    command_outcome, env_name, environment_dir, machine_for_vm, missing_environment, missing_infrastructure,
    provisioned_instance, select_outcome, show_outcome, terraform_version, tfvars_path, workspace_config, VmConfig,
};
use malbox::terraform_parse::{
    extract_modules, extract_providers, extract_resources, find_vm_resources, has_lone_quote_exec, parse_state_output,
    parse_config, parse_variables, parse_variables_hcl, parse_vm_instance, try_parse_variables, InfraError,
};

fn get<'a>(m: &'a [(String, String)], k: &str) -> Option<&'a str> {
    m.iter().find(|(a, _)| a == k).map(|(_, v)| v.as_str())
}

fn s(v: &[&str]) -> Vec<String> {
    v.iter().map(|x| x.to_string()).collect()
}

fn pairs(v: &[(&str, &str)]) -> Vec<(String, String)> {
    v.iter().map(|(a, b)| (a.to_string(), b.to_string())).collect()
}

#[test]
fn hcl_variable_files_keep_expression_text() {
    let v = parse_variables("region = \"eu-west-1\"\ncount = 3\n").unwrap();
    assert_eq!(v.len(), 2);
    assert_eq!(get(&v, "region"), Some("\"eu-west-1\""));
    assert_eq!(get(&v, "count"), Some("3"));
    assert!(matches!(parse_variables_hcl("a = "), Err(InfraError::HclParse(_))));
}

#[test]
fn unparsable_files_are_read_line_by_line() {
    let text = "# comment\n// other\n\nname = \"box\"\nbroken line\nsize = 10 GB\nname = \"again\"\n";
    let v = parse_variables(text).unwrap();
    assert_eq!(v.len(), 2);
    assert_eq!(get(&v, "name"), Some("again"));
    assert_eq!(get(&v, "size"), Some("10 GB"));
}

#[test]
fn lone_quotes_are_found_outside_comments() {
    assert!(has_lone_quote_exec("a = 1\nb = \"\n"));
    assert!(!has_lone_quote_exec("# b = \"\nc = \"\"\n"));
    assert!(try_parse_variables("x = \"\nbad {\n").is_none());
    let v = try_parse_variables("# b = \"\nc = {\n").unwrap().unwrap();
    assert_eq!(get(&v, "c"), Some("{"));
    let w = try_parse_variables("k = 1\n").unwrap().unwrap();
    assert_eq!(get(&w, "k"), Some("1"));
}

#[test]
fn state_output_pairs() {
    let out = "resource \"x\" \"y\" {\n    id   = \"abc\"\n    name = \"vm1\"\n    # nothing\n    id = \"def\"\n}\n";
    let v = parse_state_output(out);
    assert_eq!(v.len(), 2);
    assert_eq!(get(&v, "id"), Some("def"));
    assert_eq!(get(&v, "name"), Some("vm1"));
    assert!(parse_state_output("").is_empty());
}

#[test]
fn vm_instance_needs_id_and_address() {
    let out = "  id = \"vm-42\"\n  private_ip = \"10.0.0.5\"\n";
    assert_eq!(parse_vm_instance(out), Some(("vm-42".to_string(), "10.0.0.5".to_string())));
    let out2 = "ip_address = 192.168.1.2\nid = \"i-1\"\n";
    assert_eq!(parse_vm_instance(out2), Some(("i-1".to_string(), "192.168.1.2".to_string())));
    assert_eq!(parse_vm_instance("id = \"only\"\n"), None);
    assert_eq!(parse_vm_instance(""), None);
}

fn text_attr(k: &str, t: &str) -> TreeItem {
    TreeItem::Attribute(TreeAttr {
        key: k.to_string(),
        expr: TreeExpr { kind: ExprKind::Other, text: t.to_string(), debug: String::new() },
    })
}

fn blk(id: &str, labels: &[&str], items: Vec<TreeItem>) -> TreeItem {
    TreeItem::Block(TreeBlock { identifier: id.to_string(), labels: s(labels), body: TreeBody { structures: items } })
}

#[test]
fn resources_providers_and_modules() {
    let body = TreeBody {
        structures: vec![
            blk("provider", &["libvirt"], vec![text_attr("uri", "\"qemu:///system\"")]),
            blk("resource", &["libvirt_domain", "vm"], vec![text_attr("memory", "2048")]),
            blk("resource", &["only_type"], vec![]),
            blk("module", &["net"], vec![text_attr("source", "\"./net\"")]),
            blk("provider", &[], vec![]),
            text_attr("x", "1"),
        ],
    };
    let r = extract_resources(&body);
    assert_eq!(r.len(), 1);
    assert_eq!(r[0].0, "libvirt_domain");
    assert_eq!(r[0].1, "vm");
    assert_eq!(r[0].2, pairs(&[("memory", "2048")]));
    let p = extract_providers(&body);
    assert_eq!(p.len(), 1);
    assert_eq!(p[0].0, "libvirt");
    assert_eq!(p[0].1, pairs(&[("uri", "\"qemu:///system\"")]));
    let m = extract_modules(&body);
    assert_eq!(m.len(), 1);
    assert_eq!(m[0].0, "net");
    let vms = find_vm_resources(&body);
    assert_eq!(vms, vec![("vm".to_string(), pairs(&[("memory", "2048")]))]);
    let other = TreeBody { structures: vec![blk("resource", &["aws_s3_bucket", "b"], vec![])] };
    assert!(find_vm_resources(&other).is_empty());
}

#[test]
fn workspace_command_lines() {
    let w = workspace_config(
        "windows",
        "/infra/environments/env_name",
        &pairs(&[("region", "a"), ("size", "1")]),
        Some(&pairs(&[("size", "2")])),
        &pairs(&[("path", "state.tfstate")]),
        true,
    );
    assert_eq!(w.name, "windows");
    assert_eq!(w.workspace, "windows");
    assert_eq!(w.working_dir, "/infra/environments/env_name");
    assert_eq!(w.variables, pairs(&[("region", "a"), ("size", "2")]));
    assert_eq!(w.init_args(), s(&["init", "-backend-config", "path=state.tfstate"]));
    assert_eq!(w.apply_args(), s(&["apply", "-auto-approve", "-var", "region=a", "-var", "size=2"]));
    assert_eq!(w.destroy_args(), s(&["destroy", "-auto-approve", "-var", "region=a", "-var", "size=2"]));
    assert_eq!(w.plan_args(), s(&["plan", "-var", "region=a", "-var", "size=2"]));
    assert_eq!(w.select_workspace_args(), s(&["workspace", "select", "windows"]));
    assert_eq!(
        w.import_args("module.vm.a", "42"),
        s(&["import", "-backend-config", "path=state.tfstate", "-var", "region=a", "-var", "size=2", "module.vm.a", "42"])
    );
    assert_eq!(w.show_args(), s(&["show"]));
    let t = w.targeting("vm1");
    assert_eq!(t.target.as_deref(), Some("module.vm.vm1"));
    assert_eq!(t.plan_args(), s(&["plan", "-var", "region=a", "-var", "size=2", "-target", "module.vm.vm1"]));
}

#[test]
fn a_workspace_for_one_machine() {
    let w = workspace_config("linux", "/e", &vec![], None, &vec![], false);
    let vm = VmConfig {
        name: "win-analysis".to_string(),
        platform: MachinePlatform::Linux,
        memory: 4096,
        cpus: 2,
        disk_size: 40,
        snapshot: Some("clean".to_string()),
    };
    let w = w.for_vm(&vm);
    assert_eq!(
        w.variables,
        pairs(&[("vm_name", "win-analysis"), ("memory", "4096"), ("cpus", "2"), ("disk_size", "40"), ("snapshot", "clean")])
    );
    assert_eq!(w.target.as_deref(), Some("module.vm.win-analysis"));
    assert_eq!(
        w.apply_args(),
        s(&[
            "apply", "-var", "vm_name=win-analysis", "-var", "memory=4096", "-var", "cpus=2", "-var", "disk_size=40",
            "-var", "snapshot=clean", "-target", "module.vm.win-analysis"
        ])
    );
    let inst = provisioned_instance(&vm);
    assert_eq!(inst.id, "1234");
    assert_eq!(inst.ip, "10.10.10.10");
    assert_eq!(inst.interface.as_deref(), Some("eth0"));
    let m = machine_for_vm(&inst);
    assert_eq!(m.name, "win-analysis");
    assert_eq!(m.label, "win-analysis");
    assert_eq!(m.arch, MachineArch::X64);
    assert_eq!(m.platform, MachinePlatform::Linux);
    assert_eq!(m.status.as_deref(), Some("ready"));
    assert!(!m.locked && !m.reserved);
    assert_eq!(m.snapshot.as_deref(), Some("clean"));
}

#[test]
fn outcomes_and_messages() {
    assert!(command_outcome(true, "x".to_string()).is_ok());
    assert!(matches!(command_outcome(false, "boom".to_string()), Err(InfraError::Terraform(m)) if m == "boom"));
    assert!(matches!(select_outcome(false, "no"), Err(InfraError::Terraform(m)) if m == "Failed to select workspace: no"));
    assert_eq!(show_outcome(true, "out".to_string(), "err".to_string()).unwrap(), "out");
    assert!(matches!(show_outcome(false, "out".to_string(), "err".to_string()), Err(InfraError::Terraform(m)) if m == "err"));
    assert_eq!(terraform_version(true, "Terraform v1.9.0\non linux_amd64\n").unwrap(), "Terraform v1.9.0");
    assert_eq!(terraform_version(true, "").unwrap(), "unknown version");
    assert!(matches!(terraform_version(false, ""), Err(InfraError::Terraform(m))
        if m == "Terraform not found or not executable. Make sure you have properly installed Terraform."));
    assert!(matches!(missing_infrastructure("/x"), InfraError::Terraform(m)
        if m == "Infrastructure directory not found: \"/x\""));
    assert!(matches!(missing_environment("/x/e"), InfraError::Terraform(m)
        if m == "Environment directory not found: \"/x/e\""));
}

#[test]
fn environment_paths() {
    assert_eq!(env_name(MachinePlatform::Windows), "windows");
    assert_eq!(env_name(MachinePlatform::Linux), "linux");
    assert_eq!(environment_dir("/infra"), "/infra/environments/env_name");
    assert_eq!(environment_dir("/infra/"), "/infra/environments/env_name");
    assert_eq!(tfvars_path("/e"), "/e/terraform.tfvars");
}

#[test]
fn configurations_parse_or_fail_as_hcl() {
    let body = parse_config("provider \"libvirt\" {\n  uri = \"qemu:///system\"\n}\n").unwrap();
    let p = extract_providers(&body);
    assert_eq!(p.len(), 1);
    assert_eq!(p[0].0, "libvirt");
    assert!(matches!(parse_config("provider {"), Err(InfraError::HclParse(_))));
}
