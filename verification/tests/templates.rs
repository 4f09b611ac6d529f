use malbox::hcl_tree::{ExprKind, TreeAttr, TreeBlock, TreeBody, TreeExpr, TreeItem};
use malbox::packer_manager::{extract_description_from_body, is_packer_template, TemplateManager};
use malbox::packer_parse::{parse_enum_validation, parse_provisioner, parse_source, parse_template, parse_variable};
use malbox::packer_template::{extract_string_value, TemplateDependencies, VarType, Variable};
use malbox::terraform_parse::InfraError;

const TEMPLATE: &str = r#"
variable "iso_url" {
  type        = string
  description = "Where the ISO lives"
}

variable "cpus" {
  default = 2
}

variable "password" {
  default   = "secret"
  sensitive = true
}

variable "description" {
  default = "Windows 10 analysis image"
}

source "qemu" "win10" {
  iso_url        = var.iso_url
  http_directory = "http"
  floppy_files   = ["answer/Autounattend.xml", "scripts/setup.ps1"]
}

build {
  sources = ["source.qemu.win10"]

  provisioner "powershell" {
    scripts = ["scripts/setup.ps1", "scripts/tools.ps1"]
  }

  provisioner "ansible" {
    playbook_file = "playbooks/agent.yml"
  }
}
"#;

fn text_expr(text: &str) -> TreeExpr {
    TreeExpr { kind: ExprKind::Other, text: text.to_string(), debug: String::new() }
}

fn str_expr(s: &str) -> TreeExpr {
    TreeExpr { kind: ExprKind::Str(s.to_string()), text: format!("\"{}\"", s), debug: String::new() }
}

fn attr(key: &str, expr: TreeExpr) -> TreeItem {
    TreeItem::Attribute(TreeAttr { key: key.to_string(), expr })
}

fn block(id: &str, labels: &[&str], items: Vec<TreeItem>) -> TreeBlock {
    TreeBlock {
        identifier: id.to_string(),
        labels: labels.iter().map(|s| s.to_string()).collect(),
        body: TreeBody { structures: items },
    }
}

fn lookup<'a>(t: &'a malbox::packer_template::Template, name: &str) -> &'a Variable {
    &t.variables.iter().find(|(n, _)| n == name).expect("variable present").1
}

#[test]
fn full_template_is_read() {
    let t = parse_template(TEMPLATE).expect("the template parses");
    let names: Vec<&str> = t.variables.iter().map(|(n, _)| n.as_str()).collect();
    assert_eq!(names, vec!["iso_url", "cpus", "password", "description"]);
    let iso = lookup(&t, "iso_url");
    assert!(iso.required);
    assert!(matches!(&iso.var_type, VarType::Declared(s) if s == "string"));
    assert_eq!(iso.description.as_deref(), Some("\"Where the ISO lives\""));
    let cpus = lookup(&t, "cpus");
    assert!(!cpus.required);
    assert_eq!(cpus.default.as_deref(), Some("2"));
    assert!(lookup(&t, "password").sensitive);
    assert_eq!(t.description.as_deref(), Some("\"Windows 10 analysis image\""));
    assert_eq!(t.sources.len(), 1);
    assert_eq!(t.sources[0].source_type, "qemu");
    assert_eq!(t.sources[0].name, "win10");
    assert_eq!(t.sources[0].config.len(), 3);
    assert_eq!(t.sources[0].config[1], ("http_directory".to_string(), "\"http\"".to_string()));
    assert!(t.provisioners.is_empty());
    assert_eq!(t.content, TEMPLATE);
    assert_eq!(t.name, "");
    assert_eq!(t.path, None);
    let d = &t.dependencies;
    assert_eq!(d.http_directories, vec!["http".to_string()]);
    assert_eq!(d.floppy_files, vec!["Autounattend.xml".to_string(), "setup.ps1".to_string()]);
    assert_eq!(d.script_files, vec!["setup.ps1".to_string(), "tools.ps1".to_string()]);
    assert_eq!(d.provisioner_files, vec!["agent.yml".to_string()]);
    assert!(d.has_scripts() && d.has_floppy() && d.has_provisioners() && d.has_http());
}

#[test]
fn text_that_is_not_hcl_is_a_parse_error() {
    assert!(matches!(parse_template("variable \"x\" {"), Err(InfraError::HclParse(_))));
}

#[test]
fn blocks_without_labels_are_template_errors() {
    match parse_template("variable {\n}\n") {
        Err(InfraError::Template(m)) => assert_eq!(m, "Variable missing name"),
        other => panic!("{:?}", other),
    }
    match parse_template("source \"qemu\" {\n}\n") {
        Err(InfraError::Template(m)) => assert_eq!(m, "Invalid source block"),
        other => panic!("{:?}", other),
    }
    match parse_template("provisioner {\n}\n") {
        Err(InfraError::Template(m)) => assert_eq!(m, "Provisioner missing type"),
        other => panic!("{:?}", other),
    }
}

#[test]
fn a_later_variable_replaces_an_earlier_one_of_the_same_name() {
    let t = parse_template("variable \"a\" {\n  default = 1\n}\nvariable \"a\" {\n}\n").unwrap();
    assert_eq!(t.variables.len(), 1);
    assert!(t.variables[0].1.required);
}

#[test]
fn blocks_read_one_by_one() {
    assert!(matches!(parse_variable(&block("variable", &[], vec![])), Err(InfraError::Template(_))));
    let (name, v) = parse_variable(&block(
        "variable",
        &["os"],
        vec![attr("default", str_expr("win10")), attr("sensitive", text_expr("false"))],
    ))
    .unwrap()
    .unwrap();
    assert_eq!(name, "os");
    assert_eq!(v.default.as_deref(), Some("\"win10\""));
    assert!(!v.required && !v.sensitive);
    assert!(matches!(v.var_type, VarType::String));

    let s = parse_source(&block("source", &["qemu", "a"], vec![attr("cpus", text_expr("2"))])).unwrap().unwrap();
    assert_eq!(s.config, vec![("cpus".to_string(), "2".to_string())]);
    assert!(parse_source(&block("source", &["qemu"], vec![])).is_err());

    let p = parse_provisioner(&block("provisioner", &["shell"], vec![])).unwrap().unwrap();
    assert_eq!(p.provisioner_type, "shell");
    assert!(p.config.is_empty());
}

#[test]
fn enum_validation_lists_the_allowed_values() {
    let a = TreeAttr { key: "validation".to_string(), expr: text_expr("contains([\"win10\", 'win11' ], var.os)") };
    assert_eq!(parse_enum_validation(&a), Some(vec!["win10".to_string(), "win11".to_string()]));
    let b = TreeAttr { key: "validation".to_string(), expr: text_expr("length(var.os) > 0") };
    assert_eq!(parse_enum_validation(&b), None);
    let c = TreeAttr { key: "validation".to_string(), expr: text_expr("[contains(]") };
    assert_eq!(parse_enum_validation(&c), None);
}

#[test]
fn string_values_of_expressions() {
    assert_eq!(extract_string_value(&str_expr("x")), Some("x".to_string()));
    assert_eq!(extract_string_value(&text_expr("\"${var.a}\"")), Some("${var.a}".to_string()));
    assert_eq!(extract_string_value(&text_expr("var.a")), None);
}

#[test]
fn empty_dependencies_have_nothing() {
    let d = TemplateDependencies::new();
    assert!(!d.has_scripts() && !d.has_floppy() && !d.has_provisioners() && !d.has_http());
}

#[test]
fn manager_reads_without_dependencies_and_checks_variables() {
    let m = TemplateManager::new();
    let t = m.template_from_file("/templates/win10.pkr.hcl", TEMPLATE).unwrap();
    assert_eq!(t.name, "win10.pkr");
    assert_eq!(t.path.as_deref(), Some("/templates/win10.pkr.hcl"));
    assert!(t.dependencies.floppy_files.is_empty());
    assert_eq!(t.description, None);

    let none: Vec<(String, String)> = vec![];
    assert_eq!(m.get_missing_variables(&t, &none).unwrap(), vec!["iso_url".to_string()]);
    assert_eq!(t.get_missing_variables(&none).unwrap(), vec!["iso_url".to_string()]);
    match m.validate(&t, &none) {
        Err(InfraError::Variable(msg)) => assert_eq!(msg, "Missing required variables: iso_url"),
        other => panic!("{:?}", other),
    }
    let given = vec![("iso_url".to_string(), "http://x/iso".to_string())];
    assert!(m.validate(&t, &given).is_ok());
    assert!(m.get_missing_variables(&t, &given).unwrap().is_empty());

    let info = m.get_variable_info(&t);
    assert_eq!(info[0], ("iso_url".to_string(), true, Some("\"Where the ISO lives\"".to_string())));
    assert_eq!(info[1], ("cpus".to_string(), false, None));
}

#[test]
fn template_info_takes_the_description_variable() {
    let m = TemplateManager::new();
    let info = m.extract_template_info("/t/base.pkr.hcl", TEMPLATE);
    assert_eq!(info.name, "base.pkr");
    assert_eq!(info.path, "/t/base.pkr.hcl");
    assert_eq!(info.description.as_deref(), Some("\"Windows 10 analysis image\""));
    let bad = m.extract_template_info("/t/bad.hcl", "variable {");
    assert_eq!(bad.description, None);
    let body = TreeBody { structures: vec![] };
    assert_eq!(extract_description_from_body(&body), None);
}

#[test]
fn packer_templates_are_recognised() {
    assert!(is_packer_template(TEMPLATE));
    assert!(is_packer_template("source \"a\" \"b\" {}\nbuild{}"));
    assert!(!is_packer_template("build {}"));
    assert!(!is_packer_template("source \"a\" \"b\" {}"));
}

#[test]
fn variables_are_checked_against_allowed_values() {
    let v = Variable {
        var_type: VarType::String,
        default: None,
        description: None,
        required: true,
        enum_values: Some(vec!["a".to_string(), "b".to_string()]),
        sensitive: false,
    };
    assert_eq!(v.validate_and_format("a"), Ok("a".to_string()));
    assert_eq!(v.validate_and_format("c"), Err("must be one of: a, b".to_string()));

    let mut t = parse_template("variable \"os\" {\n}\nvariable \"size\" {\n  default = 1\n}\n").unwrap();
    t.variables[0].1 = v;
    assert!(t.validate_all_variables(&vec![("os".to_string(), "b".to_string())]).is_ok());
    match t.validate_all_variables(&vec![]) {
        Err(InfraError::Variable(m)) => assert_eq!(m, "os: Missing required variable"),
        other => panic!("{:?}", other),
    }
    match t.validate_all_variables(&vec![("os".to_string(), "z".to_string())]) {
        Err(InfraError::Variable(m)) => assert_eq!(m, "os: must be one of: a, b"),
        other => panic!("{:?}", other),
    }
}
