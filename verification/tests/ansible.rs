use malbox::ansible::{
    environment_not_found, generate_inventory, generate_playbook_content, inventory_path, playbook_not_found,
    playbook_path, run_args, test_inventory_path, Group, Host, InventoryConfig, PlaybookConfig, PlaybookManager,
};
use malbox::terraform_parse::InfraError;
use malbox::yaml::{is_playbook_file, parse_playbook};

fn s(v: &[&str]) -> Vec<String> {
    v.iter().map(|x| x.to_string()).collect()
}

fn pairs(v: &[(&str, &str)]) -> Vec<(String, String)> {
    v.iter().map(|(a, b)| (a.to_string(), b.to_string())).collect()
}

#[test]
fn playbook_and_inventory_paths() {
    assert_eq!(playbook_path("/ansible", "setup"), "/ansible/playbooks/setup.yml");
    assert_eq!(inventory_path("/ansible", "lab"), "/ansible/inventories/lab.yml");
    assert_eq!(test_inventory_path("/ansible", "staging"), "/ansible/inventories/staging");
    assert!(matches!(playbook_not_found("x"), InfraError::NotFound(m) if m == "Playbook x not found"));
    assert!(matches!(environment_not_found("e"), InfraError::NotFound(m) if m == "Test environment e not found"));
}

#[test]
fn run_arguments_in_order() {
    let cfg = PlaybookConfig {
        name: "setup".to_string(),
        inventory: Some("inv.yml".to_string()),
        become_root: true,
        tags: s(&["a", "b"]),
        variables: pairs(&[("x", "1")]),
    };
    assert_eq!(
        run_args("/p/setup.yml", &cfg),
        s(&["/p/setup.yml", "--become", "-i", "inv.yml", "-e", "x=1", "--tags", "a,b"])
    );
    let plain = PlaybookConfig { name: "p".to_string(), inventory: None, become_root: false, tags: vec![], variables: vec![] };
    assert_eq!(run_args("p.yml", &plain), s(&["p.yml"]));
}

#[test]
fn manager_apply_arguments() {
    let m = PlaybookManager::new();
    assert!(!m.become_root && m.inventory.is_none() && m.extra_vars.is_empty());
    assert_eq!(m.apply_args("p.yml", &vec![], false, &vec![]), s(&["p.yml"]));
    let m = PlaybookManager {
        become_root: true,
        inventory: Some("hosts".to_string()),
        extra_vars: pairs(&[("env", "lab")]),
    };
    assert_eq!(
        m.apply_args("p.yml", &s(&["h1", "h2"]), true, &pairs(&[("k", "v")])),
        s(&["p.yml", "-i", "hosts", "-l", "h1", "-l", "h2", "--check", "--become", "-e", "k=v", "-e", "env=lab"])
    );
}

#[test]
fn editor_choice() {
    assert_eq!(PlaybookManager::choose_editor(Some("nano"), Some("emacs".to_string())), "nano");
    assert_eq!(PlaybookManager::choose_editor(None, Some("emacs".to_string())), "emacs");
    assert_eq!(PlaybookManager::choose_editor(None, None), "vim");
}

#[test]
fn new_playbook_text() {
    assert_eq!(
        generate_playbook_content("Install tools", &s(&["common", "sysmon"])),
        "---\n- name: Install tools\n  hosts: all\n  become: yes\n\n  roles:\n    - common\n    - sysmon\n"
    );
    assert_eq!(generate_playbook_content("Empty", &vec![]), "---\n- name: Empty\n  hosts: all\n  become: yes\n\n");
}

#[test]
fn inventory_text() {
    let inv = InventoryConfig {
        name: "lab".to_string(),
        hosts: vec![
            Host { name: "win1".to_string(), address: "10.0.0.2".to_string(), variables: pairs(&[("ansible_user", "admin")]) },
            Host { name: "lin1".to_string(), address: "10.0.0.3".to_string(), variables: vec![] },
        ],
        groups: vec![
            Group { name: "windows".to_string(), hosts: s(&["win1"]), variables: pairs(&[("ansible_connection", "winrm")]) },
            Group { name: "linux".to_string(), hosts: s(&["lin1"]), variables: vec![] },
        ],
        variables: pairs(&[("timezone", "UTC")]),
    };
    let expected = "all:\n  hosts:\n    win1:\n      ansible_host: 10.0.0.2\n      ansible_user: admin\n    lin1:\n      ansible_host: 10.0.0.3\n  children:\n    windows:\n      hosts:\n        win1:\n      vars:\n        ansible_connection: winrm\n    linux:\n      hosts:\n        lin1:\n  vars:\n    timezone: UTC\n";
    assert_eq!(generate_inventory(&inv).unwrap(), expected);
    let empty = InventoryConfig { name: "e".to_string(), hosts: vec![], groups: vec![], variables: vec![] };
    assert_eq!(generate_inventory(&empty).unwrap(), "all:\n  hosts:\n  children:\n");
}

#[test]
fn playbooks_are_read_from_yaml() {
    let text = "---\n- name: Harden the guest\n  hosts: all\n  roles:\n    - base\n    - role: tools\n    - sysmon\n";
    let p = parse_playbook(text, "/ansible/playbooks/harden.yml").unwrap();
    assert_eq!(p.name, "harden");
    assert_eq!(p.description, "Harden the guest");
    assert_eq!(p.roles, s(&["base", "sysmon"]));
    let q = parse_playbook("- hosts: all\n", "/p/x.yaml").unwrap();
    assert_eq!(q.description, "No description");
    assert!(q.roles.is_empty());
    assert!(matches!(parse_playbook("a: [", "/p/x.yml"), Err(InfraError::Playbook(_))));
    match parse_playbook("- name: x\n", "") {
        Err(InfraError::Playbook(m)) => assert_eq!(m, "Invalid playbook filename"),
        other => panic!("{:?}", other),
    }
}

#[test]
fn playbook_files_by_extension() {
    assert!(is_playbook_file("/a/b.yml"));
    assert!(is_playbook_file("c.yaml"));
    assert!(!is_playbook_file("/a/b.json"));
    assert!(!is_playbook_file("/a/.yml"));
    assert!(!is_playbook_file("/a/yml"));
    assert!(!is_playbook_file(""));
}
