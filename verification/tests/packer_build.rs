use malbox::packer_build::{
    build_dir_for, choose_template, float_text_exec, invalid_template_path, missing_template_path, packer_build_args,
    packer_outcome, pkrvars_content,
};
use malbox::terraform_parse::InfraError;

fn float(s: &str) -> bool {
    let c: Vec<char> = s.chars().collect();
    float_text_exec(&c)
}

#[test]
fn float_texts_follow_the_standard_grammar() {
    for ok in ["0", "42", "-7", "+3", "1.5", "1.", ".5", "1e10", "1E-3", "2.5e+4", "inf", "-Infinity", "NaN", "+nan"] {
        assert!(float(ok), "{} should be a float", ok);
        assert!(ok.parse::<f64>().is_ok());
    }
    for bad in ["", ".", "-", "e5", "1e", "1.2.3", "1e+", "abc", "1 ", " 1", "in", "0x10", "1_000"] {
        assert!(!float(bad), "{} should not be a float", bad);
        assert!(bad.parse::<f64>().is_err());
    }
}

#[test]
fn variables_file_text() {
    assert_eq!(pkrvars_content(&vec![]), None);
    let vars = vec![
        ("name".to_string(), "win10".to_string()),
        ("quoted".to_string(), "\"kept\"".to_string()),
        ("flag".to_string(), "true".to_string()),
        ("cpus".to_string(), "4".to_string()),
        ("ratio".to_string(), "0.75".to_string()),
        ("motto".to_string(), "say \"hi\"".to_string()),
    ];
    assert_eq!(
        pkrvars_content(&vars).unwrap(),
        "name = \"win10\"\nquoted = \"kept\"\nflag = true\ncpus = 4\nratio = 0.75\nmotto = \"say \\\"hi\\\"\"\n"
    );
}

#[test]
fn build_command_line() {
    let s = |v: &[&str]| v.iter().map(|x| x.to_string()).collect::<Vec<String>>();
    assert_eq!(
        packer_build_args(true, "/b/win.pkr.hcl"),
        s(&["build", "-timestamp-ui", "-color=true", "-force", "-on-error=ask", "/b/win.pkr.hcl"])
    );
    assert_eq!(
        packer_build_args(false, "t.hcl"),
        s(&["build", "-timestamp-ui", "-color=true", "-on-error=ask", "t.hcl"])
    );
}

#[test]
fn the_template_file_is_the_first_hcl_file() {
    let entries = vec![
        ("/b/scripts".to_string(), false),
        ("/b/variables.auto.pkrvars.hcl".to_string(), true),
        ("/b/readme.md".to_string(), true),
        ("/b/win.pkr.hcl".to_string(), true),
        ("/b/other.hcl".to_string(), true),
    ];
    assert_eq!(choose_template(&entries).unwrap(), "/b/win.pkr.hcl");
    let none = vec![("/b/dir.hcl".to_string(), false), ("/b/.hcl".to_string(), true)];
    match choose_template(&none) {
        Err(InfraError::Template(m)) => assert_eq!(m, "No template file found in build directory"),
        other => panic!("{:?}", other),
    }
}

#[test]
fn build_directories_and_errors() {
    assert_eq!(build_dir_for(Some("/w".to_string()), "/cache", "win", "20240101120000"), "/w");
    assert_eq!(build_dir_for(None, "/cache", "win", "20240101120000"), "/cache/builds/win-20240101120000");
    assert!(matches!(missing_template_path("/t/x.hcl"), InfraError::Template(m)
        if m == "Template path not found: \"/t/x.hcl\""));
    assert!(matches!(invalid_template_path(), InfraError::Template(m) if m == "Invalid template path"));
    assert!(packer_outcome(true, String::new()).is_ok());
    assert!(matches!(packer_outcome(false, "bad".to_string()), Err(InfraError::Packer(m)) if m == "bad"));
}
