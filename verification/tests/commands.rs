use malbox::cli_args::{kv_string, push_arg, push_kv_args};
use malbox::command::{
    spawn_error, standard_log_line, unreadable_line, AsyncCommand, CommandOutput, IoError, OutputLine, OutputSource,
};
use malbox::image_builder::{
    build_args, build_outcome, init_args, init_dir, listed, refine_args, template_exists, template_file,
    template_not_found, template_path, BuilderConfig, Platform, RefineConfig, Template,
};
use malbox::machines::{
    fetch_machine_query, fetch_machines_query, Machine, MachineArch, MachineFilter, MachinePlatform, QueryPart,
    QueryValue, MACHINES_QUERY, MACHINE_QUERY,
};
use malbox::message::ChannelMessage;
use malbox::packer_events::LogLevel;
use malbox::plugins::{
    host_route, host_route_message, plugin_route, plugin_route_message, HostRoute, PluginRoute, RouteError,
};
use malbox::terraform_parse::InfraError;

fn s(v: &[&str]) -> Vec<String> {
    v.iter().map(|x| x.to_string()).collect()
}

fn line(source: OutputSource, c: &str) -> OutputLine {
    OutputLine { source, content: c.to_string() }
}

#[test]
fn output_lines_are_logged_by_stream_and_content() {
    let l = |src, c: &str| standard_log_line(&line(src, c));
    assert_eq!(l(OutputSource::Stderr, "error: bad"), (LogLevel::Error, "[CMD ERROR] error: bad".to_string()));
    assert_eq!(l(OutputSource::Stderr, "Error: bad"), (LogLevel::Error, "[CMD ERROR] Error: bad".to_string()));
    assert_eq!(l(OutputSource::Stderr, "progress"), (LogLevel::Warn, "[CMD STDERR] progress".to_string()));
    assert_eq!(l(OutputSource::Stdout, "Warning: old"), (LogLevel::Warn, "[CMD WARNING] Warning: old".to_string()));
    assert_eq!(l(OutputSource::Stdout, "done"), (LogLevel::Info, "[CMD] done".to_string()));
}

#[test]
fn failures_to_run_and_read() {
    match spawn_error("packer", true, "ignored".to_string()) {
        IoError::CommandNotFound { command } => assert_eq!(command, "packer"),
        other => panic!("{:?}", other),
    }
    match spawn_error("packer", false, "permission denied".to_string()) {
        IoError::SpawnFailed { command, message } => {
            assert_eq!(command, "packer");
            assert_eq!(message, "permission denied");
        }
        other => panic!("{:?}", other),
    }
    let u = unreadable_line(OutputSource::Stderr, "invalid UTF-8");
    assert_eq!(u.source, OutputSource::Stderr);
    assert_eq!(u.content, "[Error reading output: invalid UTF-8]");
}

#[test]
fn output_from_lines_and_exit_codes() {
    let out = CommandOutput::from_lines(
        2,
        vec![line(OutputSource::Stderr, "e1"), line(OutputSource::Stdout, "o1"), line(OutputSource::Stderr, "e2")],
    );
    assert!(!out.success());
    assert_eq!(out.stdout(), "o1");
    assert_eq!(out.stderr(), "e1\ne2");
    assert_eq!(out.combined(), "e1\no1\ne2");
    let empty = CommandOutput::empty(0);
    assert!(empty.success());
    assert_eq!(empty.stdout(), "");
    assert_eq!(empty.combined(), "");
}

#[test]
fn command_builder_keeps_the_last_directory() {
    let c = AsyncCommand::new("ansible-playbook".to_string())
        .current_dir("/a".to_string())
        .current_dir("/b".to_string())
        .env("A".to_string(), "1".to_string())
        .env("B".to_string(), "2".to_string());
    assert_eq!(c.working_dir(), &Some("/b".to_string()));
    assert_eq!(c.env_vars(), &vec![("A".to_string(), "1".to_string()), ("B".to_string(), "2".to_string())]);
    assert!(c.arg_list().is_empty());
}

#[test]
fn setting_an_environment_variable_again_replaces_it() {
    let c = AsyncCommand::new("packer".to_string())
        .env("A".to_string(), "1".to_string())
        .env("B".to_string(), "2".to_string())
        .env("A".to_string(), "3".to_string())
        .args(vec!["build".to_string(), "-force".to_string()]);
    assert_eq!(c.env_vars(), &vec![("A".to_string(), "3".to_string()), ("B".to_string(), "2".to_string())]);
    assert_eq!(c.arg_list(), &vec!["build".to_string(), "-force".to_string()]);
}

#[test]
fn argument_helpers() {
    assert_eq!(kv_string("a", "b=c"), "a=b=c");
    let mut args = s(&["x"]);
    push_arg(&mut args, "y");
    push_kv_args(&mut args, "-e", &vec![("k".to_string(), "v".to_string()), ("m".to_string(), "".to_string())]);
    assert_eq!(args, s(&["x", "y", "-e", "k=v", "-e", "m="]));
}

#[test]
fn packer_image_command_lines() {
    assert_eq!(template_path("/cfg", Platform::Windows), "/cfg/templates/windows/base.pkr.hcl");
    assert_eq!(template_path("/cfg", Platform::Linux), "/cfg/templates/linux/base.pkr.hcl");
    assert_eq!(init_args(), s(&["init", "templates/packer_plugins.pkr.hcl"]));
    assert_eq!(init_dir(None, "/cfg", false, false).unwrap(), "/cfg");
    assert_eq!(init_dir(Some("/w".to_string()), "/cfg", true, true).unwrap(), "/w");
    match init_dir(Some("/w".to_string()), "/cfg", false, true) {
        Err(InfraError::Config(m)) => assert_eq!(m, "Directory /w already exists. Use --force to overwrite"),
        other => panic!("{:?}", other),
    }
    let cfg = BuilderConfig {
        platform: Platform::Windows,
        name: "win".to_string(),
        iso: Some("/isos/w.iso".to_string()),
        force: true,
        working_dir: None,
        variables: vec![("cpus".to_string(), "2".to_string())],
    };
    assert_eq!(
        build_args(&cfg, "t.pkr.hcl"),
        s(&["build", "-timestamp-ui", "-force", "-var", "cpus=2", "-var", "iso_path=/isos/w.iso", "t.pkr.hcl"])
    );
    let refine = RefineConfig {
        base: "win10".to_string(),
        name: "office".to_string(),
        playbook: "windows".to_string(),
        force: false,
        variables: vec![],
    };
    assert_eq!(
        refine_args(&refine),
        s(&[
            "build", "-timestamp-ui", "-var", "source_image=source.vsphere-iso.win10",
            "templates/windows/refinements/office.pkr.hcl"
        ])
    );
    assert!(build_outcome(true, String::new()).is_ok());
    assert!(matches!(build_outcome(false, "x".to_string()), Err(InfraError::Build(m)) if m == "x"));
}

#[test]
fn stored_image_templates() {
    assert_eq!(template_file("/t", "win"), "/t/win.toml");
    assert!(matches!(template_exists("win"), InfraError::Template(m) if m == "Template win already exists"));
    assert!(matches!(template_not_found("win"), InfraError::NotFound(m) if m == "Template win not found"));
    let t = Template {
        name: "win".to_string(),
        platform: Platform::Windows,
        description: String::new(),
        base: None,
        variables: vec![],
        playbooks: vec![],
    };
    assert!(listed(&t, None));
    assert!(listed(&t, Some(Platform::Windows)));
    assert!(!listed(&t, Some(Platform::Linux)));
}

fn sql(p: &QueryPart) -> Option<&str> {
    match p {
        QueryPart::Sql(s) => Some(s.as_str()),
        _ => None,
    }
}

#[test]
fn machine_queries_follow_the_filter() {
    let q = fetch_machines_query(None);
    assert_eq!(q.len(), 1);
    assert_eq!(sql(&q[0]), Some(MACHINES_QUERY));
    let f = MachineFilter {
        locked: Some(false),
        label: None,
        platform: Some(MachinePlatform::Linux),
        tags: Some("x64".to_string()),
        arch: None,
        include_reserved: false,
        os_version: None,
    };
    let q = fetch_machine_query(Some(f));
    assert_eq!(q.len(), 8);
    assert_eq!(sql(&q[0]), Some(MACHINE_QUERY));
    assert_eq!(sql(&q[1]), Some(" AND locked = "));
    assert!(matches!(q[2], QueryPart::Bind(QueryValue::Bool(false))));
    assert_eq!(sql(&q[3]), Some(" AND platform = "));
    assert!(matches!(q[4], QueryPart::Bind(QueryValue::Platform(MachinePlatform::Linux))));
    assert_eq!(sql(&q[5]), Some(" AND tags @> "));
    assert!(matches!(&q[6], QueryPart::Bind(QueryValue::Text(t)) if t == "x64"));
    assert_eq!(sql(&q[7]), Some(" AND reserved = false"));
    let all = MachineFilter {
        locked: None,
        label: Some("a".to_string()),
        platform: None,
        tags: None,
        arch: Some(MachineArch::X86),
        include_reserved: true,
        os_version: Some("10".to_string()),
    };
    let q = fetch_machines_query(Some(all));
    let texts: Vec<Option<&str>> = q.iter().map(sql).collect();
    assert_eq!(texts, vec![Some(MACHINES_QUERY), Some(" AND label = "), None, Some(" AND arch = "), None,
        Some(" AND os_version = "), None]);
}

#[test]
fn default_machine_is_blank_x64_windows() {
    let m = Machine::default_machine();
    assert_eq!(m.name, "");
    assert_eq!(m.arch, MachineArch::X64);
    assert_eq!(m.platform, MachinePlatform::Windows);
    assert!(!m.locked && !m.reserved && m.tags.is_none() && m.status.is_none());
}

#[test]
fn messages_are_routed_by_side() {
    let hb = ChannelMessage::Heartbeat;
    let reg = ChannelMessage::Registration("p".to_string());
    assert_eq!(host_route(false, true, &hb), Err(RouteError::NotInitialized));
    assert_eq!(host_route(true, false, &hb), Err(RouteError::NoPublisher));
    assert_eq!(host_route(true, true, &hb), Err(RouteError::Unsupported));
    assert_eq!(plugin_route(true, true, &reg), Ok(PluginRoute::Registration));
    assert_eq!(host_route(true, true, &reg), Err(RouteError::Unsupported));
    assert_eq!(plugin_route(false, false, &reg), Err(RouteError::NotInitialized));
    assert_eq!(plugin_route(true, false, &reg), Err(RouteError::NoPublisher));
    assert_eq!(plugin_route(true, true, &hb), Err(RouteError::Unsupported));
    assert_eq!(host_route_message(RouteError::NotInitialized).as_deref(), Some("Host IPC is not initialized"));
    assert_eq!(host_route_message(RouteError::NoPublisher).as_deref(), Some("Host publisher is not initialized"));
    assert_eq!(host_route_message(RouteError::Unsupported), None);
    assert_eq!(plugin_route_message(RouteError::NotInitialized).as_deref(), Some("Plugin IPC is not initialized"));
    assert_eq!(plugin_route_message(RouteError::NoPublisher).as_deref(), Some("Plugin publisher is not initialized"));
    assert_eq!(plugin_route_message(RouteError::Unsupported), None);
    let _ = HostRoute::Task;
}
