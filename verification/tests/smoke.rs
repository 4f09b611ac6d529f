use malbox::command::{AsyncCommand, CommandOutput, OutputLine, OutputSource};

#[test]
fn command_output_joins_lines_by_stream() {
    let mut out = CommandOutput::empty(0);
    out.push_line(OutputLine { source: OutputSource::Stdout, content: "a".to_string() });
    out.push_line(OutputLine { source: OutputSource::Stderr, content: "b".to_string() });
    out.push_line(OutputLine { source: OutputSource::Stdout, content: "c".to_string() });
    assert!(out.success());
    assert_eq!(out.stdout(), "a\nc");
    assert_eq!(out.stderr(), "b");
    assert_eq!(out.combined(), "a\nb\nc");
}

#[test]
fn async_command_builder_keeps_arguments_in_order() {
    let c = AsyncCommand::new("terraform".to_string())
        .arg("apply".to_string())
        .args(vec!["-var".to_string(), "a=b".to_string()])
        .env("K".to_string(), "1".to_string())
        .env("K".to_string(), "2".to_string());
    assert_eq!(c.program(), "terraform");
    assert_eq!(c.arg_list(), &vec!["apply".to_string(), "-var".to_string(), "a=b".to_string()]);
    assert_eq!(c.env_vars(), &vec![("K".to_string(), "2".to_string())]);
}
