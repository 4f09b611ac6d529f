use malbox::modules::{
    execution_failure_message, load_failure_message, loaded_plugins, plugin_library_path, plugins_to_load, ModuleProgress,
    PluginStatus,
};

#[test]
fn only_enabled_plugins_are_loaded_in_order() {
    let configs = vec![
        ("yara".to_string(), true),
        ("strings".to_string(), false),
        ("pe".to_string(), true),
    ];
    assert_eq!(plugins_to_load(&configs), vec!["yara", "pe"]);
    assert!(plugins_to_load(&vec![("x".to_string(), false)]).is_empty());
}

#[test]
fn plugin_libraries_lie_under_the_plugin_directory() {
    assert_eq!(plugin_library_path("yara"), "./plugins/yara/target/debug/libyara.so");
}

#[test]
fn module_errors_name_the_plugin_and_cause() {
    assert_eq!(load_failure_message("pe", "NotFound"), "Failed to load plugin pe: NotFound");
    assert_eq!(execution_failure_message("\"bad\""), "Plugin execution failed: \"bad\"");
}

#[test]
fn loaded_plugins_start_not_started_and_advance() {
    let mut m = ModuleProgress::new(&vec!["a".to_string(), "b".to_string()]);
    assert_eq!(m.status("a"), Some(PluginStatus::NotStarted));
    assert_eq!(m.status("b"), Some(PluginStatus::NotStarted));
    assert_eq!(m.status("c"), None);
    assert_eq!(m.current_plugin_index(), 0);
    m.mark_running("a");
    assert_eq!(m.status("a"), Some(PluginStatus::Running));
    m.record_outcome("a", true);
    assert_eq!(m.status("a"), Some(PluginStatus::Completed));
    assert_eq!(m.current_plugin_index(), 1);
    m.mark_running("b");
    m.record_outcome("b", false);
    assert_eq!(m.status("b"), Some(PluginStatus::Failed));
    assert_eq!(m.current_plugin_index(), 1);
}

#[test]
fn loading_stops_at_the_first_failure() {
    let names = vec!["a".to_string(), "b".to_string(), "c".to_string()];
    let all_ok: Vec<Result<(), String>> = vec![Ok(()), Ok(()), Ok(())];
    assert_eq!(loaded_plugins(&names, &all_ok), Ok(names.clone()));
    let failing: Vec<Result<(), String>> = vec![Ok(()), Err("NotFound".to_string()), Err("Other".to_string())];
    assert_eq!(loaded_plugins(&names, &failing), Err("Failed to load plugin b: NotFound".to_string()));
    assert_eq!(loaded_plugins(&vec![], &vec![]), Ok(vec![]));
}
