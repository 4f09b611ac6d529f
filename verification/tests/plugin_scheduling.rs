use malbox::plugin_state::PluginState;
use malbox::plugin_types::{ExecutionMode, PluginEvent, PluginRequirements, PluginType};
use malbox::plugins::{plugins_to_start, PluginInfo, PluginRegistry};
use malbox::runtime::{
    data_message, event_from_id, event_id, result_message, wants_message, RuntimeAction, RuntimeEvent,
    RuntimePhase, RuntimeState,
};
use malbox::plugin_types::PluginMessage;

fn req(t: PluginType, mode: ExecutionMode, required: &[&str], incompatible: &[&str]) -> PluginRequirements {
    PluginRequirements {
        plugin_type: t,
        execution_mode: mode,
        required_plugins: required.iter().map(|s| s.to_string()).collect(),
        incompatible_plugins: incompatible.iter().map(|s| s.to_string()).collect(),
    }
}

#[test]
fn registered_plugin_is_found_and_replaced() {
    let mut s = PluginState::new();
    s.add_plugin("a".to_string(), req(PluginType::Storage, ExecutionMode::Sequential, &[], &["x"]));
    assert_eq!(s.get_plugin("a").unwrap().plugin_type, PluginType::Storage);
    s.add_plugin("a".to_string(), req(PluginType::Analysis, ExecutionMode::Sequential, &[], &["x"]));
    assert_eq!(s.get_plugin("a").unwrap().plugin_type, PluginType::Analysis);
    assert!(s.get_plugin("b").is_none());
}

#[test]
fn plugin_without_incompatibles_starts() {
    let mut s = PluginState::new();
    s.add_plugin("a".to_string(), req(PluginType::Analysis, ExecutionMode::Unrestricted, &[], &[]));
    assert_eq!(s.get_next_plugins(), vec!["a"]);
}

#[test]
fn sequential_plugins_run_one_at_a_time() {
    let mut s = PluginState::new();
    s.add_plugin("p1".to_string(), req(PluginType::Analysis, ExecutionMode::Unrestricted, &[], &[]));
    s.add_plugin("s1".to_string(), req(PluginType::Storage, ExecutionMode::Sequential, &[], &[]));
    s.add_plugin("s2".to_string(), req(PluginType::Storage, ExecutionMode::Sequential, &[], &[]));
    s.add_plugin("p2".to_string(), req(PluginType::Machinery, ExecutionMode::Unrestricted, &[], &[]));
    // One sequential plugin per batch, placed first.
    assert_eq!(s.get_next_plugins(), vec!["s1", "p1", "p2"]);
    // While a sequential plugin runs, no other sequential plugin starts.
    s.mark_as_running("s1");
    assert_eq!(s.get_next_plugins(), vec!["p1", "p2"]);
    s.handle_event(PluginEvent::Shutdown("s1".to_string()));
    assert_eq!(s.get_next_plugins(), vec!["s1", "p1", "p2"]);
}

#[test]
fn required_plugins_must_run_first() {
    let mut s = PluginState::new();
    s.add_plugin("base".to_string(), req(PluginType::Storage, ExecutionMode::Unrestricted, &[], &[]));
    s.add_plugin("dep".to_string(), req(PluginType::Analysis, ExecutionMode::Unrestricted, &["base"], &[]));
    assert_eq!(s.get_next_plugins(), vec!["base"]);
    s.mark_as_running("base");
    assert_eq!(s.get_next_plugins(), vec!["dep"]);
}

#[test]
fn exclusive_plugin_runs_alone() {
    let mut s = PluginState::new();
    s.add_plugin("other".to_string(), req(PluginType::Storage, ExecutionMode::Unrestricted, &[], &[]));
    s.add_plugin("solo".to_string(), req(PluginType::Analysis, ExecutionMode::Exclusive, &[], &[]));
    assert_eq!(s.get_next_plugins(), vec!["solo"]);
    s.mark_as_running("other");
    assert!(s.get_next_plugins().is_empty());
}

#[test]
fn nothing_joins_a_running_exclusive_plugin() {
    let mut s = PluginState::new();
    s.add_plugin("solo".to_string(), req(PluginType::Analysis, ExecutionMode::Exclusive, &[], &[]));
    s.mark_as_running("solo");
    s.add_plugin("late".to_string(), req(PluginType::Storage, ExecutionMode::Unrestricted, &[], &[]));
    assert!(s.get_next_plugins().is_empty());
}

#[test]
fn parallel_plugins_join_their_group_only() {
    let mut s = PluginState::new();
    s.add_plugin("g1".to_string(), req(PluginType::Analysis, ExecutionMode::Parallel("g".to_string()), &[], &[]));
    s.add_plugin("h1".to_string(), req(PluginType::Storage, ExecutionMode::Parallel("h".to_string()), &[], &[]));
    s.add_plugin("g2".to_string(), req(PluginType::Machinery, ExecutionMode::Parallel("g".to_string()), &[], &[]));
    s.add_plugin("u".to_string(), req(PluginType::Machinery, ExecutionMode::Unrestricted, &[], &[]));
    // A batch holds one group only, and no plugin outside it.
    assert_eq!(s.get_next_plugins(), vec!["g1", "g2"]);
    s.mark_as_running("g1");
    assert_eq!(s.get_next_plugins(), vec!["g2"]);
}

#[test]
fn running_plugins_are_judged_by_their_own_registration() {
    let mut s = PluginState::new();
    s.add_plugin("g1".to_string(), req(PluginType::Analysis, ExecutionMode::Parallel("g".to_string()), &[], &[]));
    s.add_plugin("a2".to_string(), req(PluginType::Analysis, ExecutionMode::Unrestricted, &[], &[]));
    s.add_plugin("g2".to_string(), req(PluginType::Storage, ExecutionMode::Parallel("g".to_string()), &[], &[]));
    // a2 shares g1's type but is not in group g, so g2 may not join it.
    s.mark_as_running("a2");
    assert!(s.get_next_plugins().is_empty());
}

#[test]
fn incompatible_plugins_are_judged_by_the_starting_plugins_list() {
    let mut s = PluginState::new();
    s.add_plugin("a".to_string(), req(PluginType::Analysis, ExecutionMode::Unrestricted, &[], &["b"]));
    s.add_plugin("b".to_string(), req(PluginType::Storage, ExecutionMode::Unrestricted, &[], &[]));
    s.add_plugin("c".to_string(), req(PluginType::Machinery, ExecutionMode::Unrestricted, &[], &["a"]));
    assert_eq!(s.get_next_plugins(), vec!["a"]);
    s.mark_as_running("b");
    // b runs: a lists it, c does not.
    assert_eq!(s.get_next_plugins(), vec!["c"]);
    s.handle_event(PluginEvent::Shutdown("b".to_string()));
    s.mark_as_running("a");
    // a runs: c lists it; b does not list a, so b may start next to it.
    assert_eq!(s.get_next_plugins(), vec!["b"]);
}

#[test]
fn events_start_and_stop_plugins() {
    let mut s = PluginState::new();
    s.add_plugin("a".to_string(), req(PluginType::Storage, ExecutionMode::Unrestricted, &[], &[]));
    s.handle_event(PluginEvent::Started("a".to_string()));
    assert!(s.get_next_plugins().is_empty());
    s.handle_event(PluginEvent::Failed("a".to_string(), "boom".to_string()));
    assert_eq!(s.get_next_plugins(), vec!["a"]);
    s.handle_event(PluginEvent::Started("a".to_string()));
    s.handle_event(PluginEvent::Shutdown("a".to_string()));
    assert_eq!(s.get_next_plugins(), vec!["a"]);
    s.handle_event(PluginEvent::ResourceReady { id: "a".to_string(), plugin_type: PluginType::Storage });
    assert_eq!(s.get_next_plugins(), vec!["a"]);
}

#[test]
fn manager_starts_ready_plugins_with_their_kind() {
    let mut s = PluginState::new();
    s.add_plugin("a".to_string(), req(PluginType::Machinery, ExecutionMode::Unrestricted, &[], &[]));
    assert_eq!(plugins_to_start(&s), vec![("a".to_string(), PluginType::Machinery)]);
}

fn info(deps: &[&str]) -> PluginInfo {
    PluginInfo {
        name: "n".to_string(),
        version: "1".to_string(),
        path: "/opt/p".to_string(),
        plugin_type: PluginType::Analysis,
        dependencies: deps.iter().map(|s| s.to_string()).collect(),
        config: vec![],
    }
}

#[test]
fn registry_verifies_plugins() {
    let reg = PluginRegistry { plugins: vec![("a".to_string(), info(&[])), ("b".to_string(), info(&["a", "c"]))] };
    assert_eq!(reg.verify_plugin("x", true), Err("Plugin not found x".to_string()));
    assert_eq!(reg.verify_plugin("a", false), Err("Plugin binary not found: \"/opt/p\"".to_string()));
    assert_eq!(reg.verify_plugin("a", true), Ok(()));
    assert_eq!(reg.verify_plugin("b", true), Err("Missing dependency: c".to_string()));
    assert_eq!(reg.get_plugin("b").unwrap().dependencies.len(), 2);
}

#[test]
fn event_ids_round_trip_by_kind() {
    let evs = vec![
        PluginEvent::ResourceReady { id: "p".to_string(), plugin_type: PluginType::Storage },
        PluginEvent::Started("p".to_string()),
        PluginEvent::Failed("p".to_string(), "e".to_string()),
        PluginEvent::Shutdown("p".to_string()),
    ];
    let ids: Vec<usize> = evs.iter().map(event_id).collect();
    assert_eq!(ids, vec![1, 2, 3, 4]);
    for (e, id) in evs.iter().zip(ids) {
        let back = event_from_id(id).unwrap();
        assert_eq!(std::mem::discriminant(e), std::mem::discriminant(&back));
    }
    assert!(event_from_id(0).is_none());
    assert!(event_from_id(5).is_none());
    match event_from_id(3).unwrap() {
        PluginEvent::Failed(i, m) => {
            assert_eq!(i, "plugin-id");
            assert_eq!(m, "error");
        }
        _ => panic!("wrong event"),
    }
}

#[test]
fn messages_are_addressed_by_kind() {
    let m = data_message(PluginType::Storage, vec![1, 2]);
    assert_eq!(m.plugin_id, "");
    assert!(wants_message(&m, PluginType::Storage));
    assert!(!wants_message(&m, PluginType::Analysis));
    let r: PluginMessage = result_message(&"me".to_string(), PluginType::Analysis, vec![9]);
    assert_eq!(r.plugin_id, "me");
    assert_eq!(r.data, vec![9]);
}

#[test]
fn runtime_runs_a_full_life() {
    let mut s = RuntimeState::new("p".to_string(), PluginType::Analysis);
    assert!(matches!(s.step(RuntimeEvent::Begin), RuntimeAction::Init));
    match s.step(RuntimeEvent::Initialized(Ok(()))) {
        RuntimeAction::Notify(PluginEvent::ResourceReady { id, plugin_type }) => {
            assert_eq!(id, "p");
            assert_eq!(plugin_type, PluginType::Analysis);
        }
        other => panic!("{:?}", other),
    }
    assert!(matches!(s.step(RuntimeEvent::Signalled(Ok(()))), RuntimeAction::Receive));
    assert!(matches!(s.step(RuntimeEvent::Received(Ok(Some(vec![7])))), RuntimeAction::Notify(PluginEvent::Started(_))));
    match s.step(RuntimeEvent::Signalled(Ok(()))) {
        RuntimeAction::Process(d) => assert_eq!(d, vec![7]),
        other => panic!("{:?}", other),
    }
    match s.step(RuntimeEvent::Processed(Ok(vec![8]))) {
        RuntimeAction::SendResult(d) => assert_eq!(d, vec![8]),
        other => panic!("{:?}", other),
    }
    assert!(matches!(s.step(RuntimeEvent::ResultSent(Ok(()))), RuntimeAction::Receive));
    assert!(matches!(s.step(RuntimeEvent::Received(Ok(None))), RuntimeAction::Shutdown));
    assert!(matches!(s.step(RuntimeEvent::ShutDown(Ok(()))), RuntimeAction::Notify(PluginEvent::Shutdown(_))));
    assert!(matches!(s.step(RuntimeEvent::Signalled(Ok(()))), RuntimeAction::Stop(Ok(()))));
    assert!(matches!(s.phase, RuntimePhase::Done));
    assert!(matches!(s.step(RuntimeEvent::Begin), RuntimeAction::Ignore));
}

#[test]
fn runtime_reports_failures() {
    let mut s = RuntimeState::new("p".to_string(), PluginType::Analysis);
    s.step(RuntimeEvent::Begin);
    match s.step(RuntimeEvent::Initialized(Err("no disk".to_string()))) {
        RuntimeAction::Stop(Err(m)) => assert_eq!(m, "Plugin initialization failed: no disk"),
        other => panic!("{:?}", other),
    }
    let mut s = RuntimeState::new("p".to_string(), PluginType::Analysis);
    s.step(RuntimeEvent::Begin);
    s.step(RuntimeEvent::Initialized(Ok(())));
    s.step(RuntimeEvent::Signalled(Ok(())));
    s.step(RuntimeEvent::Received(Ok(Some(vec![1]))));
    s.step(RuntimeEvent::Signalled(Ok(())));
    match s.step(RuntimeEvent::Processed(Err("bad input".to_string()))) {
        RuntimeAction::Notify(PluginEvent::Failed(i, m)) => {
            assert_eq!(i, "p");
            assert_eq!(m, "bad input");
        }
        other => panic!("{:?}", other),
    }
    match s.step(RuntimeEvent::Signalled(Ok(()))) {
        RuntimeAction::Stop(Err(m)) => assert_eq!(m, "Plugin processing error for plugin ID p: bad input"),
        other => panic!("{:?}", other),
    }
}

#[test]
fn runtime_reports_send_and_shutdown_failures() {
    let mut s = RuntimeState::new("p".to_string(), PluginType::Storage);
    s.step(RuntimeEvent::Begin);
    s.step(RuntimeEvent::Initialized(Ok(())));
    s.step(RuntimeEvent::Signalled(Ok(())));
    s.step(RuntimeEvent::Received(Ok(Some(vec![1]))));
    s.step(RuntimeEvent::Signalled(Ok(())));
    s.step(RuntimeEvent::Processed(Ok(vec![2])));
    match s.step(RuntimeEvent::ResultSent(Err("full".to_string()))) {
        RuntimeAction::Stop(Err(m)) => assert_eq!(m, "Failed to send result: full"),
        other => panic!("{:?}", other),
    }
    let mut s = RuntimeState::new("p".to_string(), PluginType::Storage);
    s.step(RuntimeEvent::Begin);
    s.step(RuntimeEvent::Initialized(Ok(())));
    s.step(RuntimeEvent::Signalled(Ok(())));
    s.step(RuntimeEvent::Received(Ok(None)));
    match s.step(RuntimeEvent::ShutDown(Err("stuck".to_string()))) {
        RuntimeAction::Stop(Err(m)) => assert_eq!(m, "Plugin shutdown failed: stuck"),
        other => panic!("{:?}", other),
    }
}
