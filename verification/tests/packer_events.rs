use malbox::packer_events::{
    log_packer_event, parse_packer_event, LogLevel, PackerBuildState, PackerEvent, PackerEventType,
};

fn ev(line: &str) -> PackerEvent {
    parse_packer_event(line).expect("a line with three fields parses")
}

#[test]
fn short_lines_are_not_events() {
    assert!(parse_packer_event("").is_none());
    assert!(parse_packer_event("123,target").is_none());
}

#[test]
fn error_lines_carry_their_message() {
    let e = ev("1700000000,,error,disk full");
    assert_eq!(e.timestamp, "1700000000");
    assert_eq!(e.target, "");
    match e.event {
        PackerEventType::Error(m) => assert_eq!(m, "disk full"),
        other => panic!("{:?}", other),
    }
    match ev("1,,error").event {
        PackerEventType::Error(m) => assert_eq!(m, "Unknown error"),
        other => panic!("{:?}", other),
    }
}

#[test]
fn ui_lines_need_two_more_fields() {
    match ev("1,vm,ui,say,==> Building").event {
        PackerEventType::UI { ui_type, message } => {
            assert_eq!(ui_type, "say");
            assert_eq!(message, "==> Building");
        }
        other => panic!("{:?}", other),
    }
    match ev("1,vm,ui,say").event {
        PackerEventType::UI { ui_type, message } => {
            assert_eq!(ui_type, "unknown");
            assert_eq!(message, "Incomplete UI message");
        }
        other => panic!("{:?}", other),
    }
}

#[test]
fn error_count_parses_or_defaults_to_zero() {
    match ev("1,,error-count,3").event {
        PackerEventType::ErrorCount(c) => assert_eq!(c, 3),
        other => panic!("{:?}", other),
    }
    match ev("1,,error-count,many").event {
        PackerEventType::ErrorCount(c) => assert_eq!(c, 0),
        other => panic!("{:?}", other),
    }
    match ev("1,,error-count").event {
        PackerEventType::ErrorCount(c) => assert_eq!(c, 0),
        other => panic!("{:?}", other),
    }
}

#[test]
fn artifact_and_build_lines() {
    match ev("1,qemu,artifact,0,id").event {
        PackerEventType::Artifact { builder, artifact_type, detail } => {
            assert_eq!(builder, "qemu");
            assert_eq!(artifact_type, "0");
            assert_eq!(detail, "id");
        }
        other => panic!("{:?}", other),
    }
    match ev("1,qemu,artifact,0").event {
        PackerEventType::Other { event_type, data } => {
            assert_eq!(event_type, "artifact");
            assert_eq!(data, vec!["0".to_string()]);
        }
        other => panic!("{:?}", other),
    }
    match ev("1,qemu,build-start,qemu.win").event {
        PackerEventType::BuildStart(b) => assert_eq!(b, "qemu.win"),
        other => panic!("{:?}", other),
    }
    match ev("1,qemu,build-end,12s").event {
        PackerEventType::BuildEnd { builder, duration } => {
            assert_eq!(builder, "qemu");
            assert_eq!(duration, Some("12s".to_string()));
        }
        other => panic!("{:?}", other),
    }
    match ev("1,qemu,build-end").event {
        PackerEventType::BuildEnd { duration, .. } => assert_eq!(duration, None),
        other => panic!("{:?}", other),
    }
    match ev("1,qemu,version,1.9,dev").event {
        PackerEventType::Other { event_type, data } => {
            assert_eq!(event_type, "version");
            assert_eq!(data, vec!["1.9".to_string(), "dev".to_string()]);
        }
        other => panic!("{:?}", other),
    }
}

#[test]
fn build_state_collects_errors_artifacts_and_duration() {
    let mut s = PackerBuildState::new();
    s.add_event(&ev("1,,error,boom"));
    s.add_event(&ev("1,vm,ui,error,bad thing"));
    s.add_event(&ev("1,vm,ui,say,fine"));
    s.add_event(&ev("1,vm,artifact,0,files"));
    s.add_event(&ev("1,,error-count,2"));
    s.add_event(&ev("1,vm,build-end,5m"));
    s.add_event(&ev("1,vm,build-end"));
    assert_eq!(s.errors, vec!["boom".to_string(), "bad thing".to_string()]);
    assert_eq!(s.artifacts, vec!["0: files".to_string()]);
    assert_eq!(s.error_count, 2);
    assert_eq!(s.build_duration, Some("5m".to_string()));
}

#[test]
fn log_levels_follow_the_event() {
    let l = |line: &str| log_packer_event(&ev(line));
    assert_eq!(l("1,,error,x"), Some((LogLevel::Error, "[PACKER ERROR] x".to_string())));
    assert_eq!(l("1,v,ui,warning,w"), Some((LogLevel::Warn, "[PACKER WARNING] w".to_string())));
    assert_eq!(l("1,v,ui,say,==> go"), Some((LogLevel::Info, "[PACKER] ==> go".to_string())));
    assert_eq!(l("1,v,ui,say,quiet"), Some((LogLevel::Debug, "[PACKER] quiet".to_string())));
    assert_eq!(l("1,v,ui,message,m"), Some((LogLevel::Debug, "[PACKER MESSAGE] m".to_string())));
    assert_eq!(l("1,v,ui,other,m"), Some((LogLevel::Debug, "[PACKER UI] other: m".to_string())));
    assert_eq!(
        l("1,qemu,artifact,0,id"),
        Some((LogLevel::Info, "[PACKER ARTIFACT] Builder 'qemu' created 0 artifact: id".to_string()))
    );
    assert_eq!(l("1,,error-count,0"), None);
    assert_eq!(l("1,,error-count,12"), Some((LogLevel::Error, "[PACKER] Found 12 errors".to_string())));
    assert_eq!(l("1,v,build-start,b"), Some((LogLevel::Info, "[PACKER] Build started for b".to_string())));
    assert_eq!(
        l("1,v,build-end,3s"),
        Some((LogLevel::Info, "[PACKER] Build finished for v after 3s".to_string()))
    );
    assert_eq!(l("1,v,build-end"), Some((LogLevel::Info, "[PACKER] Build finished for v".to_string())));
    assert_eq!(
        l("1,v,foo,a,b"),
        Some((LogLevel::Debug, "[PACKER EVENT] Type: foo, Data: [\"a\", \"b\"]".to_string()))
    );
}
