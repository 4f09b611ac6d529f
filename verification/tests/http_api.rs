use malbox::http_api::{
    sample_from, submitted_file_name, task_from_request, CreateTaskRequest, FileInfo, HttpError, ResponseBody, TaskState,
};

fn empty_request() -> CreateTaskRequest {
    CreateTaskRequest {
        package: None,
        module: None,
        timeout: None,
        priority: None,
        options: None,
        machine: None,
        platform: None,
        tags: None,
        custom: None,
        owner: None,
        memory: None,
        unique: None,
        enforce_timeout: None,
    }
}

#[test]
fn errors_have_a_status_and_a_message() {
    assert_eq!(HttpError::Unauthorized.status_code(), 401);
    assert_eq!(HttpError::Forbidden.status_code(), 403);
    assert_eq!(HttpError::NotFound.status_code(), 404);
    assert_eq!(HttpError::UnprocessableEntity { errors: vec![] }.status_code(), 422);
    assert_eq!(HttpError::Internal("x".to_string()).status_code(), 500);
    assert_eq!(HttpError::Unauthorized.message(), "Authentication required");
    assert_eq!(HttpError::Forbidden.message(), "User may not perform that action");
    assert_eq!(HttpError::NotFound.message(), "Request path not found");
    assert_eq!(HttpError::UnprocessableEntity { errors: vec![] }.message(), "Error in the request body");
    assert_eq!(HttpError::database_error().message(), "An internal server error occurred");
    assert!(matches!(HttpError::database_error(), HttpError::Internal(m) if m == "Database error occurred"));
}

#[test]
fn error_answers() {
    let r = HttpError::Unauthorized.into_response();
    assert_eq!(r.status, 401);
    assert_eq!(r.www_authenticate.as_deref(), Some("Token"));
    assert!(matches!(r.body, ResponseBody::Text(t) if t == "Authentication required"));
    let r = HttpError::Internal("secret detail".to_string()).into_response();
    assert_eq!(r.status, 500);
    assert!(r.www_authenticate.is_none());
    assert!(matches!(r.body, ResponseBody::Text(t) if t == "An internal server error occured"));
    let r = HttpError::NotFound.into_response();
    assert!(matches!(r.body, ResponseBody::Text(t) if t == "Request path not found"));
    let e = HttpError::unprocessable_entity(vec![
        ("file".to_string(), "missing".to_string()),
        ("timeout".to_string(), "too large".to_string()),
        ("file".to_string(), "empty".to_string()),
    ]);
    let r = e.into_response();
    assert_eq!(r.status, 422);
    match r.body {
        ResponseBody::Errors(list) => assert_eq!(
            list,
            vec![
                ("file".to_string(), vec!["empty".to_string()]),
                ("timeout".to_string(), vec!["too large".to_string()]),
            ]
        ),
        other => panic!("{:?}", other),
    }
}

#[test]
fn a_task_from_a_bare_submission() {
    let t = task_from_request(&empty_request(), "/samples/abc", 7, 123);
    assert_eq!(t.target, "/samples/abc");
    assert_eq!(t.module, "file_analysis");
    assert_eq!(t.timeout, 1);
    assert_eq!(t.priority, 1);
    assert!(!t.memory && !t.enforce_timeout);
    assert_eq!(t.added_on, 123);
    assert!(t.started_on.is_none() && t.completed_on.is_none());
    assert_eq!(t.status, TaskState::Pending);
    assert_eq!(t.sample_id, 7);
}

#[test]
fn a_task_keeps_what_was_asked_for() {
    let mut req = empty_request();
    req.module = Some("pe".to_string());
    req.timeout = Some(300);
    req.priority = Some(3);
    req.memory = Some(true);
    req.unique = Some(false);
    req.tags = Some("win10".to_string());
    let t = task_from_request(&req, "f", 1, 0);
    assert_eq!(t.module, "pe");
    assert_eq!(t.timeout, 300);
    assert_eq!(t.priority, 3);
    assert!(t.memory);
    assert_eq!(t.unique, Some(false));
    assert_eq!(t.tags.as_deref(), Some("win10"));
}

#[test]
fn submitted_files_and_samples() {
    assert_eq!(submitted_file_name(Some("a.exe".to_string())), "a.exe");
    assert_eq!(submitted_file_name(None), "data.bin");
    let info = FileInfo {
        name: "a.exe".to_string(),
        size: 1024,
        file_type: "PE32".to_string(),
        md5: "m".to_string(),
        sha1: "s1".to_string(),
        sha256: "s256".to_string(),
        sha512: "s512".to_string(),
        crc32: "c".to_string(),
        ssdeep: "d".to_string(),
    };
    let s = sample_from(&info);
    assert_eq!(s.file_size, 1024);
    assert_eq!(s.file_type, "PE32");
    assert_eq!(s.md5, "m");
    assert_eq!(s.sha512, "s512");
    assert_eq!(s.crc32, "c");
    assert_eq!(s.ssdeep, "d");
}
