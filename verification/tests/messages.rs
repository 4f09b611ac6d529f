use malbox::bytes::{BoundedBytes, ByteString, ByteStringError};
use malbox::message::{
    command_payload, decode_command, decode_event, decode_result, decode_task, event_payload, message_type_str,
    result_payload, task_payload, CommandMessage, CommandType, EventMessage, EventType, InternalError,
    MessagePayload, MessageType, ResultMessage, TaskMessage, COMMAND_PARAMS,
};

fn s64(b: &[u8]) -> ByteString<64> {
    ByteString::<64>::from_bytes(b).unwrap()
}

fn s256(b: &[u8]) -> ByteString<256> {
    ByteString::<256>::from_bytes(b).unwrap()
}

#[test]
fn byte_strings_check_capacity_then_characters() {
    assert_eq!(ByteString::<4>::from_bytes(b"abcde").unwrap_err(), ByteStringError::InsertWouldExceedCapacity);
    assert_eq!(ByteString::<4>::from_bytes(b"a\0").unwrap_err(), ByteStringError::InvalidCharacter);
    assert_eq!(ByteString::<4>::from_bytes(&[200]).unwrap_err(), ByteStringError::InvalidCharacter);
    assert_eq!(ByteString::<4>::from_bytes(b"abcd").unwrap().as_bytes(), b"abcd");
}

#[test]
fn bounded_bytes_refuse_pushes_when_full() {
    let mut b = BoundedBytes::<2>::new();
    assert!(b.push(1));
    assert!(b.push(2));
    assert!(!b.push(3));
    assert_eq!(b.as_slice(), &[1, 2]);
    assert!(BoundedBytes::<2>::from_slice(&[1, 2, 3]).is_none());
}

#[test]
fn new_payload_has_a_uuid_message_id() {
    let p = MessagePayload::new(MessageType::Event, "host", "plugin").unwrap();
    let id = std::str::from_utf8(p.message_id.as_bytes()).unwrap().to_string();
    assert_eq!(id.len(), 36);
    assert_eq!(id.chars().nth(8), Some('-'));
    assert_eq!(id.chars().nth(14), Some('4'));
    assert!("89ab".contains(id.chars().nth(19).unwrap()));
    assert!(id.chars().enumerate().all(|(i, c)| if [8, 13, 18, 23].contains(&i) { c == '-' } else { c.is_ascii_hexdigit() && !c.is_ascii_uppercase() }));
    assert_eq!(p.sender_id.as_bytes(), b"host");
    assert_eq!(p.recipient_id.as_bytes(), b"plugin");
    assert!(!p.has_task_id);
    let q = MessagePayload::new(MessageType::Event, "host", "plugin").unwrap();
    assert_ne!(p.message_id.as_bytes(), q.message_id.as_bytes());
}

#[test]
fn task_round_trip() {
    let task = TaskMessage {
        task_id: s64(b"task-7"),
        data_size: 3,
        data: BoundedBytes::<256>::from_slice(&[1, 2, 3, 4]).unwrap(),
        priority: 5,
        timeout_ms: 1000,
    };
    let p = task_payload(&task, "plug");
    assert_eq!(p.message_type, MessageType::Task);
    assert_eq!(p.sender_id.as_bytes(), b"TBD");
    assert_eq!(p.recipient_id.as_bytes(), b"plug");
    let t = decode_task(&p).unwrap();
    assert_eq!(t.task_id.as_bytes(), b"task-7");
    assert_eq!(t.data.as_slice(), &[1, 2, 3]);
    assert_eq!(t.priority, 5);
    assert_eq!(t.timeout_ms, 1000);
    let t2 = p.to_task().unwrap();
    assert_eq!(t2.data_size, 3);
}

#[test]
fn decoding_the_wrong_type_fails() {
    let task = TaskMessage {
        task_id: s64(b"t"),
        data_size: 0,
        data: BoundedBytes::<256>::new(),
        priority: 0,
        timeout_ms: 0,
    };
    let p = task_payload(&task, "plug");
    match decode_result(&p) {
        Err(InternalError::CommunicationError(m)) => assert_eq!(m, "Expected result message, got Task"),
        other => panic!("{:?}", other),
    }
    assert_eq!(message_type_str(MessageType::Heartbeat), "Heartbeat");
}

#[test]
fn result_round_trip_keeps_the_whole_result() {
    let result = ResultMessage {
        task_id: s64(b"t1"),
        plugin_id: s64(b"p1"),
        success: true,
        has_error: true,
        error_message: s256(b"oops"),
        data_size: 2,
        data: BoundedBytes::<256>::from_slice(&[9, 8]).unwrap(),
    };
    let p = result_payload(&result);
    let r = decode_result(&p).unwrap();
    assert_eq!(r.task_id.as_bytes(), b"t1");
    assert_eq!(r.plugin_id.as_bytes(), b"p1");
    assert!(r.success && r.has_error);
    assert_eq!(r.data.as_slice(), &[9, 8]);
    assert_eq!(r.error_message.as_bytes(), b"oops");
    assert_eq!(p.content.result_error_message.as_bytes(), b"oops");
    assert_eq!(p.content.event_error_message.as_bytes(), b"");
}

#[test]
fn result_data_is_cut_to_its_size() {
    let result = ResultMessage {
        task_id: s64(b"t2"),
        plugin_id: s64(b"p2"),
        success: false,
        has_error: false,
        error_message: s256(b""),
        data_size: 1,
        data: BoundedBytes::<256>::from_slice(&[9, 8, 7]).unwrap(),
    };
    let r = decode_result(&result_payload(&result)).unwrap();
    assert_eq!(r.data_size, 1);
    assert_eq!(r.data.as_slice(), &[9]);
}

#[test]
fn event_round_trip() {
    let event = EventMessage {
        has_task_id: false,
        task_id: ByteString::new(),
        plugin_id: s64(b"p"),
        event_type: EventType::Progress,
        error_message: s256(b""),
        progress_percent: 40,
        progress_message: s256(b"halfway"),
        success: false,
    };
    let p = event_payload(&event);
    let e = decode_event(&p).unwrap();
    assert_eq!(e.event_type, EventType::Progress);
    assert_eq!(e.progress_percent, 40);
    assert_eq!(e.progress_message.as_bytes(), b"halfway");
    assert_eq!(e.plugin_id.as_bytes(), b"p");
}

#[test]
fn command_round_trip_copies_the_counted_parameters() {
    let mut keys: Vec<ByteString<64>> = (0..COMMAND_PARAMS).map(|_| ByteString::new()).collect();
    let mut values: Vec<ByteString<256>> = (0..COMMAND_PARAMS).map(|_| ByteString::new()).collect();
    keys[0] = s64(b"k0");
    values[0] = s256(b"v0");
    keys[1] = s64(b"k1");
    values[1] = s256(b"v1");
    let command = CommandMessage {
        command_type: CommandType::Pause,
        custom_command: s64(b"c"),
        param_count: 1,
        param_keys: keys,
        param_values: values,
    };
    let p = command_payload(&command, "plug");
    let c = decode_command(&p).unwrap();
    assert_eq!(c.command_type, CommandType::Pause);
    assert_eq!(c.custom_command.as_bytes(), b"c");
    assert_eq!(c.param_keys[0].as_bytes(), b"k0");
    assert_eq!(c.param_values[0].as_bytes(), b"v0");
    assert_eq!(c.param_keys[1].as_bytes(), b"");
}
