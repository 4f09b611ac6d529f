//! Message payloads exchanged between the core and plugins: building a payload
//! from a task, result, event or command, and reading it back.
use crate::bytes::{
    bounded_append, fits_message_string, push_prefix, BoundedBytes, ByteString, ByteStringError,
};
use crate::text::append_str;
use vstd::prelude::*;
use vstd::string::*;

verus! {

/// High-level message type.
#[derive(Debug, Clone, Copy, PartialEq, Eq, Structural)]
pub enum MessageType {
    Task,
    Result,
    Event,
    Command,
    Registration,
    Heartbeat,
}

/// Plugin event types.
#[derive(Debug, Clone, Copy, PartialEq, Eq, Structural)]
pub enum EventType {
    ResourceReady,
    Started,
    Failed,
    Shutdown,
    Progress,
    Complete,
}

/// Command types.
#[derive(Debug, Clone, Copy, PartialEq, Eq, Structural)]
pub enum CommandType {
    Stop,
    Pause,
    Resume,
    Status,
}

/// The number of parameters a command carries.
pub const COMMAND_PARAMS: usize = 16;

/// Errors of the communication layer.
#[derive(Debug, Clone)]
pub enum InternalError {
    CommunicationError(String),
}

/// Union of all possible message contents.
#[derive(Debug, Clone)]
pub struct MessageContent {
    pub task_data_size: u32,
    pub task_data: BoundedBytes<256>,
    pub task_priority: u8,
    pub task_timeout_ms: u64,
    pub result_plugin_id: ByteString<64>,
    pub result_success: bool,
    pub result_has_error: bool,
    pub result_error_message: ByteString<256>,
    pub result_data_size: u32,
    pub result_data: BoundedBytes<256>,
    pub event_plugin_id: ByteString<64>,
    pub event_type: EventType,
    pub event_error_message: ByteString<256>,
    pub event_progress_percent: u8,
    pub event_progress_message: ByteString<256>,
    pub event_success: bool,
    pub command_type: CommandType,
    pub command_custom: ByteString<64>,
    pub command_param_count: u32,
    pub command_param_keys: Vec<ByteString<64>>,
    pub command_param_values: Vec<ByteString<256>>,
}

/// Container for message payloads.
#[derive(Debug, Clone)]
pub struct MessagePayload {
    pub message_type: MessageType,
    pub message_id: ByteString<64>,
    pub sender_id: ByteString<64>,
    pub recipient_id: ByteString<64>,
    pub has_task_id: bool,
    pub task_id: ByteString<64>,
    pub content: MessageContent,
}

/// Analysis task message.
#[derive(Debug, Clone)]
pub struct TaskMessage {
    pub task_id: ByteString<64>,
    pub data_size: u32,
    pub data: BoundedBytes<256>,
    pub priority: u8,
    pub timeout_ms: u64,
}

/// Analysis result message.
#[derive(Debug, Clone)]
pub struct ResultMessage {
    pub task_id: ByteString<64>,
    pub plugin_id: ByteString<64>,
    pub success: bool,
    pub has_error: bool,
    pub error_message: ByteString<256>,
    pub data_size: u32,
    pub data: BoundedBytes<256>,
}

/// Event message.
#[derive(Debug, Clone)]
pub struct EventMessage {
    pub has_task_id: bool,
    pub task_id: ByteString<64>,
    pub plugin_id: ByteString<64>,
    pub event_type: EventType,
    pub error_message: ByteString<256>,
    pub progress_percent: u8,
    pub progress_message: ByteString<256>,
    pub success: bool,
}

/// Command message.
#[derive(Debug, Clone)]
pub struct CommandMessage {
    pub command_type: CommandType,
    pub custom_command: ByteString<64>,
    pub param_count: u32,
    pub param_keys: Vec<ByteString<64>>,
    pub param_values: Vec<ByteString<256>>,
}

/// A message as handled in process.
#[derive(Debug, Clone)]
pub enum ChannelMessage {
    Task(TaskMessage),
    Result(ResultMessage),
    Event(EventMessage),
    Command(CommandMessage),
    Registration(String),
    Heartbeat,
}

/// `n` empty byte strings.
fn empty_strings64(n: usize) -> (r: Vec<ByteString<64>>)
    ensures
        r@.len() == n,
        forall|i: int| 0 <= i < n ==> (#[trigger] r@[i])@ == Seq::<u8>::empty(),
{
    let mut r: Vec<ByteString<64>> = Vec::new();
    let mut i: usize = 0;
    while i < n
        invariant
            i <= n,
            r@.len() == i,
            forall|k: int| 0 <= k < i ==> (#[trigger] r@[k])@ == Seq::<u8>::empty(),
        decreases n - i,
    {
        r.push(ByteString::new());
        i = i + 1;
    }
    r
}

/// `n` empty byte strings.
fn empty_strings256(n: usize) -> (r: Vec<ByteString<256>>)
    ensures
        r@.len() == n,
        forall|i: int| 0 <= i < n ==> (#[trigger] r@[i])@ == Seq::<u8>::empty(),
{
    let mut r: Vec<ByteString<256>> = Vec::new();
    let mut i: usize = 0;
    while i < n
        invariant
            i <= n,
            r@.len() == i,
            forall|k: int| 0 <= k < i ==> (#[trigger] r@[k])@ == Seq::<u8>::empty(),
        decreases n - i,
    {
        r.push(ByteString::new());
        i = i + 1;
    }
    r
}

/// The byte string view of a sequence of byte strings.
pub open spec fn strings64(v: Seq<ByteString<64>>) -> Seq<Seq<u8>> {
    v.map_values(|s: ByteString<64>| s@)
}

/// The byte string view of a sequence of byte strings.
pub open spec fn strings256(v: Seq<ByteString<256>>) -> Seq<Seq<u8>> {
    v.map_values(|s: ByteString<256>| s@)
}

/// Content with every field at its default: zero, false, empty, first variant,
/// and sixteen empty parameters.
pub open spec fn is_default_content(c: MessageContent) -> bool {
    &&& c.task_data_size == 0 && c.task_data@ == Seq::<u8>::empty() && c.task_priority == 0 && c.task_timeout_ms == 0
    &&& c.result_plugin_id@ == Seq::<u8>::empty() && !c.result_success && !c.result_has_error
    &&& c.result_error_message@ == Seq::<u8>::empty() && c.result_data_size == 0 && c.result_data@ == Seq::<u8>::empty()
    &&& c.event_plugin_id@ == Seq::<u8>::empty() && c.event_type == EventType::ResourceReady
    &&& c.event_error_message@ == Seq::<u8>::empty() && c.event_progress_percent == 0
    &&& c.event_progress_message@ == Seq::<u8>::empty() && !c.event_success
    &&& c.command_type == CommandType::Stop && c.command_custom@ == Seq::<u8>::empty() && c.command_param_count == 0
    &&& c.command_param_keys@.len() == COMMAND_PARAMS && c.command_param_values@.len() == COMMAND_PARAMS
    &&& forall|i: int| 0 <= i < COMMAND_PARAMS ==> (#[trigger] c.command_param_keys@[i])@ == Seq::<u8>::empty()
    &&& forall|i: int| 0 <= i < COMMAND_PARAMS ==> (#[trigger] c.command_param_values@[i])@ == Seq::<u8>::empty()
}

/// The content of a fresh payload.
pub fn default_content() -> (c: MessageContent)
    ensures
        is_default_content(c),
{
    MessageContent {
        task_data_size: 0,
        task_data: BoundedBytes::new(),
        task_priority: 0,
        task_timeout_ms: 0,
        result_plugin_id: ByteString::new(),
        result_success: false,
        result_has_error: false,
        result_error_message: ByteString::new(),
        result_data_size: 0,
        result_data: BoundedBytes::new(),
        event_plugin_id: ByteString::new(),
        event_type: EventType::ResourceReady,
        event_error_message: ByteString::new(),
        event_progress_percent: 0,
        event_progress_message: ByteString::new(),
        event_success: false,
        command_type: CommandType::Stop,
        command_custom: ByteString::new(),
        command_param_count: 0,
        command_param_keys: empty_strings64(COMMAND_PARAMS),
        command_param_values: empty_strings256(COMMAND_PARAMS),
    }
}

/// A fresh, random message id: `uuid::Uuid::new_v4()` as its `Display` writes it.
/// Claimed, as the crate documents: the lower-case hyphenated text of a random
/// version 4 UUID of the RFC 4122 variant. Which UUID comes out is left unsaid.
#[verifier::external_body]
fn new_message_id() -> (s: String)
    ensures
        is_v4_uuid_text(s@),
{
    uuid::Uuid::new_v4().to_string()
}

/// A character of the hyphenated text form of a UUID.
pub open spec fn is_uuid_char(c: char) -> bool {
    ('0' <= c && c <= '9') || ('a' <= c && c <= 'f') || c == '-'
}

/// Whether a character is a lower-case hexadecimal digit.
pub open spec fn is_hex_digit(c: char) -> bool {
    ('0' <= c && c <= '9') || ('a' <= c && c <= 'f')
}

/// The lower-case hyphenated text of a version 4 UUID: hexadecimal digits in groups of
/// 8, 4, 4, 4 and 12 separated by hyphens, the version digit `4`, and a variant digit
/// among `8`, `9`, `a` and `b`.
pub open spec fn is_v4_uuid_text(s: Seq<char>) -> bool {
    &&& s.len() == 36
    &&& forall|i: int|
        0 <= i < 36 ==> if i == 8 || i == 13 || i == 18 || i == 23 {
            #[trigger] s[i] == '-'
        } else {
            is_hex_digit(s[i])
        }
    &&& s[14] == '4'
    &&& (s[19] == '8' || s[19] == '9' || s[19] == 'a' || s[19] == 'b')
}

/// `true` when the text of `s` can be stored in a 64-byte message string.
pub open spec fn fits_id(s: &str) -> bool {
    fits_message_string(s.spec_bytes(), 64)
}

/// A message string holding the bytes of `s`, which must fit.
fn id_string(s: &str) -> (r: ByteString<64>)
    requires
        fits_id(s),
    ensures
        r@ == s.spec_bytes(),
{
    match ByteString::<64>::from_bytes(s.as_bytes()) {
        Ok(b) => b,
        Err(_) => {
            assert(false);
            ByteString::new()
        },
    }
}

impl MessagePayload {
    /// A payload of the given type from `sender_id` to `recipient_id`, with a fresh
    /// random message id, no task id and default content.
    pub fn new(message_type: MessageType, sender_id: &str, recipient_id: &str) -> (r: Result<
        Self,
        InternalError,
    >)
        requires
            fits_id(sender_id),
            fits_id(recipient_id),
        ensures
            r matches Ok(p) && p.message_type == message_type && p.sender_id@ == sender_id.spec_bytes()
                && p.recipient_id@ == recipient_id.spec_bytes() && !p.has_task_id && p.task_id@
                == Seq::<u8>::empty() && is_default_content(p.content)
                && (exists|t: Seq<char>| is_v4_uuid_text(t) && p.message_id@ == t.map_values(|c: char| c as u8)),
    {
        let id = new_message_id();
        let ids = id.as_str();
        proof {
            broadcast use vstd::string::is_ascii_spec_bytes;

            assert(vstd::utf8::is_ascii_chars(ids@));
            assert(is_ascii(ids));
        }
        let idb = ids.as_bytes();
        proof {
            broadcast use vstd::string::is_ascii_spec_bytes;

            assert(idb@ =~= Seq::new(ids@.len(), |i| ids@.index(i) as u8));
            assert forall|i: int| 0 <= i < idb@.len() implies #[trigger] crate::bytes::is_message_byte(idb@[i]) by {
                assert(is_uuid_char(ids@[i]));
            }
            assert(idb@ =~= ids@.map_values(|c: char| c as u8));
        }
        assert(fits_message_string(idb@, 64));
        let message_id = match ByteString::<64>::from_bytes(idb) {
            Ok(b) => b,
            Err(_) => {
                assert(false);
                ByteString::new()
            },
        };
        Ok(MessagePayload {
            message_type,
            message_id,
            sender_id: id_string(sender_id),
            recipient_id: id_string(recipient_id),
            has_task_id: false,
            task_id: ByteString::new(),
            content: default_content(),
        })
    }

    /// Sets the task id.
    pub fn with_task_id(self, task_id: &ByteString<64>) -> (r: Result<Self, InternalError>)
        ensures
            r matches Ok(p) && p == (MessagePayload { has_task_id: true, task_id: p.task_id, ..self })
                && p.task_id@ == task_id@,
    {
        let mut s = self;
        s.has_task_id = true;
        s.task_id = task_id.copy();
        Ok(s)
    }

    /// Sets the task content: size, priority and timeout, and the first `data_size`
    /// bytes of the task's data appended to the task data, as many as fit.
    pub fn with_task(self, task: &TaskMessage) -> (r: Result<Self, InternalError>)
        ensures
            r matches Ok(p) && p == (MessagePayload {
                content: MessageContent {
                    task_data_size: task.data_size,
                    task_priority: task.priority,
                    task_timeout_ms: task.timeout_ms,
                    task_data: p.content.task_data,
                    ..self.content
                },
                ..self
            }) && p.content.task_data@ == bounded_append(
                self.content.task_data@,
                task.data@,
                task.data_size as int,
                256,
            ),
    {
        let mut s = self;
        s.content.task_data_size = task.data_size;
        s.content.task_priority = task.priority;
        s.content.task_timeout_ms = task.timeout_ms;
        push_prefix(&mut s.content.task_data, task.data.as_slice(), task.data_size);
        Ok(s)
    }

    /// Sets the result content.
    pub fn with_result(self, result: &ResultMessage) -> (r: Result<Self, InternalError>)
        ensures
            r matches Ok(p) && p == (MessagePayload {
                content: MessageContent {
                    result_plugin_id: p.content.result_plugin_id,
                    result_success: result.success,
                    result_has_error: result.has_error,
                    result_error_message: p.content.result_error_message,
                    result_data_size: result.data_size,
                    result_data: p.content.result_data,
                    ..self.content
                },
                ..self
            }) && p.content.result_plugin_id@ == result.plugin_id@
                && p.content.result_error_message@ == result.error_message@
                && p.content.result_data@ == bounded_append(
                self.content.result_data@,
                result.data@,
                result.data_size as int,
                256,
            ),
    {
        let mut s = self;
        s.content.result_plugin_id = result.plugin_id.copy();
        s.content.result_success = result.success;
        s.content.result_has_error = result.has_error;
        s.content.result_error_message = result.error_message.copy();
        s.content.result_data_size = result.data_size;
        push_prefix(&mut s.content.result_data, result.data.as_slice(), result.data_size);
        Ok(s)
    }

    /// Sets the event content.
    pub fn with_event(self, event: &EventMessage) -> (r: Result<Self, InternalError>)
        ensures
            r matches Ok(p) && p == (MessagePayload {
                content: MessageContent {
                    event_plugin_id: p.content.event_plugin_id,
                    event_type: event.event_type,
                    event_error_message: p.content.event_error_message,
                    event_progress_percent: event.progress_percent,
                    event_progress_message: p.content.event_progress_message,
                    event_success: event.success,
                    ..self.content
                },
                ..self
            }) && p.content.event_plugin_id@ == event.plugin_id@
                && p.content.event_error_message@ == event.error_message@
                && p.content.event_progress_message@ == event.progress_message@,
    {
        let mut s = self;
        s.content.event_plugin_id = event.plugin_id.copy();
        s.content.event_type = event.event_type;
        s.content.event_error_message = event.error_message.copy();
        s.content.event_progress_percent = event.progress_percent;
        s.content.event_progress_message = event.progress_message.copy();
        s.content.event_success = event.success;
        Ok(s)
    }

    /// Sets the command content; of the parameters, the first `param_count` are
    /// copied, and never more than sixteen.
    pub fn with_command(self, command: &CommandMessage) -> (r: Result<Self, InternalError>)
        requires
            command.param_keys@.len() == COMMAND_PARAMS,
            command.param_values@.len() == COMMAND_PARAMS,
            self.content.command_param_keys@.len() == COMMAND_PARAMS,
            self.content.command_param_values@.len() == COMMAND_PARAMS,
        ensures
            r matches Ok(p) && p == (MessagePayload {
                content: MessageContent {
                    command_type: command.command_type,
                    command_custom: p.content.command_custom,
                    command_param_count: command.param_count,
                    command_param_keys: p.content.command_param_keys,
                    command_param_values: p.content.command_param_values,
                    ..self.content
                },
                ..self
            }) && p.content.command_custom@ == command.custom_command@
                && p.content.command_param_keys@.len() == COMMAND_PARAMS
                && p.content.command_param_values@.len() == COMMAND_PARAMS
                && strings64(p.content.command_param_keys@) == copy_params64(
                strings64(self.content.command_param_keys@),
                strings64(command.param_keys@),
                command.param_count as int,
            ) && strings256(p.content.command_param_values@) == copy_params256(
                strings256(self.content.command_param_values@),
                strings256(command.param_values@),
                command.param_count as int,
            ),
    {
        let mut s = self;
        s.content.command_type = command.command_type;
        s.content.command_custom = command.custom_command.copy();
        s.content.command_param_count = command.param_count;
        let mut i: usize = 0;
        let n: usize = if (command.param_count as u64) < (COMMAND_PARAMS as u64) {
            command.param_count as usize
        } else {
            COMMAND_PARAMS
        };
        let ghost keys0 = strings64(self.content.command_param_keys@);
        let ghost vals0 = strings256(self.content.command_param_values@);
        while i < n
            invariant
                n <= COMMAND_PARAMS,
                n as int == min_params(command.param_count as int),
                i <= n,
                keys0.len() == COMMAND_PARAMS,
                vals0.len() == COMMAND_PARAMS,
                s.message_type == self.message_type,
                s.message_id == self.message_id,
                s.sender_id == self.sender_id,
                s.recipient_id == self.recipient_id,
                s.has_task_id == self.has_task_id,
                s.task_id == self.task_id,
                s.content == (MessageContent {
                    command_type: command.command_type,
                    command_custom: s.content.command_custom,
                    command_param_count: command.param_count,
                    command_param_keys: s.content.command_param_keys,
                    command_param_values: s.content.command_param_values,
                    ..self.content
                }),
                s.content.command_custom@ == command.custom_command@,
                s.content.command_param_keys@.len() == COMMAND_PARAMS,
                s.content.command_param_values@.len() == COMMAND_PARAMS,
                command.param_keys@.len() == COMMAND_PARAMS,
                command.param_values@.len() == COMMAND_PARAMS,
                strings64(s.content.command_param_keys@) == copy_params64(
                    keys0,
                    strings64(command.param_keys@),
                    i as int,
                ),
                strings256(s.content.command_param_values@) == copy_params256(
                    vals0,
                    strings256(command.param_values@),
                    i as int,
                ),
            decreases n - i,
        {
            let k = command.param_keys[i].copy();
            let v = command.param_values[i].copy();
            let ghost before_k = strings64(s.content.command_param_keys@);
            let ghost before_v = strings256(s.content.command_param_values@);
            s.content.command_param_keys.set(i, k);
            s.content.command_param_values.set(i, v);
            proof {
                assert forall|j: int| 0 <= j < COMMAND_PARAMS implies #[trigger] strings64(s.content.command_param_keys@)[j]
                    == (if j == i { strings64(command.param_keys@)[j] } else { before_k[j] }) by {}
                assert forall|j: int| 0 <= j < COMMAND_PARAMS implies #[trigger] strings256(s.content.command_param_values@)[j]
                    == (if j == i { strings256(command.param_values@)[j] } else { before_v[j] }) by {}
            }
            i = i + 1;
            proof {
                let ck = copy_params64(keys0, strings64(command.param_keys@), i as int);
                let ck0 = copy_params64(keys0, strings64(command.param_keys@), (i - 1) as int);
                assert(min_params(i as int) == i);
                assert(min_params((i - 1) as int) == i - 1);
                assert forall|j: int| 0 <= j < COMMAND_PARAMS implies ck[j] == (if j == i - 1 { strings64(command.param_keys@)[j] } else { ck0[j] }) by {}
                let cv = copy_params256(vals0, strings256(command.param_values@), i as int);
                let cv0 = copy_params256(vals0, strings256(command.param_values@), (i - 1) as int);
                assert forall|j: int| 0 <= j < COMMAND_PARAMS implies cv[j] == (if j == i - 1 { strings256(command.param_values@)[j] } else { cv0[j] }) by {}
                assert(strings64(s.content.command_param_keys@) =~= copy_params64(
                    keys0,
                    strings64(command.param_keys@),
                    i as int,
                ));
                assert(strings256(s.content.command_param_values@) =~= copy_params256(
                    vals0,
                    strings256(command.param_values@),
                    i as int,
                ));
            }
        }
        proof {
            lemma_copy_params_saturate64(keys0, strings64(command.param_keys@), command.param_count as int);
            lemma_copy_params_saturate256(vals0, strings256(command.param_values@), command.param_count as int);
        }
        Ok(s)
    }

    /// Reads the task back: the task id when one is set (else empty), size, priority,
    /// timeout, and the first `task_data_size` bytes of the task data.
    pub fn to_task(&self) -> (r: Result<TaskMessage, InternalError>)
        ensures
            r matches Ok(t) && t.data_size == self.content.task_data_size && t.priority
                == self.content.task_priority && t.timeout_ms == self.content.task_timeout_ms
                && t.task_id@ == (if self.has_task_id {
                self.task_id@
            } else {
                Seq::<u8>::empty()
            }) && t.data@ == bounded_append(
                Seq::<u8>::empty(),
                self.content.task_data@,
                self.content.task_data_size as int,
                256,
            ),
    {
        let task_id = if self.has_task_id {
            self.task_id.copy()
        } else {
            ByteString::new()
        };
        let mut data = BoundedBytes::<256>::new();
        push_prefix(&mut data, self.content.task_data.as_slice(), self.content.task_data_size);
        Ok(TaskMessage {
            task_id,
            data_size: self.content.task_data_size,
            data,
            priority: self.content.task_priority,
            timeout_ms: self.content.task_timeout_ms,
        })
    }

    /// Reads the result back, from the result fields (its error message from the
    /// result error message field).
    pub fn to_result(&self) -> (r: Result<ResultMessage, InternalError>)
        ensures
            r matches Ok(m) && m.task_id@ == (if self.has_task_id {
                self.task_id@
            } else {
                Seq::<u8>::empty()
            }) && m.plugin_id@ == self.content.result_plugin_id@ && m.success
                == self.content.result_success && m.has_error == self.content.result_has_error
                && m.error_message@ == self.content.result_error_message@ && m.data_size
                == self.content.result_data_size && m.data@ == bounded_append(
                Seq::<u8>::empty(),
                self.content.result_data@,
                self.content.result_data_size as int,
                256,
            ),
    {
        let task_id = if self.has_task_id {
            self.task_id.copy()
        } else {
            ByteString::new()
        };
        let mut data = BoundedBytes::<256>::new();
        push_prefix(&mut data, self.content.result_data.as_slice(), self.content.result_data_size);
        Ok(ResultMessage {
            task_id,
            plugin_id: self.content.result_plugin_id.copy(),
            success: self.content.result_success,
            has_error: self.content.result_has_error,
            error_message: self.content.result_error_message.copy(),
            data_size: self.content.result_data_size,
            data,
        })
    }

    /// Reads the event back.
    pub fn to_event(&self) -> (r: Result<EventMessage, InternalError>)
        ensures
            r matches Ok(e) && e.has_task_id == self.has_task_id && e.task_id@ == (if self.has_task_id {
                self.task_id@
            } else {
                Seq::<u8>::empty()
            }) && e.plugin_id@ == self.content.event_plugin_id@ && e.event_type
                == self.content.event_type && e.error_message@ == self.content.event_error_message@
                && e.progress_percent == self.content.event_progress_percent && e.progress_message@
                == self.content.event_progress_message@ && e.success == self.content.event_success,
    {
        let task_id = if self.has_task_id {
            self.task_id.copy()
        } else {
            ByteString::new()
        };
        Ok(EventMessage {
            has_task_id: self.has_task_id,
            task_id,
            plugin_id: self.content.event_plugin_id.copy(),
            event_type: self.content.event_type,
            error_message: self.content.event_error_message.copy(),
            progress_percent: self.content.event_progress_percent,
            progress_message: self.content.event_progress_message.copy(),
            success: self.content.event_success,
        })
    }

    /// Reads the command back; parameters beyond the first `param_count` (and
    /// beyond sixteen) are empty.
    pub fn to_command(&self) -> (r: Result<CommandMessage, InternalError>)
        requires
            self.content.command_param_keys@.len() == COMMAND_PARAMS,
            self.content.command_param_values@.len() == COMMAND_PARAMS,
        ensures
            r matches Ok(c) && c.command_type == self.content.command_type && c.custom_command@
                == self.content.command_custom@ && c.param_count == self.content.command_param_count
                && c.param_keys@.len() == COMMAND_PARAMS && c.param_values@.len() == COMMAND_PARAMS
                && strings64(c.param_keys@) == copy_params64(
                Seq::new(COMMAND_PARAMS as nat, |i: int| Seq::<u8>::empty()),
                strings64(self.content.command_param_keys@),
                self.content.command_param_count as int,
            ) && strings256(c.param_values@) == copy_params256(
                Seq::new(COMMAND_PARAMS as nat, |i: int| Seq::<u8>::empty()),
                strings256(self.content.command_param_values@),
                self.content.command_param_count as int,
            ),
    {
        let mut keys = empty_strings64(COMMAND_PARAMS);
        let mut values = empty_strings256(COMMAND_PARAMS);
        let ghost e = Seq::new(COMMAND_PARAMS as nat, |i: int| Seq::<u8>::empty());
        assert(strings64(keys@) =~= e);
        assert(strings256(values@) =~= e);
        let n: usize = if (self.content.command_param_count as u64) < (COMMAND_PARAMS as u64) {
            self.content.command_param_count as usize
        } else {
            COMMAND_PARAMS
        };
        let mut i: usize = 0;
        while i < n
            invariant
                n <= COMMAND_PARAMS,
                n as int == min_params(self.content.command_param_count as int),
                i <= n,
                e.len() == COMMAND_PARAMS,
                keys@.len() == COMMAND_PARAMS,
                values@.len() == COMMAND_PARAMS,
                self.content.command_param_keys@.len() == COMMAND_PARAMS,
                self.content.command_param_values@.len() == COMMAND_PARAMS,
                strings64(keys@) == copy_params64(e, strings64(self.content.command_param_keys@), i as int),
                strings256(values@) == copy_params256(e, strings256(self.content.command_param_values@), i as int),
            decreases n - i,
        {
            let ghost before_k = strings64(keys@);
            let ghost before_v = strings256(values@);
            keys.set(i, self.content.command_param_keys[i].copy());
            values.set(i, self.content.command_param_values[i].copy());
            proof {
                assert forall|j: int| 0 <= j < COMMAND_PARAMS implies #[trigger] strings64(keys@)[j]
                    == (if j == i { strings64(self.content.command_param_keys@)[j] } else { before_k[j] }) by {}
                assert forall|j: int| 0 <= j < COMMAND_PARAMS implies #[trigger] strings256(values@)[j]
                    == (if j == i { strings256(self.content.command_param_values@)[j] } else { before_v[j] }) by {}
            }
            i = i + 1;
            proof {
                let ck = copy_params64(e, strings64(self.content.command_param_keys@), i as int);
                let ck0 = copy_params64(e, strings64(self.content.command_param_keys@), (i - 1) as int);
                assert(min_params(i as int) == i);
                assert(min_params((i - 1) as int) == i - 1);
                assert forall|j: int| 0 <= j < COMMAND_PARAMS implies ck[j] == (if j == i - 1 { strings64(self.content.command_param_keys@)[j] } else { ck0[j] }) by {}
                let cv = copy_params256(e, strings256(self.content.command_param_values@), i as int);
                let cv0 = copy_params256(e, strings256(self.content.command_param_values@), (i - 1) as int);
                assert forall|j: int| 0 <= j < COMMAND_PARAMS implies cv[j] == (if j == i - 1 { strings256(self.content.command_param_values@)[j] } else { cv0[j] }) by {}
                assert(strings64(keys@) =~= copy_params64(e, strings64(self.content.command_param_keys@), i as int));
                assert(strings256(values@) =~= copy_params256(e, strings256(self.content.command_param_values@), i as int));
            }
        }
        proof {
            lemma_copy_params_saturate64(e, strings64(self.content.command_param_keys@), self.content.command_param_count as int);
            lemma_copy_params_saturate256(e, strings256(self.content.command_param_values@), self.content.command_param_count as int);
        }
        Ok(CommandMessage {
            command_type: self.content.command_type,
            custom_command: self.content.command_custom.copy(),
            param_count: self.content.command_param_count,
            param_keys: keys,
            param_values: values,
        })
    }
}

/// `min(n, 16)`, never below zero.
pub open spec fn min_params(n: int) -> int {
    if n < 0 { 0 } else if n < COMMAND_PARAMS { n } else { COMMAND_PARAMS as int }
}

/// `dest` with its first `min(n, 16)` entries taken from `src`.
pub open spec fn copy_params64(dest: Seq<Seq<u8>>, src: Seq<Seq<u8>>, n: int) -> Seq<Seq<u8>> {
    Seq::new(dest.len(), |i: int| if i < min_params(n) { src[i] } else { dest[i] })
}

/// `dest` with its first `min(n, 16)` entries taken from `src`.
pub open spec fn copy_params256(dest: Seq<Seq<u8>>, src: Seq<Seq<u8>>, n: int) -> Seq<Seq<u8>> {
    Seq::new(dest.len(), |i: int| if i < min_params(n) { src[i] } else { dest[i] })
}

proof fn lemma_copy_params_saturate64(dest: Seq<Seq<u8>>, src: Seq<Seq<u8>>, n: int)
    ensures
        copy_params64(dest, src, min_params(n)) == copy_params64(dest, src, n),
{
    assert(copy_params64(dest, src, min_params(n)) =~= copy_params64(dest, src, n));
}

proof fn lemma_copy_params_saturate256(dest: Seq<Seq<u8>>, src: Seq<Seq<u8>>, n: int)
    ensures
        copy_params256(dest, src, min_params(n)) == copy_params256(dest, src, n),
{
    assert(copy_params256(dest, src, min_params(n)) =~= copy_params256(dest, src, n));
}

/// The displayed name of a message type.
pub open spec fn message_type_name(t: MessageType) -> Seq<char> {
    match t {
        MessageType::Task => "Task"@,
        MessageType::Result => "Result"@,
        MessageType::Event => "Event"@,
        MessageType::Command => "Command"@,
        MessageType::Registration => "Registration"@,
        MessageType::Heartbeat => "Heartbeat"@,
    }
}

/// The name of a message type, as `Debug` prints it.
pub fn message_type_str(t: MessageType) -> (r: &'static str)
    ensures
        r@ == message_type_name(t),
{
    match t {
        MessageType::Task => "Task",
        MessageType::Result => "Result",
        MessageType::Event => "Event",
        MessageType::Command => "Command",
        MessageType::Registration => "Registration",
        MessageType::Heartbeat => "Heartbeat",
    }
}

/// The bytes of the sender name that publishers write, `"TBD"`.
pub open spec fn pending_sender() -> Seq<u8> {
    seq![84u8, 66u8, 68u8]
}

proof fn lemma_tbd_fits()
    ensures
        fits_id("TBD"),
        "TBD".spec_bytes() == pending_sender(),
{
    reveal_strlit("TBD");
    broadcast use vstd::string::is_ascii_spec_bytes;

    assert(is_ascii("TBD"));
    assert("TBD".spec_bytes() =~= pending_sender());
}

proof fn lemma_empty_fits()
    ensures
        fits_id(""),
        "".spec_bytes() == Seq::<u8>::empty(),
{
    reveal_strlit("");
    broadcast use vstd::string::is_ascii_spec_bytes;

    assert(is_ascii(""));
    assert("".spec_bytes() =~= Seq::<u8>::empty());
}

/// The header of a payload written by a publisher: its type, the sender name
/// `"TBD"`, the recipient, and a 36-byte message id.
pub open spec fn is_publisher_header(p: MessagePayload, t: MessageType, recipient: Seq<u8>) -> bool {
    p.message_type == t && p.sender_id@ == pending_sender() && p.recipient_id@ == recipient
        && p.message_id@.len() == 36
}

/// `p` is the payload the host publishes for `task`: a task payload carrying the
/// task id, the task's sizes and the first `data_size` bytes of its data.
pub open spec fn encodes_task(p: MessagePayload, task: TaskMessage, recipient: Seq<u8>) -> bool {
    &&& is_publisher_header(p, MessageType::Task, recipient)
    &&& p.has_task_id && p.task_id@ == task.task_id@
    &&& p.content.task_data_size == task.data_size && p.content.task_priority == task.priority
    &&& p.content.task_timeout_ms == task.timeout_ms
    &&& p.content.task_data@ == bounded_append(Seq::<u8>::empty(), task.data@, task.data_size as int, 256)
}

/// `t` is the task that `to_task` reads from `p`.
pub open spec fn decodes_task(p: MessagePayload, t: TaskMessage) -> bool {
    &&& t.data_size == p.content.task_data_size && t.priority == p.content.task_priority
    &&& t.timeout_ms == p.content.task_timeout_ms
    &&& t.task_id@ == (if p.has_task_id { p.task_id@ } else { Seq::<u8>::empty() })
    &&& t.data@ == bounded_append(Seq::<u8>::empty(), p.content.task_data@, p.content.task_data_size as int, 256)
}

/// The payload the host publishes to hand `task` to the plugin `plugin_id`.
pub fn task_payload(task: &TaskMessage, plugin_id: &str) -> (r: MessagePayload)
    requires
        fits_id(plugin_id),
    ensures
        encodes_task(r, *task, plugin_id.spec_bytes()),
{
    proof {
        lemma_tbd_fits();
    }
    let p = match MessagePayload::new(MessageType::Task, "TBD", plugin_id) {
        Ok(p) => p,
        Err(_) => vstd::pervasive::unreached(),
    };
    let p = match p.with_task_id(&task.task_id) {
        Ok(p) => p,
        Err(_) => vstd::pervasive::unreached(),
    };
    match p.with_task(task) {
        Ok(p) => p,
        Err(_) => vstd::pervasive::unreached(),
    }
}

/// `p` is the payload a plugin publishes for `result`.
pub open spec fn encodes_result(p: MessagePayload, result: ResultMessage) -> bool {
    &&& is_publisher_header(p, MessageType::Result, Seq::<u8>::empty())
    &&& p.has_task_id && p.task_id@ == result.task_id@
    &&& p.content.result_plugin_id@ == result.plugin_id@
    &&& p.content.result_success == result.success && p.content.result_has_error == result.has_error
    &&& p.content.result_error_message@ == result.error_message@
    &&& p.content.event_error_message@ == Seq::<u8>::empty()
    &&& p.content.result_data_size == result.data_size
    &&& p.content.result_data@ == bounded_append(Seq::<u8>::empty(), result.data@, result.data_size as int, 256)
}

/// `m` is the result that `to_result` reads from `p`.
pub open spec fn decodes_result(p: MessagePayload, m: ResultMessage) -> bool {
    &&& m.task_id@ == (if p.has_task_id { p.task_id@ } else { Seq::<u8>::empty() })
    &&& m.plugin_id@ == p.content.result_plugin_id@
    &&& m.success == p.content.result_success && m.has_error == p.content.result_has_error
    &&& m.error_message@ == p.content.result_error_message@
    &&& m.data_size == p.content.result_data_size
    &&& m.data@ == bounded_append(Seq::<u8>::empty(), p.content.result_data@, p.content.result_data_size as int, 256)
}

/// The payload a plugin publishes to report `result` to the host.
pub fn result_payload(result: &ResultMessage) -> (r: MessagePayload)
    ensures
        encodes_result(r, *result),
{
    proof {
        lemma_tbd_fits();
        lemma_empty_fits();
    }
    let p = match MessagePayload::new(MessageType::Result, "TBD", "") {
        Ok(p) => p,
        Err(_) => vstd::pervasive::unreached(),
    };
    let p = match p.with_result(result) {
        Ok(p) => p,
        Err(_) => vstd::pervasive::unreached(),
    };
    match p.with_task_id(&result.task_id) {
        Ok(p) => p,
        Err(_) => vstd::pervasive::unreached(),
    }
}

/// `p` is the payload a plugin publishes for `event`.
pub open spec fn encodes_event(p: MessagePayload, event: EventMessage) -> bool {
    &&& is_publisher_header(p, MessageType::Event, Seq::<u8>::empty())
    &&& !p.has_task_id
    &&& p.content.event_plugin_id@ == event.plugin_id@ && p.content.event_type == event.event_type
    &&& p.content.event_error_message@ == event.error_message@
    &&& p.content.event_progress_percent == event.progress_percent
    &&& p.content.event_progress_message@ == event.progress_message@
    &&& p.content.event_success == event.success
}

/// `e` is the event that `to_event` reads from `p`.
pub open spec fn decodes_event(p: MessagePayload, e: EventMessage) -> bool {
    &&& e.has_task_id == p.has_task_id
    &&& e.task_id@ == (if p.has_task_id { p.task_id@ } else { Seq::<u8>::empty() })
    &&& e.plugin_id@ == p.content.event_plugin_id@ && e.event_type == p.content.event_type
    &&& e.error_message@ == p.content.event_error_message@
    &&& e.progress_percent == p.content.event_progress_percent
    &&& e.progress_message@ == p.content.event_progress_message@
    &&& e.success == p.content.event_success
}

/// The payload a plugin publishes to report `event` to the host.
pub fn event_payload(event: &EventMessage) -> (r: MessagePayload)
    ensures
        encodes_event(r, *event),
{
    proof {
        lemma_tbd_fits();
        lemma_empty_fits();
    }
    let p = match MessagePayload::new(MessageType::Event, "TBD", "") {
        Ok(p) => p,
        Err(_) => vstd::pervasive::unreached(),
    };
    match p.with_event(event) {
        Ok(p) => p,
        Err(_) => vstd::pervasive::unreached(),
    }
}

/// `p` is the payload the host publishes for `command`.
pub open spec fn encodes_command(p: MessagePayload, command: CommandMessage, recipient: Seq<u8>) -> bool {
    &&& is_publisher_header(p, MessageType::Command, recipient)
    &&& p.content.command_type == command.command_type
    &&& p.content.command_custom@ == command.custom_command@
    &&& p.content.command_param_count == command.param_count
    &&& p.content.command_param_keys@.len() == COMMAND_PARAMS
    &&& p.content.command_param_values@.len() == COMMAND_PARAMS
    &&& strings64(p.content.command_param_keys@) == copy_params64(
        Seq::new(COMMAND_PARAMS as nat, |i: int| Seq::<u8>::empty()),
        strings64(command.param_keys@),
        command.param_count as int,
    )
    &&& strings256(p.content.command_param_values@) == copy_params256(
        Seq::new(COMMAND_PARAMS as nat, |i: int| Seq::<u8>::empty()),
        strings256(command.param_values@),
        command.param_count as int,
    )
}

/// `c` is the command that `to_command` reads from `p`.
pub open spec fn decodes_command(p: MessagePayload, c: CommandMessage) -> bool {
    &&& c.command_type == p.content.command_type
    &&& c.custom_command@ == p.content.command_custom@
    &&& c.param_count == p.content.command_param_count
    &&& c.param_keys@.len() == COMMAND_PARAMS && c.param_values@.len() == COMMAND_PARAMS
    &&& strings64(c.param_keys@) == copy_params64(
        Seq::new(COMMAND_PARAMS as nat, |i: int| Seq::<u8>::empty()),
        strings64(p.content.command_param_keys@),
        p.content.command_param_count as int,
    )
    &&& strings256(c.param_values@) == copy_params256(
        Seq::new(COMMAND_PARAMS as nat, |i: int| Seq::<u8>::empty()),
        strings256(p.content.command_param_values@),
        p.content.command_param_count as int,
    )
}

/// The payload the host publishes to send `command` to the plugin `plugin_id`.
pub fn command_payload(command: &CommandMessage, plugin_id: &str) -> (r: MessagePayload)
    requires
        fits_id(plugin_id),
        command.param_keys@.len() == COMMAND_PARAMS,
        command.param_values@.len() == COMMAND_PARAMS,
    ensures
        encodes_command(r, *command, plugin_id.spec_bytes()),
{
    proof {
        lemma_tbd_fits();
    }
    let p = match MessagePayload::new(MessageType::Command, "TBD", plugin_id) {
        Ok(p) => p,
        Err(_) => vstd::pervasive::unreached(),
    };
    let ghost e = Seq::new(COMMAND_PARAMS as nat, |i: int| Seq::<u8>::empty());
    assert(strings64(p.content.command_param_keys@) =~= e);
    assert(strings256(p.content.command_param_values@) =~= e);
    match p.with_command(command) {
        Ok(p) => p,
        Err(_) => vstd::pervasive::unreached(),
    }
}

/// The error for a payload of the wrong type: `"Expected <what> message, got: <type>"`
/// on the plugin side (`colon`), `"Expected <what> message, got <type>"` on the host side.
pub open spec fn wrong_type_message(what: Seq<char>, colon: bool, got: MessageType) -> Seq<char> {
    "Expected "@ + what + (if colon { " message, got: "@ } else { " message, got "@ })
        + message_type_name(got)
}

fn wrong_type_error(what: &str, colon: bool, got: MessageType) -> (r: InternalError)
    ensures
        r matches InternalError::CommunicationError(m) && m@ == wrong_type_message(what@, colon, got),
{
    let mut m = String::new();
    append_str(&mut m, "Expected ");
    append_str(&mut m, what);
    if colon {
        append_str(&mut m, " message, got: ");
    } else {
        append_str(&mut m, " message, got ");
    }
    append_str(&mut m, message_type_str(got));
    InternalError::CommunicationError(m)
}

/// Reads a received task payload; an error when it is not a task payload.
pub fn decode_task(p: &MessagePayload) -> (r: Result<TaskMessage, InternalError>)
    ensures
        p.message_type == MessageType::Task ==> (r matches Ok(t) && decodes_task(*p, t)),
        p.message_type != MessageType::Task ==> (r matches Err(InternalError::CommunicationError(m))
            && m@ == wrong_type_message("task"@, true, p.message_type)),
{
    if p.message_type != MessageType::Task {
        return Err(wrong_type_error("task", true, p.message_type));
    }
    p.to_task()
}

/// Reads a received result payload; an error when it is not a result payload.
pub fn decode_result(p: &MessagePayload) -> (r: Result<ResultMessage, InternalError>)
    ensures
        p.message_type == MessageType::Result ==> (r matches Ok(m) && decodes_result(*p, m)),
        p.message_type != MessageType::Result ==> (r matches Err(InternalError::CommunicationError(m))
            && m@ == wrong_type_message("result"@, false, p.message_type)),
{
    if p.message_type != MessageType::Result {
        return Err(wrong_type_error("result", false, p.message_type));
    }
    p.to_result()
}

/// Reads a received event payload; an error when it is not an event payload.
pub fn decode_event(p: &MessagePayload) -> (r: Result<EventMessage, InternalError>)
    ensures
        p.message_type == MessageType::Event ==> (r matches Ok(e) && decodes_event(*p, e)),
        p.message_type != MessageType::Event ==> (r matches Err(InternalError::CommunicationError(m))
            && m@ == wrong_type_message("event"@, false, p.message_type)),
{
    if p.message_type != MessageType::Event {
        return Err(wrong_type_error("event", false, p.message_type));
    }
    p.to_event()
}

/// Reads a received command payload; an error when it is not a command payload.
pub fn decode_command(p: &MessagePayload) -> (r: Result<CommandMessage, InternalError>)
    requires
        p.content.command_param_keys@.len() == COMMAND_PARAMS,
        p.content.command_param_values@.len() == COMMAND_PARAMS,
    ensures
        p.message_type == MessageType::Command ==> (r matches Ok(c) && decodes_command(*p, c)),
        p.message_type != MessageType::Command ==> (r matches Err(InternalError::CommunicationError(m))
            && m@ == wrong_type_message("command"@, true, p.message_type)),
{
    if p.message_type != MessageType::Command {
        return Err(wrong_type_error("command", true, p.message_type));
    }
    p.to_command()
}

/// Law: a task sent by the host reads back as the same task, except that its data
/// is cut to the first `data_size` bytes when `data_size` is shorter; when
/// `data_size` covers the data, the data reads back whole.
pub proof fn law_task_round_trip(task: TaskMessage, recipient: Seq<u8>, p: MessagePayload, back: TaskMessage)
    requires
        task.data.wf(),
        encodes_task(p, task, recipient),
        decodes_task(p, back),
    ensures
        back.task_id@ == task.task_id@,
        back.data@ == task.data@.take(
            if task.data_size < task.data@.len() { task.data_size as int } else { task.data@.len() as int },
        ),
        task.data@.len() <= task.data_size ==> back.data@ == task.data@,
        back.data_size == task.data_size,
        back.priority == task.priority,
        back.timeout_ms == task.timeout_ms,
{
    lemma_cut_twice(task.data@, task.data_size as int);
}

/// Copying the first `n` bytes (at most 256) twice keeps the first `n` bytes.
proof fn lemma_cut_twice(data: Seq<u8>, n: int)
    requires
        data.len() <= 256,
        n >= 0,
    ensures
        bounded_append(
            Seq::<u8>::empty(),
            bounded_append(Seq::<u8>::empty(), data, n, 256),
            n,
            256,
        ) == data.take(if n < data.len() { n } else { data.len() as int }),
        data.len() <= n ==> data.take(if n < data.len() { n } else { data.len() as int }) == data,
{
    crate::bytes::lemma_bounded_append_prefix(data, n, 256);
    let once = bounded_append(Seq::<u8>::empty(), data, n, 256);
    crate::bytes::lemma_bounded_append_prefix(once, n, 256);
    assert(data.take(data.len() as int) =~= data);
}

/// Law: a result sent by a plugin reads back with the same task id, plugin id,
/// flags, error message and size, and with its data cut to the first `data_size`
/// bytes when `data_size` is shorter (whole otherwise).
pub proof fn law_result_round_trip(result: ResultMessage, p: MessagePayload, back: ResultMessage)
    requires
        result.data.wf(),
        encodes_result(p, result),
        decodes_result(p, back),
    ensures
        back.task_id@ == result.task_id@,
        back.plugin_id@ == result.plugin_id@,
        back.success == result.success,
        back.has_error == result.has_error,
        back.data_size == result.data_size,
        back.data@ == result.data@.take(
            if result.data_size < result.data@.len() { result.data_size as int } else { result.data@.len() as int },
        ),
        result.data@.len() <= result.data_size ==> back.data@ == result.data@,
        back.error_message@ == result.error_message@,
{
    lemma_cut_twice(result.data@, result.data_size as int);
}

/// Law: an event sent by a plugin reads back with the same content and no task id.
pub proof fn law_event_round_trip(event: EventMessage, p: MessagePayload, back: EventMessage)
    requires
        encodes_event(p, event),
        decodes_event(p, back),
    ensures
        !back.has_task_id,
        back.task_id@ == Seq::<u8>::empty(),
        back.plugin_id@ == event.plugin_id@,
        back.event_type == event.event_type,
        back.error_message@ == event.error_message@,
        back.progress_percent == event.progress_percent,
        back.progress_message@ == event.progress_message@,
        back.success == event.success,
{
}

/// Law: a command sent by the host reads back with its type, custom name and count,
/// and with its first `param_count` parameters (at most sixteen); later ones read
/// back empty.
pub proof fn law_command_round_trip(command: CommandMessage, recipient: Seq<u8>, p: MessagePayload, back: CommandMessage)
    requires
        command.param_keys@.len() == COMMAND_PARAMS,
        command.param_values@.len() == COMMAND_PARAMS,
        encodes_command(p, command, recipient),
        decodes_command(p, back),
    ensures
        back.command_type == command.command_type,
        back.custom_command@ == command.custom_command@,
        back.param_count == command.param_count,
        forall|i: int| 0 <= i < COMMAND_PARAMS ==> #[trigger] strings64(back.param_keys@)[i] == (if i
            < command.param_count { strings64(command.param_keys@)[i] } else { Seq::<u8>::empty() }),
        forall|i: int| 0 <= i < COMMAND_PARAMS ==> #[trigger] strings256(back.param_values@)[i] == (if i
            < command.param_count { strings256(command.param_values@)[i] } else { Seq::<u8>::empty() }),
{
}

} // verus!
