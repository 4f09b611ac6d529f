//! The HTTP API's decisions: what an error answers, and the task and sample that a
//! submitted file becomes.
use crate::packer_template::opt_view;
use crate::seqs::insert_entry;
use crate::text::{copy_opt_string, copy_string, views};
use vstd::prelude::*;

verus! {

/// The state of an analysis task.
#[derive(Debug, Clone, Copy, PartialEq, Eq, Structural)]
pub enum TaskState {
    Pending,
    Initializing,
    PreparingResources,
    Running,
    Stopping,
    Completed,
    Failed,
    Canceled,
}

/// An error of the HTTP API. Unprocessable requests list, per field, what is wrong.
#[derive(Debug)]
pub enum HttpError {
    Unauthorized,
    Forbidden,
    NotFound,
    UnprocessableEntity { errors: Vec<(String, Vec<String>)> },
    Internal(String),
}

/// The body of an error answer: text, or the list of field errors (sent as JSON).
#[derive(Debug)]
pub enum ResponseBody {
    Text(String),
    Errors(Vec<(String, Vec<String>)>),
}

/// An error answer: status, the `WWW-Authenticate` header when there is one, body.
#[derive(Debug)]
pub struct ErrorResponse {
    pub status: u16,
    pub www_authenticate: Option<String>,
    pub body: ResponseBody,
}

/// The field errors as plain values.
pub open spec fn errors_view(e: Seq<(String, Vec<String>)>) -> Seq<(Seq<char>, Seq<Seq<char>>)> {
    e.map_values(|x: (String, Vec<String>)| (x.0@, views(x.1@)))
}

/// The message of an error.
pub open spec fn error_message(e: HttpError) -> Seq<char> {
    match e {
        HttpError::Unauthorized => "Authentication required"@,
        HttpError::Forbidden => "User may not perform that action"@,
        HttpError::NotFound => "Request path not found"@,
        HttpError::UnprocessableEntity { .. } => "Error in the request body"@,
        HttpError::Internal(_) => "An internal server error occurred"@,
    }
}

/// The status code of an error.
pub open spec fn error_status(e: HttpError) -> u16 {
    match e {
        HttpError::Unauthorized => 401,
        HttpError::Forbidden => 403,
        HttpError::NotFound => 404,
        HttpError::UnprocessableEntity { .. } => 422,
        HttpError::Internal(_) => 500,
    }
}

/// The field errors, each field with its one message; a later message for a field
/// replaces an earlier one.
pub open spec fn field_errors(errors: Seq<(Seq<char>, Seq<char>)>) -> Seq<(Seq<char>, Seq<Seq<char>>)>
    decreases errors.len(),
{
    if errors.len() == 0 {
        Seq::empty()
    } else {
        insert_entry(field_errors(errors.drop_last()), errors.last().0, seq![errors.last().1])
    }
}

impl HttpError {
    /// The message of the error.
    pub fn message(&self) -> (r: String)
        ensures
            r@ == error_message(*self),
    {
        match self {
            HttpError::Unauthorized => String::from_str("Authentication required"),
            HttpError::Forbidden => String::from_str("User may not perform that action"),
            HttpError::NotFound => String::from_str("Request path not found"),
            HttpError::UnprocessableEntity { .. } => String::from_str("Error in the request body"),
            HttpError::Internal(_) => String::from_str("An internal server error occurred"),
        }
    }

    /// The status code of the error.
    pub fn status_code(&self) -> (r: u16)
        ensures
            r == error_status(*self),
    {
        match self {
            HttpError::Unauthorized => 401,
            HttpError::Forbidden => 403,
            HttpError::NotFound => 404,
            HttpError::UnprocessableEntity { .. } => 422,
            HttpError::Internal(_) => 500,
        }
    }

    /// An unprocessable-request error from field messages.
    pub fn unprocessable_entity(errors: Vec<(String, String)>) -> (r: HttpError)
        ensures
            r matches HttpError::UnprocessableEntity { errors: e }
                && errors_view(e@) == field_errors(crate::string_map::pairs_view(errors@)),
    {
        let ghost pv = crate::string_map::pairs_view(errors@);
        let mut out: Vec<(String, Vec<String>)> = Vec::new();
        let mut i: usize = 0;
        while i < errors.len()
            invariant
                i <= errors.len(),
                pv == crate::string_map::pairs_view(errors@),
                errors_view(out@) == field_errors(pv.take(i as int)),
            decreases errors.len() - i,
        {
            proof {
                assert(pv.take(i + 1).drop_last() =~= pv.take(i as int));
            }
            let msgs = vec![copy_string(&errors[i].1)];
            assert(views(msgs@) =~= seq![errors@[i as int].1@]);
            errors_insert(&mut out, copy_string(&errors[i].0), msgs);
            i = i + 1;
        }
        assert(pv.take(errors@.len() as int) =~= pv);
        HttpError::UnprocessableEntity { errors: out }
    }

    /// The error a database failure becomes.
    pub fn database_error() -> (r: HttpError)
        ensures
            r matches HttpError::Internal(m) && m@ == "Database error occurred"@,
    {
        HttpError::Internal(String::from_str("Database error occurred"))
    }

    /// The answer to an error: field errors as a list, an authentication challenge
    /// for a missing authentication, a fixed text for an internal error, and the
    /// error's message otherwise.
    pub fn into_response(self) -> (r: ErrorResponse)
        ensures
            r.status == error_status(self),
            match self {
                HttpError::UnprocessableEntity { errors } => r.www_authenticate is None
                    && (r.body matches ResponseBody::Errors(e) && errors_view(e@) == errors_view(errors@)),
                HttpError::Unauthorized => (r.www_authenticate matches Some(h) && h@ == "Token"@)
                    && (r.body matches ResponseBody::Text(t) && t@ == error_message(self)),
                HttpError::Internal(_) => r.www_authenticate is None
                    && (r.body matches ResponseBody::Text(t) && t@ == "An internal server error occured"@),
                _ => r.www_authenticate is None && (r.body matches ResponseBody::Text(t) && t@ == error_message(self)),
            },
    {
        let status = self.status_code();
        let text = self.message();
        match self {
            HttpError::UnprocessableEntity { errors } => ErrorResponse {
                status,
                www_authenticate: None,
                body: ResponseBody::Errors(errors),
            },
            HttpError::Unauthorized => ErrorResponse {
                status,
                www_authenticate: Some(String::from_str("Token")),
                body: ResponseBody::Text(text),
            },
            HttpError::Internal(_) => ErrorResponse {
                status,
                www_authenticate: None,
                body: ResponseBody::Text(String::from_str("An internal server error occured")),
            },
            _ => ErrorResponse { status, www_authenticate: None, body: ResponseBody::Text(text) },
        }
    }
}

fn errors_insert(m: &mut Vec<(String, Vec<String>)>, k: String, v: Vec<String>)
    ensures
        errors_view(final(m)@) == insert_entry(errors_view(old(m)@), k@, views(v@)),
{
    let ghost s = errors_view(m@);
    let kc = crate::text::chars_of(k.as_str());
    let mut i: usize = 0;
    while i < m.len()
        invariant
            i <= m.len(),
            m@ == old(m)@,
            s == errors_view(m@),
            kc@ == k@,
            forall|j: int| 0 <= j < i ==> !crate::seqs::key_is::<Seq<Seq<char>>>(k@)(s[j]),
        decreases m.len() - i,
    {
        let c = crate::text::chars_of(m[i].0.as_str());
        if crate::text::chars_eq(c.as_slice(), kc.as_slice()) {
            proof {
                crate::seqs::lemma_first_index_at(s, crate::seqs::key_is::<Seq<Seq<char>>>(k@), i as int);
            }
            let ghost kv = k@;
            let ghost vv = views(v@);
            m.set(i, (k, v));
            assert(errors_view(m@) =~= s.update(i as int, (kv, vv)));
            return;
        }
        i = i + 1;
    }
    proof {
        crate::seqs::lemma_first_index_none(s, crate::seqs::key_is::<Seq<Seq<char>>>(k@));
    }
    let ghost kv = k@;
    let ghost vv = views(v@);
    m.push((k, v));
    assert(errors_view(m@) =~= s.push((kv, vv)));
}

/// The fields of a task submission, besides the file.
#[derive(Debug)]
pub struct CreateTaskRequest {
    pub package: Option<String>,
    pub module: Option<String>,
    pub timeout: Option<i64>,
    pub priority: Option<i64>,
    pub options: Option<String>,
    pub machine: Option<String>,
    pub platform: Option<String>,
    pub tags: Option<String>,
    pub custom: Option<String>,
    pub owner: Option<String>,
    pub memory: Option<bool>,
    pub unique: Option<bool>,
    pub enforce_timeout: Option<bool>,
}

/// A task to store. Times are Unix timestamps in nanoseconds.
#[derive(Debug)]
pub struct NewTask {
    pub target: String,
    pub module: String,
    pub timeout: i64,
    pub priority: i64,
    pub custom: Option<String>,
    pub machine: Option<String>,
    pub package: Option<String>,
    pub options: Option<String>,
    pub platform: Option<String>,
    pub unique: Option<bool>,
    pub tags: Option<String>,
    pub owner: Option<String>,
    pub memory: bool,
    pub enforce_timeout: bool,
    pub added_on: i128,
    pub started_on: Option<i128>,
    pub completed_on: Option<i128>,
    pub status: TaskState,
    pub sample_id: i64,
}

/// The task a submission becomes: on the file `target`, with the module
/// `file_analysis`, a timeout and priority of 1, memory analysis and enforced
/// timeouts off unless asked for, pending since `now`.
pub fn task_from_request(request: &CreateTaskRequest, target: &str, sample_id: i64, now: i128) -> (r: NewTask)
    ensures
        r.target@ == target@,
        r.module@ == match request.module {
            Some(m) => m@,
            None => "file_analysis"@,
        },
        r.timeout == match request.timeout {
            Some(t) => t,
            None => 1,
        },
        r.priority == match request.priority {
            Some(p) => p,
            None => 1,
        },
        opt_view(r.custom) == opt_view(request.custom),
        opt_view(r.machine) == opt_view(request.machine),
        opt_view(r.package) == opt_view(request.package),
        opt_view(r.options) == opt_view(request.options),
        opt_view(r.platform) == opt_view(request.platform),
        r.unique == request.unique,
        opt_view(r.tags) == opt_view(request.tags),
        opt_view(r.owner) == opt_view(request.owner),
        r.memory == match request.memory {
            Some(m) => m,
            None => false,
        },
        r.enforce_timeout == match request.enforce_timeout {
            Some(e) => e,
            None => false,
        },
        r.added_on == now,
        r.started_on is None,
        r.completed_on is None,
        r.status == TaskState::Pending,
        r.sample_id == sample_id,
{
    NewTask {
        target: String::from_str(target),
        module: match &request.module {
            Some(m) => copy_string(m),
            None => String::from_str("file_analysis"),
        },
        timeout: match request.timeout {
            Some(t) => t,
            None => 1,
        },
        priority: match request.priority {
            Some(p) => p,
            None => 1,
        },
        custom: copy_opt_string(&request.custom),
        machine: copy_opt_string(&request.machine),
        package: copy_opt_string(&request.package),
        options: copy_opt_string(&request.options),
        platform: copy_opt_string(&request.platform),
        unique: request.unique,
        tags: copy_opt_string(&request.tags),
        owner: copy_opt_string(&request.owner),
        memory: match request.memory {
            Some(m) => m,
            None => false,
        },
        enforce_timeout: match request.enforce_timeout {
            Some(e) => e,
            None => false,
        },
        added_on: now,
        started_on: None,
        completed_on: None,
        status: TaskState::Pending,
        sample_id,
    }
}

/// The name a submitted file goes by: its own, or `data.bin`.
pub fn submitted_file_name(file_name: Option<String>) -> (r: String)
    ensures
        r@ == match file_name {
            Some(n) => n@,
            None => "data.bin"@,
        },
{
    match file_name {
        Some(n) => n,
        None => String::from_str("data.bin"),
    }
}

/// What is known of a submitted file: its name, size, type and digests.
#[derive(Debug)]
pub struct FileInfo {
    pub name: String,
    pub size: i64,
    pub file_type: String,
    pub md5: String,
    pub sha1: String,
    pub sha256: String,
    pub sha512: String,
    pub crc32: String,
    pub ssdeep: String,
}

/// A sample to store.
#[derive(Debug)]
pub struct Sample {
    pub file_size: i64,
    pub file_type: String,
    pub md5: String,
    pub crc32: String,
    pub sha1: String,
    pub sha256: String,
    pub sha512: String,
    pub ssdeep: String,
}

/// The sample a submitted file becomes: its size, type and digests.
pub fn sample_from(info: &FileInfo) -> (r: Sample)
    ensures
        r.file_size == info.size,
        r.file_type@ == info.file_type@,
        r.md5@ == info.md5@,
        r.crc32@ == info.crc32@,
        r.sha1@ == info.sha1@,
        r.sha256@ == info.sha256@,
        r.sha512@ == info.sha512@,
        r.ssdeep@ == info.ssdeep@,
{
    Sample {
        file_size: info.size,
        file_type: copy_string(&info.file_type),
        md5: copy_string(&info.md5),
        crc32: copy_string(&info.crc32),
        sha1: copy_string(&info.sha1),
        sha256: copy_string(&info.sha256),
        sha512: copy_string(&info.sha512),
        ssdeep: copy_string(&info.ssdeep),
    }
}

/// Law: an unprocessable-request error lists each field once, with the last message
/// given for it.
pub proof fn law_field_errors_named_once(errors: Seq<(Seq<char>, Seq<char>)>)
    ensures
        crate::seqs::distinct_keys(field_errors(errors)),
    decreases errors.len(),
{
    if errors.len() > 0 {
        law_field_errors_named_once(errors.drop_last());
        crate::seqs::lemma_insert_entry_distinct(
            field_errors(errors.drop_last()),
            errors.last().0,
            seq![errors.last().1],
        );
    }
}

} // verus!
