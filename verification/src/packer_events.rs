//! Packer's machine-readable output: parsing a line into an event, folding events
//! into a build summary, and choosing how each event is logged.
use crate::text::{
    append_chars, append_str, chars_eq_str, chars_of, decimal, decimal_exec, split_char,
    split_char_exec, starts_with, starts_with_exec, string_eq_str, string_of, views,
};
use vstd::prelude::*;

verus! {

/// What a line of Packer's machine-readable output reports.
#[derive(Debug, Clone)]
pub enum PackerEventType {
    Error(String),
    UI { ui_type: String, message: String },
    Artifact { builder: String, artifact_type: String, detail: String },
    ErrorCount(u32),
    BuildStart(String),
    BuildEnd { builder: String, duration: Option<String> },
    Other { event_type: String, data: Vec<String> },
}

/// One parsed line: timestamp, target and event.
#[derive(Debug, Clone)]
pub struct PackerEvent {
    pub timestamp: String,
    pub target: String,
    pub event: PackerEventType,
}

/// What a build reported so far.
#[derive(Debug, Clone)]
pub struct PackerBuildState {
    pub errors: Vec<String>,
    pub artifacts: Vec<String>,
    pub error_count: u32,
    pub build_duration: Option<String>,
}

/// The severity at which an event is logged.
#[derive(Debug, Clone, Copy, PartialEq, Eq, Structural)]
pub enum LogLevel {
    Error,
    Warn,
    Info,
    Debug,
}

/// The event that a line with the comma-separated fields `parts` (at least three) reports.
pub open spec fn event_matches(ev: PackerEventType, parts: Seq<Seq<char>>) -> bool {
    let t = parts[2];
    let n = parts.len();
    if t == "error"@ {
        ev matches PackerEventType::Error(m) && m@ == (if n >= 4 { parts[3] } else { "Unknown error"@ })
    } else if t == "ui"@ {
        ev matches PackerEventType::UI { ui_type, message } && (if n >= 5 {
            ui_type@ == parts[3] && message@ == parts[4]
        } else {
            ui_type@ == "unknown"@ && message@ == "Incomplete UI message"@
        })
    } else if t == "error-count"@ {
        ev matches PackerEventType::ErrorCount(c) && c == (if n >= 4 {
            match crate::text::parse_u32(parts[3]) {
                Some(v) => v,
                None => 0u32,
            }
        } else {
            0u32
        })
    } else if t == "artifact"@ {
        if n >= 5 {
            ev matches PackerEventType::Artifact { builder, artifact_type, detail } && builder@
                == parts[1] && artifact_type@ == parts[3] && detail@ == parts[4]
        } else {
            ev matches PackerEventType::Other { event_type, data } && event_type@ == "artifact"@
                && views(data@) == parts.skip(3)
        }
    } else if t == "build-start"@ {
        ev matches PackerEventType::BuildStart(b) && b@ == (if n >= 4 { parts[3] } else { ""@ })
    } else if t == "build-end"@ {
        ev matches PackerEventType::BuildEnd { builder, duration } && builder@ == parts[1] && (if n
            >= 4 {
            duration matches Some(d) && d@ == parts[3]
        } else {
            duration is None
        })
    } else {
        ev matches PackerEventType::Other { event_type, data } && event_type@ == t && views(data@)
            == parts.skip(3)
    }
}

/// Strings made of the given character sequences, from position `from` on.
fn strings_from(parts: &Vec<Vec<char>>, from: usize) -> (r: Vec<String>)
    requires
        from <= parts@.len(),
    ensures
        r@.len() == parts@.len() - from,
        forall|k: int| 0 <= k < r@.len() ==> #[trigger] r@[k]@ == parts@[from + k]@,
{
    let mut r: Vec<String> = Vec::new();
    let mut i: usize = from;
    while i < parts.len()
        invariant
            from <= i <= parts@.len(),
            r@.len() == i - from,
            forall|k: int| 0 <= k < r@.len() ==> #[trigger] r@[k]@ == parts@[from + k]@,
        decreases parts.len() - i,
    {
        r.push(string_of(parts[i].as_slice()));
        i = i + 1;
    }
    r
}

/// Parses one line of Packer's machine-readable output (`timestamp,target,type,data...`);
/// `None` when it has fewer than three comma-separated fields.
pub fn parse_packer_event(line: &str) -> (r: Option<PackerEvent>)
    ensures
        split_char(line@, ',').len() < 3 <==> r is None,
        r matches Some(e) ==> e.timestamp@ == split_char(line@, ',')[0] && e.target@ == split_char(
            line@,
            ',',
        )[1] && event_matches(e.event, split_char(line@, ',')),
{
    let chars = chars_of(line);
    let parts = split_char_exec(chars.as_slice(), ',');
    let ghost sp = split_char(line@, ',');
    assert(parts@.len() == sp.len());
    if parts.len() < 3 {
        return None;
    }
    let n = parts.len();
    let timestamp = string_of(parts[0].as_slice());
    let target = string_of(parts[1].as_slice());
    let t = parts[2].as_slice();
    assert(parts@[2]@ == sp[2]);
    proof {
        reveal_strlit("");
    }
    let event = if chars_eq_str(t, "error") {
        let ev = if n >= 4 {
            PackerEventType::Error(string_of(parts[3].as_slice()))
        } else {
            PackerEventType::Error(string_of(chars_of("Unknown error").as_slice()))
        };
        assert(event_matches(ev, sp));
        ev
    } else if chars_eq_str(t, "ui") {
        let ev = if n >= 5 {
            PackerEventType::UI {
                ui_type: string_of(parts[3].as_slice()),
                message: string_of(parts[4].as_slice()),
            }
        } else {
            PackerEventType::UI {
                ui_type: string_of(chars_of("unknown").as_slice()),
                message: string_of(chars_of("Incomplete UI message").as_slice()),
            }
        };
        assert(event_matches(ev, sp));
        ev
    } else if chars_eq_str(t, "error-count") {
        let ev = if n >= 4 {
            match crate::text::parse_u32_exec(parts[3].as_slice()) {
                Some(c) => PackerEventType::ErrorCount(c),
                None => PackerEventType::ErrorCount(0),
            }
        } else {
            PackerEventType::ErrorCount(0)
        };
        assert(event_matches(ev, sp));
        ev
    } else if chars_eq_str(t, "artifact") {
        let ev = if n >= 5 {
            PackerEventType::Artifact {
                builder: string_of(parts[1].as_slice()),
                artifact_type: string_of(parts[3].as_slice()),
                detail: string_of(parts[4].as_slice()),
            }
        } else {
            let data = strings_from(&parts, 3);
            assert(views(data@) =~= sp.skip(3));
            PackerEventType::Other { event_type: string_of(chars_of("artifact").as_slice()), data }
        };
        assert(event_matches(ev, sp));
        ev
    } else if chars_eq_str(t, "build-start") {
        let ev = if n >= 4 {
            PackerEventType::BuildStart(string_of(parts[3].as_slice()))
        } else {
            PackerEventType::BuildStart(string_of(chars_of("").as_slice()))
        };
        assert(event_matches(ev, sp));
        ev
    } else if chars_eq_str(t, "build-end") {
        let duration = if n >= 4 {
            Some(string_of(parts[3].as_slice()))
        } else {
            None
        };
        let ev = PackerEventType::BuildEnd { builder: string_of(parts[1].as_slice()), duration };
        assert(event_matches(ev, sp));
        ev
    } else {
        let data = strings_from(&parts, 3);
        assert(views(data@) =~= sp.skip(3));
        let ev = PackerEventType::Other { event_type: string_of(t), data };
        assert(event_matches(ev, sp));
        ev
    };
    proof {
        reveal_strlit("");
    }
    assert(timestamp@ == sp[0]);
    assert(target@ == sp[1]);
    assert(event_matches(event, sp));
    Some(PackerEvent { timestamp, target, event })
}

/// The summary after one more event: error events and UI messages of type `error`
/// add to the errors, an error count replaces the count, an artifact adds
/// `"<type>: <detail>"`, a build end with a duration records it.
pub open spec fn after_event(old: PackerBuildState, new: PackerBuildState, ev: PackerEventType) -> bool {
    match ev {
        PackerEventType::Error(m) => views(new.errors@) == views(old.errors@).push(m@) && new.artifacts
            == old.artifacts && new.error_count == old.error_count && new.build_duration
            == old.build_duration,
        PackerEventType::UI { ui_type, message } => (if ui_type@ == "error"@ {
            views(new.errors@) == views(old.errors@).push(message@)
        } else {
            new.errors == old.errors
        }) && new.artifacts == old.artifacts && new.error_count == old.error_count
            && new.build_duration == old.build_duration,
        PackerEventType::ErrorCount(c) => new.errors == old.errors && new.artifacts == old.artifacts
            && new.error_count == c && new.build_duration == old.build_duration,
        PackerEventType::Artifact { builder, artifact_type, detail } => new.errors == old.errors
            && views(new.artifacts@) == views(old.artifacts@).push(artifact_type@ + ": "@ + detail@)
            && new.error_count == old.error_count && new.build_duration == old.build_duration,
        PackerEventType::BuildEnd { builder, duration } => new.errors == old.errors && new.artifacts
            == old.artifacts && new.error_count == old.error_count && match duration {
            Some(d) => new.build_duration matches Some(nd) && nd@ == d@,
            None => new.build_duration == old.build_duration,
        },
        _ => new == old,
    }
}

impl PackerBuildState {
    /// A summary with nothing reported yet.
    pub fn new() -> (r: Self)
        ensures
            r.errors@.len() == 0 && r.artifacts@.len() == 0 && r.error_count == 0 && r.build_duration is None,
    {
        PackerBuildState { errors: Vec::new(), artifacts: Vec::new(), error_count: 0, build_duration: None }
    }

    /// Folds one event into the summary.
    pub fn add_event(&mut self, event: &PackerEvent)
        ensures
            after_event(*old(self), *final(self), event.event),
    {
        proof {
            reveal_strlit(": ");
        }
        match &event.event {
            PackerEventType::Error(msg) => {
                self.errors.push(crate::text::copy_string(msg));
                assert(views(self.errors@) =~= views(old(self).errors@).push(msg@));
            },
            PackerEventType::UI { ui_type, message } => {
                if string_eq_str(ui_type, "error") {
                    self.errors.push(crate::text::copy_string(message));
                    assert(views(self.errors@) =~= views(old(self).errors@).push(message@));
                }
            },
            PackerEventType::ErrorCount(count) => {
                self.error_count = *count;
            },
            PackerEventType::Artifact { builder: _, artifact_type, detail } => {
                let mut s = crate::text::copy_string(artifact_type);
                append_str(&mut s, ": ");
                append_str(&mut s, detail.as_str());
                self.artifacts.push(s);
                assert(views(self.artifacts@) =~= views(old(self).artifacts@).push(
                    artifact_type@ + ": "@ + detail@,
                ));
            },
            PackerEventType::BuildEnd { builder: _, duration } => {
                if let Some(dur) = duration {
                    self.build_duration = Some(crate::text::copy_string(dur));
                }
            },
            _ => {},
        }
    }
}

/// The text of a list of strings as `Debug` prints a `Vec<String>`.
pub uninterp spec fn debug_string_list(items: Seq<Seq<char>>) -> Seq<char>;

/// The `Debug` rendering of a vector of strings: brackets, each item quoted and
/// escaped, separated by `", "`. The text is named, not spelled out.
#[verifier::external_body]
fn debug_list(items: &Vec<String>) -> (r: String)
    ensures
        r@ == debug_string_list(views(items@)),
{
    format!("{:?}", items)
}

/// The level and text with which an event is logged; `None` for an error count of zero.
pub open spec fn log_line(ev: PackerEventType) -> Option<(LogLevel, Seq<char>)> {
    match ev {
        PackerEventType::Error(m) => Some((LogLevel::Error, "[PACKER ERROR] "@ + m@)),
        PackerEventType::UI { ui_type, message } => Some(
            if ui_type@ == "error"@ {
                (LogLevel::Error, "[PACKER ERROR] "@ + message@)
            } else if ui_type@ == "warning"@ {
                (LogLevel::Warn, "[PACKER WARNING] "@ + message@)
            } else if ui_type@ == "say"@ {
                if starts_with(message@, "==>"@) {
                    (LogLevel::Info, "[PACKER] "@ + message@)
                } else {
                    (LogLevel::Debug, "[PACKER] "@ + message@)
                }
            } else if ui_type@ == "message"@ {
                (LogLevel::Debug, "[PACKER MESSAGE] "@ + message@)
            } else {
                (LogLevel::Debug, "[PACKER UI] "@ + ui_type@ + ": "@ + message@)
            },
        ),
        PackerEventType::Artifact { builder, artifact_type, detail } => Some(
            (
                LogLevel::Info,
                "[PACKER ARTIFACT] Builder '"@ + builder@ + "' created "@ + artifact_type@
                    + " artifact: "@ + detail@,
            ),
        ),
        PackerEventType::ErrorCount(c) => if c > 0 {
            Some((LogLevel::Error, "[PACKER] Found "@ + decimal(c as nat) + " errors"@))
        } else {
            None
        },
        PackerEventType::BuildStart(b) => Some((LogLevel::Info, "[PACKER] Build started for "@ + b@)),
        PackerEventType::BuildEnd { builder, duration } => Some(
            match duration {
                Some(d) => (LogLevel::Info, "[PACKER] Build finished for "@ + builder@ + " after "@ + d@),
                None => (LogLevel::Info, "[PACKER] Build finished for "@ + builder@),
            },
        ),
        PackerEventType::Other { event_type, data } => Some(
            (
                LogLevel::Debug,
                "[PACKER EVENT] Type: "@ + event_type@ + ", Data: "@ + debug_string_list(views(data@)),
            ),
        ),
    }
}

/// `prefix` followed by `rest`.
fn prefixed(prefix: &str, rest: &str) -> (r: String)
    ensures
        r@ == prefix@ + rest@,
{
    let mut r = String::new();
    append_str(&mut r, prefix);
    append_str(&mut r, rest);
    assert(r@ =~= prefix@ + rest@);
    r
}

/// The level and text with which `event` is logged; `None` when it is not logged.
pub fn log_packer_event(event: &PackerEvent) -> (r: Option<(LogLevel, String)>)
    ensures
        match log_line(event.event) {
            Some((l, t)) => r matches Some((l2, t2)) && l2 == l && t2@ == t,
            None => r is None,
        },
{
    match &event.event {
        PackerEventType::Error(msg) => Some((LogLevel::Error, prefixed("[PACKER ERROR] ", msg.as_str()))),
        PackerEventType::UI { ui_type, message } => {
            let m = message.as_str();
            if string_eq_str(ui_type, "error") {
                Some((LogLevel::Error, prefixed("[PACKER ERROR] ", m)))
            } else if string_eq_str(ui_type, "warning") {
                Some((LogLevel::Warn, prefixed("[PACKER WARNING] ", m)))
            } else if string_eq_str(ui_type, "say") {
                let mc = chars_of(m);
                let arrow = chars_of("==>");
                if starts_with_exec(mc.as_slice(), arrow.as_slice()) {
                    Some((LogLevel::Info, prefixed("[PACKER] ", m)))
                } else {
                    Some((LogLevel::Debug, prefixed("[PACKER] ", m)))
                }
            } else if string_eq_str(ui_type, "message") {
                Some((LogLevel::Debug, prefixed("[PACKER MESSAGE] ", m)))
            } else {
                let mut t = prefixed("[PACKER UI] ", ui_type.as_str());
                append_str(&mut t, ": ");
                append_str(&mut t, m);
                Some((LogLevel::Debug, t))
            }
        },
        PackerEventType::Artifact { builder, artifact_type, detail } => {
            let mut t = prefixed("[PACKER ARTIFACT] Builder '", builder.as_str());
            append_str(&mut t, "' created ");
            append_str(&mut t, artifact_type.as_str());
            append_str(&mut t, " artifact: ");
            append_str(&mut t, detail.as_str());
            Some((LogLevel::Info, t))
        },
        PackerEventType::ErrorCount(count) => {
            if *count > 0 {
                let mut t = String::new();
                append_str(&mut t, "[PACKER] Found ");
                let d = decimal_exec(*count as u64);
                append_str(&mut t, d.as_str());
                append_str(&mut t, " errors");
                Some((LogLevel::Error, t))
            } else {
                None
            }
        },
        PackerEventType::BuildStart(b) => Some((LogLevel::Info, prefixed("[PACKER] Build started for ", b.as_str()))),
        PackerEventType::BuildEnd { builder, duration } => {
            let mut t = prefixed("[PACKER] Build finished for ", builder.as_str());
            if let Some(d) = duration {
                append_str(&mut t, " after ");
                append_str(&mut t, d.as_str());
            }
            Some((LogLevel::Info, t))
        },
        PackerEventType::Other { event_type, data } => {
            let mut t = prefixed("[PACKER EVENT] Type: ", event_type.as_str());
            append_str(&mut t, ", Data: ");
            let d = debug_list(data);
            append_str(&mut t, d.as_str());
            Some((LogLevel::Debug, t))
        },
    }
}

/// Law: folding an artifact event keeps every artifact already recorded, in order,
/// and adds `"<type>: <detail>"` after them: the list grows by exactly one.
pub proof fn law_artifacts_accumulate(
    old: PackerBuildState,
    new: PackerBuildState,
    builder: String,
    artifact_type: String,
    detail: String,
)
    requires
        after_event(old, new, PackerEventType::Artifact { builder, artifact_type, detail }),
    ensures
        new.artifacts@.len() == old.artifacts@.len() + 1,
        forall|k: int| 0 <= k < old.artifacts@.len() ==> #[trigger] new.artifacts@[k]@ == old.artifacts@[k]@,
        new.artifacts@[old.artifacts@.len() as int]@ == artifact_type@ + ": "@ + detail@,
        new.errors == old.errors,
        new.error_count == old.error_count,
{
    let n = old.artifacts@.len() as int;
    assert(views(new.artifacts@).len() == new.artifacts@.len());
    assert forall|k: int| 0 <= k < n implies #[trigger] new.artifacts@[k]@ == old.artifacts@[k]@ by {
        assert(views(new.artifacts@)[k] == views(old.artifacts@)[k]);
    }
    assert(views(new.artifacts@)[n] == new.artifacts@[n]@);
}

/// Law: no event forgets what the summary recorded: the errors and artifacts before
/// an event stay, in order, at the front of those after it, and each list grows by
/// at most one entry.
pub proof fn law_summary_keeps_what_was_reported(old: PackerBuildState, new: PackerBuildState, ev: PackerEventType)
    requires
        after_event(old, new, ev),
    ensures
        old.errors@.len() <= new.errors@.len() <= old.errors@.len() + 1,
        old.artifacts@.len() <= new.artifacts@.len() <= old.artifacts@.len() + 1,
        forall|k: int| 0 <= k < old.errors@.len() ==> #[trigger] new.errors@[k]@ == old.errors@[k]@,
        forall|k: int| 0 <= k < old.artifacts@.len() ==> #[trigger] new.artifacts@[k]@ == old.artifacts@[k]@,
{
    assert(views(new.artifacts@).len() == new.artifacts@.len());
    assert(views(new.errors@).len() == new.errors@.len());
    assert forall|k: int| 0 <= k < old.errors@.len() implies #[trigger] new.errors@[k]@ == old.errors@[k]@ by {
        assert(views(new.errors@)[k] == new.errors@[k]@);
        assert(views(old.errors@)[k] == old.errors@[k]@);
    }
    assert forall|k: int| 0 <= k < old.artifacts@.len() implies #[trigger] new.artifacts@[k]@
        == old.artifacts@[k]@ by {
        assert(views(new.artifacts@)[k] == new.artifacts@[k]@);
        assert(views(old.artifacts@)[k] == old.artifacts@[k]@);
    }
}

/// Law: an error event adds its message after the errors already recorded; an error
/// count replaces the count; a build end with a duration records that duration.
pub proof fn law_errors_and_counts(old: PackerBuildState, new: PackerBuildState, ev: PackerEventType)
    requires
        after_event(old, new, ev),
    ensures
        ev matches PackerEventType::Error(m) ==> new.errors@.len() == old.errors@.len() + 1
            && new.errors@[old.errors@.len() as int]@ == m@,
        ev matches PackerEventType::ErrorCount(c) ==> new.error_count == c,
        ev matches PackerEventType::BuildEnd { duration: Some(d), .. } ==> (new.build_duration matches Some(
            nd,
        ) && nd@ == d@),
        !(ev is Error || ev is UI) ==> new.errors@.len() == old.errors@.len(),
        !(ev is Artifact) ==> new.artifacts@.len() == old.artifacts@.len(),
{
    assert(views(new.artifacts@).len() == new.artifacts@.len());
    assert(views(new.errors@).len() == new.errors@.len());
    if ev is Error {
        assert(views(new.errors@)[old.errors@.len() as int] == new.errors@[old.errors@.len() as int]@);
    }
}

/// Law: a line `<time>,<builder>,artifact,<type>,<detail>...`, parsed and folded into a
/// summary, appends `"<type>: <detail>"` after the artifacts already recorded; a line
/// `<time>,<target>,error,<message>...` appends its message after the errors.
pub proof fn law_parsed_lines_fold_in(
    parts: Seq<Seq<char>>,
    ev: PackerEventType,
    old: PackerBuildState,
    new: PackerBuildState,
)
    requires
        parts.len() >= 3,
        event_matches(ev, parts),
        after_event(old, new, ev),
    ensures
        parts[2] == "artifact"@ && parts.len() >= 5 ==> views(new.artifacts@) == views(old.artifacts@).push(
            parts[3] + ": "@ + parts[4],
        ),
        parts[2] == "error"@ && parts.len() >= 4 ==> views(new.errors@) == views(old.errors@).push(parts[3]),
        parts[2] == "error-count"@ && parts.len() >= 4 && crate::text::parse_u32(parts[3]) is Some
            ==> new.error_count == crate::text::parse_u32(parts[3])->0,
{
    reveal_strlit("artifact");
    reveal_strlit("error");
    reveal_strlit("error-count");
    reveal_strlit("ui");
    assert("artifact"@.len() == 8 && "error"@.len() == 5 && "error-count"@.len() == 11 && "ui"@.len() == 2);
}

/// Law: errors are logged at the error level and warnings at the warning level, each
/// text ending with the event's message; an error count is logged, at the error
/// level, exactly when it is above zero; an artifact is logged at the info level,
/// its text ending with its detail.
pub proof fn law_log_levels(ev: PackerEventType)
    ensures
        ev matches PackerEventType::Error(m) ==> (log_line(ev) matches Some((l, t)) && l == LogLevel::Error
            && crate::text::ends_with(t, m@)),
        ev matches PackerEventType::UI { ui_type, message } ==> (log_line(ev) matches Some((l, t))
            && crate::text::ends_with(t, message@) && (ui_type@ == "error"@ <==> l == LogLevel::Error) && (
        ui_type@ == "warning"@ ==> l == LogLevel::Warn)),
        ev matches PackerEventType::ErrorCount(c) ==> (log_line(ev) is Some <==> c > 0) && (log_line(ev) matches Some(
            (l, _),
        ) ==> l == LogLevel::Error),
        ev matches PackerEventType::Artifact { detail, .. } ==> (log_line(ev) matches Some((l, t)) && l
            == LogLevel::Info && crate::text::ends_with(t, detail@)),
{
    reveal_strlit("error");
    reveal_strlit("warning");
    reveal_strlit("say");
    reveal_strlit("message");
    assert("error"@.len() == 5 && "warning"@.len() == 7 && "say"@.len() == 3 && "message"@.len() == 7);
    match ev {
        PackerEventType::Error(m) => {
            let t = "[PACKER ERROR] "@ + m@;
            assert(t.skip(t.len() - m@.len()) =~= m@);
        },
        PackerEventType::UI { ui_type, message } => {
            let (l, t) = log_line(ev)->0;
            assert(t.skip(t.len() - message@.len()) =~= message@);
        },
        PackerEventType::Artifact { builder, artifact_type, detail } => {
            let (l, t) = log_line(ev)->0;
            assert(t.skip(t.len() - detail@.len()) =~= detail@);
        },
        _ => {},
    }
}

} // verus!
