//! External commands: what to run, and what their output adds up to.
use crate::packer_events::LogLevel;
use crate::seqs::{first_index, insert_entry, key_is, lemma_first_index_at, lemma_first_index_none};
use crate::string_map::{map_insert, pairs_view};
use crate::text::{append_str, chars_of, contains_exec, contains_seq, copy_string, join, join_exec, views};
use vstd::prelude::*;

verus! {

/// Which stream a line of output came from.
#[derive(Debug, Clone, Copy, PartialEq, Eq, Structural)]
pub enum OutputSource {
    Stdout,
    Stderr,
}

/// One line of a command's output.
#[derive(Debug)]
pub struct OutputLine {
    pub source: OutputSource,
    pub content: String,
}

/// The contents of the lines from one stream, in order.
pub open spec fn lines_from(lines: Seq<OutputLine>, src: OutputSource) -> Seq<Seq<char>>
    decreases lines.len(),
{
    if lines.len() == 0 {
        Seq::empty()
    } else {
        let prev = lines_from(lines.drop_last(), src);
        if lines.last().source == src {
            prev.push(lines.last().content@)
        } else {
            prev
        }
    }
}

/// The contents of all lines, in order.
pub open spec fn contents(lines: Seq<OutputLine>) -> Seq<Seq<char>> {
    lines.map_values(|l: OutputLine| l.content@)
}

/// What a finished command gave: its exit code and its lines, by stream and in the
/// order they arrived.
#[derive(Debug)]
pub struct CommandOutput {
    pub exit_code: i32,
    pub stdout_lines: Vec<String>,
    pub stderr_lines: Vec<String>,
    pub combined_output: Vec<OutputLine>,
}

impl CommandOutput {
    /// The lines by stream are the combined lines of that stream.
    pub open spec fn wf(&self) -> bool {
        &&& views(self.stdout_lines@) == lines_from(self.combined_output@, OutputSource::Stdout)
        &&& views(self.stderr_lines@) == lines_from(self.combined_output@, OutputSource::Stderr)
    }

    /// No output yet, and exit code `exit_code`.
    pub fn empty(exit_code: i32) -> (r: Self)
        ensures
            r.wf(),
            r.exit_code == exit_code,
            r.combined_output@.len() == 0,
    {
        let r = CommandOutput {
            exit_code,
            stdout_lines: Vec::new(),
            stderr_lines: Vec::new(),
            combined_output: Vec::new(),
        };
        assert(views(r.stdout_lines@) =~= Seq::empty());
        assert(views(r.stderr_lines@) =~= Seq::empty());
        r
    }

    /// Records one more line of output.
    pub fn push_line(&mut self, line: OutputLine)
        requires
            old(self).wf(),
        ensures
            final(self).wf(),
            final(self).exit_code == old(self).exit_code,
            final(self).combined_output@ == old(self).combined_output@.push(line),
    {
        let ghost before = self.combined_output@;
        let ghost out_before = self.stdout_lines@;
        let ghost err_before = self.stderr_lines@;
        match line.source {
            OutputSource::Stdout => {
                self.stdout_lines.push(copy_string(&line.content));
                assert(views(self.stdout_lines@) =~= views(out_before).push(line.content@));
            },
            OutputSource::Stderr => {
                self.stderr_lines.push(copy_string(&line.content));
                assert(views(self.stderr_lines@) =~= views(err_before).push(line.content@));
            },
        }
        self.combined_output.push(line);
        assert(self.combined_output@.drop_last() =~= before);
    }

    /// The output of a command that exited with `exit_code` after printing `lines`.
    pub fn from_lines(exit_code: i32, lines: Vec<OutputLine>) -> (r: Self)
        ensures
            r.wf(),
            r.exit_code == exit_code,
            r.combined_output@ == lines@,
    {
        let mut r = Self::empty(exit_code);
        let mut lines = lines;
        let ghost all = lines@;
        let mut rest: Vec<OutputLine> = Vec::new();
        // take the lines from the back, then record them from the front
        while lines.len() > 0
            invariant
                all == lines@ + rest@.reverse(),
            decreases lines.len(),
        {
            let l = lines.pop().unwrap();
            rest.push(l);
            assert(all =~= lines@ + rest@.reverse());
        }
        assert(rest@.reverse() =~= all);
        let ghost back = rest@;
        while rest.len() > 0
            invariant
                r.wf(),
                r.exit_code == exit_code,
                all == back.reverse(),
                r.combined_output@ + rest@.reverse() == all,
            decreases rest.len(),
        {
            let l = rest.pop().unwrap();
            let ghost rb = rest@;
            r.push_line(l);
            assert(r.combined_output@ + rest@.reverse() =~= all);
        }
        assert(r.combined_output@ =~= all);
        r
    }

    /// Whether the command exited with code 0.
    pub fn success(&self) -> (r: bool)
        ensures
            r == (self.exit_code == 0),
    {
        self.exit_code == 0
    }

    /// The standard output lines joined with newlines.
    pub fn stdout(&self) -> (r: String)
        ensures
            r@ == join(views(self.stdout_lines@), "\n"@),
    {
        join_exec(&self.stdout_lines, "\n")
    }

    /// The standard error lines joined with newlines.
    pub fn stderr(&self) -> (r: String)
        ensures
            r@ == join(views(self.stderr_lines@), "\n"@),
    {
        join_exec(&self.stderr_lines, "\n")
    }

    /// All lines, in the order they arrived, joined with newlines.
    pub fn combined(&self) -> (r: String)
        ensures
            r@ == join(contents(self.combined_output@), "\n"@),
    {
        let mut parts: Vec<String> = Vec::new();
        let mut i: usize = 0;
        while i < self.combined_output.len()
            invariant
                i <= self.combined_output.len(),
                views(parts@) == contents(self.combined_output@).take(i as int),
            decreases self.combined_output.len() - i,
        {
            let ghost before = parts@;
            parts.push(copy_string(&self.combined_output[i].content));
            assert(views(parts@) =~= views(before).push(self.combined_output@[i as int].content@));
            i = i + 1;
            assert(views(parts@) =~= contents(self.combined_output@).take(i as int));
        }
        assert(contents(self.combined_output@).take(i as int) =~= contents(self.combined_output@));
        join_exec(&parts, "\n")
    }
}

/// A command to run: the program, its arguments, the directory to run it in, and
/// environment variables to set (each name once; setting a name again replaces its value).
#[derive(Debug)]
pub struct AsyncCommand {
    program: String,
    args: Vec<String>,
    working_dir: Option<String>,
    env_vars: Vec<(String, String)>,
}

/// A command as plain values.
pub struct CommandView {
    pub program: Seq<char>,
    pub args: Seq<Seq<char>>,
    pub working_dir: Option<Seq<char>>,
    pub env_vars: Seq<(Seq<char>, Seq<char>)>,
}

impl View for AsyncCommand {
    type V = CommandView;

    closed spec fn view(&self) -> CommandView {
        CommandView {
            program: self.program@,
            args: views(self.args@),
            working_dir: crate::packer_template::opt_view(self.working_dir),
            env_vars: pairs_view(self.env_vars@),
        }
    }
}

impl AsyncCommand {
    /// Each environment variable is named once.
    #[verifier::type_invariant]
    spec fn names_each_variable_once(self) -> bool {
        crate::seqs::distinct_keys(pairs_view(self.env_vars@))
    }

    /// Runs `program` with no arguments, in the current directory, with the
    /// inherited environment.
    pub fn new(program: String) -> (r: Self)
        ensures
            r@.program == program@,
            r@.args.len() == 0,
            r@.working_dir is None,
            r@.env_vars.len() == 0,
    {
        let r = AsyncCommand { program, args: Vec::new(), working_dir: None, env_vars: Vec::new() };
        assert(r@.args =~= Seq::empty());
        assert(r@.env_vars =~= Seq::empty());
        r
    }

    /// Adds one argument.
    pub fn arg(self, arg: String) -> (r: Self)
        ensures
            r@ == (CommandView { args: self@.args.push(arg@), ..self@ }),
    {
        proof {
            use_type_invariant(&self);
        }
        let AsyncCommand { program, args, working_dir, env_vars } = self;
        let mut args = args;
        let ghost before = args@;
        args.push(arg);
        assert(views(args@) =~= views(before).push(args@.last()@));
        AsyncCommand { program, args, working_dir, env_vars }
    }

    /// Adds arguments, in order.
    pub fn args(self, extra: Vec<String>) -> (r: Self)
        ensures
            r@ == (CommandView { args: self@.args + views(extra@), ..self@ }),
    {
        proof {
            use_type_invariant(&self);
        }
        let ghost start = self@;
        let AsyncCommand { program, args, working_dir, env_vars } = self;
        let mut args = args;
        let mut i: usize = 0;
        while i < extra.len()
            invariant
                i <= extra.len(),
                views(args@) == start.args + views(extra@).take(i as int),
            decreases extra.len() - i,
        {
            let ghost before = args@;
            args.push(copy_string(&extra[i]));
            assert(views(args@) =~= views(before).push(extra@[i as int]@));
            i = i + 1;
            assert(start.args + views(extra@).take(i as int) =~= views(args@));
        }
        assert(views(extra@).take(i as int) =~= views(extra@));
        AsyncCommand { program, args, working_dir, env_vars }
    }

    /// Runs the command in `dir`.
    pub fn current_dir(self, dir: String) -> (r: Self)
        ensures
            r@ == (CommandView { working_dir: Some(dir@), ..self@ }),
    {
        proof {
            use_type_invariant(&self);
        }
        let mut s = self;
        s.working_dir = Some(dir);
        s
    }

    /// Sets the environment variable `key` to `value`.
    pub fn env(self, key: String, value: String) -> (r: Self)
        ensures
            r@ == (CommandView { env_vars: insert_entry(self@.env_vars, key@, value@), ..self@ }),
    {
        proof {
            use_type_invariant(&self);
            crate::seqs::lemma_insert_entry_distinct(self@.env_vars, key@, value@);
        }
        let AsyncCommand { program, args, working_dir, env_vars } = self;
        let mut env_vars = env_vars;
        map_insert(&mut env_vars, key, value);
        AsyncCommand { program, args, working_dir, env_vars }
    }

    /// The program to run.
    pub fn program(&self) -> (r: &String)
        ensures
            r@ == self@.program,
    {
        &self.program
    }

    /// The arguments, in order.
    pub fn arg_list(&self) -> (r: &Vec<String>)
        ensures
            views(r@) == self@.args,
    {
        &self.args
    }

    /// The directory to run in, if one was set.
    pub fn working_dir(&self) -> (r: &Option<String>)
        ensures
            crate::packer_template::opt_view(*r) == self@.working_dir,
    {
        &self.working_dir
    }

    /// The environment variables to set.
    pub fn env_vars(&self) -> (r: &Vec<(String, String)>)
        ensures
            pairs_view(r@) == self@.env_vars,
            crate::seqs::distinct_keys(pairs_view(r@)),
    {
        proof {
            use_type_invariant(self);
        }
        &self.env_vars
    }
}

/// Errors of running commands.
#[derive(Debug)]
pub enum IoError {
    CommandNotFound { command: String },
    SpawnFailed { command: String, message: String },
    OutputProcessing { message: String },
}

/// The error for a program that could not be started: not found, or another failure
/// with the system's message.
pub fn spawn_error(program: &str, not_found: bool, message: String) -> (r: IoError)
    ensures
        not_found ==> (r matches IoError::CommandNotFound { command } && command@ == program@),
        !not_found ==> (r matches IoError::SpawnFailed { command, message: m } && command@ == program@
            && m@ == message@),
{
    if not_found {
        IoError::CommandNotFound { command: String::from_str(program) }
    } else {
        IoError::SpawnFailed { command: String::from_str(program), message }
    }
}

/// The line that stands for a line that could not be read.
pub fn unreadable_line(source: OutputSource, message: &str) -> (r: OutputLine)
    ensures
        r.source == source,
        r.content@ == "[Error reading output: "@ + message@ + "]"@,
{
    let mut c = String::from_str("[Error reading output: ");
    append_str(&mut c, message);
    append_str(&mut c, "]");
    OutputLine { source, content: c }
}

/// How a line is logged: standard error lines that mention an error as errors, other
/// standard error lines as warnings; standard output lines that mention a warning
/// as warnings, others as information.
pub open spec fn line_log(source: OutputSource, content: Seq<char>) -> (LogLevel, Seq<char>) {
    match source {
        OutputSource::Stderr => if contains_seq(content, "error:"@) || contains_seq(content, "Error:"@) {
            (LogLevel::Error, "[CMD ERROR] "@ + content)
        } else {
            (LogLevel::Warn, "[CMD STDERR] "@ + content)
        },
        OutputSource::Stdout => if contains_seq(content, "warning:"@) || contains_seq(content, "Warning:"@) {
            (LogLevel::Warn, "[CMD WARNING] "@ + content)
        } else {
            (LogLevel::Info, "[CMD] "@ + content)
        },
    }
}

/// The level and message a line of output is logged with.
pub fn standard_log_line(line: &OutputLine) -> (r: (LogLevel, String))
    ensures
        (r.0, r.1@) == line_log(line.source, line.content@),
{
    let c = chars_of(line.content.as_str());
    let (level, prefix) = match line.source {
        OutputSource::Stderr => {
            let e1 = chars_of("error:");
            let e2 = chars_of("Error:");
            if contains_exec(c.as_slice(), e1.as_slice()) || contains_exec(c.as_slice(), e2.as_slice()) {
                (LogLevel::Error, "[CMD ERROR] ")
            } else {
                (LogLevel::Warn, "[CMD STDERR] ")
            }
        },
        OutputSource::Stdout => {
            let w1 = chars_of("warning:");
            let w2 = chars_of("Warning:");
            if contains_exec(c.as_slice(), w1.as_slice()) || contains_exec(c.as_slice(), w2.as_slice()) {
                (LogLevel::Warn, "[CMD WARNING] ")
            } else {
                (LogLevel::Info, "[CMD] ")
            }
        },
    };
    let mut m = String::from_str(prefix);
    append_str(&mut m, line.content.as_str());
    (level, m)
}

/// Law: every line of a command's output belongs to exactly one of its two streams.
pub proof fn law_each_line_in_one_stream(lines: Seq<OutputLine>)
    ensures
        lines_from(lines, OutputSource::Stdout).len() + lines_from(lines, OutputSource::Stderr).len() == lines.len(),
    decreases lines.len(),
{
    if lines.len() > 0 {
        law_each_line_in_one_stream(lines.drop_last());
    }
}

/// Law: an environment variable set on a command has the value it was last set to.
pub proof fn law_env_last_setting_wins(c: CommandView, key: Seq<char>, value: Seq<char>)
    ensures
        crate::seqs::lookup(insert_entry(c.env_vars, key, value), key) == Some(value),
{
    crate::seqs::lemma_lookup_insert(c.env_vars, key, value);
}

} // verus!
