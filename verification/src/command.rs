//! Commands and log entries, and the plan that a run makes of them.
use vstd::prelude::*;
use vstd::string::*;

use crate::number;
use crate::number::signed_decimal_text;
use crate::text;
use crate::text::{concat, trim};

verus! {

/// A program and its arguments.
#[derive(Debug)]
pub struct CommandLine {
    pub program: String,
    pub args: Vec<String>,
}

/// The content of a `CommandLine`.
pub ghost struct CommandView {
    pub program: Seq<char>,
    pub args: Seq<Seq<char>>,
}

impl View for CommandLine {
    type V = CommandView;

    open spec fn view(&self) -> CommandView {
        CommandView { program: self.program@, args: text::texts(self.args@) }
    }
}

/// How a command is shown: the program and each argument, with a space between each two.
pub open spec fn rendered(command: CommandView) -> Seq<char>
    decreases command.args.len(),
{
    if command.args.len() == 0 {
        command.program
    } else {
        rendered(CommandView { args: command.args.drop_last(), ..command }) + seq![' ']
            + command.args.last()
    }
}

/// Shows a command: the program and each argument, with a space between each two.
pub fn render_command(program: &str, args: &[String]) -> (r: String)
    ensures
        r@ == rendered(CommandView { program: program@, args: text::texts(args@) }),
{
    let mut out = program.to_owned();
    let ghost all = text::texts(args@);
    let mut i: usize = 0;
    while i < args.len()
        invariant
            i <= args@.len(),
            all == text::texts(args@),
            out@ == rendered(CommandView { program: program@, args: all.take(i as int) }),
        decreases args@.len() - i,
    {
        assert(all.take(i + 1).drop_last() =~= all.take(i as int));
        assert(all.take(i + 1).last() == args@[i as int]@);
        let ghost before = out@;
        out.push(' ');
        out.append(args[i].as_str());
        assert(out@ =~= before + seq![' '] + args@[i as int]@);
        i = i + 1;
    }
    assert(all.take(i as int) =~= all);
    out
}

/// How important a log entry is.
#[derive(Debug, Clone, Copy, PartialEq, Eq)]
pub enum Level {
    Info,
    Warning,
}

/// An entry of the log.
#[derive(Debug)]
pub struct LogEntry {
    pub level: Level,
    pub message: String,
}

/// The line that goes out for a message: the level in the notation of systemd, the name of the
/// helper, and the message.
pub open spec fn log_line(level: Level, message: Seq<char>) -> Seq<char> {
    match level {
        Level::Info => "<6>i40e-postlink: "@ + message,
        Level::Warning => "<4>i40e-postlink: "@ + message,
    }
}

/// The line that goes out for a message of the level info.
pub fn log_info(message: &str) -> (r: String)
    ensures
        r@ == log_line(Level::Info, message@),
{
    concat("<6>i40e-postlink: ", message)
}

/// The line that goes out for a message of the level warning.
pub fn log_warn(message: &str) -> (r: String)
    ensures
        r@ == log_line(Level::Warning, message@),
{
    concat("<4>i40e-postlink: ", message)
}

impl LogEntry {
    /// The line that goes out for this entry.
    pub fn line(&self) -> (r: String)
        ensures
            r@ == log_line(self.level, self.message@),
    {
        match self.level {
            Level::Info => log_info(self.message.as_str()),
            Level::Warning => log_warn(self.message.as_str()),
        }
    }
}

/// How a program ended, and what it wrote.
#[derive(Debug)]
pub struct Finished {
    pub success: bool,
    pub code: Option<i32>,
    pub stdout: Vec<u8>,
    pub stderr: Vec<u8>,
}

/// How a program ended, with what it wrote as one text.
#[derive(Debug)]
pub struct CommandOutput {
    pub success: bool,
    pub output: String,
    pub rc: i32,
}

/// The content of a `CommandOutput`.
pub ghost struct OutputView {
    pub success: bool,
    pub output: Seq<char>,
    pub rc: i32,
}

impl View for CommandOutput {
    type V = OutputView;

    open spec fn view(&self) -> OutputView {
        OutputView { success: self.success, output: self.output@, rc: self.rc }
    }
}

/// The content of what may be the output of a command.
pub open spec fn optional_output(output: Option<CommandOutput>) -> Option<OutputView> {
    match output {
        Some(o) => Some(o@),
        None => None,
    }
}

/// The text that `String::from_utf8_lossy` makes of bytes that are not valid UTF-8.
pub uninterp spec fn repaired_utf8(bytes: Seq<u8>) -> Seq<char>;

/// The text in `bytes`: what they encode, or a repaired text where they are not valid UTF-8.
pub open spec fn lossy_text(bytes: Seq<u8>) -> Seq<char> {
    if vstd::utf8::valid_utf8(bytes) {
        vstd::utf8::decode_utf8(bytes)
    } else {
        repaired_utf8(bytes)
    }
}

/// `String::from_utf8_lossy` decodes valid UTF-8 as it is, and puts replacement characters where
/// the bytes are not valid; the result depends on the bytes alone.
#[verifier::external_body]
fn from_utf8_lossy(bytes: &[u8]) -> (r: String)
    ensures
        vstd::utf8::valid_utf8(bytes@) ==> r@ == vstd::utf8::decode_utf8(bytes@),
        !vstd::utf8::valid_utf8(bytes@) ==> r@ == repaired_utf8(bytes@),
{
    String::from_utf8_lossy(bytes).into_owned()
}

/// The two outputs of a program as one text: the second follows the first, on a line of its own.
pub open spec fn merged(stdout: Seq<char>, stderr: Seq<char>) -> Seq<char> {
    if stderr.len() > 0 && stdout.len() > 0 && stdout.last() != '\n' {
        stdout + seq!['\n'] + stderr
    } else {
        stdout + stderr
    }
}

/// Puts the two outputs of a program together.
pub fn merge_output(stdout: &str, stderr: &str) -> (r: String)
    ensures
        r@ == merged(stdout@, stderr@),
{
    let mut out = stdout.to_owned();
    if !stderr.is_empty() {
        if !stdout.is_empty() && stdout.get_char(stdout.unicode_len() - 1) != '\n' {
            out.push('\n');
            assert(out@ =~= stdout@ + seq!['\n']);
        }
        out.append(stderr);
    } else {
        assert(stdout@ + stderr@ =~= stdout@);
    }
    out
}

/// What is to be known of a program that ended as `finished` says, or that could not be started.
pub open spec fn output_of(finished: Option<Finished>) -> Option<OutputView> {
    match finished {
        Some(f) => Some(
            OutputView {
                success: f.success,
                output: merged(lossy_text(f.stdout@), lossy_text(f.stderr@)),
                rc: match f.code {
                    Some(code) => code,
                    None => 1,
                },
            },
        ),
        None => None,
    }
}

/// Puts together what is to be known of a program that has ended, or that could not be started. A
/// program that was ended by a signal counts as ended with code 1.
pub fn run_command(finished: Option<Finished>) -> (r: Option<CommandOutput>)
    ensures
        optional_output(r) == output_of(finished),
{
    match finished {
        Some(f) => {
            let stdout = from_utf8_lossy(f.stdout.as_slice());
            let stderr = from_utf8_lossy(f.stderr.as_slice());
            let rc: i32 = match f.code {
                Some(code) => code,
                None => 1,
            };
            Some(
                CommandOutput {
                    success: f.success,
                    output: merge_output(stdout.as_str(), stderr.as_str()),
                    rc,
                },
            )
        },
        None => None,
    }
}

/// What is done for a run, one step of it.
#[derive(Debug)]
pub enum Action {
    /// Write the entry to the log.
    Log(LogEntry),
    /// Run the command, and log what `report` says of how it ended.
    Apply(CommandLine),
}

/// The content of an `Action`.
pub ghost enum ActionView {
    Log { level: Level, message: Seq<char> },
    Apply(CommandView),
}

impl View for Action {
    type V = ActionView;

    open spec fn view(&self) -> ActionView {
        match self {
            Action::Log(entry) => ActionView::Log { level: entry.level, message: entry.message@ },
            Action::Apply(command) => ActionView::Apply(command@),
        }
    }
}

/// The log entry for a command that was run: `None` stands for one that could not be started.
pub open spec fn report_of(command: CommandView, outcome: Option<OutputView>) -> ActionView {
    match outcome {
        None => ActionView::Log {
            level: Level::Warning,
            message: "cmd failed (rc=1): "@ + rendered(command) + " :: failed to spawn command"@,
        },
        Some(o) => if o.success {
            ActionView::Log { level: Level::Info, message: "applied: "@ + rendered(command) }
        } else {
            ActionView::Log {
                level: Level::Warning,
                message: "cmd failed (rc="@ + number::signed_decimal(o.rc as int) + "): "@
                    + rendered(command) + " :: "@ + text::trimmed(o.output),
            }
        },
    }
}

/// The log entry for a command that was run.
pub fn report(command: &CommandLine, outcome: &Option<CommandOutput>) -> (r: LogEntry)
    ensures
        Action::Log(r)@ == report_of(command@, optional_output(*outcome)),
{
    let shown = render_command(command.program.as_str(), command.args.as_slice());
    match outcome {
        None => {
            let mut message = "cmd failed (rc=1): ".to_owned();
            message.append(shown.as_str());
            message.append(" :: failed to spawn command");
            LogEntry { level: Level::Warning, message }
        },
        Some(o) => {
            if o.success {
                LogEntry { level: Level::Info, message: concat("applied: ", shown.as_str()) }
            } else {
                let mut message = "cmd failed (rc=".to_owned();
                message.append(signed_decimal_text(o.rc).as_str());
                message.append("): ");
                message.append(shown.as_str());
                message.append(" :: ");
                message.append(trim(o.output.as_str()).as_str());
                LogEntry { level: Level::Warning, message }
            }
        },
    }
}

/// What is to be done, in order.
#[derive(Debug)]
pub struct Plan {
    pub actions: Vec<Action>,
}

impl View for Plan {
    type V = Seq<ActionView>;

    open spec fn view(&self) -> Seq<ActionView> {
        self.actions@.map_values(|a: Action| a@)
    }
}

impl Plan {
    /// Nothing to do.
    pub fn new() -> (r: Plan)
        ensures
            r@ == Seq::<ActionView>::empty(),
    {
        let r = Plan { actions: Vec::new() };
        assert(r@ =~= Seq::<ActionView>::empty());
        r
    }

    /// One step alone.
    pub fn one(action: Action) -> (r: Plan)
        ensures
            r@ == seq![action@],
    {
        let mut r = Plan::new();
        r.push(action);
        assert(r@ =~= seq![action@]);
        r
    }

    /// A log entry of the level warning, and nothing else.
    pub fn warning(message: String) -> (r: Plan)
        ensures
            r@ == seq![(ActionView::Log { level: Level::Warning, message: message@ })],
    {
        Plan::one(Action::Log(LogEntry { level: Level::Warning, message }))
    }

    /// Adds the steps of `more` at the end.
    pub fn append(&mut self, more: Plan)
        ensures
            final(self)@ == old(self)@ + more@,
    {
        let ghost before = self.actions@;
        let mut tail = more.actions;
        self.actions.append(&mut tail);
        assert(self@ =~= before.map_values(|a: Action| a@) + more@);
    }

    /// Adds one step at the end.
    pub fn push(&mut self, action: Action)
        ensures
            final(self)@ == old(self)@.push(action@),
    {
        let ghost before = self.actions@;
        self.actions.push(action);
        assert(self@ =~= before.map_values(|a: Action| a@).push(action@));
    }

    /// Adds a log entry of the level info.
    pub fn info(&mut self, message: String)
        ensures
            final(self)@ == old(self)@.push(
                (ActionView::Log { level: Level::Info, message: message@ }),
            ),
    {
        self.push(Action::Log(LogEntry { level: Level::Info, message }));
    }
}

/// What a run has to learn from the host before it can go on.
#[derive(Debug)]
pub enum Query {
    /// Run the command, which changes nothing, and say how it ended.
    Capture(CommandLine),
    /// Read the file.
    ReadFile(String),
    /// Resolve the path, with all its links, and give the last component.
    TargetName(String),
    /// List the names in the directory.
    ListDirectory(String),
    /// For each of the paths, say whether it exists.
    Exist(Vec<String>),
}

/// The content of a `Query`.
pub ghost enum QueryView {
    Capture(CommandView),
    ReadFile(Seq<char>),
    TargetName(Seq<char>),
    ListDirectory(Seq<char>),
    Exist(Seq<Seq<char>>),
}

impl View for Query {
    type V = QueryView;

    open spec fn view(&self) -> QueryView {
        match self {
            Query::Capture(command) => QueryView::Capture(command@),
            Query::ReadFile(path) => QueryView::ReadFile(path@),
            Query::TargetName(path) => QueryView::TargetName(path@),
            Query::ListDirectory(path) => QueryView::ListDirectory(path@),
            Query::Exist(paths) => QueryView::Exist(text::texts(paths@)),
        }
    }
}

/// What the host has to say: the answer to a query, or nothing.
#[derive(Debug)]
pub enum Reply {
    /// Nothing.
    Nothing,
    /// How a command ended.
    Output(CommandOutput),
    /// The content of a file, or a name.
    Text(String),
    /// The names in a directory.
    Names(Vec<String>),
    /// Which paths exist.
    Existing(Vec<bool>),
}

/// The content of a `Reply`.
pub ghost enum ReplyView {
    Nothing,
    Output(OutputView),
    Text(Seq<char>),
    Names(Seq<Seq<char>>),
    Existing(Seq<bool>),
}

impl View for Reply {
    type V = ReplyView;

    open spec fn view(&self) -> ReplyView {
        match self {
            Reply::Nothing => ReplyView::Nothing,
            Reply::Output(output) => ReplyView::Output(output@),
            Reply::Text(text) => ReplyView::Text(text@),
            Reply::Names(names) => ReplyView::Names(text::texts(names@)),
            Reply::Existing(existing) => ReplyView::Existing(existing@),
        }
    }
}

} // verus!
