//! The command line: what the arguments and the hook input call for.

use vstd::prelude::*;
use vstd::string::StringExecFns;
use crate::state::{
    current_totals, read_monitor_status, state_dir, state_path, status_text, written_around,
    MonitorStatus, StateDir,
};
use crate::text::{
    decimal, is_blank, is_blank_text, law_decimal_round_trip, parse_u64, push_u64, render_u64,
    same_text, text_of, texts_of, u64_of,
};
use crate::throttle::{decidable_in, decide_in, dir_after, record, rest_after, should_reinject};
use crate::types::{ThrottleConfig, ThrottleDecision};

verus! {

// ── Arguments ────────────────────────────────────────────────────────────────

/// A subcommand with its arguments.
#[derive(Debug, PartialEq, Eq)]
pub enum Command {
    Monitor,
    Check { hook_name: String },
    Record { hook_name: String },
    Output { hook_event: String, context: String, system_message: Option<String> },
    Reset,
    Parse { path: String, offset: u64 },
}

/// A subcommand with its arguments, as texts.
pub enum CommandText {
    Monitor,
    Check { hook_name: Seq<char> },
    Record { hook_name: Seq<char> },
    Output { hook_event: Seq<char>, context: Seq<char>, system_message: Option<Seq<char>> },
    Reset,
    Parse { path: Seq<char>, offset: u64 },
}

impl View for Command {
    type V = CommandText;

    open spec fn view(&self) -> CommandText {
        match *self {
            Command::Monitor => CommandText::Monitor,
            Command::Check { hook_name } => CommandText::Check { hook_name: hook_name@ },
            Command::Record { hook_name } => CommandText::Record { hook_name: hook_name@ },
            Command::Output { hook_event, context, system_message } => CommandText::Output {
                hook_event: hook_event@,
                context: context@,
                system_message: text_of(system_message),
            },
            Command::Reset => CommandText::Reset,
            Command::Parse { path, offset } => CommandText::Parse { path: path@, offset },
        }
    }
}

/// Why the arguments call for nothing.
#[derive(Debug, PartialEq, Eq)]
pub enum CliError {
    /// There is no subcommand.
    NoSubcommand,
    /// There is no such subcommand.
    UnknownSubcommand(String),
    /// The subcommand lacks an argument; this is how it is used.
    MissingArgument(String),
    /// This offset is no number.
    InvalidOffset(String),
}

/// Why the arguments call for nothing, as texts.
pub enum CliErrorText {
    NoSubcommand,
    UnknownSubcommand(Seq<char>),
    MissingArgument(Seq<char>),
    InvalidOffset(Seq<char>),
}

impl View for CliError {
    type V = CliErrorText;

    open spec fn view(&self) -> CliErrorText {
        match *self {
            CliError::NoSubcommand => CliErrorText::NoSubcommand,
            CliError::UnknownSubcommand(name) => CliErrorText::UnknownSubcommand(name@),
            CliError::MissingArgument(usage) => CliErrorText::MissingArgument(usage@),
            CliError::InvalidOffset(offset) => CliErrorText::InvalidOffset(offset@),
        }
    }
}

pub const CHECK_USAGE: &'static str = "check <hook-name>";

pub const RECORD_USAGE: &'static str = "record <hook-name>";

pub const OUTPUT_USAGE: &'static str = "output <hook-event> <context>";

pub const PARSE_USAGE: &'static str = "parse <transcript-path> <offset>";

/// What the arguments `args` call for; the first is the name of the program.
/// Arguments beyond those that a subcommand takes are ignored.
pub open spec fn command_of(args: Seq<Seq<char>>) -> Result<CommandText, CliErrorText> {
    let name = if args.len() > 1 {
        args[1]
    } else {
        ""@
    };
    if name == "monitor"@ {
        Ok(CommandText::Monitor)
    } else if name == "check"@ {
        if args.len() > 2 {
            Ok(CommandText::Check { hook_name: args[2] })
        } else {
            Err(CliErrorText::MissingArgument(CHECK_USAGE@))
        }
    } else if name == "record"@ {
        if args.len() > 2 {
            Ok(CommandText::Record { hook_name: args[2] })
        } else {
            Err(CliErrorText::MissingArgument(RECORD_USAGE@))
        }
    } else if name == "output"@ {
        if args.len() > 3 {
            Ok(
                CommandText::Output {
                    hook_event: args[2],
                    context: args[3],
                    system_message: if args.len() > 4 {
                        Some(args[4])
                    } else {
                        None
                    },
                },
            )
        } else {
            Err(CliErrorText::MissingArgument(OUTPUT_USAGE@))
        }
    } else if name == "reset"@ {
        Ok(CommandText::Reset)
    } else if name == "parse"@ {
        if args.len() > 3 {
            match u64_of(args[3]) {
                Some(offset) => Ok(CommandText::Parse { path: args[2], offset }),
                None => Err(CliErrorText::InvalidOffset(args[3])),
            }
        } else {
            Err(CliErrorText::MissingArgument(PARSE_USAGE@))
        }
    } else if name.len() == 0 {
        Err(CliErrorText::NoSubcommand)
    } else {
        Err(CliErrorText::UnknownSubcommand(name))
    }
}

/// The argument at `index`, or an error that says how the subcommand is used.
pub fn require_arg(args: &Vec<String>, index: usize, usage: &str) -> (arg: Result<String, CliError>)
    ensures
        match arg {
            Ok(text) => index < args@.len() && text@ == args@[index as int]@,
            Err(error) => index >= args@.len() && error@ == CliErrorText::MissingArgument(usage@),
        },
{
    if index < args.len() {
        Ok(args[index].clone())
    } else {
        Err(CliError::MissingArgument(String::from_str(usage)))
    }
}

/// What the arguments call for; the first is the name of the program.
pub fn parse_command(args: &Vec<String>) -> (command: Result<Command, CliError>)
    ensures
        match command {
            Ok(c) => command_of(texts_of(args@)) == Ok::<CommandText, CliErrorText>(c@),
            Err(e) => command_of(texts_of(args@)) == Err::<CommandText, CliErrorText>(e@),
        },
{
    let ghost texts = texts_of(args@);
    let name = if args.len() > 1 {
        args[1].as_str()
    } else {
        ""
    };
    if same_text(name, "monitor") {
        Ok(Command::Monitor)
    } else if same_text(name, "check") {
        match require_arg(args, 2, CHECK_USAGE) {
            Ok(hook_name) => Ok(Command::Check { hook_name }),
            Err(e) => Err(e),
        }
    } else if same_text(name, "record") {
        match require_arg(args, 2, RECORD_USAGE) {
            Ok(hook_name) => Ok(Command::Record { hook_name }),
            Err(e) => Err(e),
        }
    } else if same_text(name, "output") {
        match (require_arg(args, 2, OUTPUT_USAGE), require_arg(args, 3, OUTPUT_USAGE)) {
            (Ok(hook_event), Ok(context)) => {
                let system_message = if args.len() > 4 {
                    Some(args[4].clone())
                } else {
                    None
                };
                Ok(Command::Output { hook_event, context, system_message })
            },
            (Err(e), _) => Err(e),
            (_, Err(e)) => Err(e),
        }
    } else if same_text(name, "reset") {
        Ok(Command::Reset)
    } else if same_text(name, "parse") {
        match (require_arg(args, 2, PARSE_USAGE), require_arg(args, 3, PARSE_USAGE)) {
            (Ok(path), Ok(offset_text)) => match parse_u64(offset_text.as_str()) {
                Some(offset) => Ok(Command::Parse { path, offset }),
                None => Err(CliError::InvalidOffset(offset_text)),
            },
            (Err(e), _) => Err(e),
            (_, Err(e)) => Err(e),
        }
    } else if name.is_empty() {
        Err(CliError::NoSubcommand)
    } else {
        Err(CliError::UnknownSubcommand(String::from_str(name)))
    }
}

/// What an error says.  A missing subcommand is answered by the list of
/// subcommands alone.
pub open spec fn error_text(error: CliErrorText) -> Seq<char> {
    match error {
        CliErrorText::NoSubcommand => Seq::empty(),
        CliErrorText::UnknownSubcommand(name) => "unknown subcommand: "@ + name,
        CliErrorText::MissingArgument(usage) => "missing argument — usage: reinject "@ + usage,
        CliErrorText::InvalidOffset(offset) => "invalid offset: "@ + offset,
    }
}

impl CliError {
    /// What the error says.
    pub fn message(&self) -> (message: String)
        ensures
            message@ == error_text(self@),
    {
        match self {
            CliError::NoSubcommand => String::new(),
            CliError::UnknownSubcommand(name) => String::from_str("unknown subcommand: ").concat(
                name.as_str(),
            ),
            CliError::MissingArgument(usage) => String::from_str(
                "missing argument — usage: reinject ",
            ).concat(usage.as_str()),
            CliError::InvalidOffset(offset) => String::from_str("invalid offset: ").concat(
                offset.as_str(),
            ),
        }
    }

    /// The status that the program exits with: 2 where there is no subcommand,
    /// 1 for any other error.
    pub fn exit_code(&self) -> (code: i32)
        ensures
            code == if self@ is NoSubcommand {
                2i32
            } else {
                1i32
            },
    {
        match self {
            CliError::NoSubcommand => 2,
            _ => 1,
        }
    }

    /// Whether the list of subcommands is printed with the error.
    pub fn shows_subcommands(&self) -> (shows: bool)
        ensures
            shows == (self@ is NoSubcommand || self@ is UnknownSubcommand),
    {
        match self {
            CliError::NoSubcommand => true,
            CliError::UnknownSubcommand(_) => true,
            _ => false,
        }
    }
}

/// The transcript and the offset that the arguments of the stand-alone parser
/// name: there are exactly two besides the name of the program, and an offset
/// that is no number counts as zero.
pub fn parser_arguments(args: &Vec<String>) -> (arguments: Option<(String, u64)>)
    ensures
        match arguments {
            Some((path, offset)) => {
                &&& args@.len() == 3
                &&& path@ == args@[1]@
                &&& offset == match u64_of(args@[2]@) {
                    Some(n) => n,
                    None => 0,
                }
            },
            None => args@.len() != 3,
        },
{
    if args.len() != 3 {
        return None;
    }
    let offset: u64 = match parse_u64(args[2].as_str()) {
        Some(n) => n,
        None => 0,
    };
    Some((args[1].clone(), offset))
}

// ── Hook input ───────────────────────────────────────────────────────────────

/// What a hook is told on its standard input.
#[derive(Debug, PartialEq, Eq)]
pub struct HookInput {
    pub session_id: Option<String>,
    /// Set for a sub-agent.
    pub agent_id: Option<String>,
    pub transcript_path: Option<String>,
}

/// Where the standard input holds white space alone there is nothing to parse,
/// and this is the input; otherwise `None`.
pub fn input_without_json(stdin: &str) -> (input: Option<HookInput>)
    ensures
        match input {
            Some(i) => {
                &&& is_blank_text(stdin@)
                &&& i.session_id is None
                &&& i.agent_id is None
                &&& i.transcript_path is None
            },
            None => !is_blank_text(stdin@),
        },
{
    if is_blank(stdin) {
        Some(HookInput { session_id: None, agent_id: None, transcript_path: None })
    } else {
        None
    }
}

/// What the state directory is named by: the session, or the process where
/// there is no session.
pub open spec fn session_key(input: HookInput, process_id: u32) -> Seq<char> {
    match input.session_id {
        Some(id) => if id@.len() > 0 {
            id@
        } else {
            decimal(process_id as nat)
        },
        None => decimal(process_id as nat),
    }
}

/// The path of the state directory, where `host` is the command name of the
/// assistant that runs the hooks.
pub fn resolve_state_dir(host: &str, input: &HookInput, process_id: u32) -> (path: String)
    ensures
        path@ == state_path(host@, session_key(*input, process_id)),
{
    match &input.session_id {
        Some(id) => if id.as_str().is_empty() {
            state_dir(host, render_u64(process_id as u64).as_str())
        } else {
            state_dir(host, id.as_str())
        },
        None => state_dir(host, render_u64(process_id as u64).as_str()),
    }
}

// ── Subcommands ──────────────────────────────────────────────────────────────

/// The transcript that the monitor is to read.  There is none in a sub-agent,
/// nor where the input names no transcript.
pub fn cmd_monitor(input: &HookInput) -> (transcript: Option<String>)
    ensures
        match transcript {
            Some(path) => {
                &&& input.agent_id is None
                &&& input.transcript_path is Some
                &&& path@ == input.transcript_path->0@
                &&& path@.len() > 0
            },
            None => {
                ||| input.agent_id is Some
                ||| input.transcript_path is None
                ||| input.transcript_path->0@.len() == 0
            },
        },
{
    if input.agent_id.is_some() {
        return None;
    }
    match &input.transcript_path {
        Some(path) => if path.as_str().is_empty() {
            None
        } else {
            Some(path.clone())
        },
        None => None,
    }
}

/// Decides for the named hook with the standard thresholds.  In a sub-agent it
/// never injects, and no state is touched.
pub fn cmd_check(input: &HookInput, hook_name: &str, state_dir: &mut StateDir) -> (decision:
    ThrottleDecision)
    requires
        input.agent_id is None ==> decidable_in(
            old(state_dir)@,
            hook_name@,
            ThrottleConfig::standard(),
        ),
    ensures
        input.agent_id is Some ==> decision == ThrottleDecision::Skip && *final(state_dir)
            == *old(state_dir),
        input.agent_id is None ==> {
            &&& decision == decide_in(old(state_dir)@, hook_name@, ThrottleConfig::standard())
            &&& final(state_dir)@ == dir_after(
                old(state_dir)@,
                hook_name@,
                ThrottleConfig::standard(),
            )
            &&& rest_after(
                *old(state_dir),
                *final(state_dir),
                hook_name@,
                ThrottleConfig::standard(),
            )
        },
{
    if input.agent_id.is_some() {
        return ThrottleDecision::Skip;
    }
    should_reinject(hook_name, &ThrottleConfig::default(), state_dir)
}

/// The status that a check exits with: 0 to inject, 1 not to.
pub fn check_exit_code(decision: &ThrottleDecision) -> (code: i32)
    ensures
        code == if *decision is Inject {
            0i32
        } else {
            1i32
        },
{
    match decision {
        ThrottleDecision::Inject(_) => 0,
        ThrottleDecision::Skip => 1,
    }
}

/// Records the totals of the monitor as the baseline of the hook; zeros where
/// the monitor has not run.
pub fn cmd_record(hook_name: &str, state_dir: &mut StateDir)
    ensures
        final(state_dir)@ == old(state_dir)@.insert(
            hook_name@,
            status_text(current_totals(old(state_dir)@)),
        ),
        written_around(*old(state_dir), *final(state_dir), hook_name@),
{
    let status = match read_monitor_status(state_dir) {
        Some(status) => status,
        None => MonitorStatus::default(),
    };
    record(state_dir, hook_name, &status);
}

/// The line that `parse` prints: the non-thinking and the thinking bytes, or
/// zeros where there is no transcript.
pub fn cmd_parse(counts: Option<(u64, u64)>) -> (line: String)
    ensures
        line@ == match counts {
            Some((nt, th)) => decimal(nt as nat) + seq![' '] + decimal(th as nat),
            None => "0 0"@,
        },
{
    match counts {
        Some((nt, th)) => {
            let mut line = render_u64(nt);
            proof {
                reveal_strlit(" ");
            }
            line.append(" ");
            push_u64(&mut line, th);
            assert(line@ =~= decimal(nt as nat) + seq![' '] + decimal(th as nat));
            line
        },
        None => String::from_str("0 0"),
    }
}

/// Where there is no transcript, `parse` prints what it prints for one without
/// text.
pub proof fn law_missing_transcript_counts_as_empty()
    ensures
        "0 0"@ == decimal(0) + seq![' '] + decimal(0),
{
    reveal_strlit("0 0");
    assert("0 0"@ =~= decimal(0) + seq![' '] + decimal(0));
}

/// A session with an id has the same state directory whatever process asks.
pub proof fn law_session_outlives_processes(
    host: Seq<char>,
    input: HookInput,
    process_id: u32,
    other_process_id: u32,
)
    requires
        input.session_id is Some,
        input.session_id->0@.len() > 0,
    ensures
        state_path(host, session_key(input, process_id)) == state_path(
            host,
            session_key(input, other_process_id),
        ),
{
}

/// The names of the subcommands are six different texts, none of them empty.
proof fn lemma_subcommands_differ()
    ensures
        "monitor"@.len() == 7,
        "check"@.len() == 5,
        "record"@.len() == 6,
        "output"@.len() == 6,
        "reset"@.len() == 5,
        "parse"@.len() == 5,
        ""@.len() == 0,
        "check"@ != "reset"@,
        "check"@ != "parse"@,
        "reset"@ != "parse"@,
        "record"@ != "output"@,
{
    reveal_strlit("monitor");
    reveal_strlit("check");
    reveal_strlit("record");
    reveal_strlit("output");
    reveal_strlit("reset");
    reveal_strlit("parse");
    reveal_strlit("");
    assert("check"@[0] == 'c');
    assert("reset"@[0] == 'r');
    assert("parse"@[0] == 'p');
    assert("record"@[0] == 'r');
    assert("output"@[0] == 'o');
}

/// Each subcommand takes its arguments in order from behind its name.
pub proof fn law_subcommands_take_their_arguments(args: Seq<Seq<char>>)
    requires
        args.len() > 1,
    ensures
        args[1] == "monitor"@ ==> command_of(args) == Ok::<CommandText, CliErrorText>(
            CommandText::Monitor,
        ),
        args[1] == "reset"@ ==> command_of(args) == Ok::<CommandText, CliErrorText>(
            CommandText::Reset,
        ),
        args[1] == "check"@ && args.len() > 2 ==> command_of(args) == Ok::<
            CommandText,
            CliErrorText,
        >(CommandText::Check { hook_name: args[2] }),
        args[1] == "record"@ && args.len() > 2 ==> command_of(args) == Ok::<
            CommandText,
            CliErrorText,
        >(CommandText::Record { hook_name: args[2] }),
        args[1] == "output"@ && args.len() == 4 ==> command_of(args) == Ok::<
            CommandText,
            CliErrorText,
        >(
            CommandText::Output { hook_event: args[2], context: args[3], system_message: None },
        ),
        args[1] == "output"@ && args.len() > 4 ==> command_of(args) == Ok::<
            CommandText,
            CliErrorText,
        >(
            CommandText::Output {
                hook_event: args[2],
                context: args[3],
                system_message: Some(args[4]),
            },
        ),
        args[1] == "parse"@ && args.len() > 3 ==> match u64_of(args[3]) {
            Some(offset) => command_of(args) == Ok::<CommandText, CliErrorText>(
                CommandText::Parse { path: args[2], offset },
            ),
            None => command_of(args) == Err::<CommandText, CliErrorText>(
                CliErrorText::InvalidOffset(args[3]),
            ),
        },
{
    lemma_subcommands_differ();
}

/// A subcommand that lacks an argument is answered by how it is used.  Any other name
/// is an unknown subcommand, and without a name, or with an empty one, there is none.
pub proof fn law_other_arguments_are_refused(args: Seq<Seq<char>>)
    ensures
        args.len() == 2 && args[1] == "check"@ ==> command_of(args) == Err::<
            CommandText,
            CliErrorText,
        >(CliErrorText::MissingArgument("check <hook-name>"@)),
        args.len() == 2 && args[1] == "record"@ ==> command_of(args) == Err::<
            CommandText,
            CliErrorText,
        >(CliErrorText::MissingArgument("record <hook-name>"@)),
        2 <= args.len() <= 3 && args[1] == "output"@ ==> command_of(args) == Err::<
            CommandText,
            CliErrorText,
        >(CliErrorText::MissingArgument("output <hook-event> <context>"@)),
        2 <= args.len() <= 3 && args[1] == "parse"@ ==> command_of(args) == Err::<
            CommandText,
            CliErrorText,
        >(CliErrorText::MissingArgument("parse <transcript-path> <offset>"@)),
        args.len() < 2 || args[1].len() == 0 ==> command_of(args) == Err::<
            CommandText,
            CliErrorText,
        >(CliErrorText::NoSubcommand),
        args.len() > 1 && args[1].len() > 0 && args[1] != "monitor"@ && args[1] != "check"@
            && args[1] != "record"@ && args[1] != "output"@ && args[1] != "reset"@ && args[1]
            != "parse"@ ==> command_of(args) == Err::<CommandText, CliErrorText>(
            CliErrorText::UnknownSubcommand(args[1]),
        ),
{
    lemma_subcommands_differ();
}

/// The name that the program is called by has no say, and neither have arguments
/// beyond those that a subcommand takes.
pub proof fn law_other_arguments_have_no_say(
    args: Seq<Seq<char>>,
    program: Seq<char>,
    more: Seq<Seq<char>>,
)
    requires
        args.len() > 1,
    ensures
        command_of(args.update(0, program)) == command_of(args),
        args.len() > 4 ==> command_of(args + more) == command_of(args),
        command_of(args) is Ok && args[1] != "output"@ ==> command_of(args + more) == command_of(
            args,
        ),
{
    lemma_subcommands_differ();
    assert((args + more)[1] == args[1]);
}

/// A command holds the texts of its arguments, each in its place, and an error the
/// text that it is about.
pub proof fn law_commands_hold_their_texts(
    a: String,
    b: String,
    c: Option<String>,
    offset: u64,
)
    ensures
        (Command::Monitor)@ == CommandText::Monitor,
        (Command::Reset)@ == CommandText::Reset,
        (Command::Check { hook_name: a })@ == (CommandText::Check { hook_name: a@ }),
        (Command::Record { hook_name: a })@ == (CommandText::Record { hook_name: a@ }),
        (Command::Output { hook_event: a, context: b, system_message: c })@ == (
        CommandText::Output {
            hook_event: a@,
            context: b@,
            system_message: match c {
                Some(message) => Some(message@),
                None => None,
            },
        }),
        (Command::Parse { path: a, offset })@ == (CommandText::Parse { path: a@, offset }),
        (CliError::NoSubcommand)@ == CliErrorText::NoSubcommand,
        (CliError::UnknownSubcommand(a))@ == CliErrorText::UnknownSubcommand(a@),
        (CliError::MissingArgument(a))@ == CliErrorText::MissingArgument(a@),
        (CliError::InvalidOffset(a))@ == CliErrorText::InvalidOffset(a@),
{
}

/// An error names what it is about behind what is wrong with it.
pub proof fn law_errors_name_their_subject(subject: Seq<char>)
    ensures
        error_text(CliErrorText::NoSubcommand).len() == 0,
        error_text(CliErrorText::UnknownSubcommand(subject)) == "unknown subcommand: "@ + subject,
        error_text(CliErrorText::MissingArgument(subject))
            == "missing argument — usage: reinject "@ + subject,
        error_text(CliErrorText::InvalidOffset(subject)) == "invalid offset: "@ + subject,
{
}

/// The state directory goes by the session where the input names one.  Otherwise it
/// goes by the process, so that no two processes share it.
pub proof fn law_state_directory_of_the_input(input: HookInput, process_id: u32, other_id: u32)
    ensures
        input.session_id is Some && input.session_id->0@.len() > 0 ==> session_key(
            input,
            process_id,
        ) == input.session_id->0@,
        input.session_id is None || input.session_id->0@.len() == 0 ==> {
            &&& u64_of(session_key(input, process_id)) == Some(process_id as u64)
            &&& session_key(input, process_id) == decimal(process_id as nat)
            &&& process_id != other_id ==> session_key(input, process_id) != session_key(
                input,
                other_id,
            )
        },
{
    law_decimal_round_trip(process_id as u64);
    law_decimal_round_trip(other_id as u64);
}

} // verus!
