//! Throttling for context injected into a long-running assistant session.
//!
//! A monitor counts the text that a JSONL transcript gains and keeps running
//! totals in a status file.  Each hook keeps the totals it saw when it last
//! injected its context.  From the two readings the library decides whether
//! the injected context has drifted so far that it has to be injected again.
//!
//! The library computes; it never touches a file.  A [`state::StateDir`] holds
//! the text of the state files, and the program around the library reads it
//! from disk and writes it back.

pub mod cli;
pub mod json;
pub mod monitor;
pub mod output;
pub mod parser;
pub mod state;
pub mod text;
pub mod throttle;
pub mod transcript;
pub mod types;

pub use cli::{parse_command, CliError, Command, HookInput};
pub use monitor::update_monitor;
pub use output::hook_output;
pub use parser::{parse_latest_usage, parse_transcript_delta, TranscriptLine, Usage};
pub use state::{
    read_consumer_state, read_monitor_status, read_offset, reset_state, state_dir,
    write_consumer_state, write_monitor_status, write_offset, MonitorStatus, StateDir,
};
pub use throttle::{record, should_reinject};
pub use transcript::{delta_lines, usage_lines};
pub use types::{InjectReason, ThrottleConfig, ThrottleDecision};
