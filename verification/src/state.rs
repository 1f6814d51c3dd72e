//! The state files: monitor status, one baseline per hook, transcript offset.
//!
//! All state of a session lives in one directory.  A status file holds plain
//! text: the non-thinking bytes on the first line, the thinking bytes on the
//! second and, where the token usage is known, the tokens on a third.

use vstd::hash_map::StringHashMap;
use vstd::prelude::*;
use vstd::string::StringExecFns;
use crate::text::{
    all_lines, chars_of, decimal, first_line, is_digit, law_decimal_round_trip,
    law_lines_end_at_newlines, lemma_decimal, lemma_decimal_is_trimmed, parse_chars, push_u64,
    render_u64, split_first_line, text_lines, trim, trimmed, u64_of,
};

verus! {

/// Running totals of the monitor, or those that a hook saw when it last
/// injected.
#[derive(Debug, Clone, Copy, PartialEq, Eq, Structural)]
pub struct MonitorStatus {
    /// Non-thinking text bytes observed in the transcript.
    pub non_thinking_bytes: u64,
    /// Thinking bytes observed in the transcript.
    pub thinking_bytes: u64,
    /// Load of the context window in tokens, where the transcript reports it.
    pub usage_tokens: Option<u64>,
}

impl MonitorStatus {
    /// Nothing observed yet.
    pub open spec fn nothing() -> MonitorStatus {
        MonitorStatus { non_thinking_bytes: 0, thinking_bytes: 0, usage_tokens: None }
    }
}

impl Default for MonitorStatus {
    fn default() -> (status: Self)
        ensures
            status == MonitorStatus::nothing(),
    {
        MonitorStatus { non_thinking_bytes: 0, thinking_bytes: 0, usage_tokens: None }
    }
}

// ── The text of the files ────────────────────────────────────────────────────

/// Which line of a status file is no number.
#[derive(Debug, Clone, Copy, PartialEq, Eq, Structural)]
pub enum StateError {
    InvalidFirstLine,
    InvalidSecondLine,
}

/// The number on line `index` of `text`, counted from zero.  White space around
/// it does not matter.  A line that is not there counts as zero.
pub open spec fn number_on_line(text: Seq<char>, index: int) -> Option<u64> {
    if index < text_lines(text).len() {
        u64_of(trimmed(text_lines(text)[index]))
    } else {
        Some(0)
    }
}

/// The tokens on the third line of `text`, if there is such a line and it holds
/// a number.
pub open spec fn tokens_of(text: Seq<char>) -> Option<u64> {
    if text_lines(text).len() > 2 {
        number_on_line(text, 2)
    } else {
        None
    }
}

/// The status that a file with the content `text` holds.
pub open spec fn status_of(text: Seq<char>) -> Option<MonitorStatus> {
    match (number_on_line(text, 0), number_on_line(text, 1)) {
        (Some(non_thinking_bytes), Some(thinking_bytes)) => Some(
            MonitorStatus { non_thinking_bytes, thinking_bytes, usage_tokens: tokens_of(text) },
        ),
        _ => None,
    }
}

/// A number on a line of its own.
pub open spec fn number_line(n: u64) -> Seq<char> {
    decimal(n as nat).push('\n')
}

/// The content of a file that holds `status`.
pub open spec fn status_text(status: MonitorStatus) -> Seq<char> {
    let counts = number_line(status.non_thinking_bytes) + number_line(status.thinking_bytes);
    match status.usage_tokens {
        Some(tokens) => counts + number_line(tokens),
        None => counts,
    }
}

/// The offset that a file with the content `text` holds; zero where there is
/// no such file or it holds no number.
pub open spec fn offset_of(text: Option<Seq<char>>) -> u64 {
    match text {
        Some(t) => match u64_of(trimmed(t)) {
            Some(offset) => offset,
            None => 0,
        },
        None => 0,
    }
}

/// Reads the numbers on the first two lines of `text`.
pub fn read_two_u64(text: &str) -> (numbers: Result<(u64, u64), StateError>)
    ensures
        match numbers {
            Ok((a, b)) => number_on_line(text@, 0) == Some(a) && number_on_line(text@, 1) == Some(
                b,
            ),
            Err(StateError::InvalidFirstLine) => number_on_line(text@, 0) is None,
            Err(StateError::InvalidSecondLine) => number_on_line(text@, 0) is Some
                && number_on_line(text@, 1) is None,
        },
{
    let chars = chars_of(text);
    proof {
        reveal_with_fuel(all_lines, 3);
    }
    let (first, rest) = match split_first_line(chars.as_slice()) {
        Some((line, rest)) => (parse_chars(trim(line)), Some(rest)),
        None => (Some(0), None),
    };
    let second = match rest {
        Some(after_first) => match split_first_line(after_first) {
            Some((line, _)) => parse_chars(trim(line)),
            None => Some(0),
        },
        None => Some(0),
    };
    match (first, second) {
        (None, _) => Err(StateError::InvalidFirstLine),
        (Some(_), None) => Err(StateError::InvalidSecondLine),
        (Some(a), Some(b)) => Ok((a, b)),
    }
}

/// Reads the number on the third line of `text`.
fn read_tokens(text: &str) -> (tokens: Option<u64>)
    ensures
        tokens == tokens_of(text@),
{
    let chars = chars_of(text);
    proof {
        reveal_with_fuel(all_lines, 4);
    }
    match split_first_line(chars.as_slice()) {
        Some((_, after_first)) => match split_first_line(after_first) {
            Some((_, after_second)) => match split_first_line(after_second) {
                Some((line, _)) => parse_chars(trim(line)),
                None => None,
            },
            None => None,
        },
        None => None,
    }
}

/// Two numbers, each on a line of its own.
pub fn write_two_u64(a: u64, b: u64) -> (text: String)
    ensures
        text@ == number_line(a) + number_line(b),
{
    let mut text = String::new();
    push_line(&mut text, a);
    push_line(&mut text, b);
    assert(text@ =~= number_line(a) + number_line(b));
    text
}

fn push_line(text: &mut String, n: u64)
    ensures
        final(text)@ == old(text)@ + number_line(n),
{
    proof {
        reveal_strlit("\n");
    }
    push_u64(text, n);
    text.append("\n");
    assert(text@ =~= old(text)@ + number_line(n));
}

/// The status that a file with the content `text` holds.
pub fn parse_status(text: &str) -> (status: Option<MonitorStatus>)
    ensures
        status == status_of(text@),
{
    match read_two_u64(text) {
        Ok((non_thinking_bytes, thinking_bytes)) => Some(
            MonitorStatus { non_thinking_bytes, thinking_bytes, usage_tokens: read_tokens(text) },
        ),
        Err(_) => None,
    }
}

/// The content of a file that holds `status`.
pub fn render_status(status: &MonitorStatus) -> (text: String)
    ensures
        text@ == status_text(*status),
{
    let mut text = write_two_u64(status.non_thinking_bytes, status.thinking_bytes);
    if let Some(tokens) = status.usage_tokens {
        push_line(&mut text, tokens);
    }
    text
}

// ── The directory ────────────────────────────────────────────────────────────

/// The path of the directory that holds the state of a session, where `host` is
/// the command name of the assistant that runs the hooks.
pub open spec fn state_path(host: Seq<char>, session_id: Seq<char>) -> Seq<char> {
    "/tmp/"@ + host + "-reinject-"@ + session_id
}

/// The path of the directory that holds the state of the session `session_id`,
/// where `host` is the command name, in lower case, of the assistant that runs the
/// hooks.  The shell hooks of that assistant look for the state under this path.
pub fn state_dir(host: &str, session_id: &str) -> (path: String)
    ensures
        path@ == state_path(host@, session_id@),
{
    let mut path = String::from_str("/tmp/");
    path.append(host);
    path.append("-reinject-");
    path.append(session_id);
    path
}

/// Two sessions of one assistant never share a state directory.
pub proof fn law_sessions_are_apart(host: Seq<char>, a: Seq<char>, b: Seq<char>)
    requires
        a != b,
    ensures
        state_path(host, a) != state_path(host, b),
{
    let prefix = "/tmp/"@ + host + "-reinject-"@;
    assert(state_path(host, a).skip(prefix.len() as int) =~= a);
    assert(state_path(host, b).skip(prefix.len() as int) =~= b);
}

/// The entries that stand directly in a directory.
struct Entries {
    files: StringHashMap<String>,
    others: StringHashMap<()>,
}

/// A state directory: its text files, by name, and the names of its entries that
/// are no files.
///
/// A name is a path from the directory.  A name without a slash stands for a
/// file directly in it; one with a slash leads into a subdirectory or elsewhere.
/// Names are taken as they are written.  A file that cannot be read as text is
/// not among the files.
pub struct StateDir {
    /// `None` where the directory does not exist.
    entries: Option<Entries>,
    elsewhere: StringHashMap<String>,
}

/// Whether the name leads out of the directory or into a subdirectory.
pub open spec fn leads_away(name: Seq<char>) -> bool {
    name.contains('/')
}

impl View for StateDir {
    type V = Map<Seq<char>, Seq<char>>;

    /// The text of each file.
    closed spec fn view(&self) -> Map<Seq<char>, Seq<char>> {
        Map::new(
            |name: Seq<char>| self.holder(name) is Some && self.holder(name)->0.contains_key(name),
            |name: Seq<char>| self.holder(name)->0[name]@,
        )
    }
}

impl StateDir {
    /// The files among which `name` is looked up.
    spec fn holder(&self, name: Seq<char>) -> Option<Map<Seq<char>, String>> {
        if leads_away(name) {
            Some(self.elsewhere@)
        } else {
            match self.entries {
                Some(entries) => Some(entries.files@),
                None => None,
            }
        }
    }

    /// Whether the directory exists.
    pub closed spec fn present(&self) -> bool {
        self.entries is Some
    }

    /// The names of the entries directly in the directory that are no regular
    /// files, such as subdirectories.
    pub closed spec fn others(&self) -> Set<Seq<char>> {
        match self.entries {
            Some(entries) => entries.others@.dom(),
            None => Set::empty(),
        }
    }

    /// An existing directory without entries.
    pub fn new() -> (dir: StateDir)
        ensures
            dir@ == Map::<Seq<char>, Seq<char>>::empty(),
            dir.present(),
            dir.others() == Set::<Seq<char>>::empty(),
    {
        let dir = StateDir { entries: Some(no_entries()), elsewhere: StringHashMap::new() };
        assert(dir@ =~= Map::<Seq<char>, Seq<char>>::empty());
        assert(dir.others() =~= Set::<Seq<char>>::empty());
        dir
    }

    /// A directory that does not exist.
    pub fn missing() -> (dir: StateDir)
        ensures
            dir@ == Map::<Seq<char>, Seq<char>>::empty(),
            !dir.present(),
            dir.others() == Set::<Seq<char>>::empty(),
    {
        let dir = StateDir { entries: None, elsewhere: StringHashMap::new() };
        assert(dir@ =~= Map::<Seq<char>, Seq<char>>::empty());
        dir
    }

    /// Whether the directory exists.
    pub fn is_there(&self) -> (there: bool)
        ensures
            there == self.present(),
    {
        self.entries.is_some()
    }

    /// The content of the file `name`.
    pub fn get(&self, name: &str) -> (text: Option<&str>)
        ensures
            match text {
                Some(t) => self@.contains_key(name@) && self@[name@] == t@,
                None => !self@.contains_key(name@),
            },
    {
        let found = if has_slash(name) {
            self.elsewhere.get(name)
        } else {
            match &self.entries {
                Some(entries) => entries.files.get(name),
                None => None,
            }
        };
        match found {
            Some(text) => Some(text.as_str()),
            None => None,
        }
    }

    /// Whether the directory has an entry `name` that is no regular file.
    pub fn has_other(&self, name: &str) -> (has: bool)
        ensures
            has == self.others().contains(name@),
    {
        match &self.entries {
            Some(entries) => entries.others.contains_key(name),
            None => false,
        }
    }

    /// Gives the file `name` the content `text`.  For a file directly in the
    /// directory, the directory is created where it is missing; which directories
    /// a name with a slash takes is not recorded.
    pub fn put(&mut self, name: &str, text: String)
        ensures
            final(self)@ == old(self)@.insert(name@, text@),
            final(self).present() == (old(self).present() || !leads_away(name@)),
            final(self).others() == old(self).others(),
    {
        let ghost content = text@;
        if has_slash(name) {
            self.elsewhere.insert(String::from_str(name), text);
        } else {
            let mut entries = self.take_entries();
            entries.files.insert(String::from_str(name), text);
            self.entries = Some(entries);
        }
        assert(self@ =~= old(self)@.insert(name@, content));
        assert(self.others() =~= old(self).others());
    }

    /// Adds an entry `name` that is no regular file.
    pub fn put_other(&mut self, name: &str)
        ensures
            final(self)@ == old(self)@,
            final(self).present(),
            final(self).others() == old(self).others().insert(name@),
    {
        let mut entries = self.take_entries();
        entries.others.insert(String::from_str(name), ());
        self.entries = Some(entries);
        assert(self@ =~= old(self)@);
        assert(self.others() =~= old(self).others().insert(name@));
    }

    /// Takes the entries out, or starts without any where the directory is
    /// missing.
    fn take_entries(&mut self) -> (entries: Entries)
        ensures
            final(self).elsewhere == old(self).elsewhere,
            final(self).entries is None,
            match old(self).entries {
                Some(e) => entries == e,
                None => entries.files@ == Map::<Seq<char>, String>::empty()
                    && entries.others@ == Map::<Seq<char>, ()>::empty(),
            },
    {
        match self.entries.take() {
            Some(entries) => entries,
            None => no_entries(),
        }
    }
}

fn no_entries() -> (entries: Entries)
    ensures
        entries.files@ == Map::<Seq<char>, String>::empty(),
        entries.others@ == Map::<Seq<char>, ()>::empty(),
{
    Entries { files: StringHashMap::new(), others: StringHashMap::new() }
}

fn has_slash(name: &str) -> (has: bool)
    ensures
        has == leads_away(name@),
{
    let chars = chars_of(name);
    let mut i: usize = 0;
    while i < chars.len()
        invariant
            i <= chars.len(),
            chars@ == name@,
            forall|k: int| 0 <= k < i ==> name@[k] != '/',
        decreases chars.len() - i,
    {
        if chars[i] == '/' {
            assert(name@[i as int] == '/');
            return true;
        }
        i += 1;
    }
    false
}

/// What a write of the file `name` leaves of the rest of the directory: it exists
/// afterwards if the file stands directly in it, and its other entries stay.
/// Which directories a name with a slash takes is not recorded.
pub open spec fn written_around(before: StateDir, after: StateDir, name: Seq<char>) -> bool {
    &&& after.present() == (before.present() || !leads_away(name))
    &&& after.others() == before.others()
}

/// The files that a reset leaves: those that do not stand directly in the
/// directory.
pub open spec fn files_after_reset(dir: Map<Seq<char>, Seq<char>>) -> Map<Seq<char>, Seq<char>> {
    dir.restrict(Set::new(|name: Seq<char>| leads_away(name)))
}

/// What a reset makes of a directory: no file is left directly in it, and all
/// else is as it was, so a directory that does not exist is not created.
pub open spec fn is_reset_of(after: StateDir, before: StateDir) -> bool {
    &&& after@ == files_after_reset(before@)
    &&& after.present() == before.present()
    &&& after.others() == before.others()
}

/// The content of the file `name`, if there is one.
pub open spec fn content(dir: Map<Seq<char>, Seq<char>>, name: Seq<char>) -> Option<Seq<char>> {
    if dir.contains_key(name) {
        Some(dir[name])
    } else {
        None
    }
}

/// The status that the file `name` holds, if there is one that holds a status.
pub open spec fn status_in(dir: Map<Seq<char>, Seq<char>>, name: Seq<char>) -> Option<
    MonitorStatus,
> {
    match content(dir, name) {
        Some(text) => status_of(text),
        None => None,
    }
}

/// The name of the file that holds the totals of the monitor.
pub const MONITOR_STATUS: &'static str = "monitor-status";

/// The name of the file that holds the transcript offset.
pub const MONITOR_OFFSET: &'static str = "monitor-offset";

/// The totals of the monitor, or zeros where it has not run.
pub open spec fn current_totals(dir: Map<Seq<char>, Seq<char>>) -> MonitorStatus {
    match status_in(dir, MONITOR_STATUS@) {
        Some(monitor) => monitor,
        None => MonitorStatus::nothing(),
    }
}

fn read_status(state_dir: &StateDir, name: &str) -> (status: Option<MonitorStatus>)
    ensures
        status == status_in(state_dir@, name@),
{
    match state_dir.get(name) {
        Some(text) => parse_status(text),
        None => None,
    }
}

/// The totals of the monitor, or `None` where no file holds them.
pub fn read_monitor_status(state_dir: &StateDir) -> (status: Option<MonitorStatus>)
    ensures
        status == status_in(state_dir@, MONITOR_STATUS@),
{
    read_status(state_dir, MONITOR_STATUS)
}

/// Writes the totals of the monitor.
pub fn write_monitor_status(state_dir: &mut StateDir, status: &MonitorStatus)
    ensures
        final(state_dir)@ == old(state_dir)@.insert(MONITOR_STATUS@, status_text(*status)),
        written_around(*old(state_dir), *final(state_dir), MONITOR_STATUS@),
{
    state_dir.put(MONITOR_STATUS, render_status(status));
}

/// The baseline of the hook, or `None` where no file holds it.
pub fn read_consumer_state(state_dir: &StateDir, hook_name: &str) -> (status: Option<
    MonitorStatus,
>)
    ensures
        status == status_in(state_dir@, hook_name@),
{
    read_status(state_dir, hook_name)
}

/// Writes the baseline of the hook.
pub fn write_consumer_state(state_dir: &mut StateDir, hook_name: &str, status: &MonitorStatus)
    ensures
        final(state_dir)@ == old(state_dir)@.insert(hook_name@, status_text(*status)),
        written_around(*old(state_dir), *final(state_dir), hook_name@),
{
    state_dir.put(hook_name, render_status(status));
}

/// How far the monitor has read the transcript: zero where no file says so.
pub fn read_offset(state_dir: &StateDir) -> (offset: u64)
    ensures
        offset == offset_of(content(state_dir@, MONITOR_OFFSET@)),
{
    match state_dir.get(MONITOR_OFFSET) {
        Some(text) => {
            let chars = chars_of(text);
            match parse_chars(trim(chars.as_slice())) {
                Some(offset) => offset,
                None => 0,
            }
        },
        None => 0,
    }
}

/// Writes how far the monitor has read the transcript.
pub fn write_offset(state_dir: &mut StateDir, offset: u64)
    ensures
        final(state_dir)@ == old(state_dir)@.insert(MONITOR_OFFSET@, decimal(offset as nat)),
        written_around(*old(state_dir), *final(state_dir), MONITOR_OFFSET@),
{
    state_dir.put(MONITOR_OFFSET, render_u64(offset));
}

/// Removes all files that stand directly in the directory, after a compaction.
/// Subdirectories and what they hold stay, and a directory that does not exist is
/// not created.
pub fn reset_state(state_dir: &mut StateDir)
    ensures
        is_reset_of(*final(state_dir), *old(state_dir)),
{
    if let Some(mut entries) = state_dir.entries.take() {
        entries.files.clear();
        state_dir.entries = Some(entries);
    }
    assert(state_dir@ =~= files_after_reset(old(state_dir)@));
    assert(state_dir.others() =~= old(state_dir).others());
}

// ── Laws ─────────────────────────────────────────────────────────────────────

/// A number on its own line is the first line of what starts with it.
proof fn lemma_number_line_splits(n: u64, rest: Seq<char>)
    ensures
        first_line(number_line(n) + rest, '\n', '\r') == Some((decimal(n as nat), rest)),
{
    let digits = decimal(n as nat);
    let s = number_line(n) + rest;
    lemma_decimal(n as nat);
    let end = digits.len() as int;
    assert(s[end] == '\n');
    assert(s.contains('\n'));
    s.index_of_first_ensures('\n');
    let found = s.index_of_first('\n')->0;
    if found < end {
        assert(s[found] == digits[found]);
        assert(is_digit(digits[found]));
    }
    assert(found == end);
    assert(s.take(end) =~= digits);
    assert(s.skip(end + 1) =~= rest);
    assert(is_digit(digits.last()));
}

/// Reading a status back gives the status that was written.
pub proof fn law_status_round_trip(status: MonitorStatus)
    ensures
        status_of(status_text(status)) == Some(status),
{
    reveal_with_fuel(all_lines, 4);
    let nt = status.non_thinking_bytes;
    let th = status.thinking_bytes;
    let last = match status.usage_tokens {
        Some(tokens) => number_line(tokens),
        None => Seq::empty(),
    };
    let text = status_text(status);
    assert(text =~= number_line(nt) + (number_line(th) + last));
    lemma_number_line_splits(nt, number_line(th) + last);
    lemma_number_line_splits(th, last);
    law_decimal_round_trip(nt);
    law_decimal_round_trip(th);
    lemma_decimal_is_trimmed(nt as nat);
    lemma_decimal_is_trimmed(th as nat);
    let lines = text_lines(text);
    match status.usage_tokens {
        Some(tokens) => {
            assert(last =~= number_line(tokens) + Seq::empty());
            lemma_number_line_splits(tokens, Seq::empty());
            law_decimal_round_trip(tokens);
            lemma_decimal_is_trimmed(tokens as nat);
            assert(lines =~= seq![decimal(nt as nat), decimal(th as nat), decimal(tokens as nat)]);
        },
        None => {
            assert(lines =~= seq![decimal(nt as nat), decimal(th as nat)]);
        },
    }
}

/// A hook reads back the baseline that was written for it, and the monitor the
/// totals that were written for it.
pub proof fn law_read_gives_back_write(
    dir: Map<Seq<char>, Seq<char>>,
    name: Seq<char>,
    status: MonitorStatus,
)
    ensures
        status_in(dir.insert(name, status_text(status)), name) == Some(status),
{
    law_status_round_trip(status);
}

/// The monitor reads back the offset that was written.
pub proof fn law_offset_round_trip(dir: Map<Seq<char>, Seq<char>>, offset: u64)
    ensures
        offset_of(
            content(dir.insert(MONITOR_OFFSET@, decimal(offset as nat)), MONITOR_OFFSET@),
        ) == offset,
{
    law_decimal_round_trip(offset);
    lemma_decimal_is_trimmed(offset as nat);
}

/// Writing one file leaves what any other file holds as it was: hooks do not
/// disturb one another, nor the monitor.
pub proof fn law_writes_do_not_interfere(
    dir: Map<Seq<char>, Seq<char>>,
    written: Seq<char>,
    text: Seq<char>,
    other: Seq<char>,
)
    requires
        other != written,
    ensures
        content(dir.insert(written, text), other) == content(dir, other),
        status_in(dir.insert(written, text), other) == status_in(dir, other),
{
}

/// The files of the monitor stand directly in the directory.
pub proof fn lemma_monitor_files_are_direct()
    ensures
        !leads_away(MONITOR_STATUS@),
        !leads_away(MONITOR_OFFSET@),
{
    reveal_strlit("monitor-status");
    reveal_strlit("monitor-offset");
}

/// After a reset no file directly in the directory is left, whatever was there:
/// none holds a status, the monitor has no totals, and the offset is zero.
pub proof fn law_reset_forgets(dir: Map<Seq<char>, Seq<char>>, name: Seq<char>)
    requires
        !leads_away(name),
    ensures
        content(files_after_reset(dir), name) is None,
        status_in(files_after_reset(dir), name) is None,
        status_in(files_after_reset(dir), MONITOR_STATUS@) is None,
        offset_of(content(files_after_reset(dir), MONITOR_OFFSET@)) == 0,
{
    lemma_monitor_files_are_direct();
}

/// A reset touches nothing but the files directly in the directory.
pub proof fn law_reset_spares_the_rest(before: StateDir, after: StateDir, name: Seq<char>)
    requires
        is_reset_of(after, before),
        leads_away(name),
    ensures
        content(after@, name) == content(before@, name),
        after.others() == before.others(),
        after.present() == before.present(),
{
}

/// A reset of a directory that does not exist changes nothing.
pub proof fn law_reset_of_missing_dir_changes_nothing(before: StateDir, after: StateDir)
    requires
        is_reset_of(after, before),
        !before.present(),
    ensures
        after@ == before@,
        !after.present(),
        after.others() == before.others(),
{
    assert forall|name: Seq<char>| before@.contains_key(name) implies leads_away(name) by {
        assert(before.holder(name) is Some);
    }
    assert(after@ =~= before@);
}

/// A second reset changes nothing.
pub proof fn law_second_reset_changes_nothing(
    before: StateDir,
    after: StateDir,
    after_second: StateDir,
)
    requires
        is_reset_of(after, before),
        is_reset_of(after_second, after),
    ensures
        after_second@ == after@,
        after_second.present() == after.present(),
        after_second.others() == after.others(),
{
    assert(after_second@ =~= after@);
}

/// A status file holds the non-thinking bytes on its first line and the thinking
/// bytes on its second.  A third line holds the tokens, exactly where they are known.
/// Each line ends in a newline.
pub proof fn law_status_file_lines(status: MonitorStatus)
    ensures
        all_lines(status_text(status), '\n', '\r') == match status.usage_tokens {
            Some(tokens) => seq![
                decimal(status.non_thinking_bytes as nat),
                decimal(status.thinking_bytes as nat),
                decimal(tokens as nat),
            ],
            None => seq![
                decimal(status.non_thinking_bytes as nat),
                decimal(status.thinking_bytes as nat),
            ],
        },
        status_text(status).len() > 0,
        status_text(status).last() == '\n',
        !status_text(status).contains('\r'),
{
    let nt = decimal(status.non_thinking_bytes as nat);
    let th = decimal(status.thinking_bytes as nat);
    let last = match status.usage_tokens {
        Some(tokens) => number_line(tokens),
        None => Seq::empty(),
    };
    lemma_decimal(status.non_thinking_bytes as nat);
    lemma_decimal(status.thinking_bytes as nat);
    assert(!nt.contains('\n')) by {
        if nt.contains('\n') {
            let i = choose|i: int| 0 <= i < nt.len() && nt[i] == '\n';
            assert(is_digit(nt[i]));
        }
    }
    assert(!th.contains('\n')) by {
        if th.contains('\n') {
            let i = choose|i: int| 0 <= i < th.len() && th[i] == '\n';
            assert(is_digit(th[i]));
        }
    }
    let text = status_text(status);
    assert(text =~= nt.push('\n') + (th.push('\n') + last));
    assert(is_digit(nt.last()));
    assert(is_digit(th.last()));
    law_lines_end_at_newlines(nt, th.push('\n') + last, '\n', '\r');
    law_lines_end_at_newlines(th, last, '\n', '\r');
    if let Some(tokens) = status.usage_tokens {
        let tok = decimal(tokens as nat);
        lemma_decimal(tokens as nat);
        assert(!tok.contains('\n')) by {
            if tok.contains('\n') {
                let i = choose|i: int| 0 <= i < tok.len() && tok[i] == '\n';
                assert(is_digit(tok[i]));
            }
        }
        assert(is_digit(tok.last()));
        assert(last =~= tok.push('\n') + Seq::empty());
        law_lines_end_at_newlines(tok, Seq::empty(), '\n', '\r');
        assert(all_lines(text, '\n', '\r') =~= seq![nt, th, tok]);
    } else {
        assert(all_lines(text, '\n', '\r') =~= seq![nt, th]);
    }
    if text.contains('\r') {
        let i = choose|i: int| 0 <= i < text.len() && text[i] == '\r';
        if i < nt.len() {
            assert(is_digit(nt[i]));
        } else if nt.len() < i < nt.len() + 1 + th.len() {
            assert(is_digit(th[i - nt.len() - 1]));
        } else if let Some(tokens) = status.usage_tokens {
            let j = i - nt.len() - th.len() - 2;
            lemma_decimal(tokens as nat);
            if 0 <= j < decimal(tokens as nat).len() {
                assert(is_digit(decimal(tokens as nat)[j]));
            }
        }
    }
}

/// A status is read from the lines of the file, each without the white space around
/// it: non-thinking bytes from the first, thinking bytes from the second, tokens from
/// the third.  Either of the first two counts as zero where it is not there, and
/// spoils the status where it is no number.  A third line that is no number is as
/// good as none, and further lines have no say.
pub proof fn law_status_is_read_from_lines(text: Seq<char>)
    ensures
        ({
            let lines = all_lines(text, '\n', '\r');
            let numbers = lines.map_values(|line: Seq<char>| u64_of(trimmed(line)));
            &&& status_of(text) is Some <==> (lines.len() > 0 ==> numbers[0] is Some) && (lines.len()
                > 1 ==> numbers[1] is Some)
            &&& status_of(text) matches Some(status) ==> {
                &&& lines.len() == 0 ==> status.non_thinking_bytes == 0
                &&& lines.len() > 0 ==> numbers[0] == Some(status.non_thinking_bytes)
                &&& lines.len() <= 1 ==> status.thinking_bytes == 0
                &&& lines.len() > 1 ==> numbers[1] == Some(status.thinking_bytes)
                &&& lines.len() <= 2 ==> status.usage_tokens is None
                &&& lines.len() > 2 ==> numbers[2] == status.usage_tokens
            }
        }),
{
}

/// The number on a line is what the line holds, white space around it aside, and zero
/// where there is no such line.  A number is written as its digits and a newline.
pub proof fn law_numbers_on_lines(text: Seq<char>, index: int)
    requires
        0 <= index,
    ensures
        ({
            let lines = all_lines(text, '\n', '\r');
            &&& index < lines.len() ==> number_on_line(text, index) == u64_of(trimmed(lines[index]))
            &&& index >= lines.len() ==> number_on_line(text, index) == Some(0u64)
        }),
        forall|n: u64| #[trigger] number_line(n) == decimal(n as nat) + seq!['\n'],
{
    assert forall|n: u64| #[trigger] number_line(n) == decimal(n as nat) + seq!['\n'] by {
        assert(number_line(n) =~= decimal(n as nat) + seq!['\n']);
    }
}

/// An offset is the number that the file holds, white space around it aside.  A file
/// that is missing or holds no number counts as zero.
pub proof fn law_offset_is_read(text: Seq<char>)
    ensures
        u64_of(trimmed(text)) matches Some(n) ==> offset_of(Some(text)) == n,
        u64_of(trimmed(text)) is None ==> offset_of(Some(text)) == 0,
        offset_of(None) == 0,
{
}

/// The state directory of a session stands in `/tmp`, under the name of the assistant,
/// `-reinject-` and the session.
pub proof fn law_state_directory_is_named(host: Seq<char>, session_id: Seq<char>)
    ensures
        "/tmp/"@.is_prefix_of(state_path(host, session_id)),
        (host + "-reinject-"@).is_prefix_of(
            state_path(host, session_id).skip("/tmp/"@.len() as int),
        ),
        state_path(host, session_id).skip(("/tmp/"@ + host + "-reinject-"@).len() as int)
            == session_id,
{
    let path = state_path(host, session_id);
    assert(path.skip("/tmp/"@.len() as int) =~= host + "-reinject-"@ + session_id);
    assert(path.skip(("/tmp/"@ + host + "-reinject-"@).len() as int) =~= session_id);
}

/// The monitor keeps its totals in the file `monitor-status` and its offset in the
/// file `monitor-offset`, which are two files.
pub proof fn law_monitor_file_names()
    ensures
        MONITOR_STATUS@ == "monitor-status"@,
        MONITOR_OFFSET@ == "monitor-offset"@,
        MONITOR_STATUS@ != MONITOR_OFFSET@,
{
    reveal_strlit("monitor-status");
    reveal_strlit("monitor-offset");
    assert("monitor-status"@[8] != "monitor-offset"@[8]);
}

/// What a file is read as depends on its own text alone; where it is missing there is
/// nothing to read.
pub proof fn law_files_are_read_by_name(
    dir: Map<Seq<char>, Seq<char>>,
    name: Seq<char>,
    text: Seq<char>,
)
    ensures
        content(dir.insert(name, text), name) == Some(text),
        content(dir.remove(name), name) is None,
        status_in(dir.insert(name, text), name) == status_of(text),
        status_in(dir.remove(name), name) is None,
{
}

/// A reset removes exactly the files whose names have no slash, and changes nothing
/// else.
pub proof fn law_reset_removes_direct_files(before: StateDir, after: StateDir, name: Seq<char>)
    requires
        is_reset_of(after, before),
    ensures
        after@.contains_key(name) <==> before@.contains_key(name) && name.contains('/'),
        after@.contains_key(name) ==> after@[name] == before@[name],
        after.present() == before.present(),
        after.others() == before.others(),
{
}

/// A write leaves the entries that are no files, and brings the directory into being
/// where the name of the file has no slash.
pub proof fn law_write_around(before: StateDir, after: StateDir, name: Seq<char>)
    requires
        written_around(before, after, name),
    ensures
        after.others() == before.others(),
        before.present() ==> after.present(),
        !name.contains('/') ==> after.present(),
        name.contains('/') && !before.present() ==> !after.present(),
{
}

} // verus!
