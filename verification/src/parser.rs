//! What a parsed transcript holds: text byte counts and token usage.
//!
//! The bytes of thinking blocks are counted apart from those of all other
//! text.  The usage blocks that assistant entries carry give the true load of
//! the context window, in tokens.

use vstd::prelude::*;
use vstd::utf8::encode_utf8;
use crate::json::{json_text, value_text};
use crate::text::{byte_len, option_texts_of, same_text, text_of};
use crate::transcript::{
    law_appended_lines_join_the_delta, law_search_covers_appended_lines, lines_from,
    lines_to_search, non_empty, read_lines, readable,
};

verus! {

/// One line of the transcript.
pub struct TranscriptLine {
    pub message: Option<Message>,
    /// The kind of entry, such as `assistant` or `user`.
    pub entry_type: Option<String>,
}

pub struct Message {
    pub content: Option<Content>,
    pub usage: Option<Usage>,
}

/// Token usage of one turn, as an assistant entry reports it.
///
/// All four fields contribute to the load of the context window.
#[derive(Debug, Clone, Copy, PartialEq, Eq, Structural)]
pub struct Usage {
    /// Tokens in the user and system input of the request.
    pub input_tokens: u64,
    /// Tokens that this turn wrote to the prompt cache.
    pub cache_creation_input_tokens: u64,
    /// Tokens that this turn read from the prompt cache.
    pub cache_read_input_tokens: u64,
    /// Tokens that the model emitted on this turn.
    pub output_tokens: u64,
}

/// Content is a plain string or a list of typed blocks.
pub enum Content {
    Plain(String),
    Blocks(Vec<ContentBlock>),
}

/// A typed block within a message.
pub enum ContentBlock {
    Thinking { thinking: Option<String> },
    Text { text: Option<String> },
    ToolUse { input: Option<serde_json::Value> },
    ToolResult { content: Option<ToolResultContent> },
    /// Any other kind of block, such as an image.
    Unknown,
}

/// What a tool gave back: a string or a list of parts.
pub enum ToolResultContent {
    Plain(String),
    Parts(Vec<ToolResultPart>),
}

pub struct ToolResultPart {
    pub text: Option<String>,
}

// ── Token usage ──────────────────────────────────────────────────────────────

impl Usage {
    /// The sum of the four fields.
    pub open spec fn sum(self) -> nat {
        (self.input_tokens + self.cache_creation_input_tokens + self.cache_read_input_tokens
            + self.output_tokens) as nat
    }

    /// The load of the context window on the turn that reported this usage:
    /// the sum of the four fields.
    #[must_use]
    pub fn total(&self) -> (total: u64)
        requires
            self.sum() <= u64::MAX,
        ensures
            total == self.sum(),
            total == self.input_tokens + self.cache_creation_input_tokens
                + self.cache_read_input_tokens + self.output_tokens,
    {
        self.input_tokens + self.cache_creation_input_tokens + self.cache_read_input_tokens
            + self.output_tokens
    }

    /// The sum of the four fields, or `None` where it exceeds 64 bits.
    #[must_use]
    pub fn checked_total(&self) -> (total: Option<u64>)
        ensures
            match total {
                Some(n) => n == self.sum(),
                None => self.sum() > u64::MAX,
            },
    {
        let sum: u128 = self.input_tokens as u128 + self.cache_creation_input_tokens as u128
            + self.cache_read_input_tokens as u128 + self.output_tokens as u128;
        if sum <= u64::MAX as u128 {
            Some(self.total())
        } else {
            None
        }
    }
}

impl Default for Usage {
    /// No tokens at all.
    fn default() -> (usage: Self)
        ensures
            usage.sum() == 0,
    {
        Usage {
            input_tokens: 0,
            cache_creation_input_tokens: 0,
            cache_read_input_tokens: 0,
            output_tokens: 0,
        }
    }
}

/// Whether the entry stands for an assistant turn: it is marked as one, or not
/// marked at all.
pub open spec fn is_assistant(line: TranscriptLine) -> bool {
    match line.entry_type {
        Some(kind) => kind@ == "assistant"@,
        None => true,
    }
}

/// The usage that a line reports.  Usage without any tokens is no report: it
/// stands on entries that continue a turn.
pub open spec fn reported_usage(line: Option<TranscriptLine>) -> Option<Usage> {
    match line {
        Some(entry) => match entry.message {
            Some(message) => match message.usage {
                Some(usage) => if is_assistant(entry) && usage.sum() > 0 {
                    Some(usage)
                } else {
                    None
                },
                None => None,
            },
            None => None,
        },
        None => None,
    }
}

/// The usage that the last of the reporting lines reports.
pub open spec fn latest_usage(lines: Seq<Option<TranscriptLine>>) -> Option<Usage>
    decreases lines.len(),
{
    if lines.len() == 0 {
        None
    } else {
        match reported_usage(lines.last()) {
            Some(usage) => Some(usage),
            None => latest_usage(lines.drop_last()),
        }
    }
}

/// The most recent token usage that an assistant entry reports.
///
/// `lines` holds what the lines of the transcript parse as, in order, with
/// `None` for a line that does not parse.
pub fn parse_latest_usage(lines: &Vec<Option<TranscriptLine>>) -> (latest: Option<Usage>)
    ensures
        latest == latest_usage(lines@),
{
    let mut latest: Option<Usage> = None;
    let mut i: usize = 0;
    while i < lines.len()
        invariant
            i <= lines.len(),
            latest == latest_usage(lines@.take(i as int)),
        decreases lines.len() - i,
    {
        assert(lines@.take(i + 1).drop_last() =~= lines@.take(i as int));
        if let Some(entry) = &lines[i] {
            let assistant = match &entry.entry_type {
                Some(kind) => same_text(kind.as_str(), "assistant"),
                None => true,
            };
            if assistant {
                if let Some(message) = &entry.message {
                    if let Some(usage) = message.usage {
                        if usage.input_tokens > 0 || usage.cache_creation_input_tokens > 0
                            || usage.cache_read_input_tokens > 0 || usage.output_tokens > 0 {
                            latest = Some(usage);
                        }
                    }
                }
            }
        }
        i += 1;
    }
    assert(lines@.take(lines.len() as int) =~= lines@);
    latest
}

/// What is appended to a transcript decides: its latest usage stands, and only
/// where it reports none does the earlier one remain.
pub proof fn law_later_usage_wins(
    earlier: Seq<Option<TranscriptLine>>,
    later: Seq<Option<TranscriptLine>>,
)
    ensures
        latest_usage(earlier + later) == match latest_usage(later) {
            Some(usage) => Some(usage),
            None => latest_usage(earlier),
        },
    decreases later.len(),
{
    if later.len() == 0 {
        assert(earlier + later =~= earlier);
    } else {
        assert((earlier + later).drop_last() =~= earlier + later.drop_last());
        law_later_usage_wins(earlier, later.drop_last());
    }
}

/// The latest usage is never one without tokens.
pub proof fn law_latest_usage_has_tokens(lines: Seq<Option<TranscriptLine>>)
    ensures
        latest_usage(lines) matches Some(usage) ==> usage.sum() > 0,
    decreases lines.len(),
{
    if lines.len() > 0 {
        law_latest_usage_has_tokens(lines.drop_last());
    }
}

/// A report stands as the latest usage of a transcript that ends in it.  A line
/// reports its usage where it is marked as an assistant entry, or not marked at all,
/// and any of the four fields has tokens; what else its message holds has no say.
pub proof fn law_last_report_stands(
    lines: Seq<Option<TranscriptLine>>,
    line: TranscriptLine,
    message: Message,
    usage: Usage,
)
    requires
        line.message == Some(message),
        message.usage == Some(usage),
        line.entry_type matches Some(kind) ==> kind@ == "assistant"@,
        usage.input_tokens != 0 || usage.cache_creation_input_tokens != 0
            || usage.cache_read_input_tokens != 0 || usage.output_tokens != 0,
    ensures
        latest_usage(lines.push(Some(line))) == Some(usage),
{
    assert(lines.push(Some(line)).last() == Some(line));
}

/// Any other line leaves the latest usage as it was: one that does not parse, has
/// no message or no usage, has no tokens in its usage, or is marked as another kind
/// of entry.  Before any line there is no usage.
pub proof fn law_other_lines_report_nothing(
    lines: Seq<Option<TranscriptLine>>,
    line: Option<TranscriptLine>,
)
    requires
        line matches Some(entry) ==> {
            ||| entry.message is None
            ||| entry.message->0.usage is None
            ||| entry.message->0.usage->0 == (Usage {
                input_tokens: 0,
                cache_creation_input_tokens: 0,
                cache_read_input_tokens: 0,
                output_tokens: 0,
            })
            ||| entry.entry_type is Some && entry.entry_type->0@ != "assistant"@
        },
    ensures
        latest_usage(lines.push(line)) == latest_usage(lines),
        latest_usage(Seq::empty()) is None,
{
    assert(lines.push(line).last() == line);
    assert(lines.push(line).drop_last() =~= lines);
}

/// Content has no say in the latest usage: transcripts whose lines agree in kind and
/// usage agree in their latest usage.
pub proof fn law_content_has_no_say_in_usage(
    lines: Seq<Option<TranscriptLine>>,
    others: Seq<Option<TranscriptLine>>,
)
    requires
        lines.len() == others.len(),
        forall|i: int|
            0 <= i < lines.len() ==> {
                &&& #[trigger] lines[i] is Some == others[i] is Some
                &&& lines[i] is Some ==> {
                    &&& text_of(lines[i]->0.entry_type) == text_of(others[i]->0.entry_type)
                    &&& lines[i]->0.message is Some == others[i]->0.message is Some
                    &&& lines[i]->0.message is Some ==> lines[i]->0.message->0.usage
                        == others[i]->0.message->0.usage
                }
            },
    ensures
        latest_usage(lines) == latest_usage(others),
    decreases lines.len(),
{
    if lines.len() > 0 {
        assert(lines.last() == lines[lines.len() - 1]);
        law_content_has_no_say_in_usage(lines.drop_last(), others.drop_last());
    }
}

/// Every field of a usage counts in full: tokens added to any of the four are added
/// to the sum, and without tokens the sum is zero.
pub proof fn law_every_usage_field_counts(usage: Usage, more: Usage)
    requires
        more.input_tokens >= usage.input_tokens,
        more.cache_creation_input_tokens >= usage.cache_creation_input_tokens,
        more.cache_read_input_tokens >= usage.cache_read_input_tokens,
        more.output_tokens >= usage.output_tokens,
    ensures
        more.sum() - usage.sum() == (more.input_tokens - usage.input_tokens) + (
        more.cache_creation_input_tokens - usage.cache_creation_input_tokens) + (
        more.cache_read_input_tokens - usage.cache_read_input_tokens) + (more.output_tokens
            - usage.output_tokens),
        (Usage {
            input_tokens: 0,
            cache_creation_input_tokens: 0,
            cache_read_input_tokens: 0,
            output_tokens: 0,
        }).sum() == 0,
{
}

// ── Text bytes ───────────────────────────────────────────────────────────────

/// Two byte counts: of non-thinking text and of thinking.
pub struct Bytes {
    pub non_thinking: nat,
    pub thinking: nat,
}

impl Bytes {
    pub open spec fn zero() -> Bytes {
        Bytes { non_thinking: 0, thinking: 0 }
    }

    pub open spec fn plus(self, other: Bytes) -> Bytes {
        Bytes {
            non_thinking: self.non_thinking + other.non_thinking,
            thinking: self.thinking + other.thinking,
        }
    }

    /// Whether both counts fit into 64 bits.
    pub open spec fn fit(self) -> bool {
        self.non_thinking <= u64::MAX && self.thinking <= u64::MAX
    }

    /// Whether the pair `counts` holds these counts.
    pub open spec fn are(self, counts: (u64, u64)) -> bool {
        self.non_thinking == counts.0 && self.thinking == counts.1
    }
}

/// The bytes of a text that may be missing.
pub open spec fn optional_bytes(text: Option<String>) -> nat {
    match text {
        Some(s) => byte_len(s@),
        None => 0,
    }
}

pub open spec fn parts_bytes(parts: Seq<ToolResultPart>) -> nat
    decreases parts.len(),
{
    if parts.len() == 0 {
        0
    } else {
        parts_bytes(parts.drop_last()) + optional_bytes(parts.last().text)
    }
}

/// The bytes of all text that a tool gave back.
pub open spec fn tool_result_bytes(content: ToolResultContent) -> nat {
    match content {
        ToolResultContent::Plain(s) => byte_len(s@),
        ToolResultContent::Parts(parts) => parts_bytes(parts@),
    }
}

/// The JSON text of the input of a tool-use block that has one.
pub open spec fn input_text(block: ContentBlock) -> Option<Seq<char>> {
    match block {
        ContentBlock::ToolUse { input: Some(value) } => Some(json_text(value)),
        _ => None,
    }
}

/// The bytes of one block, where `input` is the JSON text of its tool input.
pub open spec fn block_bytes(block: ContentBlock, input: Option<Seq<char>>) -> Bytes {
    match block {
        ContentBlock::Thinking { thinking } => Bytes {
            non_thinking: 0,
            thinking: optional_bytes(thinking),
        },
        ContentBlock::Text { text } => Bytes { non_thinking: optional_bytes(text), thinking: 0 },
        ContentBlock::ToolUse { .. } => match input {
            Some(text) => Bytes { non_thinking: byte_len(text), thinking: 0 },
            None => Bytes::zero(),
        },
        ContentBlock::ToolResult { content: Some(content) } => Bytes {
            non_thinking: tool_result_bytes(content),
            thinking: 0,
        },
        ContentBlock::ToolResult { content: None } => Bytes::zero(),
        ContentBlock::Unknown => Bytes::zero(),
    }
}

/// The bytes of all blocks, where `inputs` holds the JSON text of each block's
/// tool input.
pub open spec fn blocks_bytes(
    blocks: Seq<ContentBlock>,
    inputs: Seq<Option<Seq<char>>>,
) -> Bytes
    decreases blocks.len(),
{
    if blocks.len() == 0 {
        Bytes::zero()
    } else {
        blocks_bytes(blocks.drop_last(), inputs.drop_last()).plus(
            block_bytes(blocks.last(), inputs.last()),
        )
    }
}

/// The JSON text of the tool input of each block.
pub open spec fn input_texts(blocks: Seq<ContentBlock>) -> Seq<Option<Seq<char>>> {
    blocks.map_values(|block: ContentBlock| input_text(block))
}

/// The bytes of one transcript line.
pub open spec fn line_bytes(line: TranscriptLine) -> Bytes {
    match line.message {
        Some(message) => match message.content {
            Some(Content::Plain(s)) => Bytes { non_thinking: byte_len(s@), thinking: 0 },
            Some(Content::Blocks(blocks)) => blocks_bytes(blocks@, input_texts(blocks@)),
            None => Bytes::zero(),
        },
        None => Bytes::zero(),
    }
}

/// The bytes of all lines that parse.
pub open spec fn lines_bytes(lines: Seq<Option<TranscriptLine>>) -> Bytes
    decreases lines.len(),
{
    if lines.len() == 0 {
        Bytes::zero()
    } else {
        let before = lines_bytes(lines.drop_last());
        match lines.last() {
            Some(line) => before.plus(line_bytes(line)),
            None => before,
        }
    }
}

fn checked_sum(a: u64, b: u64) -> (sum: Option<u64>)
    ensures
        match sum {
            Some(n) => n == a + b,
            None => a + b > u64::MAX,
        },
{
    if a <= u64::MAX - b {
        Some(a + b)
    } else {
        None
    }
}

fn text_bytes(text: &str) -> (bytes: u64)
    ensures
        bytes == byte_len(text@),
{
    text.as_bytes().len() as u64
}

fn optional_text_bytes(text: &Option<String>) -> (bytes: u64)
    ensures
        bytes == optional_bytes(*text),
{
    match text {
        Some(s) => text_bytes(s.as_str()),
        None => 0,
    }
}

proof fn lemma_parts_bytes_grow(parts: Seq<ToolResultPart>, n: int)
    requires
        0 <= n <= parts.len(),
    ensures
        parts_bytes(parts.take(n)) <= parts_bytes(parts),
    decreases parts.len(),
{
    if n < parts.len() {
        lemma_parts_bytes_grow(parts.drop_last(), n);
        assert(parts.drop_last().take(n) =~= parts.take(n));
    } else {
        assert(parts.take(n) =~= parts);
    }
}

/// The bytes of all text that a tool gave back, or `None` where the count
/// exceeds 64 bits.
pub fn try_count_tool_result_bytes(content: &ToolResultContent) -> (bytes: Option<u64>)
    ensures
        match bytes {
            Some(n) => n == tool_result_bytes(*content),
            None => tool_result_bytes(*content) > u64::MAX,
        },
{
    match content {
        ToolResultContent::Plain(s) => Some(text_bytes(s.as_str())),
        ToolResultContent::Parts(parts) => {
            let mut total: u64 = 0;
            let mut i: usize = 0;
            while i < parts.len()
                invariant
                    i <= parts.len(),
                    total == parts_bytes(parts@.take(i as int)),
                    tool_result_bytes(*content) == parts_bytes(parts@),
                decreases parts.len() - i,
            {
                proof {
                    assert(parts@.take(i + 1).drop_last() =~= parts@.take(i as int));
                    lemma_parts_bytes_grow(parts@, i + 1);
                }
                match checked_sum(total, optional_text_bytes(&parts[i].text)) {
                    Some(sum) => {
                        total = sum;
                    },
                    None => {
                        return None;
                    },
                }
                i += 1;
            }
            assert(parts@.take(parts.len() as int) =~= parts@);
            Some(total)
        },
    }
}

/// The bytes of all text that a tool gave back.
pub fn count_tool_result_bytes(content: &ToolResultContent) -> (bytes: u64)
    requires
        tool_result_bytes(*content) <= u64::MAX,
    ensures
        bytes == tool_result_bytes(*content),
{
    try_count_tool_result_bytes(content).unwrap()
}

proof fn lemma_blocks_bytes_grow(
    blocks: Seq<ContentBlock>,
    inputs: Seq<Option<Seq<char>>>,
    n: int,
)
    requires
        0 <= n <= blocks.len(),
        inputs.len() == blocks.len(),
    ensures
        blocks_bytes(blocks.take(n), inputs.take(n)).non_thinking <= blocks_bytes(
            blocks,
            inputs,
        ).non_thinking,
        blocks_bytes(blocks.take(n), inputs.take(n)).thinking <= blocks_bytes(
            blocks,
            inputs,
        ).thinking,
    decreases blocks.len(),
{
    if n < blocks.len() {
        lemma_blocks_bytes_grow(blocks.drop_last(), inputs.drop_last(), n);
        assert(blocks.drop_last().take(n) =~= blocks.take(n));
        assert(inputs.drop_last().take(n) =~= inputs.take(n));
    } else {
        assert(blocks.take(n) =~= blocks);
        assert(inputs.take(n) =~= inputs);
    }
}

/// The non-thinking and the thinking bytes of one block, where `input` is the
/// JSON text of its tool input; `None` where a count exceeds 64 bits.
pub fn count_block(block: &ContentBlock, input: &Option<String>) -> (counts: Option<(u64, u64)>)
    ensures
        ({
            let bytes = block_bytes(*block, text_of(*input));
            match counts {
                Some(pair) => bytes.are(pair),
                None => !bytes.fit(),
            }
        }),
{
    match block {
        ContentBlock::Thinking { thinking } => Some((0, optional_text_bytes(thinking))),
        ContentBlock::Text { text } => Some((optional_text_bytes(text), 0)),
        ContentBlock::ToolUse { .. } => Some((optional_text_bytes(input), 0)),
        ContentBlock::ToolResult { content: Some(content) } => {
            match try_count_tool_result_bytes(content) {
                Some(bytes) => Some((bytes, 0)),
                None => None,
            }
        },
        ContentBlock::ToolResult { content: None } => Some((0, 0)),
        ContentBlock::Unknown => Some((0, 0)),
    }
}

/// The non-thinking and the thinking bytes of all blocks, where `inputs` holds
/// the JSON text of each block's tool input; `None` where a count exceeds 64
/// bits.
pub fn count_blocks(blocks: &Vec<ContentBlock>, inputs: &Vec<Option<String>>) -> (counts: Option<
    (u64, u64),
>)
    requires
        inputs@.len() == blocks@.len(),
    ensures
        match counts {
            Some(pair) => blocks_bytes(blocks@, option_texts_of(inputs@)).are(pair),
            None => !blocks_bytes(blocks@, option_texts_of(inputs@)).fit(),
        },
{
    let ghost texts = option_texts_of(inputs@);
    let mut non_thinking: u64 = 0;
    let mut thinking: u64 = 0;
    let mut i: usize = 0;
    while i < blocks.len()
        invariant
            i <= blocks.len(),
            inputs@.len() == blocks@.len(),
            texts == option_texts_of(inputs@),
            blocks_bytes(blocks@.take(i as int), texts.take(i as int)).are(
                (non_thinking, thinking),
            ),
        decreases blocks.len() - i,
    {
        proof {
            assert(blocks@.take(i + 1).drop_last() =~= blocks@.take(i as int));
            assert(texts.take(i + 1).drop_last() =~= texts.take(i as int));
            lemma_blocks_bytes_grow(blocks@, texts, i + 1);
        }
        match count_block(&blocks[i], &inputs[i]) {
            Some((nt, th)) => match (checked_sum(non_thinking, nt), checked_sum(thinking, th)) {
                (Some(nt_sum), Some(th_sum)) => {
                    non_thinking = nt_sum;
                    thinking = th_sum;
                },
                _ => {
                    return None;
                },
            },
            None => {
                return None;
            },
        }
        i += 1;
    }
    assert(blocks@.take(blocks.len() as int) =~= blocks@);
    assert(texts.take(blocks.len() as int) =~= texts);
    Some((non_thinking, thinking))
}

/// The JSON text of the tool input of each block.
fn tool_inputs(blocks: &Vec<ContentBlock>) -> (inputs: Vec<Option<String>>)
    ensures
        option_texts_of(inputs@) == input_texts(blocks@),
{
    let mut inputs: Vec<Option<String>> = Vec::new();
    let mut i: usize = 0;
    while i < blocks.len()
        invariant
            i <= blocks.len(),
            option_texts_of(inputs@) =~= input_texts(blocks@).take(i as int),
        decreases blocks.len() - i,
    {
        let input = match &blocks[i] {
            ContentBlock::ToolUse { input: Some(value) } => Some(value_text(value)),
            _ => None,
        };
        let ghost before = inputs@;
        let ghost text = text_of(input);
        inputs.push(input);
        assert(text == input_text(blocks@[i as int]));
        assert(option_texts_of(inputs@) =~= option_texts_of(before).push(text));
        i += 1;
    }
    assert(input_texts(blocks@).take(blocks.len() as int) =~= input_texts(blocks@));
    inputs
}

/// The non-thinking and the thinking bytes of one transcript line, or `None`
/// where a count exceeds 64 bits.
pub fn try_count_text_bytes(line: &TranscriptLine) -> (counts: Option<(u64, u64)>)
    ensures
        match counts {
            Some(pair) => line_bytes(*line).are(pair),
            None => !line_bytes(*line).fit(),
        },
{
    match &line.message {
        Some(message) => match &message.content {
            Some(Content::Plain(s)) => Some((text_bytes(s.as_str()), 0)),
            Some(Content::Blocks(blocks)) => {
                let inputs = tool_inputs(blocks);
                assert(option_texts_of(inputs@).len() == inputs@.len());
                count_blocks(blocks, &inputs)
            },
            None => Some((0, 0)),
        },
        None => Some((0, 0)),
    }
}

/// The non-thinking and the thinking bytes of one transcript line.
pub fn count_text_bytes(line: &TranscriptLine) -> (counts: (u64, u64))
    requires
        line_bytes(*line).fit(),
    ensures
        line_bytes(*line).are(counts),
{
    try_count_text_bytes(line).unwrap()
}

proof fn lemma_lines_bytes_grow(lines: Seq<Option<TranscriptLine>>, n: int)
    requires
        0 <= n <= lines.len(),
    ensures
        lines_bytes(lines.take(n)).non_thinking <= lines_bytes(lines).non_thinking,
        lines_bytes(lines.take(n)).thinking <= lines_bytes(lines).thinking,
{
    law_counts_add_up(lines.take(n), lines.skip(n));
    assert(lines.take(n) + lines.skip(n) =~= lines);
}

/// The non-thinking and the thinking bytes of the lines that a transcript has
/// gained, or `None` where a count exceeds 64 bits.
///
/// `lines` holds what each line parses as, with `None` for a line that does not
/// parse.
pub fn try_parse_transcript_delta(lines: &Vec<Option<TranscriptLine>>) -> (counts: Option<
    (u64, u64),
>)
    ensures
        match counts {
            Some(pair) => lines_bytes(lines@).are(pair),
            None => !lines_bytes(lines@).fit(),
        },
{
    let mut total_nt: u64 = 0;
    let mut total_th: u64 = 0;
    let mut i: usize = 0;
    while i < lines.len()
        invariant
            i <= lines.len(),
            lines_bytes(lines@.take(i as int)).are((total_nt, total_th)),
        decreases lines.len() - i,
    {
        proof {
            assert(lines@.take(i + 1).drop_last() =~= lines@.take(i as int));
            lemma_lines_bytes_grow(lines@, i + 1);
        }
        if let Some(line) = &lines[i] {
            match try_count_text_bytes(line) {
                Some((nt, th)) => match (checked_sum(total_nt, nt), checked_sum(total_th, th)) {
                    (Some(nt_sum), Some(th_sum)) => {
                        total_nt = nt_sum;
                        total_th = th_sum;
                    },
                    _ => {
                        return None;
                    },
                },
                None => {
                    return None;
                },
            }
        }
        i += 1;
    }
    assert(lines@.take(lines.len() as int) =~= lines@);
    Some((total_nt, total_th))
}

/// The non-thinking and the thinking bytes of the lines that a transcript has
/// gained.
///
/// `lines` holds what each line of [`crate::transcript::delta_lines`] parses
/// as, with `None` for a line that does not parse.
pub fn parse_transcript_delta(lines: &Vec<Option<TranscriptLine>>) -> (counts: (u64, u64))
    requires
        lines_bytes(lines@).fit(),
    ensures
        lines_bytes(lines@).are(counts),
{
    try_parse_transcript_delta(lines).unwrap()
}

/// Counting in two steps gives what counting at once gives.
pub proof fn law_counts_add_up(
    earlier: Seq<Option<TranscriptLine>>,
    later: Seq<Option<TranscriptLine>>,
)
    ensures
        lines_bytes(earlier + later) == lines_bytes(earlier).plus(lines_bytes(later)),
        lines_bytes(earlier + later).non_thinking == lines_bytes(earlier).non_thinking
            + lines_bytes(later).non_thinking,
        lines_bytes(earlier + later).thinking == lines_bytes(earlier).thinking + lines_bytes(
            later,
        ).thinking,
    decreases later.len(),
{
    if later.len() == 0 {
        assert(earlier + later =~= earlier);
    } else {
        assert((earlier + later).drop_last() =~= earlier + later.drop_last());
        law_counts_add_up(earlier, later.drop_last());
    }
}

/// A line that does not parse changes neither the counts nor the latest usage.
pub proof fn law_broken_lines_are_passed_over(
    before: Seq<Option<TranscriptLine>>,
    after: Seq<Option<TranscriptLine>>,
)
    ensures
        lines_bytes(before.push(None) + after) == lines_bytes(before + after),
        latest_usage(before.push(None) + after) == latest_usage(before + after),
{
    assert(before.push(None).drop_last() =~= before);
    law_counts_add_up(before.push(None), after);
    law_counts_add_up(before, after);
    law_later_usage_wins(before.push(None), after);
    law_later_usage_wins(before, after);
}

/// Thinking is counted apart: a thinking block adds to the thinking bytes
/// alone, and any other block adds nothing to them.
pub proof fn law_thinking_is_counted_apart(block: ContentBlock, input: Option<Seq<char>>)
    ensures
        block is Thinking ==> block_bytes(block, input).non_thinking == 0,
        !(block is Thinking) ==> block_bytes(block, input).thinking == 0,
{
}

/// A line counts for what its content holds, and a line that does not parse for
/// nothing.
pub proof fn law_each_line_counts(line: TranscriptLine)
    ensures
        lines_bytes(seq![Some(line)]).non_thinking == line_bytes(line).non_thinking,
        lines_bytes(seq![Some(line)]).thinking == line_bytes(line).thinking,
        lines_bytes(seq![None]).non_thinking == 0,
        lines_bytes(seq![None]).thinking == 0,
        lines_bytes(Seq::empty()).non_thinking == 0,
        lines_bytes(Seq::empty()).thinking == 0,
{
    reveal_with_fuel(lines_bytes, 2);
    assert(seq![Some(line)].drop_last() =~= Seq::<Option<TranscriptLine>>::empty());
    assert(seq![None::<TranscriptLine>].drop_last() =~= Seq::<Option<TranscriptLine>>::empty());
}

/// The counts of a line depend on the content of its message alone: neither the kind
/// of entry nor the usage has a say.
pub proof fn law_counts_depend_on_content_alone(line: TranscriptLine, other: TranscriptLine)
    requires
        line.message is Some,
        other.message is Some,
        line.message->0.content == other.message->0.content,
    ensures
        line_bytes(line).non_thinking == line_bytes(other).non_thinking,
        line_bytes(line).thinking == line_bytes(other).thinking,
{
}

/// Plain content counts with all its UTF-8 bytes as non-thinking text, whatever the
/// kind of entry.
pub proof fn law_plain_content_counts(line: TranscriptLine, message: Message, text: String)
    requires
        line.message == Some(message),
        message.content == Some(Content::Plain(text)),
    ensures
        line_bytes(line).non_thinking == encode_utf8(text@).len(),
        line_bytes(line).thinking == 0,
{
}

/// A line without a message or without content counts for nothing.
pub proof fn law_missing_content_counts_for_nothing(line: TranscriptLine)
    requires
        line.message is None || line.message->0.content is None,
    ensures
        line_bytes(line).non_thinking == 0,
        line_bytes(line).thinking == 0,
{
}

proof fn lemma_blocks_add_up(
    earlier: Seq<ContentBlock>,
    later: Seq<ContentBlock>,
    earlier_inputs: Seq<Option<Seq<char>>>,
    later_inputs: Seq<Option<Seq<char>>>,
)
    requires
        earlier_inputs.len() == earlier.len(),
        later_inputs.len() == later.len(),
    ensures
        ({
            let both = blocks_bytes(earlier + later, earlier_inputs + later_inputs);
            let first = blocks_bytes(earlier, earlier_inputs);
            let second = blocks_bytes(later, later_inputs);
            &&& both.non_thinking == first.non_thinking + second.non_thinking
            &&& both.thinking == first.thinking + second.thinking
        }),
    decreases later.len(),
{
    if later.len() == 0 {
        assert(earlier + later =~= earlier);
        assert(earlier_inputs + later_inputs =~= earlier_inputs);
    } else {
        assert((earlier + later).drop_last() =~= earlier + later.drop_last());
        assert((earlier_inputs + later_inputs).drop_last() =~= earlier_inputs
            + later_inputs.drop_last());
        lemma_blocks_add_up(earlier, later.drop_last(), earlier_inputs, later_inputs.drop_last());
    }
}

/// The counts of a line with blocks are the sums over its blocks: split anywhere,
/// the parts add up to the whole.  Without blocks they are zero.
pub proof fn law_blocks_add_up(
    line: TranscriptLine,
    first: TranscriptLine,
    second: TranscriptLine,
    blocks: Vec<ContentBlock>,
    first_blocks: Vec<ContentBlock>,
    second_blocks: Vec<ContentBlock>,
)
    requires
        line.message is Some,
        first.message is Some,
        second.message is Some,
        line.message->0.content == Some(Content::Blocks(blocks)),
        first.message->0.content == Some(Content::Blocks(first_blocks)),
        second.message->0.content == Some(Content::Blocks(second_blocks)),
        blocks@ == first_blocks@ + second_blocks@,
    ensures
        line_bytes(line).non_thinking == line_bytes(first).non_thinking + line_bytes(
            second,
        ).non_thinking,
        line_bytes(line).thinking == line_bytes(first).thinking + line_bytes(second).thinking,
        blocks@.len() == 0 ==> line_bytes(line).non_thinking == 0 && line_bytes(line).thinking == 0,
{
    assert(input_texts(blocks@) =~= input_texts(first_blocks@) + input_texts(second_blocks@));
    lemma_blocks_add_up(
        first_blocks@,
        second_blocks@,
        input_texts(first_blocks@),
        input_texts(second_blocks@),
    );
}

/// What a line with one block counts for.  A thinking block counts as thinking with
/// the bytes of its text.  As non-thinking text count the bytes of a text block, of
/// the JSON of a tool input, and of what a tool gave back.  What is missing, and any
/// other block, counts for nothing.
pub proof fn law_each_block_counts(
    line: TranscriptLine,
    blocks: Vec<ContentBlock>,
    block: ContentBlock,
)
    requires
        line.message is Some,
        line.message->0.content == Some(Content::Blocks(blocks)),
        blocks@ == seq![block],
    ensures
        line_bytes(line).non_thinking == match block {
            ContentBlock::Text { text: Some(s) } => encode_utf8(s@).len(),
            ContentBlock::ToolUse { input: Some(value) } => encode_utf8(json_text(value)).len(),
            ContentBlock::ToolResult { content: Some(content) } => tool_result_bytes(content),
            _ => 0,
        },
        line_bytes(line).thinking == match block {
            ContentBlock::Thinking { thinking: Some(s) } => encode_utf8(s@).len(),
            _ => 0,
        },
{
    reveal_with_fuel(blocks_bytes, 2);
    assert(blocks@.drop_last() =~= Seq::<ContentBlock>::empty());
    assert(input_texts(blocks@).last() == input_text(block));
}

/// Blocks that are handed over with the JSON text of their tool inputs count for the
/// same: a tool-use block for the bytes of that text, and every other block whatever
/// stands in its place.  The counts are the sums over the blocks.
pub proof fn law_blocks_with_inputs_count(
    blocks: Seq<ContentBlock>,
    inputs: Seq<Option<Seq<char>>>,
    block: ContentBlock,
    input: Option<Seq<char>>,
    other: Option<Seq<char>>,
)
    requires
        inputs.len() == blocks.len(),
    ensures
        block is ToolUse ==> block_bytes(block, input).non_thinking == match input {
            Some(text) => encode_utf8(text).len(),
            None => 0,
        } && block_bytes(block, input).thinking == 0,
        !(block is ToolUse) ==> block_bytes(block, input) == block_bytes(block, other),
        blocks_bytes(blocks.push(block), inputs.push(input)).non_thinking == blocks_bytes(
            blocks,
            inputs,
        ).non_thinking + block_bytes(block, input).non_thinking,
        blocks_bytes(blocks.push(block), inputs.push(input)).thinking == blocks_bytes(
            blocks,
            inputs,
        ).thinking + block_bytes(block, input).thinking,
        blocks_bytes(Seq::empty(), Seq::empty()).non_thinking == 0,
        blocks_bytes(Seq::empty(), Seq::empty()).thinking == 0,
{
    assert(blocks.push(block).drop_last() =~= blocks);
    assert(inputs.push(input).drop_last() =~= inputs);
}

/// A block counts for what a line with this block alone counts for.
pub proof fn law_block_counts_as_its_line(
    line: TranscriptLine,
    blocks: Vec<ContentBlock>,
    block: ContentBlock,
)
    requires
        line.message is Some,
        line.message->0.content == Some(Content::Blocks(blocks)),
        blocks@ == seq![block],
    ensures
        block_bytes(block, input_text(block)).non_thinking == line_bytes(line).non_thinking,
        block_bytes(block, input_text(block)).thinking == line_bytes(line).thinking,
{
    reveal_with_fuel(blocks_bytes, 2);
    assert(blocks@.drop_last() =~= Seq::<ContentBlock>::empty());
    assert(input_texts(blocks@).last() == input_text(block));
}

proof fn lemma_parts_add_up(earlier: Seq<ToolResultPart>, later: Seq<ToolResultPart>)
    ensures
        parts_bytes(earlier + later) == parts_bytes(earlier) + parts_bytes(later),
    decreases later.len(),
{
    if later.len() == 0 {
        assert(earlier + later =~= earlier);
    } else {
        assert((earlier + later).drop_last() =~= earlier + later.drop_last());
        lemma_parts_add_up(earlier, later.drop_last());
    }
}

/// What a tool gave back counts with all its UTF-8 bytes: a plain text, or the sum
/// over the texts of its parts, where a part without text counts for nothing.
pub proof fn law_tool_results_count(
    text: String,
    parts: Vec<ToolResultPart>,
    first: Vec<ToolResultPart>,
    second: Vec<ToolResultPart>,
)
    requires
        parts@ == first@ + second@,
    ensures
        tool_result_bytes(ToolResultContent::Plain(text)) == encode_utf8(text@).len(),
        tool_result_bytes(ToolResultContent::Parts(parts)) == tool_result_bytes(
            ToolResultContent::Parts(first),
        ) + tool_result_bytes(ToolResultContent::Parts(second)),
        parts@.len() == 0 ==> tool_result_bytes(ToolResultContent::Parts(parts)) == 0,
        parts@.len() == 1 ==> tool_result_bytes(ToolResultContent::Parts(parts)) == match parts@[0].text {
            Some(s) => encode_utf8(s@).len(),
            None => 0,
        },
{
    reveal_with_fuel(parts_bytes, 2);
    lemma_parts_add_up(first@, second@);
}

/// Two counts are handed out as a pair of numbers, non-thinking first, exactly where
/// there is such a pair: where both fit into 64 bits.
pub proof fn law_counts_are_handed_out_exactly(bytes: Bytes, pair: (u64, u64))
    ensures
        bytes.are(pair) <==> pair.0 == bytes.non_thinking && pair.1 == bytes.thinking,
        bytes.fit() <==> exists|counts: (u64, u64)| bytes.are(counts),
{
    if bytes.fit() {
        assert(bytes.are((bytes.non_thinking as u64, bytes.thinking as u64)));
    }
}

// ── From the bytes of a transcript ───────────────────────────────────────────

/// Whatever lines parse as, whole lines appended to a transcript add what they
/// hold to the counts from an offset on, and take nothing away.
pub proof fn law_appended_text_is_added(
    parse: spec_fn(Seq<char>) -> Option<TranscriptLine>,
    earlier: Seq<u8>,
    later: Seq<u8>,
    offset: int,
)
    requires
        0 <= offset < earlier.len(),
        earlier.last() == 10,
    ensures
        lines_bytes(lines_from(earlier + later, offset).map_values(parse)) == lines_bytes(
            lines_from(earlier, offset).map_values(parse),
        ).plus(lines_bytes(non_empty(readable(read_lines(later))).map_values(parse))),
{
    law_appended_lines_join_the_delta(earlier, later, offset);
    let old_lines = lines_from(earlier, offset);
    let new_lines = non_empty(readable(read_lines(later)));
    assert((old_lines + new_lines).map_values(parse) =~= old_lines.map_values(parse)
        + new_lines.map_values(parse));
    law_counts_add_up(old_lines.map_values(parse), new_lines.map_values(parse));
}

/// Whatever lines parse as, the usage that appended lines report replaces the
/// earlier one.
pub proof fn law_appended_usage_wins(
    parse: spec_fn(Seq<char>) -> Option<TranscriptLine>,
    earlier: Seq<u8>,
    later: Seq<u8>,
)
    requires
        earlier.len() > 0 ==> earlier.last() == 10,
    ensures
        latest_usage(lines_to_search(earlier + later).map_values(parse)) == match latest_usage(
            lines_to_search(later).map_values(parse),
        ) {
            Some(usage) => Some(usage),
            None => latest_usage(lines_to_search(earlier).map_values(parse)),
        },
{
    law_search_covers_appended_lines(earlier, later);
    let old_lines = lines_to_search(earlier);
    let new_lines = lines_to_search(later);
    assert((old_lines + new_lines).map_values(parse) =~= old_lines.map_values(parse)
        + new_lines.map_values(parse));
    law_later_usage_wins(old_lines.map_values(parse), new_lines.map_values(parse));
}

} // verus!
