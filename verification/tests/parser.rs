use reinject::parser::{
    count_block, count_blocks, count_text_bytes, count_tool_result_bytes, parse_latest_usage,
    parse_transcript_delta, try_count_text_bytes, try_parse_transcript_delta, Content,
    ContentBlock, Message, ToolResultContent, ToolResultPart, TranscriptLine, Usage,
};
use reinject::transcript::{delta_lines, transcript_lines, usage_lines};
use serde_json::Value;

fn text_field(value: &Value, name: &str) -> Option<String> {
    value.get(name).and_then(|v| v.as_str()).map(|s| s.to_string())
}

fn block_of(value: &Value) -> ContentBlock {
    match value["type"].as_str() {
        Some("thinking") => ContentBlock::Thinking {
            thinking: text_field(value, "thinking"),
        },
        Some("text") => ContentBlock::Text {
            text: text_field(value, "text"),
        },
        Some("tool_use") => ContentBlock::ToolUse {
            input: value.get("input").filter(|v| !v.is_null()).cloned(),
        },
        Some("tool_result") => ContentBlock::ToolResult {
            content: match value.get("content") {
                Some(Value::String(s)) => Some(ToolResultContent::Plain(s.clone())),
                Some(Value::Array(parts)) => Some(ToolResultContent::Parts(
                    parts
                        .iter()
                        .map(|part| ToolResultPart {
                            text: text_field(part, "text"),
                        })
                        .collect(),
                )),
                _ => None,
            },
        },
        _ => ContentBlock::Unknown,
    }
}

fn tokens(value: &Value, name: &str) -> u64 {
    value.get(name).and_then(|v| v.as_u64()).unwrap_or(0)
}

fn line_of(json: &str) -> Option<TranscriptLine> {
    let value: Value = serde_json::from_str(json).ok()?;
    let message = value.get("message").map(|message| Message {
        content: match message.get("content") {
            Some(Value::String(s)) => Some(Content::Plain(s.clone())),
            Some(Value::Array(blocks)) => {
                Some(Content::Blocks(blocks.iter().map(block_of).collect()))
            }
            _ => None,
        },
        usage: message.get("usage").map(|usage| Usage {
            input_tokens: tokens(usage, "input_tokens"),
            cache_creation_input_tokens: tokens(usage, "cache_creation_input_tokens"),
            cache_read_input_tokens: tokens(usage, "cache_read_input_tokens"),
            output_tokens: tokens(usage, "output_tokens"),
        }),
    });
    Some(TranscriptLine {
        message,
        entry_type: text_field(&value, "type"),
    })
}

fn parse_and_count(json: &str) -> (u64, u64) {
    count_text_bytes(&line_of(json).unwrap())
}

fn parse_all(lines: &[String]) -> Vec<Option<TranscriptLine>> {
    lines.iter().map(|line| line_of(line)).collect()
}

fn latest_usage_in(content: &str) -> Option<Usage> {
    parse_latest_usage(&parse_all(&usage_lines(content.as_bytes())))
}

fn delta_of(data: &[u8], offset: u64) -> (u64, u64) {
    parse_transcript_delta(&parse_all(&delta_lines(data, offset)))
}

#[test]
fn parser_plain_string_content() {
    let json = r#"{"message":{"content":"hello world"}}"#;
    assert_eq!(parse_and_count(json), (11, 0));
}

#[test]
fn parser_text_block() {
    let json = r#"{"message":{"content":[{"type":"text","text":"abc"}]}}"#;
    assert_eq!(parse_and_count(json), (3, 0));
}

#[test]
fn parser_thinking_block() {
    let json = r#"{"message":{"content":[{"type":"thinking","thinking":"deep thoughts"}]}}"#;
    assert_eq!(parse_and_count(json), (0, 13));
}

#[test]
fn parser_mixed_blocks() {
    let json = r#"{"message":{"content":[
        {"type":"text","text":"visible"},
        {"type":"thinking","thinking":"hidden"},
        {"type":"text","text":"more"}
    ]}}"#;
    assert_eq!(parse_and_count(json), (11, 6));
}

#[test]
fn parser_tool_use_block() {
    let json = r#"{"message":{"content":[{"type":"tool_use","input":{"key":"val"}}]}}"#;
    let (nt, th) = parse_and_count(json);
    assert_eq!(nt, r#"{"key":"val"}"#.len() as u64);
    assert_eq!(th, 0);
}

#[test]
fn parser_tool_result_plain_string() {
    let json = r#"{"message":{"content":[{"type":"tool_result","content":"result text"}]}}"#;
    assert_eq!(parse_and_count(json), (11, 0));
}

#[test]
fn parser_tool_result_parts_array() {
    let json = r#"{"message":{"content":[{"type":"tool_result","content":[{"text":"part1"},{"text":"part2"}]}]}}"#;
    assert_eq!(parse_and_count(json), (10, 0));
}

#[test]
fn parser_no_message_field() {
    let json = r#"{"type":"system"}"#;
    assert_eq!(parse_and_count(json), (0, 0));
}

#[test]
fn parser_no_content_field() {
    let json = r#"{"message":{"role":"assistant"}}"#;
    assert_eq!(parse_and_count(json), (0, 0));
}

#[test]
fn parser_unknown_block_type_ignored() {
    let json = r#"{"message":{"content":[{"type":"image","source":"whatever"},{"type":"text","text":"hi"}]}}"#;
    assert_eq!(parse_and_count(json), (2, 0));
}

#[test]
fn parser_empty_blocks_array() {
    let json = r#"{"message":{"content":[]}}"#;
    assert_eq!(parse_and_count(json), (0, 0));
}

#[test]
fn parser_thinking_block_null_text() {
    let json = r#"{"message":{"content":[{"type":"thinking","thinking":null}]}}"#;
    assert_eq!(parse_and_count(json), (0, 0));
}

#[test]
fn parser_tool_result_empty_parts() {
    let json =
        r#"{"message":{"content":[{"type":"tool_result","content":[{"text":null},{}]}]}}"#;
    assert_eq!(parse_and_count(json), (0, 0));
}

#[test]
fn main_plain_string_content() {
    let json = r#"{"message":{"content":"hello world"}}"#;
    assert_eq!(parse_and_count(json), (11, 0));
}

#[test]
fn main_text_block() {
    let json = r#"{"message":{"content":[{"type":"text","text":"abc"}]}}"#;
    assert_eq!(parse_and_count(json), (3, 0));
}

#[test]
fn main_thinking_block() {
    let json = r#"{"message":{"content":[{"type":"thinking","thinking":"deep thoughts"}]}}"#;
    assert_eq!(parse_and_count(json), (0, 13));
}

#[test]
fn main_mixed_blocks() {
    let json = r#"{"message":{"content":[
        {"type":"text","text":"visible"},
        {"type":"thinking","thinking":"hidden"},
        {"type":"text","text":"more"}
    ]}}"#;
    assert_eq!(parse_and_count(json), (11, 6));
}

#[test]
fn main_tool_use_block() {
    let json = r#"{"message":{"content":[{"type":"tool_use","input":{"key":"val"}}]}}"#;
    let (nt, th) = parse_and_count(json);
    // serde_json::Value::to_string() produces compact JSON
    assert_eq!(nt, r#"{"key":"val"}"#.len() as u64);
    assert_eq!(th, 0);
}

#[test]
fn main_tool_result_plain_string() {
    let json = r#"{"message":{"content":[{"type":"tool_result","content":"result text"}]}}"#;
    assert_eq!(parse_and_count(json), (11, 0));
}

#[test]
fn main_tool_result_parts_array() {
    let json = r#"{"message":{"content":[{"type":"tool_result","content":[{"text":"part1"},{"text":"part2"}]}]}}"#;
    assert_eq!(parse_and_count(json), (10, 0));
}

#[test]
fn main_no_message_field() {
    let json = r#"{"type":"system"}"#;
    assert_eq!(parse_and_count(json), (0, 0));
}

#[test]
fn main_no_content_field() {
    let json = r#"{"message":{"role":"assistant"}}"#;
    assert_eq!(parse_and_count(json), (0, 0));
}

#[test]
fn main_unknown_block_type_ignored() {
    let json = r#"{"message":{"content":[{"type":"image","source":"whatever"},{"type":"text","text":"hi"}]}}"#;
    assert_eq!(parse_and_count(json), (2, 0));
}

#[test]
fn main_empty_blocks_array() {
    let json = r#"{"message":{"content":[]}}"#;
    assert_eq!(parse_and_count(json), (0, 0));
}

#[test]
fn main_thinking_block_null_text() {
    let json = r#"{"message":{"content":[{"type":"thinking","thinking":null}]}}"#;
    assert_eq!(parse_and_count(json), (0, 0));
}

#[test]
fn main_tool_result_empty_parts() {
    let json = r#"{"message":{"content":[{"type":"tool_result","content":[{"text":null},{}]}]}}"#;
    assert_eq!(parse_and_count(json), (0, 0));
}

#[test]
fn latest_usage_sums_all_four_fields() {
    let line = r#"{"type":"assistant","message":{"role":"assistant","usage":{"input_tokens":10,"cache_creation_input_tokens":20,"cache_read_input_tokens":300,"output_tokens":4}}}"#;
    let content = format!("{line}\n");
    let u = latest_usage_in(content.as_str()).expect("usage present");
    assert_eq!(u.total(), 334);
}

#[test]
fn latest_usage_picks_most_recent() {
    let earlier = r#"{"type":"assistant","message":{"role":"assistant","usage":{"input_tokens":1,"cache_creation_input_tokens":0,"cache_read_input_tokens":0,"output_tokens":0}}}"#;
    let later = r#"{"type":"assistant","message":{"role":"assistant","usage":{"input_tokens":500,"cache_creation_input_tokens":0,"cache_read_input_tokens":0,"output_tokens":0}}}"#;
    let content = format!("{earlier}\n{later}\n");
    let u = latest_usage_in(content.as_str()).expect("usage present");
    assert_eq!(u.total(), 500);
}

#[test]
fn latest_usage_returns_none_when_no_usage_block() {
    let content = "{\"type\":\"user\",\"message\":{\"content\":\"hi\"}}\n{\"type\":\"user\",\"message\":{\"content\":\"there\"}}\n";
    assert!(latest_usage_in(content).is_none());
}

#[test]
fn latest_usage_resets_after_clear_boundary() {
    let big = r#"{"type":"assistant","message":{"role":"assistant","usage":{"input_tokens":50000,"cache_creation_input_tokens":100000,"cache_read_input_tokens":600000,"output_tokens":8000}}}"#;
    let small = r#"{"type":"assistant","message":{"role":"assistant","usage":{"input_tokens":2000,"cache_creation_input_tokens":1000,"cache_read_input_tokens":500,"output_tokens":300}}}"#;
    let content = format!("{big}\n{small}\n");
    let u = latest_usage_in(content.as_str()).expect("usage present");
    assert_eq!(u.total(), 3800);
}

#[test]
fn usage_total_and_checked_total() {
    let usage = Usage {
        input_tokens: 1,
        cache_creation_input_tokens: 2,
        cache_read_input_tokens: 3,
        output_tokens: 4,
    };
    assert_eq!(usage.total(), 10);
    assert_eq!(usage.checked_total(), Some(10));
    let huge = Usage {
        input_tokens: u64::MAX,
        output_tokens: 1,
        ..Usage::default()
    };
    assert_eq!(huge.checked_total(), None);
    assert_eq!(Usage::default().total(), 0);
}

#[test]
fn usage_without_tokens_is_no_report() {
    let report = r#"{"type":"assistant","message":{"usage":{"output_tokens":9}}}"#;
    let zero = r#"{"type":"assistant","message":{"usage":{"output_tokens":0}}}"#;
    let content = format!("{report}\n{zero}\n");
    assert_eq!(latest_usage_in(&content).unwrap().total(), 9);
}

#[test]
fn usage_counts_on_unmarked_and_assistant_entries_only() {
    let unmarked = r#"{"message":{"usage":{"output_tokens":5}}}"#;
    let user = r#"{"type":"user","message":{"usage":{"output_tokens":7}}}"#;
    assert_eq!(latest_usage_in(unmarked).unwrap().total(), 5);
    assert!(latest_usage_in(user).is_none());
    let content = format!("{unmarked}\n{user}\n");
    assert_eq!(latest_usage_in(&content).unwrap().total(), 5);
}

#[test]
fn usage_search_covers_the_entire_transcript() {
    let mut data = br#"{"type":"assistant","message":{"usage":{"input_tokens":1}}}"#.to_vec();
    data.extend_from_slice(b"\n\xff\n");
    data.extend_from_slice(br#"{"type":"assistant","message":{"usage":{"input_tokens":500}}}"#);
    data.extend_from_slice(b"\n");
    let lines = usage_lines(&data);
    assert_eq!(lines.len(), 2);
    assert_eq!(parse_latest_usage(&parse_all(&lines)).unwrap().total(), 500);
}

#[test]
fn only_the_line_at_the_offset_is_skipped() {
    let data = "\u{e9}\n{\"message\":{\"content\":\"abc\"}}\n".as_bytes();
    assert_eq!(delta_of(data, 1), (3, 0));
    assert_eq!(delta_of(data, 0), (3, 0));
    assert_eq!(delta_of(data, 3), (0, 0));
}

#[test]
fn later_usage_wins_over_earlier() {
    let one = r#"{"message":{"usage":{"output_tokens":1}}}"#;
    let two = r#"{"message":{"usage":{"output_tokens":2}}}"#;
    let none = r#"{"message":{"content":"x"}}"#;
    assert_eq!(latest_usage_in(&format!("{one}\n{two}")).unwrap().total(), 2);
    assert_eq!(latest_usage_in(&format!("{one}\n{none}")).unwrap().total(), 1);
}

#[test]
fn lines_end_at_newlines() {
    let lines = transcript_lines(b"a\r\n\nb\r");
    assert_eq!(
        lines,
        vec![
            Some("a".to_string()),
            Some("".to_string()),
            Some("b\r".to_string())
        ]
    );
    assert_eq!(transcript_lines(b""), Vec::<Option<String>>::new());
    assert_eq!(transcript_lines(b"a\n"), vec![Some("a".to_string())]);
    assert_eq!(transcript_lines(b"\xff\n\xc3\xa9"), vec![None, Some("\u{e9}".to_string())]);
}

#[test]
fn delta_leaves_out_the_first_line() {
    let data = b"one\ntwo\n\nthree";
    assert_eq!(delta_lines(data, 0), vec!["two", "three"]);
    assert_eq!(delta_lines(data, 2), vec!["two", "three"]);
    assert_eq!(delta_lines(data, 4), vec!["three"]);
    assert!(delta_lines(data, data.len() as u64).is_empty());
    assert!(delta_lines(data, u64::MAX).is_empty());
    assert_eq!(delta_lines(b"\xff\none\ntwo", 0), vec!["one", "two"]);
    assert_eq!(delta_lines(b"one\n\xff\ntwo", 0), vec!["two"]);
}

#[test]
fn delta_counts_text_after_the_first_line() {
    let line = r#"{"message":{"content":"hello"}}"#;
    let data = format!("{line}\n{line}\nnot json\n{line}\n");
    assert_eq!(delta_of(data.as_bytes(), 0), (10, 0));
    assert_eq!(delta_of(data.as_bytes(), data.len() as u64), (0, 0));
}

#[test]
fn appended_lines_join_the_delta() {
    let earlier = "skipped\nkept\n";
    let later = "new\n\nnewer\n";
    let both = format!("{earlier}{later}");
    assert_eq!(delta_lines(earlier.as_bytes(), 0), vec!["kept"]);
    assert_eq!(delta_lines(both.as_bytes(), 0), vec!["kept", "new", "newer"]);
    assert_eq!(usage_lines(both.as_bytes()), vec!["skipped", "kept", "new", "newer"]);
}

#[test]
fn counts_add_up() {
    let text = r#"{"message":{"content":"abc"}}"#;
    let thinking = r#"{"message":{"content":[{"type":"thinking","thinking":"12345"}]}}"#;
    let first = vec![line_of(text), None];
    let second = vec![line_of(thinking)];
    let both = vec![line_of(text), None, line_of(thinking)];
    assert_eq!(try_parse_transcript_delta(&first), Some((3, 0)));
    assert_eq!(try_parse_transcript_delta(&second), Some((0, 5)));
    assert_eq!(try_parse_transcript_delta(&both), Some((3, 5)));
}

#[test]
fn text_is_counted_in_bytes() {
    assert_eq!(parse_and_count("{\"message\":{\"content\":\"h\u{e9}\"}}"), (3, 0));
}

#[test]
fn tool_input_is_counted_as_compact_json() {
    let json = r#"{"message":{"content":[{"type":"tool_use","input": { "a" : [ 1 , true ] } }]}}"#;
    let line = line_of(json).unwrap();
    assert_eq!(try_count_text_bytes(&line), Some((14, 0)));
    assert_eq!(r#"{"a":[1,true]}"#.len(), 14);
}

#[test]
fn blocks_are_counted_with_given_inputs() {
    let blocks = vec![
        ContentBlock::ToolUse { input: Some(Value::from(7)) },
        ContentBlock::Text { text: Some("ab".to_string()) },
        ContentBlock::ToolResult { content: None },
    ];
    let inputs = vec![Some("12345".to_string()), None, None];
    assert_eq!(count_blocks(&blocks, &inputs), Some((7, 0)));
    assert_eq!(count_block(&blocks[0], &inputs[0]), Some((5, 0)));
    assert_eq!(count_block(&blocks[0], &None), Some((0, 0)));
    let parts = ToolResultContent::Parts(vec![
        ToolResultPart { text: Some("xyz".to_string()) },
        ToolResultPart { text: None },
    ]);
    assert_eq!(count_tool_result_bytes(&parts), 3);
}

#[test]
fn appended_text_and_usage_are_added() {
    let skipped = r#"{"message":{"content":"skipped"}}"#;
    let old = r#"{"message":{"content":"abc","usage":{"output_tokens":1}}}"#;
    let new = r#"{"message":{"content":"de","usage":{"output_tokens":2}}}"#;
    let earlier = format!("{skipped}\n{old}\n");
    let both = format!("{earlier}{new}\n");
    assert_eq!(delta_of(earlier.as_bytes(), 0), (3, 0));
    assert_eq!(delta_of(both.as_bytes(), 0), (5, 0));
    assert_eq!(latest_usage_in(&earlier).unwrap().total(), 1);
    assert_eq!(latest_usage_in(&both).unwrap().total(), 2);
}

#[test]
fn at_most_one_line_is_lost() {
    let data = b"ab\ncd\nef\n";
    assert_eq!(usage_lines(&data[1..]), vec!["b", "cd", "ef"]);
    assert_eq!(delta_lines(data, 1), vec!["cd", "ef"]);
}

#[test]
fn latest_usage_returns_none_when_file_missing() {
    assert!(parse_latest_usage(&Vec::new()).is_none());
    assert!(latest_usage_in("").is_none());
}
