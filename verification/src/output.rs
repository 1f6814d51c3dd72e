//! What a hook prints.

use vstd::prelude::*;
use vstd::string::StringExecFns;
use crate::json::{json_quoted, law_quoted_text_reads_back, quote, read_json_string};

verus! {

/// The system message where the caller gives none.
pub const DEFAULT_SYSTEM_MESSAGE: &'static str = "reinject: context injected";

/// The JSON that a hook prints to inject `context` on the event `hook_event`.
pub open spec fn hook_json(
    hook_event: Seq<char>,
    context: Seq<char>,
    system_message: Seq<char>,
) -> Seq<char> {
    "{\"hookSpecificOutput\":{\"additionalContext\":"@ + json_quoted(context)
        + ",\"hookEventName\":"@ + json_quoted(hook_event) + "},\"systemMessage\":"@
        + json_quoted(system_message) + "}"@
}

/// The JSON that a hook prints to inject `context` on the event `hook_event`.
/// There is always a system message: the one given, or
/// [`DEFAULT_SYSTEM_MESSAGE`].
pub fn hook_output(hook_event: &str, context: &str, system_message: Option<&str>) -> (output:
    String)
    ensures
        output@ == hook_json(
            hook_event@,
            context@,
            match system_message {
                Some(message) => message@,
                None => DEFAULT_SYSTEM_MESSAGE@,
            },
        ),
{
    let message = match system_message {
        Some(message) => message,
        None => DEFAULT_SYSTEM_MESSAGE,
    };
    let mut output = String::from_str("{\"hookSpecificOutput\":{\"additionalContext\":");
    output.append(quote(context).as_str());
    output.append(",\"hookEventName\":");
    output.append(quote(hook_event).as_str());
    output.append("},\"systemMessage\":");
    output.append(quote(message).as_str());
    output.append("}");
    output
}

// ── Laws ─────────────────────────────────────────────────────────────────────

/// A reader of the JSON finds each argument behind its key: the context behind
/// `additionalContext` and the event behind `hookEventName`, both inside
/// `hookSpecificOutput`, and the message behind `systemMessage`.  Nothing follows.
pub proof fn law_output_reads_back(
    event: Seq<char>,
    context: Seq<char>,
    system_message: Seq<char>,
)
    ensures
        ({
            let output = hook_json(event, context, system_message);
            let head = "{\"hookSpecificOutput\":{\"additionalContext\":"@;
            let event_key = ",\"hookEventName\":"@;
            let message_key = "},\"systemMessage\":"@;
            &&& head.is_prefix_of(output)
            &&& read_json_string(output.skip(head.len() as int)) matches Some((first, tail))
            &&& first == context
            &&& event_key.is_prefix_of(tail)
            &&& read_json_string(tail.skip(event_key.len() as int)) matches Some((second, end))
            &&& second == event
            &&& message_key.is_prefix_of(end)
            &&& read_json_string(end.skip(message_key.len() as int)) == Some(
                (system_message, "}"@),
            )
        }),
{
    let output = hook_json(event, context, system_message);
    let head = "{\"hookSpecificOutput\":{\"additionalContext\":"@;
    let event_key = ",\"hookEventName\":"@;
    let message_key = "},\"systemMessage\":"@;
    let end = message_key + json_quoted(system_message) + "}"@;
    let tail = event_key + json_quoted(event) + end;
    assert(output =~= head + json_quoted(context) + tail);
    assert(output.skip(head.len() as int) =~= json_quoted(context) + tail);
    assert(tail.skip(event_key.len() as int) =~= json_quoted(event) + end);
    assert(end.skip(message_key.len() as int) =~= json_quoted(system_message) + "}"@);
    law_quoted_text_reads_back(context, tail);
    law_quoted_text_reads_back(event, end);
    law_quoted_text_reads_back(system_message, "}"@);
}

/// The output determines its arguments: where any of them differs, so does the
/// output.
pub proof fn law_output_determines_arguments(
    event: Seq<char>,
    context: Seq<char>,
    system_message: Seq<char>,
    other_event: Seq<char>,
    other_context: Seq<char>,
    other_message: Seq<char>,
)
    requires
        event != other_event || context != other_context || system_message != other_message,
    ensures
        hook_json(event, context, system_message) != hook_json(
            other_event,
            other_context,
            other_message,
        ),
{
    law_output_reads_back(event, context, system_message);
    law_output_reads_back(other_event, other_context, other_message);
}

/// Where the caller gives no system message, there is one all the same.
pub proof fn law_default_message()
    ensures
        DEFAULT_SYSTEM_MESSAGE@ == "reinject: context injected"@,
        DEFAULT_SYSTEM_MESSAGE@.len() > 0,
{
    reveal_strlit("reinject: context injected");
}

/// The output holds the event, as a JSON string, right behind the key
/// `hookEventName`.
pub proof fn law_event_stands_behind_its_key(
    event: Seq<char>,
    context: Seq<char>,
    system_message: Seq<char>,
)
    ensures
        exists|before: Seq<char>, after: Seq<char>|
            hook_json(event, context, system_message) == #[trigger] (before
                + "\"hookEventName\":"@ + json_quoted(event) + after),
{
    reveal_strlit(",\"hookEventName\":");
    reveal_strlit("\"hookEventName\":");
    let before = "{\"hookSpecificOutput\":{\"additionalContext\":"@ + json_quoted(context)
        + seq![','];
    let after = "},\"systemMessage\":"@ + json_quoted(system_message) + "}"@;
    assert(",\"hookEventName\":"@ =~= seq![','] + "\"hookEventName\":"@);
    assert(hook_json(event, context, system_message) =~= before + "\"hookEventName\":"@
        + json_quoted(event) + after);
}

} // verus!
