use vstd::prelude::*;

use crate::activity::{prompt_count, prompt_in_window};
use crate::json::{field, json_of, JsonValue};
use crate::parser::{
    content_of, is_assistant, is_text_block, is_user, line_entry, parsed_lines, user_prompt_timestamp,
};
use crate::time::{rfc3339_of, within_hours, Instant};

verus! {

/// A user line whose content is a list of blocks none of which is text (tool
/// results alone) adds nothing to the prompt count of any window.
pub proof fn lemma_tool_results_count_nothing(
    lines: Seq<String>,
    line: String,
    v: JsonValue,
    blocks: Vec<JsonValue>,
    now: Instant,
    hours: int,
)
    requires
        json_of(line@) == Some(v),
        is_user(v),
        content_of(v) == Some(JsonValue::Array(blocks)),
        forall|i: int| 0 <= i < blocks@.len() ==> !is_text_block(#[trigger] blocks@[i]),
    ensures
        prompt_count(lines.push(line), now, hours) == prompt_count(lines, now, hours),
{
    assert(lines.push(line).drop_last() =~= lines);
    assert(user_prompt_timestamp(line@) is None);
}

/// A user line with at least one text block and a timestamp within the
/// window adds exactly one to the prompt count of that window.
pub proof fn lemma_text_prompt_counts_once(
    lines: Seq<String>,
    line: String,
    v: JsonValue,
    blocks: Vec<JsonValue>,
    ts: String,
    now: Instant,
    hours: int,
)
    requires
        json_of(line@) == Some(v),
        is_user(v),
        content_of(v) == Some(JsonValue::Array(blocks)),
        exists|i: int| 0 <= i < blocks@.len() && is_text_block(#[trigger] blocks@[i]),
        field(v, "timestamp"@) == Some(JsonValue::Str(ts)),
        rfc3339_of(ts@) is Some,
        within_hours(rfc3339_of(ts@).unwrap(), now, hours),
    ensures
        prompt_count(lines.push(line), now, hours) == prompt_count(lines, now, hours) + 1,
{
    assert(lines.push(line).drop_last() =~= lines);
    let i = choose|i: int| 0 <= i < blocks@.len() && is_text_block(#[trigger] blocks@[i]);
    assert(is_text_block(blocks@[i]));
    assert(crate::parser::is_genuine_content(JsonValue::Array(blocks)));
    assert(crate::parser::prompt_timestamp_of(v) == Some(ts));
    assert(user_prompt_timestamp(line@) == Some(ts));
    assert(prompt_in_window(line@, now, hours));
}

/// Lines none of which is a well-formed assistant entry yield no entries.
pub proof fn lemma_no_assistant_lines_parse_empty(lines: Seq<String>)
    requires
        forall|i: int|
            0 <= i < lines.len() ==> (#[trigger] line_entry(lines[i]@)) is None || !is_assistant(
                line_entry(lines[i]@).unwrap(),
            ),
    ensures
        parsed_lines(lines) == Seq::<crate::parser::ParsedEntryView>::empty(),
    decreases lines.len(),
{
    if lines.len() > 0 {
        let pre = lines.drop_last();
        assert forall|i: int| 0 <= i < pre.len() implies (#[trigger] line_entry(pre[i]@)) is None
            || !is_assistant(line_entry(pre[i]@).unwrap()) by {
            assert(pre[i] == lines[i]);
        }
        lemma_no_assistant_lines_parse_empty(pre);
        assert(line_entry(lines[lines.len() - 1]@) is None || !is_assistant(
            line_entry(lines[lines.len() - 1]@).unwrap(),
        ));
    }
}

} // verus!
