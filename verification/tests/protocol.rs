use prism::json::JsonValue;
use prism::protocol::{parse_stream_line, FrontendEvent};

#[test]
fn blank_lines_yield_nothing() {
    assert_eq!(parse_stream_line(""), None);
    assert_eq!(parse_stream_line("   "), None);
    assert_eq!(parse_stream_line(" \t \r"), None);
}

#[test]
fn malformed_lines_yield_nothing() {
    assert_eq!(parse_stream_line("not json"), None);
    assert_eq!(parse_stream_line("{\"type\":"), None);
    assert_eq!(parse_stream_line("[1, 2"), None);
}

#[test]
fn unknown_discriminants_yield_nothing() {
    assert_eq!(parse_stream_line("{\"type\":\"something_else\"}"), None);
    assert_eq!(parse_stream_line("{\"kind\":\"message_stop\"}"), None);
    assert_eq!(parse_stream_line("{\"type\":7}"), None);
    assert_eq!(parse_stream_line("[\"type\",\"message_stop\"]"), None);
}

#[test]
fn message_stop_line() {
    assert_eq!(
        parse_stream_line("{\"type\":\"message_stop\"}"),
        Some(FrontendEvent::MessageStop)
    );
}

#[test]
fn text_delta_line() {
    let line = "{\"type\":\"content_block_delta\",\"delta\":{\"type\":\"text_delta\",\"text\":\"hi\"}}";
    assert_eq!(
        parse_stream_line(line),
        Some(FrontendEvent::TextDelta { text: "hi".to_string() })
    );
}

#[test]
fn text_delta_without_text_yields_nothing() {
    let line = "{\"type\":\"content_block_delta\",\"delta\":{\"type\":\"text_delta\"}}";
    assert_eq!(parse_stream_line(line), None);
    let other = "{\"type\":\"content_block_delta\",\"delta\":{\"type\":\"other\"}}";
    assert_eq!(parse_stream_line(other), None);
}

#[test]
fn message_start_reports_input_tokens() {
    let line = "{\"type\":\"message_start\",\"message\":{\"usage\":{\"input_tokens\":7}}}";
    assert_eq!(
        parse_stream_line(line),
        Some(FrontendEvent::Usage { input_tokens: 7, output_tokens: 0 })
    );
    assert_eq!(
        parse_stream_line("{\"type\":\"message_start\"}"),
        Some(FrontendEvent::Usage { input_tokens: 0, output_tokens: 0 })
    );
}

#[test]
fn message_delta_reports_output_tokens() {
    let line = "{\"type\":\"message_delta\",\"usage\":{\"output_tokens\":9}}";
    assert_eq!(
        parse_stream_line(line),
        Some(FrontendEvent::Usage { input_tokens: 0, output_tokens: 9 })
    );
    assert_eq!(
        parse_stream_line("{\"type\":\"message_delta\"}"),
        Some(FrontendEvent::Usage { input_tokens: 0, output_tokens: 0 })
    );
}

#[test]
fn tool_use_block_starts_a_tool() {
    let line = "{\"type\":\"content_block_start\",\"content_block\":{\"type\":\"tool_use\",\"id\":\"t9\",\"name\":\"bash\"}}";
    assert_eq!(
        parse_stream_line(line),
        Some(FrontendEvent::ToolStart {
            id: "t9".to_string(),
            name: "bash".to_string(),
            input: JsonValue::Null,
        })
    );
}

#[test]
fn tool_use_block_without_name_yields_nothing() {
    let line = "{\"type\":\"content_block_start\",\"content_block\":{\"type\":\"tool_use\",\"id\":\"t9\"}}";
    assert_eq!(parse_stream_line(line), None);
    let text_block = "{\"type\":\"content_block_start\",\"content_block\":{\"type\":\"text\"}}";
    assert_eq!(parse_stream_line(text_block), None);
}

#[test]
fn tool_result_flattens_sequence_content() {
    let line = "{\"type\":\"tool_result\",\"tool_use_id\":\"t1\",\"content\":[{\"text\":\"a\"},{\"text\":\"b\"}]}";
    assert_eq!(
        parse_stream_line(line),
        Some(FrontendEvent::ToolResult { id: "t1".to_string(), result: "ab".to_string() })
    );
}

#[test]
fn tool_result_skips_elements_without_text() {
    let line = "{\"type\":\"tool_result\",\"tool_use_id\":\"t1\",\"content\":[{\"text\":\"a\"},{\"note\":\"x\"},{\"text\":\"c\"}]}";
    assert_eq!(
        parse_stream_line(line),
        Some(FrontendEvent::ToolResult { id: "t1".to_string(), result: "ac".to_string() })
    );
}

#[test]
fn tool_result_takes_string_content_verbatim() {
    let line = "{\"type\":\"tool_result\",\"tool_use_id\":\"t1\",\"content\":\"plain\"}";
    assert_eq!(
        parse_stream_line(line),
        Some(FrontendEvent::ToolResult { id: "t1".to_string(), result: "plain".to_string() })
    );
}

#[test]
fn tool_result_other_content_reads_empty() {
    let line = "{\"type\":\"tool_result\",\"tool_use_id\":\"t1\",\"content\":5}";
    assert_eq!(
        parse_stream_line(line),
        Some(FrontendEvent::ToolResult { id: "t1".to_string(), result: String::new() })
    );
    let missing = "{\"type\":\"tool_result\",\"tool_use_id\":\"t1\"}";
    assert_eq!(
        parse_stream_line(missing),
        Some(FrontendEvent::ToolResult { id: "t1".to_string(), result: String::new() })
    );
}

#[test]
fn tool_result_without_id_yields_nothing() {
    let line = "{\"type\":\"tool_result\",\"content\":\"plain\"}";
    assert_eq!(parse_stream_line(line), None);
}
