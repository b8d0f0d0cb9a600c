use task_breakdown::payload_range;

fn payload(text: &str) -> &str {
    let (s, e) = payload_range(text);
    &text[s..e]
}

#[test]
fn plain_reply_is_trimmed() {
    assert_eq!(payload("  {\"subtasks\": []}\n"), "{\"subtasks\": []}");
    assert_eq!(payload("[1, 2]"), "[1, 2]");
}

#[test]
fn fenced_reply_with_language_tag_is_unwrapped() {
    assert_eq!(payload("```json\n{\"subtasks\": []}\n```"), "{\"subtasks\": []}");
    assert_eq!(payload("\n```json\r\n  [1]  \r\n```\n\n"), "[1]");
}

#[test]
fn fenced_reply_without_tag_or_closing_fence_is_unwrapped() {
    assert_eq!(payload("```\n{}\n```"), "{}");
    assert_eq!(payload("```\n{\"a\": 1}"), "{\"a\": 1}");
}

#[test]
fn blank_or_bare_fence_reply_is_empty() {
    assert_eq!(payload(""), "");
    assert_eq!(payload(" \n\t "), "");
    assert_eq!(payload("```"), "");
    assert_eq!(payload("```json"), "");
}
