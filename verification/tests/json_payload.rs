use tootoo::llm::json::extract_json;

#[test]
fn extract_json_handles_fenced_blocks() {
    let body = "{\"a\":1}";
    let fenced = format!("```json\n{body}\n```\n");
    assert_eq!(extract_json(&fenced), Some(body.to_string()));
}

#[test]
fn extract_json_falls_back_to_braces() {
    let s = "prefix {\"a\":1} suffix";
    assert_eq!(extract_json(s), Some("{\"a\":1}".to_string()));
}

#[test]
fn extract_json_finds_nothing_without_braces() {
    assert_eq!(extract_json("no payload here"), None);
    assert_eq!(extract_json("} before {"), None);
    assert_eq!(extract_json(""), None);
}

#[test]
fn extract_json_strips_both_fences_of_a_block_on_one_line() {
    assert_eq!(extract_json("```{\"a\":1}```"), Some("{\"a\":1}".to_string()));
    assert_eq!(extract_json("  ``` {\"a\":1} ```  "), Some("{\"a\":1}".to_string()));
    assert_eq!(extract_json("```{\"a\":1}"), Some("{\"a\":1}".to_string()));
    assert_eq!(extract_json("```"), Some(String::new()));
    assert_eq!(extract_json("``````"), Some(String::new()));
    assert_eq!(extract_json("````"), Some("`".to_string()));
}

#[test]
fn extract_json_unclosed_fence_keeps_the_rest() {
    assert_eq!(extract_json("```json\n {\"a\": 1} \n"), Some("{\"a\": 1}".to_string()));
}

#[test]
fn extract_json_counts_characters_not_bytes() {
    let s = "설명 {\"name\":\"삼성전자\"} 끝";
    assert_eq!(extract_json(s), Some("{\"name\":\"삼성전자\"}".to_string()));
}
