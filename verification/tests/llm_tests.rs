use std::time::Duration;

use rustfasttext::llm::{
    chat_request, classify_prompt, normalize_label, parse_verdict, read_reply, truncate,
    verdict_from_answer, verdict_json_part, LlmConfig, LlmError,
};

fn config(base: &str, key: &str, model: &str) -> LlmConfig {
    LlmConfig::new(base.to_string(), key.to_string(), model.to_string(), 30)
}

fn labels() -> Vec<String> {
    vec![
        "__label__database".to_string(),
        "__label__network".to_string(),
        "__label__disk".to_string(),
    ]
}

#[test]
fn config_keeps_its_settings() {
    let cfg = config("https://api.openai.com/v1", "sk", "gpt-4o-mini");
    assert_eq!(cfg.base_url, "https://api.openai.com/v1");
    assert_eq!(cfg.api_key, "sk");
    assert_eq!(cfg.model, "gpt-4o-mini");
    assert_eq!(cfg.timeout, Duration::from_secs(30));
}

#[test]
fn configured_only_with_all_three_settings() {
    assert!(config("u", "k", "m").is_configured());
    assert!(!config("", "k", "m").is_configured());
    assert!(!config("u", "", "m").is_configured());
    assert!(!config("u", "k", "").is_configured());
}

#[test]
fn url_drops_trailing_slashes() {
    assert_eq!(
        config("https://api.openai.com/v1", "k", "m").chat_completions_url(),
        "https://api.openai.com/v1/chat/completions"
    );
    assert_eq!(
        config("https://host/v1//", "k", "m").chat_completions_url(),
        "https://host/v1/chat/completions"
    );
    assert_eq!(config("", "k", "m").chat_completions_url(), "/chat/completions");
}

#[test]
fn chat_request_body_is_the_serialized_object() {
    let req = chat_request(&config("https://h/v1/", "sk-1", "gpt"), "sys \"q\"", "line1\nline2\u{1}");
    assert_eq!(req.url, "https://h/v1/chat/completions");
    assert_eq!(req.bearer, Some("sk-1".to_string()));
    assert_eq!(
        req.body,
        "{\"messages\":[{\"content\":\"sys \\\"q\\\"\",\"role\":\"system\"},{\"content\":\"line1\\nline2\\u0001\",\"role\":\"user\"}],\"model\":\"gpt\",\"temperature\":0.0}"
    );
    let message = |role: &str, content: &str| {
        let mut m = serde_json::Map::new();
        m.insert("role".to_string(), serde_json::Value::String(role.to_string()));
        m.insert("content".to_string(), serde_json::Value::String(content.to_string()));
        serde_json::Value::Object(m)
    };
    let mut body = serde_json::Map::new();
    body.insert("model".to_string(), serde_json::Value::String("gpt".to_string()));
    body.insert("temperature".to_string(), serde_json::Value::from(0.0));
    body.insert(
        "messages".to_string(),
        serde_json::Value::Array(vec![message("system", "sys \"q\""), message("user", "line1\nline2\u{1}")]),
    );
    let expected = serde_json::Value::Object(body);
    assert_eq!(req.body, expected.to_string());
}

#[test]
fn chat_request_without_key_has_no_bearer() {
    let req = chat_request(&config("h", "", "m"), "a", "b");
    assert_eq!(req.bearer, None);
}

#[test]
fn reply_gives_trimmed_content() {
    let text = "{\"id\":\"x\",\"choices\":[{\"index\":0,\"message\":{\"role\":\"assistant\",\"content\":\"  answer \\n\"}}]}";
    assert_eq!(read_reply(true, "200 OK", text), Ok("answer".to_string()));
}

#[test]
fn reply_with_bad_status() {
    let body = "x".repeat(600);
    match read_reply(false, "500 Internal Server Error", &body) {
        Err(LlmError::BadStatus { status, excerpt }) => {
            assert_eq!(status, "500 Internal Server Error");
            assert_eq!(excerpt, format!("{}...(已截断)", "x".repeat(500)));
        }
        other => panic!("unexpected {:?}", other),
    }
}

#[test]
fn reply_that_is_not_json() {
    assert_eq!(
        read_reply(true, "200 OK", "not json"),
        Err(LlmError::InvalidJson { excerpt: "not json".to_string() })
    );
}

#[test]
fn reply_without_content() {
    assert_eq!(
        read_reply(true, "200 OK", "{\"choices\":[]}"),
        Err(LlmError::MissingContent { excerpt: "{\"choices\":[]}".to_string() })
    );
    assert!(matches!(
        read_reply(true, "200 OK", "{\"choices\":[{\"message\":{\"content\":1}}]}"),
        Err(LlmError::MissingContent { .. })
    ));
}

#[test]
fn error_messages() {
    assert_eq!(LlmError::NoLabels.message(), "小模型没有可用标签，无法交给大模型分类");
    assert_eq!(
        LlmError::BadStatus { status: "404 Not Found".to_string(), excerpt: "nope".to_string() }.message(),
        "大模型返回异常状态码 404 Not Found: nope"
    );
    assert_eq!(
        LlmError::InvalidJson { excerpt: "x".to_string() }.message(),
        "大模型响应不是合法 JSON: x"
    );
    assert_eq!(
        LlmError::MissingContent { excerpt: "x".to_string() }.message(),
        "大模型响应缺少 choices[0].message.content: x"
    );
    assert_eq!(
        LlmError::Unparseable { excerpt: "x".to_string() }.message(),
        "大模型输出无法解析为候选标签: x"
    );
}

#[test]
fn truncate_counts_characters() {
    assert_eq!(truncate("短文本", 5), "短文本");
    assert_eq!(truncate("一二三四五六", 3), "一二三...(已截断)");
    assert_eq!(truncate("abc", 3), "abc");
    assert_eq!(truncate("abc", 0), "...(已截断)");
}

#[test]
fn classify_prompt_lists_the_labels() {
    let p = classify_prompt("disk gone", &labels()).unwrap();
    assert_eq!(
        p.user,
        "候选标签：\n- __label__database\n- __label__network\n- __label__disk\n\n待分类文本：\n\"\"\"\ndisk gone\n\"\"\"\n\n请输出 JSON。"
    );
    assert!(p.system.starts_with("你是一个严格的文本分类引擎。"));
    assert!(p.system.ends_with("不要输出任何额外文字。"));
}

#[test]
fn classify_prompt_needs_labels() {
    assert_eq!(classify_prompt("x", &[]), Err(LlmError::NoLabels));
}

#[test]
fn normalize_label_matches_loosely() {
    let l = labels();
    assert_eq!(normalize_label("  \"DISK\" ", &l), Some("__label__disk".to_string()));
    assert_eq!(normalize_label("__label__Network", &l), Some("__label__network".to_string()));
    assert_eq!(normalize_label("database", &l), Some("__label__database".to_string()));
    assert_eq!(normalize_label("cpu", &l), None);
}

#[test]
fn json_part_of_fenced_answer() {
    assert_eq!(
        verdict_json_part("```json\n{\"label\": \"disk\", \"reason\": \"盘掉了\"}\n```"),
        "{\"label\": \"disk\", \"reason\": \"盘掉了\"}"
    );
    assert_eq!(verdict_json_part("  结果：{\"a\":1} 完 "), "{\"a\":1}");
    assert_eq!(verdict_json_part(" } no object { "), "} no object {");
}

#[test]
fn verdict_from_json_label() {
    let raw = "```json\n{\"label\": \"Network\", \"reason\": \"VPN 断开\"}\n```";
    assert_eq!(
        parse_verdict(raw, &labels()),
        Ok(("__label__network".to_string(), "VPN 断开".to_string()))
    );
}

#[test]
fn verdict_falls_back_to_label_in_text() {
    let raw = "I think it is __label__disk, clearly";
    assert_eq!(
        parse_verdict(raw, &labels()),
        Ok(("__label__disk".to_string(), String::new()))
    );
}

#[test]
fn verdict_when_nothing_matches() {
    let raw = "  no idea  ";
    assert_eq!(
        parse_verdict(raw, &labels()),
        Err(LlmError::Unparseable { excerpt: "no idea".to_string() })
    );
}

#[test]
fn verdict_with_unknown_label_keeps_reason() {
    let raw = "{\"label\": \"cpu\", \"reason\": \"r\"} __label__database";
    assert_eq!(
        parse_verdict(raw, &labels()),
        Ok(("__label__database".to_string(), "r".to_string()))
    );
}

#[test]
fn verdict_from_answer_keeps_the_answer() {
    let raw = "{\"label\": \"disk\", \"reason\": \"盘\"}".to_string();
    let v = verdict_from_answer(raw.clone(), &labels()).unwrap();
    assert_eq!(v.label, "__label__disk");
    assert_eq!(v.reason, "盘");
    assert_eq!(v.raw, raw);
    assert!(matches!(
        verdict_from_answer("???".to_string(), &labels()),
        Err(LlmError::Unparseable { .. })
    ));
}

#[test]
fn config_clone_keeps_settings() {
    let cfg = config("u", "k", "m");
    let copy = cfg.clone();
    assert_eq!(copy.base_url, "u");
    assert_eq!(copy.api_key, "k");
    assert_eq!(copy.model, "m");
    assert_eq!(copy.timeout, cfg.timeout);
}
