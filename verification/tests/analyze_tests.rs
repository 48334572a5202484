use rustfasttext::analyze::{ask_llm, settle_analysis, Source};
use rustfasttext::classifier::train_threads;
use rustfasttext::llm::LlmVerdict;

const NOTE: &str = "未配置大模型（设置 LLM_BASE_URL / LLM_API_KEY / LLM_MODEL 后自动启用兜底）";

#[test]
fn llm_asked_only_when_unsure_and_configured() {
    assert!(ask_llm(false, true));
    assert!(!ask_llm(true, true));
    assert!(!ask_llm(false, false));
    assert!(!ask_llm(true, false));
}

#[test]
fn confident_small_model_decides() {
    let a = settle_analysis(Some("__label__disk"), true, None);
    assert_eq!(a.source, Source::Fasttext);
    assert_eq!(a.label, "__label__disk");
    assert_eq!(a.reason, None);
    assert_eq!(a.note, None);
    assert_eq!(a.llm_error, None);
    assert_eq!(a.line(), "__label__disk\t[fasttext]\treason=-");
}

#[test]
fn unsure_without_llm_adds_note() {
    let a = settle_analysis(None, false, None);
    assert_eq!(a.source, Source::Fasttext);
    assert_eq!(a.label, "");
    assert_eq!(a.note.as_deref(), Some(NOTE));
    assert_eq!(a.line(), "\t[fasttext]\treason=-");
}

#[test]
fn llm_verdict_wins() {
    let v = LlmVerdict {
        label: "__label__network".to_string(),
        reason: "VPN".to_string(),
        raw: "{}".to_string(),
    };
    let a = settle_analysis(Some("__label__disk"), false, Some(Ok(v)));
    assert_eq!(a.source, Source::Llm);
    assert_eq!(a.label, "__label__network");
    assert_eq!(a.reason.as_deref(), Some("VPN"));
    assert_eq!(a.note, None);
    assert_eq!(a.line(), "__label__network\t[llm]\treason=VPN");
}

#[test]
fn llm_failure_is_recorded() {
    let a = settle_analysis(Some("__label__disk"), false, Some(Err("boom".to_string())));
    assert_eq!(a.source, Source::Fasttext);
    assert_eq!(a.label, "__label__disk");
    assert_eq!(a.llm_error.as_deref(), Some("boom"));
    assert_eq!(a.note.as_deref(), Some(NOTE));
}

#[test]
fn source_names() {
    assert_eq!(Source::Fasttext.name(), "fasttext");
    assert_eq!(Source::Llm.name(), "llm");
}

#[test]
fn thread_count_choice() {
    assert_eq!(train_threads(3, Some(8)), 3);
    assert_eq!(train_threads(0, Some(8)), 8);
    assert_eq!(train_threads(-1, None), 4);
    assert_eq!(train_threads(0, None), 4);
}
