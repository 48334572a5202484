//! The large-model side of the tool: its configuration, the chat request it
//! sends to an OpenAI-compatible `chat/completions` endpoint, the reading of
//! the reply, and the single-choice classification over a set of candidate
//! labels. Sending and receiving is left to the caller; everything decided
//! before and after it is here.
use std::time::Duration;

use vstd::prelude::*;

use crate::json::{
    json_as_str, json_get_index, json_get_key, json_parse, json_quoted, json_string_literal, opt_as_str,
    opt_get_key, parse_json, Json,
};
use crate::text::{
    chars_of, contains_chars, copy_string, drop_back, drop_back_while, eq_ignore_ascii_case,
    eq_ignore_ascii_case_spec, find_char, is_first_pos, is_last_pos, lemma_first_pos,
    lemma_last_pos, occurs_at, first_pos, has_char, join, join_spec, last_pos,
    lemma_trim_idempotent, rfind_char, string_of, strip_prefixes, strip_prefixes_chars,
    strip_suffixes, strip_suffixes_chars, sub_chars, trim, trim_char, trim_char_spec,
    trim_chars, trim_spec, views, CharClass, contains_spec,
};

verus! {

// ---------------------------------------------------------------------------
// Configuration
// ---------------------------------------------------------------------------

/// What `Duration::from_secs(secs)` returns.
pub uninterp spec fn duration_from_secs(secs: u64) -> Duration;

/// `std::time::Duration::from_secs`, which makes the duration of `secs`
/// whole seconds and never fails; the contract names its result.
#[verifier::external_body]
fn secs_to_duration(secs: u64) -> (d: Duration)
    ensures
        d == duration_from_secs(secs),
{
    Duration::from_secs(secs)
}

/// The settings of the large model (an OpenAI-compatible `chat/completions`
/// service).
#[derive(Debug)]
pub struct LlmConfig {
    /// For example `https://api.openai.com/v1` or
    /// `https://dashscope.aliyuncs.com/compatible-mode/v1`.
    pub base_url: String,
    pub api_key: String,
    pub model: String,
    pub timeout: Duration,
}

/// The path that is appended to the base address.
pub open spec fn chat_completions_path() -> Seq<char> {
    "/chat/completions"@
}

/// The address of the chat endpoint: the base address without its trailing
/// slashes, then `/chat/completions`.
pub open spec fn chat_completions_url_spec(base_url: Seq<char>) -> Seq<char> {
    drop_back_while(base_url, CharClass::Exactly('/')) + chat_completions_path()
}

impl Clone for LlmConfig {
    fn clone(&self) -> (r: Self)
        ensures
            r.base_url@ == self.base_url@,
            r.api_key@ == self.api_key@,
            r.model@ == self.model@,
            r.timeout == self.timeout,
    {
        LlmConfig {
            base_url: copy_string(&self.base_url),
            api_key: copy_string(&self.api_key),
            model: copy_string(&self.model),
            timeout: self.timeout,
        }
    }
}

impl LlmConfig {
    pub fn new(base_url: String, api_key: String, model: String, timeout_secs: u64) -> (r: Self)
        ensures
            r.base_url@ == base_url@,
            r.api_key@ == api_key@,
            r.model@ == model@,
            r.timeout == duration_from_secs(timeout_secs),
    {
        LlmConfig { base_url, api_key, model, timeout: secs_to_duration(timeout_secs) }
    }

    /// Whether the address, the key and the model name are all given.
    pub fn is_configured(&self) -> (r: bool)
        ensures
            r == (self.base_url@.len() > 0 && self.api_key@.len() > 0 && self.model@.len() > 0),
    {
        !self.base_url.as_str().is_empty() && !self.api_key.as_str().is_empty()
            && !self.model.as_str().is_empty()
    }

    /// The address of the chat endpoint.
    pub fn chat_completions_url(&self) -> (r: String)
        ensures
            r@ == chat_completions_url_spec(self.base_url@),
    {
        let base = chars_of(self.base_url.as_str());
        let trimmed = drop_back(base.as_slice(), CharClass::Exactly('/'));
        let mut url = string_of(trimmed.as_slice());
        url.append("/chat/completions");
        url
    }
}

// ---------------------------------------------------------------------------
// Errors
// ---------------------------------------------------------------------------

/// Why a request to the large model gave no usable answer.
#[derive(Debug, Clone, PartialEq, Eq)]
pub enum LlmError {
    /// There were no candidate labels to choose from.
    NoLabels,
    /// The service answered with a status other than success; `excerpt` is
    /// the start of the body.
    BadStatus { status: String, excerpt: String },
    /// The body of the reply is not JSON.
    InvalidJson { excerpt: String },
    /// The reply has no `choices[0].message.content` string.
    MissingContent { excerpt: String },
    /// The answer names none of the candidate labels.
    Unparseable { excerpt: String },
}

/// The text of an error.
pub open spec fn error_message(e: LlmError) -> Seq<char> {
    match e {
        LlmError::NoLabels => "小模型没有可用标签，无法交给大模型分类"@,
        LlmError::BadStatus { status, excerpt } => "大模型返回异常状态码 "@ + status@ + ": "@
            + excerpt@,
        LlmError::InvalidJson { excerpt } => "大模型响应不是合法 JSON: "@ + excerpt@,
        LlmError::MissingContent { excerpt } => "大模型响应缺少 choices[0].message.content: "@
            + excerpt@,
        LlmError::Unparseable { excerpt } => "大模型输出无法解析为候选标签: "@ + excerpt@,
    }
}

impl LlmError {
    /// The text of the error, as it is shown to the user.
    pub fn message(&self) -> (r: String)
        ensures
            r@ == error_message(*self),
    {
        match self {
            LlmError::NoLabels => String::from_str("小模型没有可用标签，无法交给大模型分类"),
            LlmError::BadStatus { status, excerpt } => {
                let mut r = String::from_str("大模型返回异常状态码 ");
                r.append(status.as_str());
                r.append(": ");
                r.append(excerpt.as_str());
                r
            },
            LlmError::InvalidJson { excerpt } => {
                let mut r = String::from_str("大模型响应不是合法 JSON: ");
                r.append(excerpt.as_str());
                r
            },
            LlmError::MissingContent { excerpt } => {
                let mut r = String::from_str("大模型响应缺少 choices[0].message.content: ");
                r.append(excerpt.as_str());
                r
            },
            LlmError::Unparseable { excerpt } => {
                let mut r = String::from_str("大模型输出无法解析为候选标签: ");
                r.append(excerpt.as_str());
                r
            },
        }
    }
}

/// The marker appended to a shortened text.
pub open spec fn truncation_marker() -> Seq<char> {
    "...(已截断)"@
}

/// `s` itself when it has at most `max_chars` characters, else its first
/// `max_chars` characters and the truncation marker.
pub open spec fn truncate_spec(s: Seq<char>, max_chars: nat) -> Seq<char> {
    if s.len() <= max_chars {
        s
    } else {
        s.take(max_chars as int) + truncation_marker()
    }
}

/// Shortens a text for an error message.
pub fn truncate(s: &str, max_chars: usize) -> (r: String)
    ensures
        r@ == truncate_spec(s@, max_chars as nat),
{
    let chars = chars_of(s);
    if chars.len() <= max_chars {
        return string_of(chars.as_slice());
    }
    let head = sub_chars(chars.as_slice(), 0, max_chars);
    let mut r = string_of(head.as_slice());
    r.append("...(已截断)");
    r
}

// ---------------------------------------------------------------------------
// The chat request and its reply
// ---------------------------------------------------------------------------

/// What is sent to the chat endpoint.
#[derive(Debug, Clone, PartialEq, Eq)]
pub struct ChatRequest {
    pub url: String,
    /// The bearer token, when there is an API key.
    pub bearer: Option<String>,
    /// The JSON body.
    pub body: String,
}

/// The JSON body of a chat request with temperature 0: the object that
/// `serde_json` writes for it, its keys in sorted order.
pub open spec fn chat_body_spec(model: Seq<char>, system: Seq<char>, user: Seq<char>) -> Seq<
    char,
> {
    "{\"messages\":[{\"content\":"@ + json_quoted(system) + ",\"role\":\"system\"},{\"content\":"@
        + json_quoted(user) + ",\"role\":\"user\"}],\"model\":"@ + json_quoted(model)
        + ",\"temperature\":0.0}"@
}

/// The request that asks the model of `cfg` to answer `user` under the
/// instructions `system`.
pub fn chat_request(cfg: &LlmConfig, system: &str, user: &str) -> (r: ChatRequest)
    ensures
        r.url@ == chat_completions_url_spec(cfg.base_url@),
        r.bearer is Some <==> cfg.api_key@.len() > 0,
        r.bearer matches Some(t) ==> t@ == cfg.api_key@,
        r.body@ == chat_body_spec(cfg.model@, system@, user@),
{
    let url = cfg.chat_completions_url();
    let bearer = if cfg.api_key.as_str().is_empty() {
        None
    } else {
        Some(copy_string(&cfg.api_key))
    };
    let mut body = String::from_str("{\"messages\":[{\"content\":");
    body.append(json_string_literal(system).as_str());
    body.append(",\"role\":\"system\"},{\"content\":");
    body.append(json_string_literal(user).as_str());
    body.append(",\"role\":\"user\"}],\"model\":");
    body.append(json_string_literal(cfg.model.as_str()).as_str());
    body.append(",\"temperature\":0.0}");
    ChatRequest { url, bearer, body }
}

/// `choices[0].message.content` of a reply, when it is a string.
pub open spec fn reply_content(v: Json) -> Option<Seq<char>> {
    let choice = match json_get_key(v, "choices"@) {
        Some(c) => json_get_index(c, 0),
        None => None,
    };
    opt_as_str(opt_get_key(opt_get_key(choice, "message"@), "content"@))
}

/// `choices[0].message.content` of a reply.
pub fn reply_content_exec(v: &Json) -> (r: Option<&String>)
    ensures
        match r {
            Some(s) => reply_content(*v) == Some(s@),
            None => reply_content(*v) is None,
        },
{
    let choices = v.get_key("choices")?;
    let first = choices.get_index(0)?;
    let message = first.get_key("message")?;
    let content = message.get_key("content")?;
    content.as_str()
}

/// Reads the reply of the chat endpoint: `success` tells whether the status
/// was a success, `status` is its text and `text` the body. The answer is the
/// trimmed `choices[0].message.content` of the body read as JSON.
pub fn read_reply(success: bool, status: &str, text: &str) -> (r: Result<String, LlmError>)
    ensures
        !success ==> (r matches Err(LlmError::BadStatus { status: s, excerpt }) && s@ == status@
            && excerpt@ == truncate_spec(text@, 500)),
        success ==> match json_parse(text@) {
            None => (r matches Err(LlmError::InvalidJson { excerpt }) && excerpt@ == truncate_spec(
                text@,
                200,
            )),
            Some(v) => match reply_content(v) {
                Some(c) => (r matches Ok(answer) && answer@ == trim_spec(c)),
                None => (r matches Err(LlmError::MissingContent { excerpt }) && excerpt@
                    == truncate_spec(text@, 300)),
            },
        },
{
    if !success {
        return Err(
            LlmError::BadStatus {
                status: string_of(chars_of(status).as_slice()),
                excerpt: truncate(text, 500),
            },
        );
    }
    match parse_json(text) {
        None => Err(LlmError::InvalidJson { excerpt: truncate(text, 200) }),
        Some(v) => match reply_content_exec(&v) {
            Some(content) => Ok(trim(content.as_str())),
            None => Err(LlmError::MissingContent { excerpt: truncate(text, 300) }),
        },
    }
}

// ---------------------------------------------------------------------------
// Classification by the large model
// ---------------------------------------------------------------------------

/// The result of a classification by the large model.
#[derive(Debug, Clone, PartialEq, Eq)]
pub struct LlmVerdict {
    pub label: String,
    pub reason: String,
    pub raw: String,
}

/// The instructions that make the model a single-choice classifier.
pub open spec fn classify_system_spec() -> Seq<char> {
    "你是一个严格的文本分类引擎。只能从候选标签中选择最合适的一个，并且必须只输出一行 JSON：{\"label\": \"<候选标签之一>\", \"reason\": \"<不超过 30 字的中文理由>\"}，不要输出代码块、不要输出任何额外文字。"@
}

/// The question put to the model: the candidate labels one per line, then the
/// text between triple quotes.
pub open spec fn classify_user_spec(text: Seq<char>, labels: Seq<Seq<char>>) -> Seq<char> {
    "候选标签：\n- "@ + join_spec(labels, "\n- "@) + "\n\n待分类文本：\n\"\"\"\n"@ + text
        + "\n\"\"\"\n\n请输出 JSON。"@
}

/// The two messages of a classification request.
#[derive(Debug, Clone, PartialEq, Eq)]
pub struct ClassifyPrompt {
    pub system: String,
    pub user: String,
}

/// The messages that ask the model to classify `text` among `labels`; there
/// must be at least one label.
pub fn classify_prompt(text: &str, labels: &[String]) -> (r: Result<ClassifyPrompt, LlmError>)
    ensures
        labels@.len() == 0 <==> r matches Err(LlmError::NoLabels),
        labels@.len() > 0 ==> (r matches Ok(p) && p.system@ == classify_system_spec() && p.user@
            == classify_user_spec(text@, views(labels@))),
{
    if labels.len() == 0 {
        return Err(LlmError::NoLabels);
    }
    let system = String::from_str(
        "你是一个严格的文本分类引擎。只能从候选标签中选择最合适的一个，并且必须只输出一行 JSON：{\"label\": \"<候选标签之一>\", \"reason\": \"<不超过 30 字的中文理由>\"}，不要输出代码块、不要输出任何额外文字。",
    );
    let mut user = String::from_str("候选标签：\n- ");
    user.append(join(labels, "\n- ").as_str());
    user.append("\n\n待分类文本：\n\"\"\"\n");
    user.append(text);
    user.append("\n\"\"\"\n\n请输出 JSON。");
    Ok(ClassifyPrompt { system, user })
}

/// The first position in `labels` whose label satisfies `p`.
pub open spec fn first_index_where(labels: Seq<Seq<char>>, p: spec_fn(Seq<char>) -> bool) -> Option<
    int,
>
    decreases labels.len(),
{
    if labels.len() == 0 {
        None
    } else if p(labels[0]) {
        Some(0)
    } else {
        match first_index_where(labels.drop_first(), p) {
            Some(i) => Some(i + 1),
            None => None,
        }
    }
}

/// The first label that satisfies `p`.
pub open spec fn first_label_where(labels: Seq<Seq<char>>, p: spec_fn(Seq<char>) -> bool) -> Option<
    Seq<char>,
> {
    match first_index_where(labels, p) {
        Some(i) => Some(labels[i]),
        None => None,
    }
}

/// Labels equal to `c` when ASCII case is ignored.
pub open spec fn same_ignoring_case(c: Seq<char>) -> spec_fn(Seq<char>) -> bool {
    |l: Seq<char>| eq_ignore_ascii_case_spec(l, c)
}

/// Labels that occur in `text`.
pub open spec fn occurring_in(text: Seq<char>) -> spec_fn(Seq<char>) -> bool {
    |l: Seq<char>| contains_spec(text, l)
}

/// The prefix that fastText puts before every label.
pub open spec fn label_prefix() -> Seq<char> {
    "__label__"@
}

/// The candidate label that an answer names: the answer trimmed of white
/// space and of quotes, matched against the labels ignoring ASCII case,
/// first as it is and then with the `__label__` prefix.
pub open spec fn normalize_label_spec(candidate: Seq<char>, labels: Seq<Seq<char>>) -> Option<
    Seq<char>,
> {
    let c = trim_char_spec(trim_spec(candidate), '"');
    match first_label_where(labels, same_ignoring_case(c)) {
        Some(l) => Some(l),
        None => first_label_where(
            labels,
            same_ignoring_case(label_prefix() + strip_prefixes(c, label_prefix())),
        ),
    }
}

/// `first_index_where` is the first position that satisfies the predicate.
pub proof fn lemma_first_index_where(
    labels: Seq<Seq<char>>,
    p: spec_fn(Seq<char>) -> bool,
    i: int,
)
    requires
        0 <= i <= labels.len(),
        forall|j: int| 0 <= j < i ==> !p(#[trigger] labels[j]),
        i < labels.len() ==> p(labels[i]),
    ensures
        first_index_where(labels, p) == (if i < labels.len() {
            Some(i)
        } else {
            None::<int>
        }),
    decreases i,
{
    if i > 0 {
        let rest = labels.drop_first();
        assert forall|j: int| 0 <= j < i - 1 implies !p(#[trigger] rest[j]) by {
            assert(rest[j] == labels[j + 1]);
        }
        assert(!p(labels[0]));
        lemma_first_index_where(rest, p, i - 1);
    }
}

/// A position of `first_index_where` holds a label of the sequence.
pub proof fn lemma_first_index_in_range(labels: Seq<Seq<char>>, p: spec_fn(Seq<char>) -> bool)
    ensures
        first_index_where(labels, p) matches Some(i) ==> 0 <= i < labels.len() && p(labels[i]),
    decreases labels.len(),
{
    if labels.len() > 0 && !p(labels[0]) {
        lemma_first_index_in_range(labels.drop_first(), p);
    }
}

/// The position of the first label equal to `c` ignoring ASCII case.
fn find_label_ignoring_case(labels: &[String], c: &[char]) -> (r: Option<usize>)
    ensures
        r matches Some(i) ==> i < labels@.len(),
        match r {
            Some(i) => first_index_where(views(labels@), same_ignoring_case(c@)) == Some(
                i as int,
            ),
            None => first_index_where(views(labels@), same_ignoring_case(c@)) is None,
        },
{
    let ghost all = views(labels@);
    let ghost p = same_ignoring_case(c@);
    let mut i: usize = 0;
    while i < labels.len()
        invariant
            i <= labels@.len(),
            all == views(labels@),
            p == same_ignoring_case(c@),
            forall|j: int| 0 <= j < i ==> !p(#[trigger] all[j]),
        decreases labels@.len() - i,
    {
        let l = chars_of(labels[i].as_str());
        if eq_ignore_ascii_case(l.as_slice(), c) {
            proof {
                lemma_first_index_where(all, p, i as int);
            }
            return Some(i);
        }
        i = i + 1;
    }
    proof {
        lemma_first_index_where(all, p, i as int);
    }
    None
}

/// The position of the first label that occurs in `text`.
fn find_label_in(labels: &[String], text: &[char]) -> (r: Option<usize>)
    ensures
        r matches Some(i) ==> i < labels@.len(),
        match r {
            Some(i) => first_index_where(views(labels@), occurring_in(text@)) == Some(i as int),
            None => first_index_where(views(labels@), occurring_in(text@)) is None,
        },
{
    let ghost all = views(labels@);
    let ghost p = occurring_in(text@);
    let mut i: usize = 0;
    while i < labels.len()
        invariant
            i <= labels@.len(),
            all == views(labels@),
            p == occurring_in(text@),
            forall|j: int| 0 <= j < i ==> !p(#[trigger] all[j]),
        decreases labels@.len() - i,
    {
        let l = chars_of(labels[i].as_str());
        if contains_chars(text, l.as_slice()) {
            proof {
                lemma_first_index_where(all, p, i as int);
            }
            return Some(i);
        }
        i = i + 1;
    }
    proof {
        lemma_first_index_where(all, p, i as int);
    }
    None
}

/// The candidate label that an answer names, if any.
pub fn normalize_label(candidate: &str, labels: &[String]) -> (r: Option<String>)
    ensures
        match r {
            Some(l) => normalize_label_spec(candidate@, views(labels@)) == Some(l@),
            None => normalize_label_spec(candidate@, views(labels@)) is None,
        },
{
    let raw = chars_of(candidate);
    let trimmed = trim_chars(raw.as_slice());
    let c = trim_char(trimmed.as_slice(), '"');
    if let Some(i) = find_label_ignoring_case(labels, c.as_slice()) {
        return Some(copy_string(&labels[i]));
    }
    let prefix = chars_of("__label__");
    let mut with_prefix = chars_of("__label__");
    let mut rest = strip_prefixes_chars(c.as_slice(), prefix.as_slice());
    with_prefix.append(&mut rest);
    match find_label_ignoring_case(labels, with_prefix.as_slice()) {
        Some(i) => Some(copy_string(&labels[i])),
        None => None,
    }
}

/// The opening fence of a JSON code block.
pub open spec fn json_fence() -> Seq<char> {
    "```json"@
}

/// A code fence.
pub open spec fn fence() -> Seq<char> {
    "```"@
}

/// The part of an answer that is read as JSON: the answer trimmed, without
/// code fences, from its first `{` to its last `}` when both are there in
/// that order.
pub open spec fn verdict_json_part_spec(raw: Seq<char>) -> Seq<char> {
    let s = trim_spec(
        strip_suffixes(strip_prefixes(strip_prefixes(trim_spec(raw), json_fence()), fence()), fence()),
    );
    if has_char(s, '{') && has_char(s, '}') && first_pos(s, '{') <= last_pos(s, '}') {
        s.subrange(first_pos(s, '{'), last_pos(s, '}') + 1)
    } else {
        s
    }
}

/// The part of an answer that is read as JSON.
pub fn verdict_json_part(raw: &str) -> (r: String)
    ensures
        r@ == verdict_json_part_spec(raw@),
{
    let chars = chars_of(raw);
    let cleaned = trim_chars(chars.as_slice());
    let json_fence = chars_of("```json");
    let fence = chars_of("```");
    let a = strip_prefixes_chars(cleaned.as_slice(), json_fence.as_slice());
    let b = strip_prefixes_chars(a.as_slice(), fence.as_slice());
    let c = strip_suffixes_chars(b.as_slice(), fence.as_slice());
    let s = trim_chars(c.as_slice());
    match (find_char(s.as_slice(), '{'), rfind_char(s.as_slice(), '}')) {
        (Some(start), Some(end)) if start <= end => {
            let n = s.len();
            assert(end < n);
            let part = sub_chars(s.as_slice(), start, end + 1);
            string_of(part.as_slice())
        },
        _ => string_of(s.as_slice()),
    }
}

/// The `reason` string of the answer's JSON, or nothing.
pub open spec fn verdict_reason_spec(v: Json) -> Seq<char> {
    match opt_as_str(json_get_key(v, "reason"@)) {
        Some(r) => r,
        None => Seq::empty(),
    }
}

/// The label that an answer selects: the one its JSON `label` names, else
/// the first candidate that occurs in the trimmed answer.
pub open spec fn verdict_label_spec(raw: Seq<char>, v: Json, labels: Seq<Seq<char>>) -> Option<
    Seq<char>,
> {
    let named = match opt_as_str(json_get_key(v, "label"@)) {
        Some(c) => normalize_label_spec(c, labels),
        None => None,
    };
    match named {
        Some(l) => Some(l),
        None => first_label_where(labels, occurring_in(trim_spec(raw))),
    }
}

/// What the JSON part of an answer reads as: `Json::Null` when it is not JSON.
pub open spec fn verdict_value_spec(raw: Seq<char>) -> Json {
    match json_parse(verdict_json_part_spec(raw)) {
        Some(v) => v,
        None => Json::Null,
    }
}

/// The label and the reason of the answer `raw`, given `value`, its JSON
/// part read as JSON.
fn verdict_from_value(raw: &str, value: &Json, labels: &[String]) -> (r: Result<
    (String, String),
    LlmError,
>)
    ensures
        match verdict_label_spec(raw@, *value, views(labels@)) {
            Some(l) => (r matches Ok((label, reason)) && label@ == l && reason@
                == verdict_reason_spec(*value)),
            None => (r matches Err(LlmError::Unparseable { excerpt }) && excerpt@ == truncate_spec(
                trim_spec(raw@),
                200,
            )),
        },
{
    let chars = chars_of(raw);
    let cleaned = trim_chars(chars.as_slice());
    let reason = match value.get_key("reason") {
        Some(f) => match f.as_str() {
            Some(s) => copy_string(s),
            None => String::new(),
        },
        None => String::new(),
    };
    if let Some(f) = value.get_key("label") {
        if let Some(c) = f.as_str() {
            if let Some(label) = normalize_label(c.as_str(), labels) {
                return Ok((label, reason));
            }
        }
    }
    if let Some(i) = find_label_in(labels, cleaned.as_slice()) {
        return Ok((copy_string(&labels[i]), reason));
    }
    let cleaned_text = string_of(cleaned.as_slice());
    Err(LlmError::Unparseable { excerpt: truncate(cleaned_text.as_str(), 200) })
}

/// Reads the label and the reason out of the model's answer `raw`.
pub fn parse_verdict(raw: &str, labels: &[String]) -> (r: Result<(String, String), LlmError>)
    ensures
        match verdict_label_spec(raw@, verdict_value_spec(raw@), views(labels@)) {
            Some(l) => (r matches Ok((label, reason)) && label@ == l && reason@
                == verdict_reason_spec(verdict_value_spec(raw@))),
            None => (r matches Err(LlmError::Unparseable { excerpt }) && excerpt@ == truncate_spec(
                trim_spec(raw@),
                200,
            )),
        },
{
    let part = verdict_json_part(raw);
    let value = match parse_json(part.as_str()) {
        Some(v) => v,
        None => Json::Null,
    };
    verdict_from_value(raw, &value, labels)
}

/// The verdict of the model's answer `raw`: its label and reason, and the
/// answer itself.
pub fn verdict_from_answer(raw: String, labels: &[String]) -> (r: Result<LlmVerdict, LlmError>)
    ensures
        match verdict_label_spec(raw@, verdict_value_spec(raw@), views(labels@)) {
            Some(l) => (r matches Ok(v) && v.label@ == l && v.reason@ == verdict_reason_spec(
                verdict_value_spec(raw@),
            ) && v.raw@ == raw@),
            None => (r matches Err(LlmError::Unparseable { excerpt }) && excerpt@ == truncate_spec(
                trim_spec(raw@),
                200,
            )),
        },
{
    let (label, reason) = parse_verdict(raw.as_str(), labels)?;
    Ok(LlmVerdict { label, reason, raw })
}

// ---------------------------------------------------------------------------
// Laws
// ---------------------------------------------------------------------------

/// The model can only ever select one of the candidate labels: whatever the
/// answer, a selected label is one of `labels`.
pub proof fn law_verdict_is_a_candidate(raw: Seq<char>, v: Json, labels: Seq<Seq<char>>)
    ensures
        verdict_label_spec(raw, v, labels) matches Some(l) ==> labels.contains(l),
{
    lemma_first_index_in_range(labels, occurring_in(trim_spec(raw)));
    match opt_as_str(json_get_key(v, "label"@)) {
        Some(c) => law_normalized_is_a_candidate(c, labels),
        None => {},
    }
}

/// A normalized label is always one of the candidates, and equals the
/// cleaned answer when ASCII case is ignored, with or without the fastText
/// prefix.
pub proof fn law_normalized_is_a_candidate(candidate: Seq<char>, labels: Seq<Seq<char>>)
    ensures
        normalize_label_spec(candidate, labels) matches Some(l) ==> labels.contains(l),
{
    let c = trim_char_spec(trim_spec(candidate), '"');
    lemma_first_index_in_range(labels, same_ignoring_case(c));
    lemma_first_index_in_range(
        labels,
        same_ignoring_case(label_prefix() + strip_prefixes(c, label_prefix())),
    );
}

/// White space around the answer does not change the label it names.
pub proof fn law_normalize_ignores_surrounding_space(candidate: Seq<char>, labels: Seq<Seq<char>>)
    ensures
        normalize_label_spec(trim_spec(candidate), labels) == normalize_label_spec(candidate, labels),
{
    lemma_trim_idempotent(candidate);
}

/// Trailing slashes of the base address do not change the chat address.
pub proof fn law_url_ignores_trailing_slash(base_url: Seq<char>)
    ensures
        chat_completions_url_spec(base_url.push('/')) == chat_completions_url_spec(base_url),
{
    let s = base_url.push('/');
    assert(s.drop_last() == base_url);
}

/// A text that fits is left as it is; a longer one keeps its first
/// `max_chars` characters and says that it was cut.
pub proof fn law_truncate_keeps_prefix(s: Seq<char>, max_chars: nat)
    ensures
        truncate_spec(s, max_chars).len() <= max_chars + truncation_marker().len(),
        s.len() <= max_chars ==> truncate_spec(s, max_chars) == s,
        s.len() > max_chars ==> truncate_spec(s, max_chars).take(max_chars as int) == s.take(
            max_chars as int,
        ),
{
    if s.len() > max_chars {
        assert((s.take(max_chars as int) + truncation_marker()).take(max_chars as int) == s.take(
            max_chars as int,
        ));
    }
}

/// `first_index_where` is the first position whose label satisfies the
/// predicate, and nothing only when no label does.
pub proof fn lemma_first_index_characterized(labels: Seq<Seq<char>>, p: spec_fn(Seq<char>) -> bool)
    ensures
        first_index_where(labels, p) matches Some(i) ==> 0 <= i < labels.len() && p(labels[i])
            && forall|j: int| 0 <= j < i ==> !p(#[trigger] labels[j]),
        first_index_where(labels, p) is None ==> forall|j: int|
            0 <= j < labels.len() ==> !p(#[trigger] labels[j]),
    decreases labels.len(),
{
    if labels.len() > 0 && !p(labels[0]) {
        let rest = labels.drop_first();
        lemma_first_index_characterized(rest, p);
        assert forall|j: int| 1 <= j < labels.len() implies labels[j] == rest[j - 1] by {}
        match first_index_where(rest, p) {
            Some(k) => {
                assert forall|j: int| 0 <= j < k + 1 implies !p(#[trigger] labels[j]) by {
                    if j > 0 {
                        assert(labels[j] == rest[j - 1]);
                    }
                }
            },
            None => {
                assert forall|j: int| 0 <= j < labels.len() implies !p(#[trigger] labels[j]) by {
                    if j > 0 {
                        assert(labels[j] == rest[j - 1]);
                    }
                }
            },
        }
    }
}

/// Whether `r` is the first of `labels` that occurs in `text`, or nothing
/// when none occurs.
pub open spec fn first_occurring(text: Seq<char>, labels: Seq<Seq<char>>, r: Option<Seq<char>>) -> bool {
    match r {
        Some(l) => exists|i: int|
            0 <= i < labels.len() && labels[i] == l && contains_spec(text, l) && forall|j: int|
                0 <= j < i ==> !contains_spec(text, #[trigger] labels[j]),
        None => forall|j: int| 0 <= j < labels.len() ==> !contains_spec(text, #[trigger] labels[j]),
    }
}

/// The label that the answer's JSON names wins: when its `label` field names
/// a candidate, that candidate is the verdict, whatever other candidates the
/// answer's text mentions. Only when it names none is the text searched, and
/// then the verdict is the first candidate (in the given order) that occurs in
/// the trimmed answer, and there is no verdict when none occurs.
pub proof fn law_json_label_comes_first(raw: Seq<char>, v: Json, labels: Seq<Seq<char>>)
    ensures
        match opt_as_str(json_get_key(v, "label"@)) {
            Some(c) => match normalize_label_spec(c, labels) {
                Some(l) => verdict_label_spec(raw, v, labels) == Some(l),
                None => first_occurring(trim_spec(raw), labels, verdict_label_spec(raw, v, labels)),
            },
            None => first_occurring(trim_spec(raw), labels, verdict_label_spec(raw, v, labels)),
        },
{
    let p = occurring_in(trim_spec(raw));
    lemma_first_index_characterized(labels, p);
    match first_index_where(labels, p) {
        Some(i) => {
            assert(p(labels[i]));
            assert forall|j: int| 0 <= j < i implies !contains_spec(
                trim_spec(raw),
                #[trigger] labels[j],
            ) by {
                assert(!p(labels[j]));
            }
        },
        None => {
            assert forall|j: int| 0 <= j < labels.len() implies !contains_spec(
                trim_spec(raw),
                #[trigger] labels[j],
            ) by {
                assert(!p(labels[j]));
            }
        },
    }
}

/// How an answer names a label: the answer is trimmed of white space and then
/// of quotes; a candidate equal to that (ASCII case ignored) is taken, the
/// first such; only when there is none is a candidate equal to it with the
/// `__label__` prefix taken; and when neither exists there is no label.
pub proof fn law_normalize_label_matches(candidate: Seq<char>, labels: Seq<Seq<char>>)
    ensures
        ({
            let c = trim_char_spec(trim_spec(candidate), '"');
            let pc = label_prefix() + strip_prefixes(c, label_prefix());
            &&& forall|i: int|
                0 <= i < labels.len() && eq_ignore_ascii_case_spec(labels[i], c) && (forall|j: int|
                    0 <= j < i ==> !eq_ignore_ascii_case_spec(#[trigger] labels[j], c))
                    ==> normalize_label_spec(candidate, labels) == Some(labels[i])
            &&& normalize_label_spec(candidate, labels) matches Some(l) ==> labels.contains(l) && (
            eq_ignore_ascii_case_spec(l, c) || eq_ignore_ascii_case_spec(l, pc))
            &&& normalize_label_spec(candidate, labels) is None ==> forall|j: int|
                0 <= j < labels.len() ==> !eq_ignore_ascii_case_spec(#[trigger] labels[j], c)
                    && !eq_ignore_ascii_case_spec(labels[j], pc)
        }),
{
    let c = trim_char_spec(trim_spec(candidate), '"');
    let pc = label_prefix() + strip_prefixes(c, label_prefix());
    let p1 = same_ignoring_case(c);
    let p2 = same_ignoring_case(pc);
    lemma_first_index_characterized(labels, p1);
    lemma_first_index_characterized(labels, p2);
    assert forall|i: int|
        0 <= i < labels.len() && eq_ignore_ascii_case_spec(labels[i], c) && (forall|j: int|
            0 <= j < i ==> !eq_ignore_ascii_case_spec(#[trigger] labels[j], c))
        implies normalize_label_spec(candidate, labels) == Some(labels[i]) by {
        assert forall|j: int| 0 <= j < i implies !p1(#[trigger] labels[j]) by {}
        lemma_first_index_where(labels, p1, i);
    }
    match first_index_where(labels, p1) {
        Some(i) => {
            assert(labels.contains(labels[i]));
        },
        None => {
            match first_index_where(labels, p2) {
                Some(k) => {
                    assert(labels.contains(labels[k]));
                },
                None => {
                    assert forall|j: int| 0 <= j < labels.len() implies !eq_ignore_ascii_case_spec(
                        #[trigger] labels[j],
                        c,
                    ) && !eq_ignore_ascii_case_spec(labels[j], pc) by {
                        assert(!p1(labels[j]));
                        assert(!p2(labels[j]));
                    }
                },
            }
        },
    }
}

/// The instructions ask for the JSON keys that the verdict is read from:
/// `label` and `reason`.
pub proof fn law_prompt_asks_for_label_and_reason()
    ensures
        contains_spec(classify_system_spec(), "{\"label\": \""@),
        contains_spec(classify_system_spec(), "\"reason\": \""@),
{
    let sys = classify_system_spec();
    reveal_strlit(
        "你是一个严格的文本分类引擎。只能从候选标签中选择最合适的一个，并且必须只输出一行 JSON：{\"label\": \"<候选标签之一>\", \"reason\": \"<不超过 30 字的中文理由>\"}，不要输出代码块、不要输出任何额外文字。",
    );
    reveal_strlit("{\"label\": \"");
    reveal_strlit("\"reason\": \"");
    assert(sys.subrange(46int, 57int) =~= "{\"label\": \""@);
    assert(occurs_at(sys, "{\"label\": \""@, 46));
    assert(sys.subrange(68int, 79int) =~= "\"reason\": \""@);
    assert(occurs_at(sys, "\"reason\": \""@, 68));
}

/// A base address that does not end with a slash is kept as it is, and the
/// chat path follows it; the address always ends with that path.
pub proof fn law_url_appends_path(base_url: Seq<char>)
    ensures
        (base_url.len() == 0 || base_url.last() != '/') ==> chat_completions_url_spec(base_url)
            == base_url + "/chat/completions"@,
        chat_completions_url_spec(base_url).len() >= chat_completions_path().len(),
        chat_completions_url_spec(base_url).skip(
            chat_completions_url_spec(base_url).len() - chat_completions_path().len(),
        ) == chat_completions_path(),
{
    let d = drop_back_while(base_url, CharClass::Exactly('/'));
    assert((d + chat_completions_path()).skip(d.len() as int) =~= chat_completions_path());
}

/// The answer is read from `choices[0].message.content` of the reply: when
/// each step of that path is there and ends in a string, that string is the
/// content; when any step is missing, there is none.
pub proof fn law_reply_content_path(v: Json)
    ensures
        match json_get_key(v, "choices"@) {
            None => reply_content(v) is None,
            Some(c) => match json_get_index(c, 0) {
                None => reply_content(v) is None,
                Some(m0) => match json_get_key(m0, "message"@) {
                    None => reply_content(v) is None,
                    Some(m) => match json_get_key(m, "content"@) {
                        None => reply_content(v) is None,
                        Some(x) => reply_content(v) == json_as_str(x),
                    },
                },
            },
        },
{
}

/// An answer that, trimmed, is a bare `{...}` object is read as JSON whole.
pub proof fn law_bare_object_is_the_json_part(raw: Seq<char>)
    requires
        trim_spec(raw).len() > 0,
        trim_spec(raw)[0] == '{',
        trim_spec(raw).last() == '}',
    ensures
        verdict_json_part_spec(raw) == trim_spec(raw),
{
    let s0 = trim_spec(raw);
    reveal_strlit("```json");
    reveal_strlit("```");
    assert(!occurs_at(s0, json_fence(), 0)) by {
        if occurs_at(s0, json_fence(), 0) {
            assert(s0.subrange(0, 7)[0] == s0[0]);
        }
    }
    assert(strip_prefixes(s0, json_fence()) == s0);
    assert(!occurs_at(s0, fence(), 0)) by {
        if occurs_at(s0, fence(), 0) {
            assert(s0.subrange(0, 3)[0] == s0[0]);
        }
    }
    assert(strip_prefixes(s0, fence()) == s0);
    assert(!occurs_at(s0, fence(), s0.len() - 3)) by {
        if occurs_at(s0, fence(), s0.len() - 3) {
            assert(s0.subrange(s0.len() - 3, s0.len() as int)[2] == s0[s0.len() - 1]);
        }
    }
    assert(strip_suffixes(s0, fence()) == s0);
    lemma_trim_idempotent(raw);
    let s = trim_spec(s0);
    assert(s == s0);
    assert(is_first_pos(s, '{', 0));
    lemma_first_pos(s, '{', 0);
    assert(is_last_pos(s, '}', s.len() - 1));
    lemma_last_pos(s, '}', s.len() - 1);
    assert(s.subrange(0, s.len() as int) =~= s);
}

} // verus!
