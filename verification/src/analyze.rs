//! The decisions of the hybrid analysis: the small model answers first, and
//! the large model is asked only when the small model is not confident
//! enough and a large model is configured. The probabilities themselves are
//! floating point and stay with the caller, which hands over whether the
//! small model was confident.
use vstd::prelude::*;

use crate::llm::LlmVerdict;
use crate::text::{copy_string, string_of, chars_of};

verus! {

/// Which model gave the final label.
#[derive(Debug, Clone, Copy, PartialEq, Eq)]
pub enum Source {
    Fasttext,
    Llm,
}

/// The name of a source in the output.
pub open spec fn source_name(s: Source) -> Seq<char> {
    match s {
        Source::Fasttext => "fasttext"@,
        Source::Llm => "llm"@,
    }
}

impl Source {
    /// The name of the source in the output.
    pub fn name(&self) -> (r: String)
        ensures
            r@ == source_name(*self),
    {
        match self {
            Source::Fasttext => String::from_str("fasttext"),
            Source::Llm => String::from_str("llm"),
        }
    }
}

/// The note that tells how to enable the large model.
pub open spec fn fallback_note() -> Seq<char> {
    "未配置大模型（设置 LLM_BASE_URL / LLM_API_KEY / LLM_MODEL 后自动启用兜底）"@
}

/// The outcome for one text.
#[derive(Debug, Clone, PartialEq, Eq)]
pub struct Analysis {
    pub source: Source,
    pub label: String,
    /// The reason that the large model gave, when it decided.
    pub reason: Option<String>,
    /// Set when the small model was not confident and the large model gave
    /// no verdict.
    pub note: Option<String>,
    /// What went wrong when the large model was asked and failed.
    pub llm_error: Option<String>,
}

/// Whether the large model is asked.
pub open spec fn ask_llm_spec(confident: bool, llm_configured: bool) -> bool {
    !confident && llm_configured
}

/// Whether the large model is asked: only when the small model is not
/// confident and a large model is configured.
pub fn ask_llm(confident: bool, llm_configured: bool) -> (r: bool)
    ensures
        r == ask_llm_spec(confident, llm_configured),
{
    !confident && llm_configured
}

/// Whether `a` is the outcome for the small model's top label `top_label`
/// (nothing when it predicted nothing), its confidence, and the answer of the
/// large model (nothing when it was not asked, an error text when it failed).
pub open spec fn settled(
    a: Analysis,
    top_label: Option<Seq<char>>,
    confident: bool,
    llm: Option<Result<LlmVerdict, String>>,
) -> bool {
    match llm {
        Some(Ok(v)) => {
            &&& a.source == Source::Llm
            &&& a.label@ == v.label@
            &&& a.reason matches Some(r) && r@ == v.reason@
            &&& a.note is None
            &&& a.llm_error is None
        },
        _ => {
            &&& a.source == Source::Fasttext
            &&& a.label@ == (match top_label {
                Some(l) => l,
                None => Seq::empty(),
            })
            &&& a.reason is None
            &&& (if confident {
                a.note is None
            } else {
                a.note matches Some(n) && n@ == fallback_note()
            })
            &&& (match llm {
                Some(Err(e)) => a.llm_error matches Some(m) && m@ == e@,
                _ => a.llm_error is None,
            })
        },
    }
}

/// The outcome for one text, from the small model's top label, its
/// confidence and the large model's answer.
pub fn settle_analysis(
    top_label: Option<&str>,
    confident: bool,
    llm: Option<Result<LlmVerdict, String>>,
) -> (a: Analysis)
    ensures
        settled(
            a,
            match top_label {
                Some(l) => Some(l@),
                None => None,
            },
            confident,
            llm,
        ),
{
    match llm {
        Some(Ok(v)) => Analysis {
            source: Source::Llm,
            label: copy_string(&v.label),
            reason: Some(copy_string(&v.reason)),
            note: None,
            llm_error: None,
        },
        other => {
            let label = match top_label {
                Some(l) => string_of(chars_of(l).as_slice()),
                None => String::new(),
            };
            let note = if confident {
                None
            } else {
                Some(
                    String::from_str(
                        "未配置大模型（设置 LLM_BASE_URL / LLM_API_KEY / LLM_MODEL 后自动启用兜底）",
                    ),
                )
            };
            let llm_error = match &other {
                Some(Err(e)) => Some(copy_string(e)),
                _ => None,
            };
            Analysis { source: Source::Fasttext, label, reason: None, note, llm_error }
        },
    }
}

/// The plain-text line of an outcome: the label, the source in brackets and
/// the reason (`-` when there is none), separated by tabs.
pub open spec fn analysis_line_spec(a: Analysis) -> Seq<char> {
    a.label@ + "\t["@ + source_name(a.source) + "]\treason="@ + match a.reason {
        Some(r) => r@,
        None => "-"@,
    }
}

impl Analysis {
    /// The plain-text line of the outcome.
    pub fn line(&self) -> (r: String)
        ensures
            r@ == analysis_line_spec(*self),
    {
        let mut r = copy_string(&self.label);
        r.append("\t[");
        r.append(self.source.name().as_str());
        r.append("]\treason=");
        match &self.reason {
            Some(reason) => r.append(reason.as_str()),
            None => r.append("-"),
        }
        r
    }
}

/// The large model is never asked about a text on which the small model is
/// confident.
pub proof fn law_confident_never_asks(llm_configured: bool)
    ensures
        !ask_llm_spec(true, llm_configured),
{
}

/// The large model is asked exactly when the small model is not confident and
/// a large model is configured.
pub proof fn law_unsure_asks_when_configured(confident: bool, llm_configured: bool)
    ensures
        ask_llm_spec(confident, llm_configured) <==> (!confident && llm_configured),
        ask_llm_spec(false, true),
{
}

/// Without a configured large model the analysis falls back to the small
/// model: it is not asked, and the outcome names the small model, its label
/// and no error.
pub proof fn law_unconfigured_falls_back(
    a: Analysis,
    top_label: Option<Seq<char>>,
    confident: bool,
)
    requires
        settled(a, top_label, confident, None),
    ensures
        !ask_llm_spec(confident, false),
        a.source == Source::Fasttext,
        a.llm_error is None,
        a.label@ == (match top_label {
            Some(l) => l,
            None => Seq::empty(),
        }),
        a.reason is None,
        a.note is Some <==> !confident,
        a.note matches Some(n) ==> n@ == fallback_note(),
{
}

/// A verdict of the large model decides the outcome: the large model as
/// source, the verdict's label and reason, no note and no error, whatever
/// the small model's top label and confidence were.
pub proof fn law_llm_verdict_decides(
    a: Analysis,
    top_label: Option<Seq<char>>,
    confident: bool,
    v: LlmVerdict,
)
    requires
        settled(a, top_label, confident, Some(Ok(v))),
    ensures
        a.source == Source::Llm,
        a.label@ == v.label@,
        a.reason matches Some(r) && r@ == v.reason@,
        a.note is None,
        a.llm_error is None,
{
}

/// When the large model was asked and failed, the small model's top label
/// stands (empty when it predicted nothing), the failure is reported, no
/// reason is given, and the note is there exactly when the small model was
/// not confident.
pub proof fn law_llm_failure_keeps_small_model(
    a: Analysis,
    top_label: Option<Seq<char>>,
    confident: bool,
    e: String,
)
    requires
        settled(a, top_label, confident, Some(Err(e))),
    ensures
        a.source == Source::Fasttext,
        top_label matches Some(l) ==> a.label@ == l,
        top_label is None ==> a.label@.len() == 0,
        a.llm_error matches Some(m) && m@ == e@,
        a.reason is None,
        a.note is Some <==> !confident,
{
}

} // verus!
