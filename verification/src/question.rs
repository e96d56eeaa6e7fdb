//! The question flow: resolve the preset, assemble and normalize the user
//! entries, and turn the validated settings into the one request plan of the
//! invocation.

use vstd::prelude::*;
use vstd::pervasive::unreached;
use vstd::string::StringExecFns;
use crate::ai::{
    openai, deepseek_api_url, qwen_api_url, deepseek_url_text, qwen_url_text, RequestPlan,
    default_timeout_secs, normalized_input,
};
use crate::command::{AIProvider, model_name_text};
use crate::error::ConfigError;
use crate::jsonbody::request_body_text;
use crate::messages::{chat_message_views, normalized_texts, lemma_normalized_texts_wf};
use crate::messages::normalize_user_messages;
use crate::settings::{Settings, validate_ai_settings, validation_of, provider_key};
use crate::text::{trimmed, is_ws_char, lemma_trimmed_keeps_content, lemma_nonblank_has_content};

verus! {

/// The raw user entries before normalization: with a usable preset prompt,
/// the prompt then the question; without one, the preset word and the
/// question joined by a space as a single entry.
pub open spec fn raw_user_texts(
    preset: Seq<char>,
    question: Seq<char>,
    prompt: Option<Seq<char>>,
) -> Seq<Seq<char>> {
    match prompt {
        Some(p) => if p.len() == 0 {
            seq![preset + " "@ + question]
        } else {
            seq![p, question]
        },
        None => seq![preset + " "@ + question],
    }
}

/// The normalized user entries of one question.
pub open spec fn question_user_texts(
    preset: Seq<char>,
    question: Seq<char>,
    prompt: Option<Seq<char>>,
) -> Seq<Seq<char>> {
    normalized_texts(raw_user_texts(preset, question, prompt))
}

/// Assemble the user entries for a question, given the preset prompt the
/// settings resolve, if any.
pub fn build_question_texts(preset: &String, question: &String, prompt: &Option<String>) -> (r:
    Vec<String>)
    ensures
        r.deep_view() == question_user_texts(preset@, question@, prompt.deep_view()),
{
    let ghost want = raw_user_texts(preset@, question@, prompt.deep_view());
    let mut raw: Vec<String> = Vec::new();
    match prompt {
        Some(p) => {
            if !p.as_str().is_empty() {
                raw.push(p.clone());
                raw.push(question.clone());
            } else {
                raw.push(preset.clone().concat(" ").concat(question.as_str()));
            }
        },
        None => {
            raw.push(preset.clone().concat(" ").concat(question.as_str()));
        },
    }
    proof {
        assert(raw.deep_view() =~= want);
    }
    normalize_user_messages(&raw)
}

/// The endpoint a provider's requests go to.
pub open spec fn provider_url_text(p: AIProvider) -> Seq<char> {
    match p {
        AIProvider::DeepSeek => deepseek_url_text(),
        AIProvider::Qwen => qwen_url_text(),
        AIProvider::Grok => Seq::empty(),
    }
}

/// Turn a preset word and a question into the request plan the settings call
/// for: validation first, then the preset lookup, the normalized message
/// list, and the provider's endpoint, key, model name and timeout.
pub fn plan_question(preset: &String, question: &String, settings: &Settings) -> (r: Result<
    RequestPlan,
    ConfigError,
>)
    requires
        settings.wf(),
        trimmed(question@).len() > 0,
        validation_of(*settings) is Ok ==> settings.provider != Some(AIProvider::Grok),
    ensures
        (validation_of(*settings) matches Err(e) ==> r == Err::<RequestPlan, ConfigError>(e)),
        (validation_of(*settings) is Ok ==> match (settings.provider, settings.model) {
            (Some(p), Some(m)) => r matches Ok(plan) && {
                &&& plan.url@ == provider_url_text(p)
                &&& match provider_key(*settings, p) {
                    Some(k) => plan.api_key@ == k@,
                    None => false,
                }
                &&& plan.stream == true
                &&& plan.timeout_secs == match settings.timeout {
                    Some(t) => t,
                    None => default_timeout_secs(),
                }
                &&& plan.body@ == request_body_text(
                    model_name_text(m),
                    chat_message_views(
                        question_user_texts(
                            preset@,
                            question@,
                            settings.spec_preset_lookup(preset@),
                        ),
                    ),
                    true,
                )
            },
            _ => false,
        }),
{
    match validate_ai_settings(settings) {
        Err(e) => {
            return Err(e);
        },
        Ok(()) => {},
    }
    let prompt: Option<String> = match &settings.presets {
        Some(ps) => ps.get(preset.as_str()),
        None => None,
    };
    proof {
        assert(prompt.deep_view() == settings.spec_preset_lookup(preset@));
    }
    let texts = build_question_texts(preset, question, &prompt);
    proof {
        let ghost raw = raw_user_texts(preset@, question@, prompt.deep_view());
        lemma_normalized_texts_wf(raw);
        lemma_nonblank_has_content(question@);
        match prompt.deep_view() {
            Some(p) => {
                if p.len() == 0 {
                    lemma_combined_question_nonblank(preset@, question@);
                } else {
                    assert(raw =~= seq![p, question@]);
                    assert(raw.drop_last() =~= seq![p]);
                    assert(raw.last() == question@);
                    assert(normalized_texts(raw).len() > 0);
                }
            },
            None => {
                lemma_combined_question_nonblank(preset@, question@);
            },
        }
        assert(normalized_input(texts.deep_view()));
    }
    let p = match &settings.provider {
        Some(p) => *p,
        None => unreached(),
    };
    let m = match &settings.model {
        Some(m) => *m,
        None => unreached(),
    };
    let key: String = match p {
        AIProvider::DeepSeek => match &settings.deepseek_key {
            Some(k) => k.clone(),
            None => unreached(),
        },
        AIProvider::Qwen => match &settings.qwen_key {
            Some(k) => k.clone(),
            None => unreached(),
        },
        AIProvider::Grok => unreached(),
    };
    let url = match p {
        AIProvider::DeepSeek => deepseek_api_url(),
        AIProvider::Qwen => qwen_api_url(),
        AIProvider::Grok => unreached(),
    };
    let plan = openai(&texts, m.name(), settings.timeout, url, key.as_str());
    Ok(plan)
}

/// When the question itself is not blank, the single combined entry of the
/// no-preset case normalizes to exactly one non-blank entry.
proof fn lemma_combined_question_nonblank(preset: Seq<char>, question: Seq<char>)
    requires
        exists|i: int| 0 <= i < question.len() && !is_ws_char(question[i]),
    ensures
        normalized_texts(seq![preset + " "@ + question]).len() > 0,
{
    let combined = preset + " "@ + question;
    let i = choose|i: int| 0 <= i < question.len() && !is_ws_char(question[i]);
    let k = preset.len() + " "@.len() + i;
    assert(combined[k] == question[i]);
    lemma_trimmed_keeps_content(combined);
    let raw = seq![combined];
    assert(raw.drop_last() =~= Seq::<Seq<char>>::empty());
    assert(raw.last() == combined);
    assert(normalized_texts(raw).len() > 0);
}

} // verus!
