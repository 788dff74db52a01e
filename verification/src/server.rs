//! Value types of the REST surface and the pure decisions of its handlers:
//! gathering the user text of a chat request, language-code normalization,
//! and response assembly. The HTTP plumbing around them lives outside the
//! library.

use vstd::prelude::*;
use vstd::string::StringExecFns;

use crate::models::TranslationResult;
use crate::text::str_eq;

verus! {

/// Chat-completion style request.
pub struct OpenAIRequest {
    /// Model the caller asks for.
    pub model: String,
    /// Conversation; only the user messages carry text to translate.
    pub messages: Vec<OpenAIMessage>,
    /// Language to translate into; a default applies when absent.
    pub target_language: Option<String>,
}

/// One chat message.
pub struct OpenAIMessage {
    /// Speaker of the message.
    pub role: String,
    /// Text of the message.
    pub content: String,
}

impl Clone for OpenAIMessage {
    fn clone(&self) -> (r: Self)
        ensures
            r == *self,
    {
        OpenAIMessage { role: self.role.clone(), content: self.content.clone() }
    }
}

/// Chat-completion style answer.
pub struct OpenAIResponse {
    /// Identifier of this completion.
    pub id: String,
    /// Kind marker of the answer.
    pub object: String,
    /// Creation time as a Unix timestamp.
    pub created: i64,
    /// Model that produced the translation.
    pub model: String,
    /// The completion choices; exactly one is produced.
    pub choices: Vec<OpenAIChoice>,
    /// Token accounting of the call.
    pub usage: Usage,
}

/// One completion choice.
pub struct OpenAIChoice {
    /// Position of the choice.
    pub index: i32,
    /// The message of the choice.
    pub message: OpenAIMessage,
    /// Why the completion ended.
    pub finish_reason: String,
}

/// Token accounting of one call.
#[derive(Debug, Clone, Copy, PartialEq, Eq, Structural)]
pub struct Usage {
    /// Tokens attributed to the prompt.
    pub prompt_tokens: usize,
    /// Tokens attributed to the completion.
    pub completion_tokens: usize,
    /// Tokens consumed in all.
    pub total_tokens: usize,
}

/// Custom translation request: a list of texts for one language pair.
pub struct TranslateRequest {
    /// Source language, or absent for detection.
    pub source_lang: Option<String>,
    /// Language to translate into.
    pub target_lang: String,
    /// The texts to translate.
    pub text_list: Vec<String>,
}

/// Custom translation answer.
pub struct TranslateResponse {
    /// One item per requested text, in order.
    pub translations: Vec<TranslationItem>,
}

/// One translated text.
pub struct TranslationItem {
    /// Source language the upstream detected, when it reported one.
    pub detected_source_lang: Option<String>,
    /// The translated text.
    pub text: String,
}

/// Error answer of the REST surface.
pub struct ErrorResponse {
    /// The error carried.
    pub error: ErrorDetail,
}

/// Error payload.
pub struct ErrorDetail {
    /// Human-readable description.
    pub message: String,
    /// Machine-readable code, when one applies.
    pub code: Option<String>,
    /// Error category, when one applies.
    pub kind: Option<String>,
}

/// The contents of the user messages, in order.
pub open spec fn user_texts(ms: Seq<OpenAIMessage>) -> Seq<Seq<char>> {
    ms.filter(|m: OpenAIMessage| m.role@ == "user"@).map_values(|m: OpenAIMessage| m.content@)
}

/// `xs` joined with single spaces.
pub open spec fn join_spaced(xs: Seq<Seq<char>>) -> Seq<char>
    decreases xs.len(),
{
    if xs.len() == 0 {
        Seq::empty()
    } else if xs.len() == 1 {
        xs[0]
    } else {
        join_spaced(xs.drop_last()) + " "@ + xs.last()
    }
}

/// The text a chat request asks to translate: the user messages' contents
/// joined with spaces.
pub fn join_user_contents(messages: &Vec<OpenAIMessage>) -> (r: String)
    ensures
        r@ == join_spaced(user_texts(messages@)),
{
    let mut out: Vec<char> = Vec::new();
    let mut any = false;
    let mut i: usize = 0;
    proof {
        reveal_strlit(" ");
        assert(messages@.subrange(0, 0) =~= Seq::<OpenAIMessage>::empty());
        assert(user_texts(Seq::<OpenAIMessage>::empty()) =~= Seq::<Seq<char>>::empty()) by {
            reveal(Seq::filter);
        }
    }
    while i < messages.len()
        invariant
            i <= messages@.len(),
            any == (user_texts(messages@.subrange(0, i as int)).len() > 0),
            out@ == join_spaced(user_texts(messages@.subrange(0, i as int))),
        decreases messages@.len() - i,
    {
        let ghost pre = messages@.subrange(0, i as int);
        proof {
            broadcast use Seq::lemma_filter_push;

            assert(messages@.subrange(0, i + 1 as int) =~= pre.push(messages@[i as int]));
            reveal_strlit(" ");
        }
        let m = &messages[i];
        if str_eq(m.role.as_str(), "user") {
            proof {
                reveal_strlit("user");
                let p = |m: OpenAIMessage| m.role@ == "user"@;
                assert(pre.push(messages@[i as int]).filter(p) == pre.filter(p).push(
                    messages@[i as int],
                ));
                assert(user_texts(pre.push(messages@[i as int])) =~= user_texts(pre).push(
                    messages@[i as int].content@,
                ));
            }
            if any {
                out.push(' ');
            }
            crate::text::append_str(&mut out, m.content.as_str());
            any = true;
            proof {
                let xs = user_texts(pre);
                let xs2 = user_texts(pre.push(messages@[i as int]));
                assert(xs2.drop_last() =~= xs);
                assert(xs2.last() == messages@[i as int].content@);
                if xs.len() == 0 {
                    assert(out@ =~= join_spaced(xs2));
                } else {
                    assert(out@ =~= join_spaced(xs2));
                }
            }
        } else {
            proof {
                reveal_strlit("user");
                let p = |m: OpenAIMessage| m.role@ == "user"@;
                assert(pre.push(messages@[i as int]).filter(p) == pre.filter(p));
                assert(user_texts(pre.push(messages@[i as int])) =~= user_texts(pre));
            }
        }
        i = i + 1;
    }
    proof {
        assert(messages@.subrange(0, messages@.len() as int) =~= messages@);
    }
    crate::text::chars_to_string(&out)
}

/// The upstream's code for a caller-supplied target language: the Chinese
/// and Norwegian aliases are rewritten, `auto` becomes the empty code, and
/// everything else passes through.
pub open spec fn spec_normalize_target(l: Seq<char>) -> Seq<char> {
    if l == "zh-CN"@ {
        "zh"@
    } else if l == "zh-TW"@ {
        "zh-Hant"@
    } else if l == "auto"@ {
        Seq::empty()
    } else if l == "no"@ {
        "nb"@
    } else {
        l
    }
}

/// The upstream's code for a caller-supplied source language; `auto` means
/// detection and becomes absence.
pub open spec fn spec_normalize_source(l: Seq<char>) -> Option<Seq<char>> {
    if l == "zh-CN"@ {
        Some("zh"@)
    } else if l == "zh-TW"@ {
        Some("zh-Hant"@)
    } else if l == "auto"@ {
        None
    } else if l == "no"@ {
        Some("nb"@)
    } else {
        Some(l)
    }
}

/// Normalize the caller's target-language code to what the upstream takes.
pub fn normalize_target_lang(lang: &str) -> (r: String)
    ensures
        r@ == spec_normalize_target(lang@),
{
    if str_eq(lang, "zh-CN") {
        String::from_str("zh")
    } else if str_eq(lang, "zh-TW") {
        String::from_str("zh-Hant")
    } else if str_eq(lang, "auto") {
        String::new()
    } else if str_eq(lang, "no") {
        String::from_str("nb")
    } else {
        String::from_str(lang)
    }
}

/// Normalize the caller's source-language code; `auto` means detection and
/// becomes absence.
pub fn normalize_source_lang(lang: &Option<String>) -> (r: Option<String>)
    ensures
        lang is None ==> r is None,
        lang matches Some(l) ==> match spec_normalize_source(l@) {
            Some(code) => r matches Some(s) && s@ == code,
            None => r is None,
        },
{
    match lang {
        None => None,
        Some(l) => {
            if str_eq(l.as_str(), "zh-CN") {
                Some(String::from_str("zh"))
            } else if str_eq(l.as_str(), "zh-TW") {
                Some(String::from_str("zh-Hant"))
            } else if str_eq(l.as_str(), "auto") {
                None
            } else if str_eq(l.as_str(), "no") {
                Some(String::from_str("nb"))
            } else {
                Some(l.clone())
            }
        },
    }
}

/// Assemble the chat-completion answer for a successful translation: one
/// assistant choice holding the translation, the consumed tokens split
/// evenly between prompt and completion.
pub fn build_openai_response(result: TranslationResult, id: String, created: i64) -> (r:
    OpenAIResponse)
    ensures
        r.id == id,
        r.object@ == "chat.completion"@,
        r.created == created,
        r.model == result.model_used,
        r.choices@.len() == 1,
        r.choices@[0].index == 0,
        r.choices@[0].message.role@ == "assistant"@,
        r.choices@[0].message.content == result.translation,
        r.choices@[0].finish_reason@ == "stop"@,
        r.usage.prompt_tokens == result.tokens_used / 2,
        r.usage.completion_tokens == result.tokens_used / 2,
        r.usage.total_tokens == result.tokens_used,
{
    let mut choices: Vec<OpenAIChoice> = Vec::new();
    choices.push(
        OpenAIChoice {
            index: 0,
            message: OpenAIMessage {
                role: String::from_str("assistant"),
                content: result.translation,
            },
            finish_reason: String::from_str("stop"),
        },
    );
    OpenAIResponse {
        id,
        object: String::from_str("chat.completion"),
        created,
        model: result.model_used,
        choices,
        usage: Usage {
            prompt_tokens: result.tokens_used / 2,
            completion_tokens: result.tokens_used / 2,
            total_tokens: result.tokens_used,
        },
    }
}

} // verus!
