//! Transport adapter: build the wire request body for a `(request, model)`
//! pair and turn a wire response into a typed result or error.
//!
//! The request body is produced by a verified JSON serializer for the one
//! payload shape the upstream takes. Parsing a success response navigates a
//! `serde_json` document behind trusted wrappers; everything decided about
//! the extracted fields is verified.

use vstd::prelude::*;
use vstd::string::StrSliceExecFns;
use vstd::string::StringExecFns;

use crate::errors::TranslationError;
use crate::models::TranslationRequest;
use crate::models::TranslationResult;
use crate::text::append_str;
use crate::text::chars_to_string;
use crate::text::spec_contains;
use crate::text::str_contains;

verus! {

/// Hexadecimal digit of `n`, for `0 <= n < 16`.
pub open spec fn hex_digit(n: int) -> char {
    if n == 0 {
        '0'
    } else if n == 1 {
        '1'
    } else if n == 2 {
        '2'
    } else if n == 3 {
        '3'
    } else if n == 4 {
        '4'
    } else if n == 5 {
        '5'
    } else if n == 6 {
        '6'
    } else if n == 7 {
        '7'
    } else if n == 8 {
        '8'
    } else if n == 9 {
        '9'
    } else if n == 10 {
        'a'
    } else if n == 11 {
        'b'
    } else if n == 12 {
        'c'
    } else if n == 13 {
        'd'
    } else if n == 14 {
        'e'
    } else {
        'f'
    }
}

/// How one character is written inside a JSON string literal.
pub open spec fn json_escaped_char(c: char) -> Seq<char> {
    if c == '"' {
        seq!['\\', '"']
    } else if c == '\\' {
        seq!['\\', '\\']
    } else if c == '\n' {
        seq!['\\', 'n']
    } else if c == '\r' {
        seq!['\\', 'r']
    } else if c == '\t' {
        seq!['\\', 't']
    } else if (c as u32) < 0x20 {
        seq!['\\', 'u', '0', '0', hex_digit(c as u32 as int / 16), hex_digit(c as u32 as int % 16)]
    } else {
        seq![c]
    }
}

/// How a whole string is written inside a JSON string literal.
pub open spec fn json_escape(s: Seq<char>) -> Seq<char>
    decreases s.len(),
{
    if s.len() == 0 {
        Seq::empty()
    } else {
        json_escaped_char(s[0]) + json_escape(s.drop_first())
    }
}

proof fn lemma_json_escape_push(s: Seq<char>, c: char)
    ensures
        json_escape(s.push(c)) == json_escape(s) + json_escaped_char(c),
    decreases s.len(),
{
    if s.len() == 0 {
        reveal_with_fuel(json_escape, 3);
        assert(s.push(c).drop_first() =~= Seq::<char>::empty());
        assert(s.push(c)[0] == c);
        assert(json_escape(s.push(c)) =~= json_escaped_char(c));
        assert(json_escape(s) + json_escaped_char(c) =~= json_escaped_char(c));
    } else {
        assert(s.push(c).drop_first() =~= s.drop_first().push(c));
        lemma_json_escape_push(s.drop_first(), c);
        assert(json_escape(s.push(c)) == json_escaped_char(s[0]) + (json_escape(s.drop_first())
            + json_escaped_char(c)));
        assert(json_escaped_char(s[0]) + (json_escape(s.drop_first()) + json_escaped_char(c))
            =~= (json_escaped_char(s[0]) + json_escape(s.drop_first())) + json_escaped_char(c));
    }
}

/// Append one character of a JSON string literal, escaped as needed.
fn append_escaped_char(out: &mut Vec<char>, c: char)
    ensures
        final(out)@ == old(out)@ + json_escaped_char(c),
{
    if c == '"' {
        out.push('\\');
        out.push('"');
    } else if c == '\\' {
        out.push('\\');
        out.push('\\');
    } else if c == '\n' {
        out.push('\\');
        out.push('n');
    } else if c == '\r' {
        out.push('\\');
        out.push('r');
    } else if c == '\t' {
        out.push('\\');
        out.push('t');
    } else if (c as u32) < 0x20 {
        let code: u32 = c as u32;
        out.push('\\');
        out.push('u');
        out.push('0');
        out.push('0');
        out.push(hex_digit_exec(code / 16));
        out.push(hex_digit_exec(code % 16));
    } else {
        out.push(c);
    }
    assert(out@ =~= old(out)@ + json_escaped_char(c));
}

/// Hexadecimal digit of `n`, for `n < 16`.
fn hex_digit_exec(n: u32) -> (r: char)
    requires
        n < 16,
    ensures
        r == hex_digit(n as int),
{
    if n == 0 {
        '0'
    } else if n == 1 {
        '1'
    } else if n == 2 {
        '2'
    } else if n == 3 {
        '3'
    } else if n == 4 {
        '4'
    } else if n == 5 {
        '5'
    } else if n == 6 {
        '6'
    } else if n == 7 {
        '7'
    } else if n == 8 {
        '8'
    } else if n == 9 {
        '9'
    } else if n == 10 {
        'a'
    } else if n == 11 {
        'b'
    } else if n == 12 {
        'c'
    } else if n == 13 {
        'd'
    } else if n == 14 {
        'e'
    } else {
        'f'
    }
}

/// Append the characters of `s`, escaped as a JSON string literal body.
fn append_escaped(out: &mut Vec<char>, s: &str)
    ensures
        final(out)@ == old(out)@ + json_escape(s@),
{
    let n: usize = s.unicode_len();
    let mut i: usize = 0;
    proof {
        assert(out@ =~= old(out)@ + json_escape(s@.subrange(0, 0)));
    }
    while i < n
        invariant
            n == s@.len(),
            i <= n,
            out@ == old(out)@ + json_escape(s@.subrange(0, i as int)),
        decreases n - i,
    {
        append_escaped_char(out, s.get_char(i));
        proof {
            assert(s@.subrange(0, i + 1 as int) =~= s@.subrange(0, i as int).push(s@[i as int]));
            lemma_json_escape_push(s@.subrange(0, i as int), s@[i as int]);
        }
        i = i + 1;
    }
    assert(s@.subrange(0, n as int) =~= s@);
}

/// The JSON body posted for one attempt: the model, the text, the target
/// language, and the source language when one is given.
pub open spec fn wire_body_view(req: TranslationRequest, model_id: Seq<char>) -> Seq<char> {
    "{\"model\":\""@ + json_escape(model_id)
        + "\",\"input\":[{\"role\":\"user\",\"content\":[{\"type\":\"input_text\",\"text\":\""@
        + json_escape(req.text@) + "\",\"translation_options\":{\"target_language\":\""@
        + json_escape(req.target_lang@) + (match req.source_lang {
        Some(s) => "\",\"source_language\":\""@ + json_escape(s@),
        None => Seq::<char>::empty(),
    }) + "\"}}]}]}"@
}

/// Serialize the wire request body for `req` addressed to model `model_id`.
pub fn build_wire_body(req: &TranslationRequest, model_id: &str) -> (r: String)
    ensures
        r@ == wire_body_view(*req, model_id@),
{
    let mut out: Vec<char> = Vec::new();
    append_str(&mut out, "{\"model\":\"");
    append_escaped(&mut out, model_id);
    append_str(
        &mut out,
        "\",\"input\":[{\"role\":\"user\",\"content\":[{\"type\":\"input_text\",\"text\":\"",
    );
    append_escaped(&mut out, req.text.as_str());
    append_str(&mut out, "\",\"translation_options\":{\"target_language\":\"");
    append_escaped(&mut out, req.target_lang.as_str());
    match &req.source_lang {
        Some(s) => {
            append_str(&mut out, "\",\"source_language\":\"");
            append_escaped(&mut out, s.as_str());
        },
        None => (),
    }
    append_str(&mut out, "\"}}]}]}");
    proof {
        assert(out@ =~= wire_body_view(*req, model_id@));
    }
    chars_to_string(&out)
}

/// Classify a non-success wire answer, as the upstream's conventions say:
/// status 429 is a rate limit, a body that speaks of quota or limits is an
/// exhausted quota, anything else surfaces as an API error.
pub fn classify_failure(status: u16, body: String) -> (e: TranslationError)
    ensures
        status == 429 ==> e == (TranslationError::RateLimitError { retry_after: None }),
        status != 429 && (spec_contains(body@, "quota"@) || spec_contains(body@, "limit"@))
            ==> e == TranslationError::QuotaExceededError,
        status != 429 && !(spec_contains(body@, "quota"@) || spec_contains(body@, "limit"@))
            ==> e == (TranslationError::ApiError { status, message: body }),
{
    if status == 429 {
        return TranslationError::RateLimitError { retry_after: None };
    }
    if str_contains(body.as_str(), "quota") || str_contains(body.as_str(), "limit") {
        return TranslationError::QuotaExceededError;
    }
    TranslationError::ApiError { status, message: body }
}

/// The translation text a success payload carries at
/// `output.choices[0].message.content`, as the trusted navigation below
/// reads the body; an unparsable body, like one without the field, carries
/// none.
pub uninterp spec fn parsed_translation(body: Seq<char>) -> Option<Seq<char>>;

/// The detected source language a success payload carries at
/// `output.choices[0].message.detected_source_language`, if any.
pub uninterp spec fn parsed_detected_lang(body: Seq<char>) -> Option<Seq<char>>;

/// The token count a success payload carries at `usage.total_tokens`, if
/// any.
pub uninterp spec fn parsed_total_tokens(body: Seq<char>) -> Option<u64>;

/// The request identifier a success payload carries at the top-level `id`,
/// if any.
pub uninterp spec fn parsed_request_id(body: Seq<char>) -> Option<Seq<char>>;

/// Relies on `serde_json::from_str` and `serde_json::Value`'s `pointer`,
/// `as_str` and `as_u64`: navigate a success payload and hand out its four
/// translation fields. Every result is a function of the body text alone,
/// so each is named above; a body that does not parse yields none of them.
#[verifier::external_body]
fn parse_wire_fields(body: &str) -> (r: (
    Option<String>,
    Option<String>,
    Option<u64>,
    Option<String>,
))
    ensures
        r.0 is Some <==> parsed_translation(body@) is Some,
        r.0 matches Some(t) ==> t@ == parsed_translation(body@).unwrap(),
        r.1 is Some <==> parsed_detected_lang(body@) is Some,
        r.1 matches Some(d) ==> d@ == parsed_detected_lang(body@).unwrap(),
        r.2 == parsed_total_tokens(body@),
        r.3 is Some <==> parsed_request_id(body@) is Some,
        r.3 matches Some(i) ==> i@ == parsed_request_id(body@).unwrap(),
{
    let v: serde_json::Value = match serde_json::from_str(body) {
        Ok(v) => v,
        Err(_) => return (None, None, None, None),
    };
    let translation = v.pointer("/output/choices/0/message/content").and_then(|c| c.as_str()).map(|s| s.to_owned());
    let detected = v.pointer("/output/choices/0/message/detected_source_language").and_then(|d| d.as_str()).map(|s| s.to_owned());
    let tokens = v.pointer("/usage/total_tokens").and_then(|t| t.as_u64());
    let request_id = v.pointer("/id").and_then(|i| i.as_str()).map(|s| s.to_owned());
    (translation, detected, tokens, request_id)
}

/// Extract the translation fields of a success payload and assemble the
/// typed result. The translation at `output.choices[0].message.content` is
/// owed: the call succeeds if and only if the body carries one, and the
/// result's fields are exactly the carried ones (a missing token count
/// counts as zero); a body without a translation is an invalid response.
pub fn parse_success(body: &str, model_id: &str) -> (r: Result<
    TranslationResult,
    TranslationError,
>)
    ensures
        r is Ok <==> parsed_translation(body@) is Some,
        r matches Ok(res) ==> {
            &&& res.translation@ == parsed_translation(body@).unwrap()
            &&& (res.detected_source_lang is Some <==> parsed_detected_lang(body@) is Some)
            &&& (res.detected_source_lang matches Some(d) ==> d@ == parsed_detected_lang(
                body@,
            ).unwrap())
            &&& res.tokens_used == vstd::math::min(
                parsed_total_tokens(body@).unwrap_or(0) as int,
                usize::MAX as int,
            )
            &&& res.model_used@ == model_id@
            &&& (res.request_id is Some <==> parsed_request_id(body@) is Some)
            &&& (res.request_id matches Some(i) ==> i@ == parsed_request_id(body@).unwrap())
        },
        r matches Err(e) ==> (e matches TranslationError::InvalidResponseError { message }
            && message@ == "No translation in response"@),
{
    let (translation, detected, tokens, request_id) = parse_wire_fields(body);
    assemble_result(translation, detected, tokens, request_id, model_id)
}

/// Turn a wire answer into the typed result of one attempt: a success status
/// is parsed as a translation payload, anything else is classified as
/// [`classify_failure`] says.
pub fn classify_response(status: u16, body: String, model_id: &str) -> (r: Result<
    TranslationResult,
    TranslationError,
>)
    ensures
        200 <= status < 300 ==> (r is Ok <==> parsed_translation(body@) is Some),
        200 <= status < 300 ==> (r matches Ok(res) ==> {
            &&& res.translation@ == parsed_translation(body@).unwrap()
            &&& (res.detected_source_lang is Some <==> parsed_detected_lang(body@) is Some)
            &&& (res.detected_source_lang matches Some(d) ==> d@ == parsed_detected_lang(
                body@,
            ).unwrap())
            &&& res.tokens_used == vstd::math::min(
                parsed_total_tokens(body@).unwrap_or(0) as int,
                usize::MAX as int,
            )
            &&& res.model_used@ == model_id@
            &&& (res.request_id is Some <==> parsed_request_id(body@) is Some)
            &&& (res.request_id matches Some(i) ==> i@ == parsed_request_id(body@).unwrap())
        }),
        200 <= status < 300 ==> (r matches Err(e) ==> (e matches
            TranslationError::InvalidResponseError { message } && message@
            == "No translation in response"@)),
        !(200 <= status < 300) ==> ({
            if status == 429 {
                r == Err::<TranslationResult, TranslationError>(
                    TranslationError::RateLimitError { retry_after: None },
                )
            } else if spec_contains(body@, "quota"@) || spec_contains(body@, "limit"@) {
                r == Err::<TranslationResult, TranslationError>(
                    TranslationError::QuotaExceededError,
                )
            } else {
                r == Err::<TranslationResult, TranslationError>(
                    TranslationError::ApiError { status, message: body },
                )
            }
        }),
{
    if 200 <= status && status < 300 {
        parse_success(body.as_str(), model_id)
    } else {
        Err(classify_failure(status, body))
    }
}

/// Typed result of extracting the interesting fields of a success payload.
/// The upstream owes a translation; everything else is optional.
pub fn assemble_result(
    translation: Option<String>,
    detected: Option<String>,
    tokens: Option<u64>,
    request_id: Option<String>,
    model_id: &str,
) -> (r: Result<TranslationResult, TranslationError>)
    ensures
        r is Ok <==> translation is Some,
        translation matches Some(t) ==> (r matches Ok(res) && {
            &&& res.translation == t
            &&& res.detected_source_lang == detected
            &&& res.tokens_used == vstd::math::min(
                tokens.unwrap_or(0) as int,
                usize::MAX as int,
            )
            &&& res.model_used@ == model_id@
            &&& res.request_id == request_id
        }),
        translation is None ==> (r matches Err(e) && e matches
            TranslationError::InvalidResponseError { message } && message@
            == "No translation in response"@),
{
    match translation {
        None => {
            proof {
                reveal_strlit("No translation in response");
            }
            Err(TranslationError::InvalidResponseError {
                message: String::from_str("No translation in response"),
            })
        },
        Some(t) => {
            let n: u64 = match tokens {
                Some(n) => n,
                None => 0,
            };
            let tokens_used: usize = if n > usize::MAX as u64 {
                usize::MAX
            } else {
                n as usize
            };
            Ok(TranslationResult {
                translation: t,
                detected_source_lang: detected,
                tokens_used,
                model_used: String::from_str(model_id),
                request_id,
            })
        },
    }
}

} // verus!
