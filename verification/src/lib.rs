//! Batch translation core: lane-based model routing, bounded retry with
//! exponential backoff, admission control through a fixed permit pool, and a
//! daily token quota with UTC day rollover.
//!
//! The orchestration logic is written as explicit state transitions so that
//! every routing, retry and quota decision carries a verified contract; the
//! surrounding processes (HTTP transport, file handling, servers) drive these
//! transitions from outside.

mod client;
mod config;
mod errors;
mod flow;
mod leak;
mod markdown;
mod models;
mod server;
mod text;
mod token_tracker;
mod transport;

pub use client::lemma_admission_ceiling;
pub use client::BeginOutcome;
pub use client::TranslatorCore;

pub use config::api_key_required_message;
pub use config::default_models;
pub use config::enabled_models;
pub use config::is_default_catalog;
pub use config::lane_models;
pub use config::TranslatorConfig;

pub use errors::should_retry;
pub use errors::spec_should_retry;
pub use errors::TranslationError;

pub use flow::backoff_delay;
pub use flow::calls_to;
pub use flow::is_lane_failed_err;
pub use flow::is_no_models_err;
pub use flow::key_lt;
pub use flow::lane_failed_msg;
pub use flow::lane_rank;
pub use flow::lemma_lane_fallback_order;
pub use flow::lemma_retry_bound;
pub use flow::lemma_slow_lane_exhausted_first;
pub use flow::no_models_msg;
pub use flow::slot_lt;
pub use flow::spec_backoff;
pub use flow::CallKey;
pub use flow::TranslateFlow;

pub use leak::count_fixable;
pub use leak::is_ascii_letter;
pub use leak::piece_view;
pub use leak::pieces_view;
pub use leak::spec_english_count;
pub use leak::spec_word_count;
pub use leak::extract_text_content;
pub use leak::has_untranslated_content;
pub use leak::split_html_segments;
pub use leak::strip_markup;
pub use leak::strip_tags;
pub use leak::HtmlPiece;
pub use leak::LeakInfo;

pub use markdown::eq_ignore_case;
pub use markdown::first_close;
pub use markdown::is_markdown_file;
pub use markdown::is_md_space;
pub use markdown::seq_eq_ignore_case;
pub use markdown::span_end;
pub use markdown::span_start;
pub use markdown::spec_is_markdown_name;
pub use markdown::reassemble;
pub use markdown::reassemble_view;
pub use markdown::segments_wf;
pub use markdown::strict_spans;
pub use markdown::wf_elements;
pub use markdown::MarkdownElement;
pub use markdown::MarkdownExtractor;

pub use models::LaneType;
pub use models::Model;
pub use models::TokenUsage;
pub use models::TranslationRequest;
pub use models::TranslationResult;

pub use server::build_openai_response;
pub use server::join_spaced;
pub use server::spec_normalize_source;
pub use server::spec_normalize_target;
pub use server::user_texts;
pub use server::join_user_contents;
pub use server::normalize_source_lang;
pub use server::normalize_target_lang;
pub use server::ErrorDetail;
pub use server::ErrorResponse;
pub use server::OpenAIChoice;
pub use server::OpenAIMessage;
pub use server::OpenAIRequest;
pub use server::OpenAIResponse;
pub use server::TranslateRequest;
pub use server::TranslateResponse;
pub use server::TranslationItem;
pub use server::Usage;

pub use text::append_chars;
pub use text::match_at;
pub use text::spec_contains;
pub use text::append_str;
pub use text::chars_of;
pub use text::find_from;
pub use text::str_contains;
pub use text::str_eq;

pub use token_tracker::draws_granted;
pub use token_tracker::lemma_day_rollover;
pub use token_tracker::lemma_quota_atomicity;
pub use token_tracker::usage_after_draws;
pub use token_tracker::TokenTracker;

pub use transport::assemble_result;
pub use transport::hex_digit;
pub use transport::json_escape;
pub use transport::json_escaped_char;
pub use transport::build_wire_body;
pub use transport::classify_failure;
pub use transport::classify_response;
pub use transport::parse_success;
pub use transport::parsed_detected_lang;
pub use transport::parsed_request_id;
pub use transport::parsed_total_tokens;
pub use transport::parsed_translation;
pub use transport::wire_body_view;
