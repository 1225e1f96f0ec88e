//! Resource-aware JSON text admission: lenient normalization of JSON embedded
//! in external text, control-character repair inside JSON strings, and a
//! lexical JSON validator with source coordinates.

mod error_privacy_policy;

pub use error_privacy_policy::ErrorPrivacyPolicy;
mod text;
mod ascii;
mod json_decode_error_kind;
pub use json_decode_error_kind::JsonDecodeErrorKind;
mod json_decode_stage;
mod json_top_level_kind;
mod markdown_fence_policy;
pub use json_decode_stage::{JsonDecodeStage, LenientJsonDecodeStage};
pub use json_top_level_kind::JsonTopLevelKind;
pub use markdown_fence_policy::{MarkdownFenceClosing, MarkdownFencePolicy};
mod json_decode_options;
pub mod options;
mod lenient_json_decode_options;
pub use lenient_json_decode_options::{
    has_json_value_limits, JsonValueLimitSet, LenientJsonDecodeOptions, LenientJsonDecodeOptionsBuilder,
};
pub use json_decode_options::JsonDecodeOptions;
mod utf8_text;
mod word_bytes;
mod control_character_escaper;
mod json_decode_error;
pub use json_decode_error::JsonDecodeError;
mod unicode_trim;
mod byte_search;
mod decode_session;
pub use decode_session::{DecodeSessionBorrow, DecodeSessionRef, SessionCharge};
mod lenient_json_normalizer;
pub use lenient_json_normalizer::{LenientJsonNormalizer, PreparedJsonText};
pub mod lexical;
pub use lexical::json_lexical_error_reason::JsonLexicalErrorReason;
pub use lexical::json_lexical_failure::JsonLexicalFailure;
mod json_deserialize_error;
pub use json_deserialize_error::{JsonDeserializeError, JsonDeserializeErrorCategory};
mod lenient_json_decoder;
pub use lenient_json_decoder::LenientJsonDecoder;
mod lenient_json_decode_error;
pub use lenient_json_decode_error::{LenientJsonDecodeError, LenientJsonDecodeErrorKind, LenientJsonDecodeFailure};
mod json_syntax_error;
pub use json_syntax_error::JsonSyntaxError;
mod json_lexeme_length;
pub use json_lexeme_length::{JsonLexemeLength, JsonLexemeLengthWriter, JsonMapKey};
pub use lexical::json_grammar::JsonLexicalContainerFrame;
pub use lexical::json_lexical_scanner::{JsonLexicalScanner, JsonLexicalStep, JsonLexicalTask};
pub use lexical::json_value_budget::{JsonBudgetRequest, JsonValueContainerKind, JsonValueMeasurement};
pub use lexical::source_coordinates::{line_column_at, line_column_at_with_inspection};
mod json_output_record;
pub use json_output_record::{encode_outcome, JsonEncodeOutcome, JsonOutputRecord};
