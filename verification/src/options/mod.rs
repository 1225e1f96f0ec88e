//! The option set of the lenient JSON normalizer with both size limits.

mod json_decode_options;

pub use json_decode_options::JsonDecodeOptions;
