//! Lexical validation of complete JSON documents.

pub mod json_lexical_error_reason;
pub mod json_lexical_failure;
pub mod source_coordinates;
pub mod json_grammar;
pub mod json_number;
pub mod json_value_budget;
pub mod json_float_range;
pub mod json_number_range;
pub mod json_charges;
pub mod json_lexical_scanner;
