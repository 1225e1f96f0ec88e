//! Pipeline stages of the lenient JSON decoder.

use vstd::prelude::*;

verus! {

/// Identifies the decoding stage that produced an error.
#[non_exhaustive]
#[derive(Debug, Clone, Copy, PartialEq, Eq, Hash, Structural)]
pub enum JsonDecodeStage {
    /// The error happened while decoding raw bytes as UTF-8 text.
    DecodeText,
    /// The error happened while normalizing raw input text.
    Normalize,
    /// The error happened while parsing normalized text as JSON syntax.
    Parse,
    /// The error happened while enforcing a top-level kind contract.
    TopLevelCheck,
    /// The error happened while deserializing a parsed JSON value.
    Deserialize,
}

impl JsonDecodeStage {
    /// The stable snake-case name of a stage.
    pub open spec fn spec_name(self) -> Seq<char> {
        match self {
            JsonDecodeStage::DecodeText => "decode_text"@,
            JsonDecodeStage::Normalize => "normalize"@,
            JsonDecodeStage::Parse => "parse"@,
            JsonDecodeStage::TopLevelCheck => "top_level_check"@,
            JsonDecodeStage::Deserialize => "deserialize"@,
        }
    }

    /// Returns the stable snake-case name of this stage.
    pub fn name(&self) -> (name: &'static str)
        ensures
            name@ == self.spec_name(),
    {
        match self {
            JsonDecodeStage::DecodeText => "decode_text",
            JsonDecodeStage::Normalize => "normalize",
            JsonDecodeStage::Parse => "parse",
            JsonDecodeStage::TopLevelCheck => "top_level_check",
            JsonDecodeStage::Deserialize => "deserialize",
        }
    }
}

/// Identifies the decoding stage of a budgeted lenient decoder.
#[non_exhaustive]
#[derive(Debug, Clone, Copy, PartialEq, Eq, Hash, Structural)]
pub enum LenientJsonDecodeStage {
    /// The error happened while decoding raw bytes as UTF-8 text.
    DecodeText,
    /// The error happened while normalizing raw input text.
    Normalize,
    /// The error happened while admitting normalized JSON value resources.
    Admission,
    /// The error happened while parsing normalized text as JSON syntax.
    Parse,
    /// The error happened while enforcing a top-level kind contract.
    TopLevelCheck,
    /// The error happened while deserializing a parsed JSON value.
    Deserialize,
}

impl LenientJsonDecodeStage {
    /// The stable snake-case name of a stage.
    pub open spec fn spec_name(self) -> Seq<char> {
        match self {
            LenientJsonDecodeStage::DecodeText => "decode_text"@,
            LenientJsonDecodeStage::Normalize => "normalize"@,
            LenientJsonDecodeStage::Admission => "admission"@,
            LenientJsonDecodeStage::Parse => "parse"@,
            LenientJsonDecodeStage::TopLevelCheck => "top_level_check"@,
            LenientJsonDecodeStage::Deserialize => "deserialize"@,
        }
    }

    /// Returns the stable snake-case name of this stage.
    pub fn name(&self) -> (name: &'static str)
        ensures
            name@ == self.spec_name(),
    {
        match self {
            LenientJsonDecodeStage::DecodeText => "decode_text",
            LenientJsonDecodeStage::Normalize => "normalize",
            LenientJsonDecodeStage::Admission => "admission",
            LenientJsonDecodeStage::Parse => "parse",
            LenientJsonDecodeStage::TopLevelCheck => "top_level_check",
            LenientJsonDecodeStage::Deserialize => "deserialize",
        }
    }
}

} // verus!
