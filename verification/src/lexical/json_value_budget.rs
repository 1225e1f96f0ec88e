//! The requests that lexical scanning makes of a JSON value budget.

use vstd::prelude::*;

verus! {

/// One measurement of a scanned JSON value, as the value budget counts it.
#[derive(Clone, Copy, Debug, PartialEq, Eq, Structural)]
pub enum JsonValueMeasurement {
    /// A `null` at its root-inclusive depth.
    Null {
        /// Root-inclusive nesting depth.
        depth: usize,
    },
    /// A boolean at its root-inclusive depth.
    Boolean {
        /// Root-inclusive nesting depth.
        depth: usize,
    },
    /// A string value with its decoded UTF-8 byte length.
    String {
        /// Root-inclusive nesting depth.
        depth: usize,
        /// Decoded UTF-8 byte length.
        bytes: usize,
    },
    /// A number with the byte length of its text.
    Number {
        /// Root-inclusive nesting depth.
        depth: usize,
        /// Byte length of the number text.
        bytes: usize,
    },
    /// An object key with its decoded UTF-8 byte length.
    Key {
        /// Decoded UTF-8 byte length.
        bytes: usize,
    },
}

/// The kind of a JSON container whose children are counted.
#[derive(Clone, Copy, Debug, PartialEq, Eq, Structural)]
pub enum JsonValueContainerKind {
    /// An array, counted by items.
    Array,
    /// An object, counted by entries.
    Object,
}

/// One charge that scanning asks of the value budget before it goes on.
#[derive(Clone, Copy, Debug, PartialEq, Eq, Structural)]
pub enum JsonBudgetRequest {
    /// Admit one scalar value or object key.
    Admit(JsonValueMeasurement),
    /// Enter a container at its root-inclusive depth.
    EnterContainer {
        /// The container's kind.
        kind: JsonValueContainerKind,
        /// Root-inclusive nesting depth.
        depth: usize,
    },
    /// Check the prospective number of children of a container.
    CheckContainerCount {
        /// The container's kind.
        kind: JsonValueContainerKind,
        /// Children present once the next child is entered.
        count: usize,
    },
}

} // verus!
