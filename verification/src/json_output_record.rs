//! What an encoder records while it writes output, and which failure it
//! reports at the end.

use vstd::prelude::*;

verus! {

/// The first budget violation and the first invalid raw JSON fragment met
/// while output is written. Later ones are dropped: the first failure is the
/// one reported.
pub struct JsonOutputRecord<V, S> {
    /// The first budget violation.
    violation: Option<V>,
    /// The first invalid raw JSON fragment.
    syntax_error: Option<S>,
}

/// The result of keeping the first of several failures.
pub open spec fn first_recorded<T>(recorded: Option<T>, failure: T) -> Option<T> {
    match recorded {
        Some(first) => Some(first),
        None => Some(failure),
    }
}

impl<V, S> JsonOutputRecord<V, S> {
    /// The recorded budget violation.
    pub closed spec fn spec_violation(self) -> Option<V> {
        self.violation
    }

    /// The recorded invalid raw JSON fragment.
    pub closed spec fn spec_syntax_error(self) -> Option<S> {
        self.syntax_error
    }

    /// Creates an empty record.
    pub fn new() -> (record: Self)
        ensures
            record.spec_violation() is None,
            record.spec_syntax_error() is None,
    {
        JsonOutputRecord { violation: None, syntax_error: None }
    }

    /// Records a budget violation unless one is already recorded.
    pub fn record_violation(&mut self, error: V)
        ensures
            final(self).spec_violation() == first_recorded(old(self).spec_violation(), error),
            final(self).spec_syntax_error() == old(self).spec_syntax_error(),
    {
        if self.violation.is_none() {
            self.violation = Some(error);
        }
    }

    /// Removes and returns the recorded budget violation.
    pub fn take_violation(&mut self) -> (violation: Option<V>)
        ensures
            violation == old(self).spec_violation(),
            final(self).spec_violation() is None,
            final(self).spec_syntax_error() == old(self).spec_syntax_error(),
    {
        self.violation.take()
    }

    /// Records an invalid raw JSON fragment unless one is already recorded.
    pub fn record_syntax_error(&mut self, error: S)
        ensures
            final(self).spec_syntax_error() == first_recorded(old(self).spec_syntax_error(), error),
            final(self).spec_violation() == old(self).spec_violation(),
    {
        if self.syntax_error.is_none() {
            self.syntax_error = Some(error);
        }
    }

    /// Removes and returns the recorded invalid raw JSON fragment.
    pub fn take_syntax_error(&mut self) -> (syntax_error: Option<S>)
        ensures
            syntax_error == old(self).spec_syntax_error(),
            final(self).spec_syntax_error() is None,
            final(self).spec_violation() == old(self).spec_violation(),
    {
        self.syntax_error.take()
    }
}

/// Which outcome an encode reports once serialization has ended.
#[derive(Debug, Clone, Copy, PartialEq, Eq, Structural)]
pub enum JsonEncodeOutcome {
    /// The output budget was violated.
    Budget,
    /// A raw JSON fragment was invalid.
    InvalidRawJson,
    /// The underlying writer failed.
    Write,
    /// The serializer failed.
    Serialize,
    /// The value was written.
    Written,
}

/// The outcome an encode reports: a budget violation first, then invalid
/// raw JSON, then a writer failure, then the serializer's own result.
pub fn encode_outcome(violation: bool, syntax_error: bool, write_failed: bool, serialized: bool) -> (outcome:
    JsonEncodeOutcome)
    ensures
        outcome == (if violation {
            JsonEncodeOutcome::Budget
        } else if syntax_error {
            JsonEncodeOutcome::InvalidRawJson
        } else if write_failed {
            JsonEncodeOutcome::Write
        } else if !serialized {
            JsonEncodeOutcome::Serialize
        } else {
            JsonEncodeOutcome::Written
        }),
{
    if violation {
        JsonEncodeOutcome::Budget
    } else if syntax_error {
        JsonEncodeOutcome::InvalidRawJson
    } else if write_failed {
        JsonEncodeOutcome::Write
    } else if !serialized {
        JsonEncodeOutcome::Serialize
    } else {
        JsonEncodeOutcome::Written
    }
}

} // verus!
