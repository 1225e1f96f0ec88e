//! Non-recursive lexical admission of one JSON document.
//!
//! The scanner validates a complete document with an explicit stack of
//! container continuations, and stops before every charge that the document
//! makes of a JSON value budget: the caller performs the charge and, when it
//! is admitted, asks for the next step.

use vstd::prelude::*;

use super::json_grammar::{
    array_delimiter_end, array_item_end, array_value_end, continue_scan, document_scan, false_text,
    frame_end, hex_failure, object_delimiter_end, object_key_end,
    hex_quad_error, hex_quad_value, is_hex, hex_value, is_json_ws, is_simple_escape,
    is_value_delimiter_at, lemma_skip_ws, literal_end, trailing_end, lemma_skip_ws_idempotent, lemma_string_end, lemma_value_end, null_text,
    object_colon_end, object_entry_end, scan_after, skip_ws, string_body_end, string_end,
    true_text, unexpected_at, unicode_escape_end, value_end, JsonLexicalContainerFrame, Scan,
};
use super::json_charges::{
    after_charges, array_delimiter_charges, array_item_charges, array_value_charges, continue_charges,
    document_charges, frame_charges, object_colon_charges, object_delimiter_charges,
    object_entry_charges, object_key_charges, range_charges, string_body_bytes, string_bytes_at,
    unicode_escape_width, value_charges,
};
use super::json_lexical_error_reason::JsonLexicalErrorReason;
use super::json_lexical_failure::JsonLexicalFailure;
use super::json_number::{
    digits_end, exponent_end, fraction_end, integer_part_end, is_digit, lemma_digits_end,
    number_at, number_in_range, number_token_end, range_failure, required_digits_end,
};
use super::json_number_range::check_number_range;
use super::json_value_budget::{
    JsonBudgetRequest, JsonValueContainerKind, JsonValueMeasurement,
};
use super::source_coordinates::{is_scalar_at, lead_width, line_column_at, line_column_of, utf8_width};

verus! {

/// A lexical failure reports the place and reason of a grammar rejection,
/// with the line and column of that place.
pub open spec fn failure_matches(
    s: Seq<u8>,
    failure: JsonLexicalFailure,
    rejection: (int, JsonLexicalErrorReason),
) -> bool {
    &&& failure.offset as int == rejection.0
    &&& failure.reason == rejection.1
    &&& (failure.line as int, failure.column as int) == line_column_of(s, rejection.0)
}

/// A scan result agrees with a grammar outcome.
pub open spec fn result_agrees(s: Seq<u8>, result: Result<(), JsonLexicalFailure>, outcome: Scan) -> bool {
    match result {
        Ok(()) => outcome is Ok,
        Err(failure) => outcome matches Err(rejection) && failure_matches(s, failure, rejection),
    }
}

/// What the scanner does when it is next asked for a step.
#[derive(Clone, Copy, Debug, PartialEq, Eq, Structural)]
pub enum JsonLexicalTask {
    /// Scan a value at the given depth.
    Value {
        /// Root-inclusive depth of the value.
        depth: usize,
    },
    /// Check the range of the number that started at `start`.
    RangeCheck {
        /// Offset of the number token.
        start: usize,
    },
    /// Continue the innermost open container, or finish the document.
    Resume,
    /// Scan the `items`-th value of an array.
    ArrayItem {
        /// Root-inclusive depth of the array.
        depth: usize,
        /// Items counted with this one.
        items: usize,
    },
    /// Scan the key of the `entries`-th entry of an object.
    ObjectEntry {
        /// Root-inclusive depth of the object.
        depth: usize,
        /// Entries counted with this one.
        entries: usize,
    },
    /// Scan the colon and value of the `entries`-th entry of an object.
    ObjectColon {
        /// Root-inclusive depth of the object.
        depth: usize,
        /// Entries counted with this one.
        entries: usize,
    },
    /// The document has been accepted or rejected.
    Finished,
}

/// One step of scanning: a charge to perform, or the final result.
#[derive(Clone, Copy, Debug)]
pub enum JsonLexicalStep {
    /// Perform this charge; when it is admitted, ask for the next step.
    Charge(JsonBudgetRequest),
    /// Scanning is over, with the document's lexical verdict.
    Finished(Result<(), JsonLexicalFailure>),
}

/// The document outcome from a scanner state.
pub open spec fn task_outcome(
    s: Seq<u8>,
    p: int,
    stack: Seq<JsonLexicalContainerFrame>,
    task: JsonLexicalTask,
) -> Scan {
    match task {
        JsonLexicalTask::Value { depth } => scan_after(s, value_end(s, p, depth as int), stack),
        JsonLexicalTask::RangeCheck { start } => if number_in_range(s, start as int, p) {
            continue_scan(s, p, stack)
        } else {
            Err((start as int, range_failure(s, start as int, p)))
        },
        JsonLexicalTask::Resume => continue_scan(s, p, stack),
        JsonLexicalTask::ArrayItem { depth, items } => scan_after(
            s,
            array_item_end(s, p, depth as int, items as int),
            stack,
        ),
        JsonLexicalTask::ObjectEntry { depth, entries } => scan_after(
            s,
            object_entry_end(s, p, depth as int, entries as int),
            stack,
        ),
        JsonLexicalTask::ObjectColon { depth, entries } => scan_after(
            s,
            object_colon_end(s, p, depth as int, entries as int),
            stack,
        ),
        JsonLexicalTask::Finished => Ok(p),
    }
}

/// The weight of a task in the scanner's progress measure.
pub open spec fn task_rank(task: JsonLexicalTask) -> int {
    match task {
        JsonLexicalTask::Value { .. } => 1,
        JsonLexicalTask::ObjectColon { .. } => 1,
        JsonLexicalTask::ArrayItem { .. } => 2,
        JsonLexicalTask::ObjectEntry { .. } => 2,
        JsonLexicalTask::Resume => 3,
        JsonLexicalTask::RangeCheck { .. } => 4,
        JsonLexicalTask::Finished => 0,
    }
}

/// The charges that a scanner state still has to request, in order.
#[verifier::opaque]
pub open spec fn task_charges(
    s: Seq<u8>,
    p: int,
    stack: Seq<JsonLexicalContainerFrame>,
    task: JsonLexicalTask,
) -> Seq<JsonBudgetRequest> {
    match task {
        JsonLexicalTask::Value { depth } => value_charges(s, p, depth as int) + after_charges(
            s,
            value_end(s, p, depth as int),
            stack,
        ),
        JsonLexicalTask::RangeCheck { start } => range_charges(s, start as int, p, stack),
        JsonLexicalTask::Resume => continue_charges(s, p, stack),
        JsonLexicalTask::ArrayItem { depth, items } => array_item_charges(
            s,
            p,
            depth as int,
            items as int,
        ) + after_charges(s, array_item_end(s, p, depth as int, items as int), stack),
        JsonLexicalTask::ObjectEntry { depth, entries } => object_entry_charges(
            s,
            p,
            depth as int,
            entries as int,
        ) + after_charges(s, object_entry_end(s, p, depth as int, entries as int), stack),
        JsonLexicalTask::ObjectColon { depth, entries } => object_colon_charges(
            s,
            p,
            depth as int,
            entries as int,
        ) + after_charges(s, object_colon_end(s, p, depth as int, entries as int), stack),
        JsonLexicalTask::Finished => Seq::empty(),
    }
}

/// How one step of the scanner moves through the charges still to be
/// requested: a charge is the first of them, a verdict comes when none is
/// left, and other work requests nothing.
pub open spec fn charges_follow(
    before: Seq<JsonBudgetRequest>,
    after: Seq<JsonBudgetRequest>,
    step: Option<JsonLexicalStep>,
) -> bool {
    match step {
        None => before == after,
        Some(JsonLexicalStep::Charge(request)) => before == seq![request] + after,
        Some(JsonLexicalStep::Finished(_)) => before == Seq::<JsonBudgetRequest>::empty(),
    }
}

/// A value's charges do not depend on the whitespace before it, and there
/// are none when only whitespace is left.
proof fn lemma_value_charges_skip(s: Seq<u8>, p: int, stack: Seq<JsonLexicalContainerFrame>, depth: usize)
    requires
        0 <= p <= s.len(),
    ensures
        task_charges(s, p, stack, JsonLexicalTask::Value { depth }) == task_charges(
            s,
            skip_ws(s, p),
            stack,
            JsonLexicalTask::Value { depth },
        ),
        skip_ws(s, p) >= s.len() ==> task_charges(s, p, stack, JsonLexicalTask::Value { depth })
            == Seq::<JsonBudgetRequest>::empty(),
{
    reveal(task_charges);
    lemma_skip_ws(s, p);
    lemma_skip_ws_idempotent(s, p);
    let q = skip_ws(s, p);
    assert(value_charges(s, p, depth as int) == value_charges(s, q, depth as int));
    assert(value_end(s, p, depth as int) == value_end(s, q, depth as int));
    if q >= s.len() {
        assert(value_charges(s, p, depth as int) =~= Seq::<JsonBudgetRequest>::empty());
        assert(task_charges(s, p, stack, JsonLexicalTask::Value { depth }) =~= Seq::<JsonBudgetRequest>::empty());
    }
}

/// Opening a container charges its entry, then the container continues.
proof fn lemma_container_charges(s: Seq<u8>, q: int, stack: Seq<JsonLexicalContainerFrame>, depth: usize)
    requires
        0 <= q < s.len(),
        !is_json_ws(s[q]),
        s[q] == 0x7B || s[q] == 0x5B,
    ensures
        s[q] == 0x7B ==> task_charges(s, q, stack, JsonLexicalTask::Value { depth }) == seq![
            JsonBudgetRequest::EnterContainer { kind: JsonValueContainerKind::Object, depth },
        ] + task_charges(
            s,
            q + 1,
            stack.push(JsonLexicalContainerFrame::ObjectKey { depth, entries: 0 }),
            JsonLexicalTask::Resume,
        ),
        s[q] == 0x5B ==> task_charges(s, q, stack, JsonLexicalTask::Value { depth }) == seq![
            JsonBudgetRequest::EnterContainer { kind: JsonValueContainerKind::Array, depth },
        ] + task_charges(
            s,
            q + 1,
            stack.push(JsonLexicalContainerFrame::ArrayValue { depth, items: 0 }),
            JsonLexicalTask::Resume,
        ),
{
    reveal(task_charges);
    assert(skip_ws(s, q) == q);
    if s[q] == 0x7B {
        let frame = JsonLexicalContainerFrame::ObjectKey { depth, entries: 0 };
        let pushed = stack.push(frame);
        assert(pushed.last() == frame && pushed.drop_last() =~= stack);
        assert(task_charges(s, q, stack, JsonLexicalTask::Value { depth }) =~= seq![
            JsonBudgetRequest::EnterContainer { kind: JsonValueContainerKind::Object, depth },
        ] + task_charges(s, q + 1, pushed, JsonLexicalTask::Resume));
    } else {
        let frame = JsonLexicalContainerFrame::ArrayValue { depth, items: 0 };
        let pushed = stack.push(frame);
        assert(pushed.last() == frame && pushed.drop_last() =~= stack);
        assert(task_charges(s, q, stack, JsonLexicalTask::Value { depth }) =~= seq![
            JsonBudgetRequest::EnterContainer { kind: JsonValueContainerKind::Array, depth },
        ] + task_charges(s, q + 1, pushed, JsonLexicalTask::Resume));
    }
}


/// A string value is charged once its token has been read.
proof fn lemma_string_value_charges(s: Seq<u8>, q: int, stack: Seq<JsonLexicalContainerFrame>, depth: usize)
    requires
        0 <= q < s.len(),
        s[q] == 0x22,
    ensures
        string_end(s, q) matches Ok(r) ==> task_charges(s, q, stack, JsonLexicalTask::Value { depth })
            == seq![
            JsonBudgetRequest::Admit(JsonValueMeasurement::String { depth, bytes: string_bytes_at(s, q) }),
        ] + task_charges(s, r, stack, JsonLexicalTask::Resume),
        string_end(s, q) is Err ==> task_charges(s, q, stack, JsonLexicalTask::Value { depth })
            == Seq::<JsonBudgetRequest>::empty(),
{
    reveal(task_charges);
    assert(skip_ws(s, q) == q);
    if let Ok(r) = string_end(s, q) {
        assert(task_charges(s, q, stack, JsonLexicalTask::Value { depth }) =~= seq![
            JsonBudgetRequest::Admit(JsonValueMeasurement::String { depth, bytes: string_bytes_at(s, q) }),
        ] + task_charges(s, r, stack, JsonLexicalTask::Resume));
    } else {
        assert(task_charges(s, q, stack, JsonLexicalTask::Value { depth }) =~= Seq::<JsonBudgetRequest>::empty());
    }
}

/// The charges of a value at a number: its admission, then the charges
/// after its range check.
proof fn lemma_number_task_charges(s: Seq<u8>, q: int, stack: Seq<JsonLexicalContainerFrame>, depth: usize)
    requires
        0 <= q < s.len(),
        s[q] == 0x2D || is_digit(s[q]),
    ensures
        number_token_end(s, q) matches Ok(e) ==> task_charges(s, q, stack, JsonLexicalTask::Value { depth })
            == seq![
            JsonBudgetRequest::Admit(JsonValueMeasurement::Number { depth, bytes: (e - q) as usize }),
        ] + range_charges(s, q, e, stack),
        number_token_end(s, q) is Err ==> task_charges(s, q, stack, JsonLexicalTask::Value { depth })
            == Seq::<JsonBudgetRequest>::empty(),
{
    assert(skip_ws(s, q) == q);
    assert(value_end(s, q, depth as int) == number_at(s, q));
    reveal(task_charges);
    if number_token_end(s, q) is Err {
        assert(task_charges(s, q, stack, JsonLexicalTask::Value { depth }) =~= Seq::<JsonBudgetRequest>::empty());
    }
}

/// A number is charged once its token has been read, before its range is
/// checked.
proof fn lemma_number_value_charges(s: Seq<u8>, q: int, stack: Seq<JsonLexicalContainerFrame>, depth: usize)
    requires
        0 <= q < s.len() < usize::MAX,
        s[q] == 0x2D || is_digit(s[q]),
    ensures
        number_token_end(s, q) matches Ok(e) ==> task_charges(s, q, stack, JsonLexicalTask::Value { depth })
            == seq![
            JsonBudgetRequest::Admit(JsonValueMeasurement::Number { depth, bytes: (e - q) as usize }),
        ] + task_charges(s, e, stack, JsonLexicalTask::RangeCheck { start: q as usize }),
        number_token_end(s, q) is Err ==> task_charges(s, q, stack, JsonLexicalTask::Value { depth })
            == Seq::<JsonBudgetRequest>::empty(),
{
    lemma_number_task_charges(s, q, stack, depth);
    if let Ok(e) = number_token_end(s, q) {
        assert(task_charges(s, e, stack, JsonLexicalTask::RangeCheck { start: q as usize }) == range_charges(
            s,
            q,
            e,
            stack,
        )) by {
            reveal(task_charges);
        }
    }
}

/// A literal is charged once it has been read; any other byte that starts
/// no value is charged nothing.
proof fn lemma_literal_value_charges(s: Seq<u8>, q: int, stack: Seq<JsonLexicalContainerFrame>, depth: usize)
    requires
        0 <= q < s.len(),
        !is_json_ws(s[q]),
        !(s[q] == 0x7B || s[q] == 0x5B || s[q] == 0x22 || s[q] == 0x2D || is_digit(s[q])),
    ensures
        s[q] == 0x74 ==> task_charges(s, q, stack, JsonLexicalTask::Value { depth }) == if literal_end(
            s,
            q,
            true_text(),
        ) is Ok {
            seq![JsonBudgetRequest::Admit(JsonValueMeasurement::Boolean { depth })] + task_charges(
                s,
                q + 4,
                stack,
                JsonLexicalTask::Resume,
            )
        } else {
            Seq::<JsonBudgetRequest>::empty()
        },
        s[q] == 0x66 ==> task_charges(s, q, stack, JsonLexicalTask::Value { depth }) == if literal_end(
            s,
            q,
            false_text(),
        ) is Ok {
            seq![JsonBudgetRequest::Admit(JsonValueMeasurement::Boolean { depth })] + task_charges(
                s,
                q + 5,
                stack,
                JsonLexicalTask::Resume,
            )
        } else {
            Seq::<JsonBudgetRequest>::empty()
        },
        s[q] == 0x6E ==> task_charges(s, q, stack, JsonLexicalTask::Value { depth }) == if literal_end(
            s,
            q,
            null_text(),
        ) is Ok {
            seq![JsonBudgetRequest::Admit(JsonValueMeasurement::Null { depth })] + task_charges(
                s,
                q + 4,
                stack,
                JsonLexicalTask::Resume,
            )
        } else {
            Seq::<JsonBudgetRequest>::empty()
        },
        !(s[q] == 0x74 || s[q] == 0x66 || s[q] == 0x6E) ==> task_charges(
            s,
            q,
            stack,
            JsonLexicalTask::Value { depth },
        ) == Seq::<JsonBudgetRequest>::empty(),
{
    reveal(task_charges);
    assert(skip_ws(s, q) == q);
    assert(true_text().len() == 4 && false_text().len() == 5 && null_text().len() == 4);
    let tc = task_charges(s, q, stack, JsonLexicalTask::Value { depth });
    if s[q] == 0x74 {
        if literal_end(s, q, true_text()) is Ok {
            assert(tc =~= seq![JsonBudgetRequest::Admit(JsonValueMeasurement::Boolean { depth })] + task_charges(
                s,
                q + 4,
                stack,
                JsonLexicalTask::Resume,
            ));
        } else {
            assert(tc =~= Seq::<JsonBudgetRequest>::empty());
        }
    } else if s[q] == 0x66 {
        if literal_end(s, q, false_text()) is Ok {
            assert(tc =~= seq![JsonBudgetRequest::Admit(JsonValueMeasurement::Boolean { depth })] + task_charges(
                s,
                q + 5,
                stack,
                JsonLexicalTask::Resume,
            ));
        } else {
            assert(tc =~= Seq::<JsonBudgetRequest>::empty());
        }
    } else if s[q] == 0x6E {
        if literal_end(s, q, null_text()) is Ok {
            assert(tc =~= seq![JsonBudgetRequest::Admit(JsonValueMeasurement::Null { depth })] + task_charges(
                s,
                q + 4,
                stack,
                JsonLexicalTask::Resume,
            ));
        } else {
            assert(tc =~= Seq::<JsonBudgetRequest>::empty());
        }
    } else {
        assert(tc =~= Seq::<JsonBudgetRequest>::empty());
    }
}

/// After a number's range check, the charges go on only for a number in
/// range.
proof fn lemma_range_charges(s: Seq<u8>, start: usize, p: int, stack: Seq<JsonLexicalContainerFrame>)
    ensures
        task_charges(s, p, stack, JsonLexicalTask::RangeCheck { start }) == if number_in_range(
            s,
            start as int,
            p,
        ) {
            task_charges(s, p, stack, JsonLexicalTask::Resume)
        } else {
            Seq::<JsonBudgetRequest>::empty()
        },
{
    reveal(task_charges);
}

/// Resuming charges what the innermost container still needs, then what
/// the enclosing ones need.
proof fn lemma_resume_charges(s: Seq<u8>, p: int, stack: Seq<JsonLexicalContainerFrame>)
    ensures
        stack.len() == 0 ==> task_charges(s, p, stack, JsonLexicalTask::Resume)
            == Seq::<JsonBudgetRequest>::empty(),
        stack.len() > 0 ==> task_charges(s, p, stack, JsonLexicalTask::Resume) == frame_charges(
            s,
            p,
            stack.last(),
        ) + after_charges(s, frame_end(s, p, stack.last()), stack.drop_last()),
{
    reveal(task_charges);
}

/// The charges of an array ready for a value, by what follows.
proof fn lemma_array_value_charges(
    s: Seq<u8>,
    p: int,
    rest: Seq<JsonLexicalContainerFrame>,
    depth: usize,
    items: usize,
)
    requires
        0 <= p <= s.len() < usize::MAX,
    ensures
        ({
            let q = skip_ws(s, p);
            let fc = array_value_charges(s, p, depth as int, items as int) + after_charges(
                s,
                array_value_end(s, p, depth as int, items as int),
                rest,
            );
            &&& (q < s.len() && s[q] == 0x5D && items == 0) ==> fc == task_charges(
                s,
                q + 1,
                rest,
                JsonLexicalTask::Resume,
            )
            &&& (q < s.len() && s[q] == 0x5D && items != 0) ==> fc == Seq::<JsonBudgetRequest>::empty()
            &&& (!(q < s.len() && s[q] == 0x5D) && items == usize::MAX) ==> fc == Seq::<
                JsonBudgetRequest,
            >::empty()
            &&& (!(q < s.len() && s[q] == 0x5D) && items < usize::MAX) ==> fc == seq![
                JsonBudgetRequest::CheckContainerCount {
                    kind: JsonValueContainerKind::Array,
                    count: (items + 1) as usize,
                },
            ] + task_charges(s, q, rest, JsonLexicalTask::ArrayItem { depth, items: (items + 1) as usize })
        }),
{
    lemma_skip_ws(s, p);
    let q = skip_ws(s, p);
    reveal(task_charges);
    let fc = array_value_charges(s, p, depth as int, items as int) + after_charges(
        s,
        array_value_end(s, p, depth as int, items as int),
        rest,
    );
    if q < s.len() && s[q] == 0x5D {
        if items == 0 {
            assert(fc =~= task_charges(s, q + 1, rest, JsonLexicalTask::Resume));
        } else {
            assert(fc =~= Seq::<JsonBudgetRequest>::empty());
        }
    } else if items == usize::MAX {
        assert(fc =~= Seq::<JsonBudgetRequest>::empty());
    } else {
        assert(fc =~= seq![
            JsonBudgetRequest::CheckContainerCount {
                kind: JsonValueContainerKind::Array,
                count: (items + 1) as usize,
            },
        ] + task_charges(s, q, rest, JsonLexicalTask::ArrayItem { depth, items: (items + 1) as usize }));
    }
}

/// The charges of an array waiting for a delimiter, by what follows.
proof fn lemma_array_delimiter_charges(
    s: Seq<u8>,
    p: int,
    rest: Seq<JsonLexicalContainerFrame>,
    depth: usize,
    items: usize,
)
    requires
        0 <= p <= s.len() < usize::MAX,
    ensures
        ({
            let q = skip_ws(s, p);
            let fc = array_delimiter_charges(s, p, depth as int, items as int) + after_charges(
                s,
                array_delimiter_end(s, p, depth as int, items as int),
                rest,
            );
            &&& (q < s.len() && s[q] == 0x2C) ==> fc == task_charges(
                s,
                q + 1,
                rest.push(JsonLexicalContainerFrame::ArrayValue { depth, items }),
                JsonLexicalTask::Resume,
            )
            &&& (q < s.len() && s[q] == 0x5D) ==> fc == task_charges(s, q + 1, rest, JsonLexicalTask::Resume)
            &&& !(q < s.len() && (s[q] == 0x2C || s[q] == 0x5D)) ==> fc == Seq::<JsonBudgetRequest>::empty()
        }),
{
    lemma_skip_ws(s, p);
    let q = skip_ws(s, p);
    reveal(task_charges);
    let fc = array_delimiter_charges(s, p, depth as int, items as int) + after_charges(
        s,
        array_delimiter_end(s, p, depth as int, items as int),
        rest,
    );
    if q < s.len() && s[q] == 0x2C {
        let pushed = rest.push(JsonLexicalContainerFrame::ArrayValue { depth, items });
        assert(pushed.last() == JsonLexicalContainerFrame::ArrayValue { depth, items }
            && pushed.drop_last() =~= rest);
        assert(fc =~= task_charges(s, q + 1, pushed, JsonLexicalTask::Resume));
    } else if q < s.len() && s[q] == 0x5D {
        assert(fc =~= task_charges(s, q + 1, rest, JsonLexicalTask::Resume));
    } else {
        assert(fc =~= Seq::<JsonBudgetRequest>::empty());
    }
}

/// The charges of an object ready for a key, by what follows.
proof fn lemma_object_key_charges(
    s: Seq<u8>,
    p: int,
    rest: Seq<JsonLexicalContainerFrame>,
    depth: usize,
    entries: usize,
)
    requires
        0 <= p <= s.len() < usize::MAX,
    ensures
        ({
            let q = skip_ws(s, p);
            let fc = object_key_charges(s, p, depth as int, entries as int) + after_charges(
                s,
                object_key_end(s, p, depth as int, entries as int),
                rest,
            );
            &&& (q < s.len() && s[q] == 0x7D && entries == 0) ==> fc == task_charges(
                s,
                q + 1,
                rest,
                JsonLexicalTask::Resume,
            )
            &&& (q < s.len() && s[q] == 0x7D && entries != 0) ==> fc == Seq::<JsonBudgetRequest>::empty()
            &&& (!(q < s.len() && s[q] == 0x7D) && !(q < s.len() && s[q] == 0x22)) ==> fc == Seq::<
                JsonBudgetRequest,
            >::empty()
            &&& (q < s.len() && s[q] == 0x22 && entries == usize::MAX) ==> fc == Seq::<JsonBudgetRequest>::empty()
            &&& (q < s.len() && s[q] == 0x22 && entries < usize::MAX) ==> fc == seq![
                JsonBudgetRequest::CheckContainerCount {
                    kind: JsonValueContainerKind::Object,
                    count: (entries + 1) as usize,
                },
            ] + task_charges(
                s,
                q,
                rest,
                JsonLexicalTask::ObjectEntry { depth, entries: (entries + 1) as usize },
            )
        }),
{
    lemma_skip_ws(s, p);
    let q = skip_ws(s, p);
    reveal(task_charges);
    let fc = object_key_charges(s, p, depth as int, entries as int) + after_charges(
        s,
        object_key_end(s, p, depth as int, entries as int),
        rest,
    );
    if q < s.len() && s[q] == 0x7D {
        if entries == 0 {
            assert(fc =~= task_charges(s, q + 1, rest, JsonLexicalTask::Resume));
        } else {
            assert(fc =~= Seq::<JsonBudgetRequest>::empty());
        }
    } else if !(q < s.len() && s[q] == 0x22) {
        assert(fc =~= Seq::<JsonBudgetRequest>::empty());
    } else if entries == usize::MAX {
        assert(fc =~= Seq::<JsonBudgetRequest>::empty());
    } else {
        assert(fc =~= seq![
            JsonBudgetRequest::CheckContainerCount {
                kind: JsonValueContainerKind::Object,
                count: (entries + 1) as usize,
            },
        ] + task_charges(s, q, rest, JsonLexicalTask::ObjectEntry { depth, entries: (entries + 1) as usize }));
    }
}

/// The charges of an object waiting for a delimiter, by what follows.
proof fn lemma_object_delimiter_charges(
    s: Seq<u8>,
    p: int,
    rest: Seq<JsonLexicalContainerFrame>,
    depth: usize,
    entries: usize,
)
    requires
        0 <= p <= s.len() < usize::MAX,
    ensures
        ({
            let q = skip_ws(s, p);
            let fc = object_delimiter_charges(s, p, depth as int, entries as int) + after_charges(
                s,
                object_delimiter_end(s, p, depth as int, entries as int),
                rest,
            );
            &&& (q < s.len() && s[q] == 0x2C) ==> fc == task_charges(
                s,
                q + 1,
                rest.push(JsonLexicalContainerFrame::ObjectKey { depth, entries }),
                JsonLexicalTask::Resume,
            )
            &&& (q < s.len() && s[q] == 0x7D) ==> fc == task_charges(s, q + 1, rest, JsonLexicalTask::Resume)
            &&& !(q < s.len() && (s[q] == 0x2C || s[q] == 0x7D)) ==> fc == Seq::<JsonBudgetRequest>::empty()
        }),
{
    lemma_skip_ws(s, p);
    let q = skip_ws(s, p);
    reveal(task_charges);
    let fc = object_delimiter_charges(s, p, depth as int, entries as int) + after_charges(
        s,
        object_delimiter_end(s, p, depth as int, entries as int),
        rest,
    );
    if q < s.len() && s[q] == 0x2C {
        let pushed = rest.push(JsonLexicalContainerFrame::ObjectKey { depth, entries });
        assert(pushed.last() == JsonLexicalContainerFrame::ObjectKey { depth, entries }
            && pushed.drop_last() =~= rest);
        assert(fc =~= task_charges(s, q + 1, pushed, JsonLexicalTask::Resume));
    } else if q < s.len() && s[q] == 0x7D {
        assert(fc =~= task_charges(s, q + 1, rest, JsonLexicalTask::Resume));
    } else {
        assert(fc =~= Seq::<JsonBudgetRequest>::empty());
    }
}

/// An array item is scanned one level deeper, with the array waiting for
/// its delimiter.
proof fn lemma_array_item_charges(
    s: Seq<u8>,
    p: int,
    stack: Seq<JsonLexicalContainerFrame>,
    depth: usize,
    items: usize,
)
    requires
        0 <= p <= s.len() < usize::MAX,
    ensures
        depth == usize::MAX ==> task_charges(s, p, stack, JsonLexicalTask::ArrayItem { depth, items })
            == Seq::<JsonBudgetRequest>::empty(),
        depth < usize::MAX ==> task_charges(s, p, stack, JsonLexicalTask::ArrayItem { depth, items })
            == task_charges(
            s,
            p,
            stack.push(JsonLexicalContainerFrame::ArrayDelimiter { depth, items }),
            JsonLexicalTask::Value { depth: (depth + 1) as usize },
        ),
{
    reveal(task_charges);
    lemma_value_end(s, p, depth + 1);
    let frame = JsonLexicalContainerFrame::ArrayDelimiter { depth, items };
    let pushed = stack.push(frame);
    assert(pushed.last() == frame && pushed.drop_last() =~= stack);
    let tc = task_charges(s, p, stack, JsonLexicalTask::ArrayItem { depth, items });
    if depth == usize::MAX {
        assert(tc =~= Seq::<JsonBudgetRequest>::empty());
    } else {
        assert(tc =~= task_charges(s, p, pushed, JsonLexicalTask::Value { depth: (depth + 1) as usize }));
    }
}

/// An object key is charged once read; the entry then waits for its colon.
proof fn lemma_object_entry_charges(
    s: Seq<u8>,
    q: int,
    stack: Seq<JsonLexicalContainerFrame>,
    depth: usize,
    entries: usize,
)
    requires
        0 <= q < s.len() < usize::MAX,
        s[q] == 0x22,
    ensures
        string_end(s, q) matches Ok(r) ==> task_charges(
            s,
            q,
            stack,
            JsonLexicalTask::ObjectEntry { depth, entries },
        ) == seq![JsonBudgetRequest::Admit(JsonValueMeasurement::Key { bytes: string_bytes_at(s, q) })]
            + task_charges(s, r, stack, JsonLexicalTask::ObjectColon { depth, entries }),
        string_end(s, q) is Err ==> task_charges(s, q, stack, JsonLexicalTask::ObjectEntry { depth, entries })
            == Seq::<JsonBudgetRequest>::empty(),
{
    reveal(task_charges);
    lemma_string_end(s, q);
    let tc = task_charges(s, q, stack, JsonLexicalTask::ObjectEntry { depth, entries });
    if let Ok(r) = string_end(s, q) {
        assert(tc =~= seq![JsonBudgetRequest::Admit(JsonValueMeasurement::Key { bytes: string_bytes_at(s, q) })]
            + task_charges(s, r, stack, JsonLexicalTask::ObjectColon { depth, entries }));
    } else {
        assert(tc =~= Seq::<JsonBudgetRequest>::empty());
    }
}

/// After a key, a colon opens the entry's value one level deeper, with the
/// object waiting for its delimiter.
proof fn lemma_object_colon_charges(
    s: Seq<u8>,
    r: int,
    stack: Seq<JsonLexicalContainerFrame>,
    depth: usize,
    entries: usize,
)
    requires
        0 <= r <= s.len() < usize::MAX,
    ensures
        ({
            let c = skip_ws(s, r);
            let tc = task_charges(s, r, stack, JsonLexicalTask::ObjectColon { depth, entries });
            &&& !(c < s.len() && s[c] == 0x3A) ==> tc == Seq::<JsonBudgetRequest>::empty()
            &&& (c < s.len() && s[c] == 0x3A && depth == usize::MAX) ==> tc == Seq::<JsonBudgetRequest>::empty()
            &&& (c < s.len() && s[c] == 0x3A && depth < usize::MAX) ==> tc == task_charges(
                s,
                c + 1,
                stack.push(JsonLexicalContainerFrame::ObjectDelimiter { depth, entries }),
                JsonLexicalTask::Value { depth: (depth + 1) as usize },
            )
        }),
{
    reveal(task_charges);
    lemma_skip_ws(s, r);
    let c = skip_ws(s, r);
    let frame = JsonLexicalContainerFrame::ObjectDelimiter { depth, entries };
    let pushed = stack.push(frame);
    assert(pushed.last() == frame && pushed.drop_last() =~= stack);
    let tc = task_charges(s, r, stack, JsonLexicalTask::ObjectColon { depth, entries });
    if !(c < s.len() && s[c] == 0x3A) {
        assert(tc =~= Seq::<JsonBudgetRequest>::empty());
    } else if depth == usize::MAX {
        assert(tc =~= Seq::<JsonBudgetRequest>::empty());
    } else {
        lemma_value_end(s, c + 1, depth + 1);
        assert(tc =~= task_charges(s, c + 1, pushed, JsonLexicalTask::Value { depth: (depth + 1) as usize }));
    }
}

/// A resumable lexical scanner over one JSON document.
pub struct JsonLexicalScanner<'input> {
    /// Complete JSON input.
    input: &'input [u8],
    /// Current input position.
    offset: usize,
    /// Open containers, innermost last.
    stack: Vec<JsonLexicalContainerFrame>,
    /// What the next step does.
    task: JsonLexicalTask,
    /// Root-inclusive depth of the document's value.
    root_depth: usize,
    /// The grammar's outcome for the whole document.
    verdict: Ghost<Scan>,
}

impl<'input> JsonLexicalScanner<'input> {
    /// The scanned bytes.
    pub closed spec fn input_view(&self) -> Seq<u8> {
        self.input@
    }

    /// The depth assigned to the root value.
    pub closed spec fn root(&self) -> int {
        self.root_depth as int
    }

    /// The outcome that the scan is bound to reach.
    pub closed spec fn verdict(&self) -> Scan {
        self.verdict@
    }

    /// Scanning is over.
    pub closed spec fn is_finished(&self) -> bool {
        self.task is Finished
    }

    /// A measure that every step decreases.
    pub closed spec fn pending(&self) -> int {
        (self.input@.len() - self.offset) * 5 + task_rank(self.task)
    }

    /// The charges the scan still has to request, in order.
    pub closed spec fn pending_charges(&self) -> Seq<JsonBudgetRequest> {
        task_charges(self.input@, self.offset as int, self.stack@, self.task)
    }

    /// The scanner state continues the scan of its document.
    #[verifier::opaque]
    pub closed spec fn wf(&self) -> bool {
        let s = self.input@;
        &&& s.len() < usize::MAX
        &&& self.offset <= s.len()
        &&& (self.task !is Finished ==> task_outcome(s, self.offset as int, self.stack@, self.task)
            == self.verdict@)
        &&& (self.task matches JsonLexicalTask::RangeCheck { start } ==> number_token_end(
            s,
            start as int,
        ) == Scan::Ok(self.offset as int) && start < self.offset)
        &&& (self.task is ObjectEntry ==> self.offset < s.len() && s[self.offset as int] == 0x22)
    }

    /// The relation between the states before and after one piece of work:
    /// with no result the scan goes on, closer to its end.
    closed spec fn advanced(&self, before: &Self, step: Option<JsonLexicalStep>) -> bool {
        &&& self.wf()
        &&& self.input@ == before.input@
        &&& self.root_depth == before.root_depth
        &&& self.verdict == before.verdict
        &&& match step {
            None => !self.is_finished() && 0 <= self.pending() < before.pending(),
            Some(JsonLexicalStep::Charge(_)) => !self.is_finished() && 0 <= self.pending()
                < before.pending(),
            Some(JsonLexicalStep::Finished(result)) => self.is_finished() && result_agrees(
                before.input@,
                result,
                before.verdict@,
            ),
        }
    }

    /// Creates a scanner for a document whose root value has depth one.
    pub fn new(input: &'input [u8]) -> (scanner: Self)
        requires
            input@.len() < usize::MAX,
        ensures
            scanner.wf(),
            scanner.input_view() == input@,
            scanner.root() == 1,
            scanner.verdict() == document_scan(input@, 1),
            scanner.pending_charges() == document_charges(input@, 1),
            !scanner.is_finished(),
    {
        Self::at_depth(input, 1)
    }

    /// Creates a scanner whose root value sits at an enclosing depth.
    pub fn at_depth(input: &'input [u8], root_depth: usize) -> (scanner: Self)
        requires
            input@.len() < usize::MAX,
        ensures
            scanner.wf(),
            scanner.input_view() == input@,
            scanner.root() == root_depth,
            scanner.verdict() == document_scan(input@, root_depth as int),
            scanner.pending_charges() == document_charges(input@, root_depth as int),
            !scanner.is_finished(),
    {
        proof {
            reveal(JsonLexicalScanner::wf);
        }
        let scanner = JsonLexicalScanner {
            input,
            offset: 0,
            stack: Vec::new(),
            task: JsonLexicalTask::Value { depth: root_depth },
            root_depth,
            verdict: Ghost(document_scan(input@, root_depth as int)),
        };
        assert(scanner.stack@ =~= Seq::<JsonLexicalContainerFrame>::empty());
        assert(scanner.pending_charges() =~= document_charges(input@, root_depth as int)) by {
            reveal(task_charges);
        }
        scanner
    }

    /// Returns whether scanning is over.
    pub fn finished(&self) -> (finished: bool)
        ensures
            finished == self.is_finished(),
    {
        matches!(self.task, JsonLexicalTask::Finished)
    }

    /// Scans up to the next charge of the value budget, or to the verdict.
    ///
    /// A charge leaves the scanner ready for its next step; once every charge
    /// has been admitted, the verdict is exactly the grammar's outcome for the
    /// document.
    pub fn next_step(&mut self) -> (step: JsonLexicalStep)
        requires
            old(self).wf(),
            !old(self).is_finished(),
        ensures
            final(self).wf(),
            final(self).input_view() == old(self).input_view(),
            final(self).root() == old(self).root(),
            final(self).verdict() == old(self).verdict(),
            step is Charge ==> !final(self).is_finished() && 0 <= final(self).pending() < old(
                self,
            ).pending(),
            step matches JsonLexicalStep::Finished(result) ==> final(self).is_finished()
                && result_agrees(old(self).input_view(), result, old(self).verdict()),
            step matches JsonLexicalStep::Charge(request) ==> old(self).pending_charges() == seq![request]
                + final(self).pending_charges(),
            step is Finished ==> old(self).pending_charges() == Seq::<JsonBudgetRequest>::empty(),
    {
        loop
            invariant
                self.wf(),
                !self.is_finished(),
                self.input@ == old(self).input@,
                self.root_depth == old(self).root_depth,
                self.verdict == old(self).verdict,
                self.pending() <= old(self).pending(),
                self.pending_charges() == old(self).pending_charges(),
            decreases self.pending(),
        {
            let ghost before = *self;
            let outcome = match self.task {
                JsonLexicalTask::Value { depth } => Some(self.value_task(depth)),
                JsonLexicalTask::RangeCheck { start } => self.range_task(start),
                JsonLexicalTask::Resume => self.resume_task(),
                JsonLexicalTask::ArrayItem { depth, items } => self.array_item_task(depth, items),
                JsonLexicalTask::ObjectEntry { depth, entries } => Some(
                    self.object_entry_task(depth, entries),
                ),
                JsonLexicalTask::ObjectColon { depth, entries } => self.object_colon_task(
                    depth,
                    entries,
                ),
                JsonLexicalTask::Finished => None,
            };
            assert(self.advanced(&before, outcome));
            assert(charges_follow(before.pending_charges(), self.pending_charges(), outcome));
            if let Some(step) = outcome {
                return step;
            }
        }
    }

    /// Scans the whole document without any budget, admitting every charge.
    pub fn scan_unbudgeted(input: &[u8]) -> (result: Result<(), JsonLexicalFailure>)
        requires
            input@.len() < usize::MAX,
        ensures
            result_agrees(input@, result, document_scan(input@, 1)),
    {
        let mut scanner = JsonLexicalScanner::new(input);
        loop
            invariant
                scanner.wf(),
                !scanner.is_finished(),
                scanner.input_view() == input@,
                scanner.verdict() == document_scan(input@, 1),
            decreases scanner.pending(),
        {
            match scanner.next_step() {
                JsonLexicalStep::Charge(_) => {},
                JsonLexicalStep::Finished(result) => return result,
            }
        }
    }

    /// Builds the failure for `reason` at byte `at`.
    fn failure_at(&self, at: usize, reason: JsonLexicalErrorReason) -> (failure: JsonLexicalFailure)
        requires
            self.input@.len() < usize::MAX,
        ensures
            failure_matches(self.input@, failure, (at as int, reason)),
    {
        let (line, column) = line_column_at(self.input, at);
        JsonLexicalFailure { offset: at, line, column, reason }
    }

    /// Advances past JSON whitespace.
    fn skip_whitespace(&mut self)
        requires
            old(self).offset <= old(self).input@.len(),
        ensures
            final(self).offset == skip_ws(old(self).input@, old(self).offset as int),
            final(self).input == old(self).input,
            final(self).stack == old(self).stack,
            final(self).task == old(self).task,
            final(self).root_depth == old(self).root_depth,
            final(self).verdict == old(self).verdict,
    {
        proof {
            lemma_skip_ws(self.input@, self.offset as int);
        }
        while self.offset < self.input.len() && is_ws_byte(self.input[self.offset])
            invariant
                self.offset <= self.input@.len(),
                skip_ws(self.input@, self.offset as int) == skip_ws(
                    old(self).input@,
                    old(self).offset as int,
                ),
                self.input == old(self).input,
                self.stack == old(self).stack,
                self.task == old(self).task,
                self.root_depth == old(self).root_depth,
                self.verdict == old(self).verdict,
            decreases self.input@.len() - self.offset,
        {
            self.offset = self.offset + 1;
        }
    }

    /// Tests whether the literal `lit` stands at `at`.
    fn has_literal_at(input: &[u8], at: usize, lit: &[u8]) -> (found: bool)
        requires
            at <= input@.len() < usize::MAX,
        ensures
            found == (at + lit@.len() <= input@.len() && input@.subrange(
                at as int,
                at + lit@.len(),
            ) == lit@),
    {
        if lit.len() > input.len() - at {
            return false;
        }
        let mut i: usize = 0;
        while i < lit.len()
            invariant
                at + lit@.len() <= input@.len() < usize::MAX,
                i <= lit@.len(),
                forall|j: int| 0 <= j < i ==> input@[at + j] == lit@[j],
            decreases lit@.len() - i,
        {
            assert(at + i < input@.len());
            if input[at + i] != lit[i] {
                assert(input@.subrange(at as int, at + lit@.len())[i as int] != lit@[i as int]);
                return false;
            }
            i = i + 1;
        }
        assert(input@.subrange(at as int, at + lit@.len()) =~= lit@);
        true
    }

    /// Ends the scan with `failure`.
    fn finish_with(&mut self, failure: JsonLexicalFailure) -> (step: JsonLexicalStep)
        ensures
            final(self).input == old(self).input,
            final(self).offset == old(self).offset,
            final(self).root_depth == old(self).root_depth,
            final(self).verdict == old(self).verdict,
            final(self).task == JsonLexicalTask::Finished,
            step == JsonLexicalStep::Finished(Err(failure)),
    {
        self.task = JsonLexicalTask::Finished;
        JsonLexicalStep::Finished(Err(failure))
    }

    /// Scans a value: a scalar is consumed and charged, a container is
    /// entered and charged.
    fn value_task(&mut self, depth: usize) -> (step: JsonLexicalStep)
        requires
            old(self).wf(),
            old(self).task == (JsonLexicalTask::Value { depth }),
        ensures
            final(self).advanced(old(self), Some(step)),
            charges_follow(old(self).pending_charges(), final(self).pending_charges(), Some(step)),
    {
        proof {
            reveal(JsonLexicalScanner::wf);
        }
        let ghost s = self.input@;
        let ghost p = self.offset as int;
        proof {
            lemma_skip_ws(s, p);
            lemma_skip_ws_idempotent(s, p);
            lemma_value_charges_skip(s, p, self.stack@, depth);
        }
        self.skip_whitespace();
        let q = self.offset;
        if q >= self.input.len() {
            let failure = self.failure_at(q, JsonLexicalErrorReason::UnexpectedEnd);
            return self.finish_with(failure);
        }
        let b = self.input[q];
        if b == 0x7B || b == 0x5B {
            self.container_value(depth)
        } else if b == 0x22 {
            self.string_value(depth)
        } else if b == 0x2D || (0x30 <= b && b <= 0x39) {
            self.number_value(depth)
        } else {
            self.literal_value(depth)
        }
    }

    /// The cursor stands on the first byte of a value, past its whitespace.
    closed spec fn at_value(&self, depth: usize) -> bool {
        &&& self.wf()
        &&& self.task == (JsonLexicalTask::Value { depth })
        &&& self.offset < self.input@.len()
        &&& !is_json_ws(self.input@[self.offset as int])
    }

    /// Enters an object or an array.
    fn container_value(&mut self, depth: usize) -> (step: JsonLexicalStep)
        requires
            old(self).at_value(depth),
            old(self).input@[old(self).offset as int] == 0x7B || old(self).input@[old(
                self,
            ).offset as int] == 0x5B,
        ensures
            final(self).advanced(old(self), Some(step)),
            charges_follow(old(self).pending_charges(), final(self).pending_charges(), Some(step)),
    {
        proof {
            reveal(JsonLexicalScanner::wf);
            lemma_container_charges(self.input@, self.offset as int, self.stack@, depth);
        }
        let q = self.offset;
        self.offset = q + 1;
        self.task = JsonLexicalTask::Resume;
        if self.input[q] == 0x7B {
            self.stack.push(JsonLexicalContainerFrame::ObjectKey { depth, entries: 0 });
            assert(self.stack@.drop_last() == old(self).stack@);
            JsonLexicalStep::Charge(
                JsonBudgetRequest::EnterContainer { kind: JsonValueContainerKind::Object, depth },
            )
        } else {
            self.stack.push(JsonLexicalContainerFrame::ArrayValue { depth, items: 0 });
            assert(self.stack@.drop_last() == old(self).stack@);
            JsonLexicalStep::Charge(
                JsonBudgetRequest::EnterContainer { kind: JsonValueContainerKind::Array, depth },
            )
        }
    }

    /// Consumes and charges a string value.
    fn string_value(&mut self, depth: usize) -> (step: JsonLexicalStep)
        requires
            old(self).at_value(depth),
            old(self).input@[old(self).offset as int] == 0x22,
        ensures
            final(self).advanced(old(self), Some(step)),
            charges_follow(old(self).pending_charges(), final(self).pending_charges(), Some(step)),
    {
        proof {
            reveal(JsonLexicalScanner::wf);
        }
        proof {
            lemma_string_end(self.input@, self.offset as int);
            lemma_string_value_charges(self.input@, self.offset as int, self.stack@, depth);
        }
        match self.string_bytes() {
            Ok(bytes) => {
                self.task = JsonLexicalTask::Resume;
                JsonLexicalStep::Charge(
                    JsonBudgetRequest::Admit(JsonValueMeasurement::String { depth, bytes }),
                )
            },
            Err(failure) => self.finish_with(failure),
        }
    }

    /// Consumes and charges a number, leaving its range to be checked.
    fn number_value(&mut self, depth: usize) -> (step: JsonLexicalStep)
        requires
            old(self).at_value(depth),
            old(self).input@[old(self).offset as int] == 0x2D || is_digit(
                old(self).input@[old(self).offset as int],
            ),
        ensures
            final(self).advanced(old(self), Some(step)),
            charges_follow(old(self).pending_charges(), final(self).pending_charges(), Some(step)),
    {
        proof {
            reveal(JsonLexicalScanner::wf);
            lemma_number_value_charges(self.input@, self.offset as int, self.stack@, depth);
        }
        let q = self.offset;
        match self.number_bytes() {
            Ok(bytes) => {
                self.task = JsonLexicalTask::RangeCheck { start: q };
                JsonLexicalStep::Charge(
                    JsonBudgetRequest::Admit(JsonValueMeasurement::Number { depth, bytes }),
                )
            },
            Err(failure) => self.finish_with(failure),
        }
    }

    /// Consumes and charges `true`, `false` or `null`; any other byte is
    /// rejected.
    fn literal_value(&mut self, depth: usize) -> (step: JsonLexicalStep)
        requires
            old(self).at_value(depth),
            !(old(self).input@[old(self).offset as int] == 0x7B || old(self).input@[old(
                self,
            ).offset as int] == 0x5B || old(self).input@[old(self).offset as int] == 0x22 || old(
                self,
            ).input@[old(self).offset as int] == 0x2D || is_digit(
                old(self).input@[old(self).offset as int],
            )),
        ensures
            final(self).advanced(old(self), Some(step)),
            charges_follow(old(self).pending_charges(), final(self).pending_charges(), Some(step)),
    {
        proof {
            reveal(JsonLexicalScanner::wf);
            lemma_literal_value_charges(self.input@, self.offset as int, self.stack@, depth);
        }
        let q = self.offset;
        let b = self.input[q];
        if b == 0x74 {
            let lit: [u8; 4] = [0x74, 0x72, 0x75, 0x65];
            assert(lit@ =~= true_text());
            self.literal(depth, lit.as_slice(), JsonValueMeasurement::Boolean { depth })
        } else if b == 0x66 {
            let lit: [u8; 5] = [0x66, 0x61, 0x6C, 0x73, 0x65];
            assert(lit@ =~= false_text());
            self.literal(depth, lit.as_slice(), JsonValueMeasurement::Boolean { depth })
        } else if b == 0x6E {
            let lit: [u8; 4] = [0x6E, 0x75, 0x6C, 0x6C];
            assert(lit@ =~= null_text());
            self.literal(depth, lit.as_slice(), JsonValueMeasurement::Null { depth })
        } else {
            proof {
                reveal(JsonLexicalScanner::wf);
            }
            let failure = self.failure_at(q, JsonLexicalErrorReason::UnexpectedByte { byte: b });
            self.finish_with(failure)
        }
    }

    /// Consumes and charges the literal `lit`, which the value at the cursor
    /// must spell.
    fn literal(&mut self, depth: usize, lit: &[u8], measurement: JsonValueMeasurement) -> (step:
        JsonLexicalStep)
        requires
            old(self).at_value(depth),
            0 < lit@.len() <= 5,
            value_end(old(self).input@, old(self).offset as int, depth as int) == literal_end(
                old(self).input@,
                old(self).offset as int,
                lit@,
            ),
            old(self).pending_charges() == if literal_end(old(self).input@, old(self).offset as int, lit@) is Ok {
                seq![JsonBudgetRequest::Admit(measurement)] + task_charges(
                    old(self).input@,
                    old(self).offset + lit@.len(),
                    old(self).stack@,
                    JsonLexicalTask::Resume,
                )
            } else {
                Seq::<JsonBudgetRequest>::empty()
            },
        ensures
            final(self).advanced(old(self), Some(step)),
            charges_follow(old(self).pending_charges(), final(self).pending_charges(), Some(step)),
    {
        proof {
            reveal(JsonLexicalScanner::wf);
        }
        let q = self.offset;
        if !Self::has_literal_at(self.input, q, lit) {
            let b = self.input[q];
            let failure = self.failure_at(q, JsonLexicalErrorReason::UnexpectedByte { byte: b });
            return self.finish_with(failure);
        }
        let end = q + lit.len();
        if end < self.input.len() && !is_delimiter_byte(self.input[end]) {
            let next = self.input[end];
            let failure = self.failure_at(end, JsonLexicalErrorReason::UnexpectedByte { byte: next });
            return self.finish_with(failure);
        }
        self.offset = end;
        self.task = JsonLexicalTask::Resume;
        JsonLexicalStep::Charge(JsonBudgetRequest::Admit(measurement))
    }

    /// Checks the range of the number just scanned.
    fn range_task(&mut self, start: usize) -> (step: Option<JsonLexicalStep>)
        requires
            old(self).wf(),
            old(self).task == (JsonLexicalTask::RangeCheck { start }),
        ensures
            final(self).advanced(old(self), step),
            charges_follow(old(self).pending_charges(), final(self).pending_charges(), step),
    {
        proof {
            reveal(JsonLexicalScanner::wf);
            lemma_range_charges(self.input@, start, self.offset as int, self.stack@);
        }
        match check_number_range(self.input, start, self.offset) {
            Ok(()) => {
                self.task = JsonLexicalTask::Resume;
                None
            },
            Err(reason) => {
                let failure = self.failure_at(start, reason);
                Some(self.finish_with(failure))
            },
        }
    }

    /// The innermost container `frame` has just been taken off the stack
    /// and continues at the cursor.
    closed spec fn resuming(&self, frame: JsonLexicalContainerFrame) -> bool {
        let s = self.input@;
        &&& s.len() < usize::MAX
        &&& self.offset <= s.len()
        &&& self.task == JsonLexicalTask::Resume
        &&& scan_after(s, frame_end(s, self.offset as int, frame), self.stack@) == self.verdict@
    }

    /// Continues the innermost open container, or finishes the document.
    fn resume_task(&mut self) -> (step: Option<JsonLexicalStep>)
        requires
            old(self).wf(),
            old(self).task == JsonLexicalTask::Resume,
        ensures
            final(self).advanced(old(self), step),
            charges_follow(old(self).pending_charges(), final(self).pending_charges(), step),
    {
        proof {
            reveal(JsonLexicalScanner::wf);
            lemma_resume_charges(self.input@, self.offset as int, self.stack@);
        }
        let ghost s = self.input@;
        let ghost p = self.offset as int;
        match self.stack.pop() {
            None => {
                assert(self.ending());
                Some(self.finish_document())
            },
            Some(frame) => {
                assert(old(self).stack@.last() == frame && old(self).stack@.drop_last()
                    == self.stack@);
                assert(self.resuming(frame));
                match frame {
                    JsonLexicalContainerFrame::ArrayValue { depth, items } => self.resume_array_value(
                        depth,
                        items,
                    ),
                    JsonLexicalContainerFrame::ArrayDelimiter { depth, items } => self.resume_array_delimiter(
                        depth,
                        items,
                    ),
                    JsonLexicalContainerFrame::ObjectKey { depth, entries } => self.resume_object_key(
                        depth,
                        entries,
                    ),
                    JsonLexicalContainerFrame::ObjectDelimiter {
                        depth,
                        entries,
                    } => self.resume_object_delimiter(depth, entries),
                }
            },
        }
    }

    /// The root value has ended at the cursor.
    closed spec fn ending(&self) -> bool {
        let s = self.input@;
        &&& s.len() < usize::MAX
        &&& self.offset <= s.len()
        &&& trailing_end(s, self.offset as int) == self.verdict@
    }

    /// Checks that only whitespace follows the root value.
    fn finish_document(&mut self) -> (step: JsonLexicalStep)
        requires
            old(self).ending(),
        ensures
            final(self).advanced(old(self), Some(step)),
            step is Finished,
    {
        proof {
            lemma_skip_ws(self.input@, self.offset as int);
        }
        self.skip_whitespace();
        let q = self.offset;
        let step = if q == self.input.len() {
            self.task = JsonLexicalTask::Finished;
            JsonLexicalStep::Finished(Ok(()))
        } else {
            let failure = self.failure_at(q, JsonLexicalErrorReason::TrailingCharacters);
            self.finish_with(failure)
        };
        proof {
            reveal(JsonLexicalScanner::wf);
        }
        step
    }

    /// Continues an array that is ready for its first or next value.
    fn resume_array_value(&mut self, depth: usize, items: usize) -> (step: Option<JsonLexicalStep>)
        requires
            old(self).resuming(JsonLexicalContainerFrame::ArrayValue { depth, items }),
        ensures
            final(self).advanced(old(self), step),
            charges_follow(
                frame_charges(old(self).input@, old(self).offset as int, JsonLexicalContainerFrame::ArrayValue { depth, items })
                    + after_charges(
                    old(self).input@,
                    frame_end(old(self).input@, old(self).offset as int, JsonLexicalContainerFrame::ArrayValue { depth, items }),
                    old(self).stack@,
                ),
                final(self).pending_charges(),
                step,
            ),
    {
        proof {
            reveal(JsonLexicalScanner::wf);
            lemma_array_value_charges(self.input@, self.offset as int, self.stack@, depth, items);
        }
        proof {
            lemma_skip_ws(self.input@, self.offset as int);
        }
        self.skip_whitespace();
        let q = self.offset;
        if q < self.input.len() && self.input[q] == 0x5D {
            if items == 0 {
                self.offset = q + 1;
                None
            } else {
                let failure = self.failure_at(q, JsonLexicalErrorReason::UnexpectedByte { byte: 0x5D });
                Some(self.finish_with(failure))
            }
        } else if items == usize::MAX {
            let failure = self.failure_at(q, JsonLexicalErrorReason::NestingOverflow);
            Some(self.finish_with(failure))
        } else {
            let count = items + 1;
            self.task = JsonLexicalTask::ArrayItem { depth, items: count };
            Some(
                JsonLexicalStep::Charge(
                    JsonBudgetRequest::CheckContainerCount { kind: JsonValueContainerKind::Array, count },
                ),
            )
        }
    }

    /// Continues an array that waits for a comma or its closing bracket.
    fn resume_array_delimiter(&mut self, depth: usize, items: usize) -> (step: Option<
        JsonLexicalStep,
    >)
        requires
            old(self).resuming(JsonLexicalContainerFrame::ArrayDelimiter { depth, items }),
        ensures
            final(self).advanced(old(self), step),
            charges_follow(
                frame_charges(old(self).input@, old(self).offset as int, JsonLexicalContainerFrame::ArrayDelimiter { depth, items })
                    + after_charges(
                    old(self).input@,
                    frame_end(old(self).input@, old(self).offset as int, JsonLexicalContainerFrame::ArrayDelimiter { depth, items }),
                    old(self).stack@,
                ),
                final(self).pending_charges(),
                step,
            ),
    {
        proof {
            reveal(JsonLexicalScanner::wf);
            lemma_array_delimiter_charges(self.input@, self.offset as int, self.stack@, depth, items);
        }
        proof {
            lemma_skip_ws(self.input@, self.offset as int);
        }
        self.skip_whitespace();
        let q = self.offset;
        if q >= self.input.len() {
            let failure = self.failure_at(q, JsonLexicalErrorReason::UnexpectedEnd);
            Some(self.finish_with(failure))
        } else if self.input[q] == 0x2C {
            self.offset = q + 1;
            let ghost rest = self.stack@;
            self.stack.push(JsonLexicalContainerFrame::ArrayValue { depth, items });
            assert(self.stack@.drop_last() == rest);
            None
        } else if self.input[q] == 0x5D {
            self.offset = q + 1;
            None
        } else {
            let failure = self.failure_at(q, JsonLexicalErrorReason::ExpectedCommaOrArrayEnd);
            Some(self.finish_with(failure))
        }
    }

    /// Continues an object that is ready for its first or next key.
    fn resume_object_key(&mut self, depth: usize, entries: usize) -> (step: Option<JsonLexicalStep>)
        requires
            old(self).resuming(JsonLexicalContainerFrame::ObjectKey { depth, entries }),
        ensures
            final(self).advanced(old(self), step),
            charges_follow(
                frame_charges(old(self).input@, old(self).offset as int, JsonLexicalContainerFrame::ObjectKey { depth, entries })
                    + after_charges(
                    old(self).input@,
                    frame_end(old(self).input@, old(self).offset as int, JsonLexicalContainerFrame::ObjectKey { depth, entries }),
                    old(self).stack@,
                ),
                final(self).pending_charges(),
                step,
            ),
    {
        proof {
            reveal(JsonLexicalScanner::wf);
            lemma_object_key_charges(self.input@, self.offset as int, self.stack@, depth, entries);
        }
        proof {
            lemma_skip_ws(self.input@, self.offset as int);
        }
        self.skip_whitespace();
        let q = self.offset;
        if q < self.input.len() && self.input[q] == 0x7D {
            if entries == 0 {
                self.offset = q + 1;
                None
            } else {
                let failure = self.failure_at(q, JsonLexicalErrorReason::UnexpectedByte { byte: 0x7D });
                Some(self.finish_with(failure))
            }
        } else if !(q < self.input.len() && self.input[q] == 0x22) {
            let failure = self.failure_at(q, JsonLexicalErrorReason::ExpectedObjectKey);
            Some(self.finish_with(failure))
        } else if entries == usize::MAX {
            let failure = self.failure_at(q, JsonLexicalErrorReason::NestingOverflow);
            Some(self.finish_with(failure))
        } else {
            let count = entries + 1;
            self.task = JsonLexicalTask::ObjectEntry { depth, entries: count };
            Some(
                JsonLexicalStep::Charge(
                    JsonBudgetRequest::CheckContainerCount { kind: JsonValueContainerKind::Object, count },
                ),
            )
        }
    }

    /// Continues an object that waits for a comma or its closing brace.
    fn resume_object_delimiter(&mut self, depth: usize, entries: usize) -> (step: Option<
        JsonLexicalStep,
    >)
        requires
            old(self).resuming(JsonLexicalContainerFrame::ObjectDelimiter { depth, entries }),
        ensures
            final(self).advanced(old(self), step),
            charges_follow(
                frame_charges(old(self).input@, old(self).offset as int, JsonLexicalContainerFrame::ObjectDelimiter { depth, entries })
                    + after_charges(
                    old(self).input@,
                    frame_end(old(self).input@, old(self).offset as int, JsonLexicalContainerFrame::ObjectDelimiter { depth, entries }),
                    old(self).stack@,
                ),
                final(self).pending_charges(),
                step,
            ),
    {
        proof {
            reveal(JsonLexicalScanner::wf);
            lemma_object_delimiter_charges(self.input@, self.offset as int, self.stack@, depth, entries);
        }
        proof {
            lemma_skip_ws(self.input@, self.offset as int);
        }
        self.skip_whitespace();
        let q = self.offset;
        if q >= self.input.len() {
            let failure = self.failure_at(q, JsonLexicalErrorReason::UnexpectedEnd);
            Some(self.finish_with(failure))
        } else if self.input[q] == 0x2C {
            self.offset = q + 1;
            let ghost rest = self.stack@;
            self.stack.push(JsonLexicalContainerFrame::ObjectKey { depth, entries });
            assert(self.stack@.drop_last() == rest);
            None
        } else if self.input[q] == 0x7D {
            self.offset = q + 1;
            None
        } else {
            let failure = self.failure_at(q, JsonLexicalErrorReason::ExpectedCommaOrObjectEnd);
            Some(self.finish_with(failure))
        }
    }

    /// Opens the next array item: the array waits for its delimiter while
    /// the item is scanned one level deeper.
    fn array_item_task(&mut self, depth: usize, items: usize) -> (step: Option<JsonLexicalStep>)
        requires
            old(self).wf(),
            old(self).task == (JsonLexicalTask::ArrayItem { depth, items }),
        ensures
            final(self).advanced(old(self), step),
            charges_follow(old(self).pending_charges(), final(self).pending_charges(), step),
    {
        proof {
            reveal(JsonLexicalScanner::wf);
            lemma_array_item_charges(self.input@, self.offset as int, self.stack@, depth, items);
        }
        let ghost s = self.input@;
        let q = self.offset;
        proof {
            lemma_value_end(s, q as int, depth + 1);
        }
        self.stack.push(JsonLexicalContainerFrame::ArrayDelimiter { depth, items });
        assert(self.stack@.drop_last() == old(self).stack@);
        if depth == usize::MAX {
            let failure = self.failure_at(q, JsonLexicalErrorReason::NestingOverflow);
            return Some(self.finish_with(failure));
        }
        self.task = JsonLexicalTask::Value { depth: depth + 1 };
        None
    }

    /// Scans the key of an object entry and charges it.
    fn object_entry_task(&mut self, depth: usize, entries: usize) -> (step: JsonLexicalStep)
        requires
            old(self).wf(),
            old(self).task == (JsonLexicalTask::ObjectEntry { depth, entries }),
        ensures
            final(self).advanced(old(self), Some(step)),
            charges_follow(old(self).pending_charges(), final(self).pending_charges(), Some(step)),
    {
        proof {
            reveal(JsonLexicalScanner::wf);
            lemma_object_entry_charges(self.input@, self.offset as int, self.stack@, depth, entries);
        }
        let ghost s = self.input@;
        proof {
            lemma_string_end(s, self.offset as int);
        }
        match self.string_bytes() {
            Ok(bytes) => {
                self.task = JsonLexicalTask::ObjectColon { depth, entries };
                JsonLexicalStep::Charge(JsonBudgetRequest::Admit(JsonValueMeasurement::Key { bytes }))
            },
            Err(failure) => self.finish_with(failure),
        }
    }

    /// Scans the colon of an object entry and opens its value.
    fn object_colon_task(&mut self, depth: usize, entries: usize) -> (step: Option<JsonLexicalStep>)
        requires
            old(self).wf(),
            old(self).task == (JsonLexicalTask::ObjectColon { depth, entries }),
        ensures
            final(self).advanced(old(self), step),
            charges_follow(old(self).pending_charges(), final(self).pending_charges(), step),
    {
        proof {
            reveal(JsonLexicalScanner::wf);
            lemma_object_colon_charges(self.input@, self.offset as int, self.stack@, depth, entries);
        }
        let ghost s = self.input@;
        let ghost r = self.offset as int;
        proof {
            lemma_skip_ws(s, r);
        }
        self.skip_whitespace();
        let c = self.offset;
        if !(c < self.input.len() && self.input[c] == 0x3A) {
            let reason = if c < self.input.len() {
                JsonLexicalErrorReason::ExpectedColon
            } else {
                JsonLexicalErrorReason::UnexpectedEnd
            };
            let failure = self.failure_at(c, reason);
            return Some(self.finish_with(failure));
        }
        self.offset = c + 1;
        proof {
            lemma_value_end(s, c + 1, depth + 1);
        }
        self.stack.push(JsonLexicalContainerFrame::ObjectDelimiter { depth, entries });
        assert(self.stack@.drop_last() == old(self).stack@);
        if depth == usize::MAX {
            let failure = self.failure_at(c + 1, JsonLexicalErrorReason::NestingOverflow);
            return Some(self.finish_with(failure));
        }
        self.task = JsonLexicalTask::Value { depth: depth + 1 };
        None
    }
}

/// A JSON whitespace byte.
fn is_ws_byte(b: u8) -> (ws: bool)
    ensures
        ws == is_json_ws(b),
{
    b == 0x20 || b == 0x0A || b == 0x0D || b == 0x09
}

/// A byte that may follow a complete scalar value.
fn is_delimiter_byte(b: u8) -> (delimiter: bool)
    ensures
        delimiter == (is_json_ws(b) || b == 0x2C || b == 0x5D || b == 0x7D),
{
    is_ws_byte(b) || b == 0x2C || b == 0x5D || b == 0x7D
}

/// A decimal digit byte.
fn is_digit_byte(b: u8) -> (digit: bool)
    ensures
        digit == is_digit(b),
{
    0x30 <= b && b <= 0x39
}

impl<'input> JsonLexicalScanner<'input> {
    /// The reason for a missing hexadecimal digit at `at`.
    fn hex_failure_at(&self, at: usize) -> (failure: JsonLexicalFailure)
        requires
            self.input@.len() < usize::MAX,
        ensures
            failure_matches(self.input@, failure, (at as int, hex_failure(self.input@, at as int))),
    {
        let reason = if at < self.input.len() {
            JsonLexicalErrorReason::InvalidUnicodeEscape
        } else {
            JsonLexicalErrorReason::UnexpectedEnd
        };
        self.failure_at(at, reason)
    }

    /// The hexadecimal digit at `at`, if there is one.
    fn hex_digit_at(&self, at: usize) -> (digit: Option<u16>)
        ensures
            digit is Some <==> (at < self.input@.len() && is_hex(self.input@[at as int])),
            digit matches Some(d) ==> d == hex_value(self.input@[at as int]),
    {
        if at >= self.input.len() {
            return None;
        }
        let b = self.input[at];
        if 0x30 <= b && b <= 0x39 {
            Some((b - 0x30) as u16)
        } else if 0x61 <= b && b <= 0x66 {
            Some((b - 0x61 + 10) as u16)
        } else if 0x41 <= b && b <= 0x46 {
            Some((b - 0x41 + 10) as u16)
        } else {
            None
        }
    }

    /// Consumes four hexadecimal digits of a Unicode escape.
    fn hex_quad(&mut self) -> (result: Result<u16, JsonLexicalFailure>)
        requires
            old(self).offset <= old(self).input@.len() < usize::MAX,
        ensures
            final(self).input == old(self).input,
            final(self).stack == old(self).stack,
            final(self).task == old(self).task,
            final(self).root_depth == old(self).root_depth,
            final(self).verdict == old(self).verdict,
            final(self).offset <= final(self).input@.len(),
            result matches Ok(v) ==> hex_quad_error(old(self).input@, old(self).offset as int)
                is None && v == hex_quad_value(old(self).input@, old(self).offset as int)
                && final(self).offset == old(self).offset + 4,
            result matches Err(f) ==> hex_quad_error(old(self).input@, old(self).offset as int)
                matches Some(e) && failure_matches(old(self).input@, f, e),
    {
        let p = self.offset;
        let d0 = match self.hex_digit_at(p) {
            Some(d) => d,
            None => return Err(self.hex_failure_at(p)),
        };
        let d1 = match self.hex_digit_at(p + 1) {
            Some(d) => d,
            None => return Err(self.hex_failure_at(p + 1)),
        };
        let d2 = match self.hex_digit_at(p + 2) {
            Some(d) => d,
            None => return Err(self.hex_failure_at(p + 2)),
        };
        let d3 = match self.hex_digit_at(p + 3) {
            Some(d) => d,
            None => return Err(self.hex_failure_at(p + 3)),
        };
        self.offset = p + 4;
        Ok(((d0 * 16 + d1) * 16 + d2) * 16 + d3)
    }

    /// Consumes a Unicode escape whose `u` is at the cursor, and returns the
    /// UTF-8 length of the character it names.
    fn unicode_escape_bytes(&mut self) -> (result: Result<usize, JsonLexicalFailure>)
        requires
            old(self).offset < old(self).input@.len() < usize::MAX,
            old(self).input@[old(self).offset as int] == 0x75,
        ensures
            final(self).input == old(self).input,
            final(self).stack == old(self).stack,
            final(self).task == old(self).task,
            final(self).root_depth == old(self).root_depth,
            final(self).verdict == old(self).verdict,
            final(self).offset <= final(self).input@.len(),
            result matches Ok(n) ==> unicode_escape_end(old(self).input@, old(self).offset as int)
                == Scan::Ok(final(self).offset as int) && 1 <= n <= 4 && n <= final(self).offset - old(
                self,
            ).offset && n == unicode_escape_width(old(self).input@, old(self).offset as int),
            result matches Err(f) ==> unicode_escape_end(old(self).input@, old(self).offset as int)
                matches Err(e) && failure_matches(old(self).input@, f, e),
    {
        let u = self.offset;
        self.offset = u + 1;
        let first = match self.hex_quad() {
            Ok(v) => v,
            Err(f) => return Err(f),
        };
        let r = self.offset;
        if 0xD800 <= first && first <= 0xDBFF {
            if !(2 <= self.input.len() - r && self.input[r] == 0x5C && self.input[r + 1] == 0x75) {
                let reason = if r < self.input.len() {
                    JsonLexicalErrorReason::UnpairedSurrogate
                } else {
                    JsonLexicalErrorReason::UnexpectedEnd
                };
                return Err(self.failure_at(r, reason));
            }
            self.offset = r + 2;
            let second = match self.hex_quad() {
                Ok(v) => v,
                Err(f) => return Err(f),
            };
            if !(0xDC00 <= second && second <= 0xDFFF) {
                return Err(self.failure_at(self.offset, JsonLexicalErrorReason::UnpairedSurrogate));
            }
            Ok(4)
        } else if 0xDC00 <= first && first <= 0xDFFF {
            Err(self.failure_at(r, JsonLexicalErrorReason::UnpairedSurrogate))
        } else if first < 0x80 {
            Ok(1)
        } else if first < 0x800 {
            Ok(2)
        } else {
            Ok(3)
        }
    }

    /// Consumes one JSON string whose opening quote is at the cursor, and
    /// returns its decoded UTF-8 byte length.
    fn string_bytes(&mut self) -> (result: Result<usize, JsonLexicalFailure>)
        requires
            old(self).offset < old(self).input@.len() < usize::MAX,
            old(self).input@[old(self).offset as int] == 0x22,
        ensures
            final(self).input == old(self).input,
            final(self).stack == old(self).stack,
            final(self).task == old(self).task,
            final(self).root_depth == old(self).root_depth,
            final(self).verdict == old(self).verdict,
            final(self).offset <= final(self).input@.len(),
            result matches Ok(n) ==> string_end(old(self).input@, old(self).offset as int) == Scan::Ok(
                final(self).offset as int,
            ) && n == string_bytes_at(old(self).input@, old(self).offset as int),
            result matches Err(f) ==> string_end(old(self).input@, old(self).offset as int)
                matches Err(e) && failure_matches(old(self).input@, f, e),
    {
        let ghost s = self.input@;
        let start = self.offset;
        self.offset = start + 1;
        let mut decoded: usize = 0;
        loop
            invariant
                self.input@ == s,
                self.input == old(self).input,
                self.stack == old(self).stack,
                self.task == old(self).task,
                self.root_depth == old(self).root_depth,
                self.verdict == old(self).verdict,
                s.len() < usize::MAX,
                start == old(self).offset,
                start < self.offset <= s.len(),
                decoded <= self.offset - start,
                string_body_end(s, self.offset as int) == string_end(s, start as int),
                string_body_end(s, self.offset as int) is Ok ==> decoded + string_body_bytes(
                    s,
                    self.offset as int,
                ) == string_body_bytes(s, start + 1),
            decreases s.len() - self.offset,
        {
            let q = self.offset;
            if q >= self.input.len() {
                return Err(self.failure_at(q, JsonLexicalErrorReason::UnexpectedEnd));
            }
            let b = self.input[q];
            if b == 0x22 {
                self.offset = q + 1;
                return Ok(decoded);
            } else if b == 0x5C {
                if q + 1 >= self.input.len() {
                    self.offset = q + 1;
                    return Err(self.failure_at(q + 1, JsonLexicalErrorReason::UnexpectedEnd));
                }
                let e = self.input[q + 1];
                if e == 0x22 || e == 0x5C || e == 0x2F || e == 0x62 || e == 0x66 || e == 0x6E || e
                    == 0x72 || e == 0x74 {
                    self.offset = q + 2;
                    decoded = decoded + 1;
                } else if e == 0x75 {
                    self.offset = q + 1;
                    match self.unicode_escape_bytes() {
                        Ok(bytes) => {
                            decoded = decoded + bytes;
                        },
                        Err(f) => {
                            return Err(f);
                        },
                    }
                } else {
                    self.offset = q + 1;
                    return Err(self.failure_at(q + 1, JsonLexicalErrorReason::InvalidEscape));
                }
            } else if 0x20 <= b && b <= 0x7F {
                let mut i = q + 1;
                while i < self.input.len()
                    invariant
                        self.input@ == s,
                        q < i <= s.len(),
                        string_body_end(s, i as int) == string_body_end(s, q as int),
                        string_body_end(s, i as int) is Ok ==> (i - q) + string_body_bytes(s, i as int)
                            == string_body_bytes(s, q as int),
                    decreases s.len() - i,
                {
                    let c = self.input[i];
                    if !(0x20 <= c && c <= 0x7F && c != 0x22 && c != 0x5C) {
                        break;
                    }
                    i = i + 1;
                }
                decoded = decoded + (i - q);
                self.offset = i;
            } else if b >= 0x80 {
                match utf8_width(b) {
                    None => {
                        return Err(self.failure_at(q, JsonLexicalErrorReason::InvalidUtf8));
                    },
                    Some(width) => {
                        if width > self.input.len() - q {
                            return Err(self.failure_at(q, JsonLexicalErrorReason::UnexpectedEnd));
                        }
                        if !is_scalar_at(self.input, q, width) {
                            return Err(self.failure_at(q, JsonLexicalErrorReason::InvalidUtf8));
                        }
                        self.offset = q + width;
                        decoded = decoded + width;
                    },
                }
            } else {
                return Err(self.failure_at(q, JsonLexicalErrorReason::UnexpectedByte { byte: b }));
            }
        }
    }

    /// Advances past a run of decimal digits.
    fn skip_digits(&mut self)
        requires
            old(self).offset <= old(self).input@.len(),
        ensures
            final(self).offset == digits_end(old(self).input@, old(self).offset as int),
            final(self).input == old(self).input,
            final(self).stack == old(self).stack,
            final(self).task == old(self).task,
            final(self).root_depth == old(self).root_depth,
            final(self).verdict == old(self).verdict,
    {
        proof {
            lemma_digits_end(self.input@, self.offset as int);
        }
        while self.offset < self.input.len() && is_digit_byte(self.input[self.offset])
            invariant
                self.offset <= self.input@.len(),
                digits_end(self.input@, self.offset as int) == digits_end(
                    old(self).input@,
                    old(self).offset as int,
                ),
                self.input == old(self).input,
                self.stack == old(self).stack,
                self.task == old(self).task,
                self.root_depth == old(self).root_depth,
                self.verdict == old(self).verdict,
            decreases self.input@.len() - self.offset,
        {
            self.offset = self.offset + 1;
        }
    }

    /// Consumes the mandatory digits of a fraction or exponent.
    fn required_digits(&mut self) -> (result: Result<(), JsonLexicalFailure>)
        requires
            old(self).offset <= old(self).input@.len() < usize::MAX,
        ensures
            final(self).input == old(self).input,
            final(self).stack == old(self).stack,
            final(self).task == old(self).task,
            final(self).root_depth == old(self).root_depth,
            final(self).verdict == old(self).verdict,
            final(self).offset <= final(self).input@.len(),
            result is Ok ==> required_digits_end(old(self).input@, old(self).offset as int) == Scan::Ok(
                final(self).offset as int,
            ),
            result matches Err(f) ==> required_digits_end(old(self).input@, old(self).offset as int)
                matches Err(e) && failure_matches(old(self).input@, f, e),
    {
        let p = self.offset;
        proof {
            lemma_digits_end(self.input@, p as int);
        }
        if !(p < self.input.len() && 0x30 <= self.input[p] && self.input[p] <= 0x39) {
            return Err(self.failure_at(p, JsonLexicalErrorReason::InvalidNumber));
        }
        self.skip_digits();
        Ok(())
    }

    /// Consumes one JSON number and returns the byte length of its text.
    fn number_bytes(&mut self) -> (result: Result<usize, JsonLexicalFailure>)
        requires
            old(self).offset < old(self).input@.len() < usize::MAX,
        ensures
            final(self).input == old(self).input,
            final(self).stack == old(self).stack,
            final(self).task == old(self).task,
            final(self).root_depth == old(self).root_depth,
            final(self).verdict == old(self).verdict,
            final(self).offset <= final(self).input@.len(),
            result matches Ok(n) ==> number_token_end(old(self).input@, old(self).offset as int)
                == Scan::Ok(final(self).offset as int) && n == final(self).offset - old(self).offset
                && old(self).offset < final(self).offset,
            result matches Err(f) ==> number_token_end(old(self).input@, old(self).offset as int)
                matches Err(e) && failure_matches(old(self).input@, f, e),
    {
        let ghost s = self.input@;
        let start = self.offset;
        if self.input[start] == 0x2D {
            self.offset = start + 1;
        }
        let a = self.offset;
        proof {
            lemma_digits_end(s, a + 1);
        }
        if a >= self.input.len() {
            return Err(self.failure_at(a, JsonLexicalErrorReason::UnexpectedEnd));
        }
        let first = self.input[a];
        if first == 0x30 {
            self.offset = a + 1;
        } else if 0x31 <= first && first <= 0x39 {
            self.offset = a + 1;
            self.skip_digits();
        } else {
            return Err(self.failure_at(a, JsonLexicalErrorReason::InvalidNumber));
        }
        assert(integer_part_end(s, a as int) == Scan::Ok(self.offset as int));
        let b = self.offset;
        proof {
            lemma_digits_end(s, b + 1);
        }
        if b < self.input.len() && self.input[b] == 0x2E {
            self.offset = b + 1;
            match self.required_digits() {
                Ok(()) => {},
                Err(f) => return Err(f),
            }
        }
        assert(fraction_end(s, b as int) == Scan::Ok(self.offset as int));
        let c = self.offset;
        proof {
            lemma_digits_end(s, c + 1);
            lemma_digits_end(s, c + 2);
        }
        if c < self.input.len() && (self.input[c] == 0x65 || self.input[c] == 0x45) {
            self.offset = c + 1;
            if c + 1 < self.input.len() && (self.input[c + 1] == 0x2B || self.input[c + 1] == 0x2D) {
                self.offset = c + 2;
            }
            match self.required_digits() {
                Ok(()) => {},
                Err(f) => return Err(f),
            }
        }
        assert(exponent_end(s, c as int) == Scan::Ok(self.offset as int));
        let e = self.offset;
        if e < self.input.len() {
            let next = self.input[e];
            if !(next == 0x20 || next == 0x0A || next == 0x0D || next == 0x09 || next == 0x2C
                || next == 0x5D || next == 0x7D) {
                return Err(self.failure_at(e, JsonLexicalErrorReason::InvalidNumber));
            }
        }
        Ok(e - start)
    }
}

} // verus!
