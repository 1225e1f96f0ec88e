//! One-based line and UTF-8 character column of a byte offset.

use vstd::prelude::*;
use vstd::utf8::*;

verus! {

/// The width announced by a UTF-8 leading byte that can start a valid
/// multi-byte scalar, or zero for any other byte.
pub open spec fn lead_width(byte: u8) -> int {
    if 0xC2 <= byte <= 0xDF {
        2
    } else if 0xE0 <= byte <= 0xEF {
        3
    } else if 0xF0 <= byte <= 0xF4 {
        4
    } else {
        0
    }
}

/// The `width` bytes at `index` exist and are exactly one UTF-8 scalar.
pub open spec fn scalar_at(input: Seq<u8>, index: int, width: int) -> bool {
    &&& 0 <= index
    &&& index + width <= input.len()
    &&& valid_first_scalar(input.subrange(index, index + width))
    &&& length_of_first_scalar(input.subrange(index, index + width)) == width
}

/// The number of bytes that one column step advances at `index`, never past
/// `end`: a whole scalar when one is encoded there, otherwise a single byte.
pub open spec fn column_step(input: Seq<u8>, index: int, end: int) -> int {
    let width = lead_width(input[index]);
    let whole = if width > 0 && scalar_at(input, index, width) {
        width
    } else {
        1
    };
    if whole < end - index {
        whole
    } else {
        end - index
    }
}

/// The coordinates reached after scanning `input[index..end]` from
/// (`line`, `column`); CR, LF and CRLF each end one line.
pub open spec fn coordinates_from(input: Seq<u8>, end: int, index: int, line: int, column: int) -> (
    int,
    int,
)
    decreases end - index,
{
    if index >= end {
        (line, column)
    } else if input[index] == 0x0D {
        if index + 1 < end && input[index + 1] == 0x0A {
            coordinates_from(input, end, index + 2, line + 1, 1)
        } else {
            coordinates_from(input, end, index + 1, line + 1, 1)
        }
    } else if input[index] == 0x0A {
        coordinates_from(input, end, index + 1, line + 1, 1)
    } else {
        let step = column_step(input, index, end);
        if step >= 1 {
            coordinates_from(input, end, index + step, line, column + 1)
        } else {
            (line, column)
        }
    }
}

/// The one-based line and column of byte `offset`, clamped to the input.
pub open spec fn line_column_of(input: Seq<u8>, offset: int) -> (int, int) {
    let end = if offset < input.len() {
        offset
    } else {
        input.len() as int
    };
    coordinates_from(input, end, 0, 1, 1)
}

/// Returns the width announced by a UTF-8 leading byte of a multi-byte
/// scalar.
pub fn utf8_width(byte: u8) -> (width: Option<usize>)
    ensures
        lead_width(byte) == 0 <==> width is None,
        width matches Some(w) ==> w == lead_width(byte),
{
    if 0xC2 <= byte && byte <= 0xDF {
        Some(2)
    } else if 0xE0 <= byte && byte <= 0xEF {
        Some(3)
    } else if 0xF0 <= byte && byte <= 0xF4 {
        Some(4)
    } else {
        None
    }
}

/// Tests whether the `width` bytes at `index` are exactly one UTF-8 scalar,
/// where `width` is the width that the leading byte announces.
pub fn is_scalar_at(input: &[u8], index: usize, width: usize) -> (valid: bool)
    requires
        width == lead_width(input@[index as int]),
        width > 0,
        index + width <= input@.len(),
    ensures
        valid == scalar_at(input@, index as int, width as int),
{
    let ghost bytes = input@.subrange(index as int, index + width);
    let b0 = input[index];
    let b1 = input[index + 1];
    assert(bytes[0] == b0 && bytes[1] == b1);
    if !(0x80 <= b1 && b1 <= 0xBF) {
        return false;
    }
    if width == 2 {
        let cp: u32 = (((b0 & 0x1F) as u32) << 6u32) | ((b1 & 0x3F) as u32);
        assert(cp == codepoint_width_2(b0, b1));
        return 0x80 <= cp && !(0xD800 <= cp && cp <= 0xDFFF);
    }
    let b2 = input[index + 2];
    assert(bytes[2] == b2);
    if !(0x80 <= b2 && b2 <= 0xBF) {
        return false;
    }
    if width == 3 {
        let cp: u32 = (((b0 & 0x0F) as u32) << 12u32) | (((b1 & 0x3F) as u32) << 6u32) | ((b2
            & 0x3F) as u32);
        assert(cp == codepoint_width_3(b0, b1, b2));
        return 0x800 <= cp && !(0xD800 <= cp && cp <= 0xDFFF);
    }
    let b3 = input[index + 3];
    assert(bytes[3] == b3);
    if !(0x80 <= b3 && b3 <= 0xBF) {
        return false;
    }
    let cp: u32 = (((b0 & 0x07) as u32) << 18u32) | (((b1 & 0x3F) as u32) << 12u32) | (((b2
        & 0x3F) as u32) << 6u32) | ((b3 & 0x3F) as u32);
    assert(cp == codepoint_width_4(b0, b1, b2, b3));
    0x10000 <= cp && cp <= 0x10FFFF && !(0xD800 <= cp && cp <= 0xDFFF)
}

/// The bytes one scan step examines at `index`: two for a CR LF pair, one
/// for any other line break, and a column step otherwise.
pub open spec fn scan_step(input: Seq<u8>, index: int, end: int) -> int {
    if input[index] == 0x0D {
        if index + 1 < end && input[index + 1] == 0x0A {
            2
        } else {
            1
        }
    } else if input[index] == 0x0A {
        1
    } else {
        column_step(input, index, end)
    }
}

/// The bytes each step examines while scanning `input[index..end]`, in
/// order.
pub open spec fn scan_steps(input: Seq<u8>, end: int, index: int) -> Seq<usize>
    decreases end - index,
{
    if index >= end {
        Seq::empty()
    } else {
        let step = scan_step(input, index, end);
        if step >= 1 {
            seq![step as usize] + scan_steps(input, end, index + step)
        } else {
            Seq::empty()
        }
    }
}

/// The sum of a sequence of byte counts.
pub open spec fn total_bytes(steps: Seq<usize>) -> int
    decreases steps.len(),
{
    if steps.len() == 0 {
        0
    } else {
        steps[0] + total_bytes(steps.drop_first())
    }
}

/// The scan is linear: every step examines between one and four bytes, and
/// the steps together examine each byte of `input[index..end]` once.
pub proof fn lemma_scan_examines_each_byte_once(input: Seq<u8>, end: int, index: int)
    requires
        0 <= index <= end <= input.len(),
    ensures
        total_bytes(scan_steps(input, end, index)) == end - index,
        forall|i: int|
            0 <= i < scan_steps(input, end, index).len() ==> 1 <= #[trigger] scan_steps(input, end, index)[i]
                <= 4,
    decreases end - index,
{
    if index < end {
        let step = scan_step(input, index, end);
        let rest = scan_steps(input, end, index + step);
        lemma_scan_examines_each_byte_once(input, end, index + step);
        assert((seq![step as usize] + rest).drop_first() =~= rest);
        assert forall|i: int| 0 <= i < (seq![step as usize] + rest).len() implies 1 <= #[trigger] (seq![
            step as usize,
        ] + rest)[i] <= 4 by {
            if i > 0 {
                assert((seq![step as usize] + rest)[i] == rest[i - 1]);
            }
        }
    }
}

/// Computes the one-based line and UTF-8 character column of `offset`, and
/// the number of bytes each scan step examined.
///
/// Offsets past the input are clamped to its length. A step examines the
/// bytes it advances over, so the steps add up to the clamped offset and
/// each examines at most four bytes: the scan is linear in the input.
pub fn line_column_at_with_inspection(input: &[u8], offset: usize) -> (result: (
    (usize, usize),
    Vec<usize>,
))
    requires
        input@.len() < usize::MAX,
    ensures
        (result.0.0 as int, result.0.1 as int) == line_column_of(input@, offset as int),
        result.1@ == scan_steps(input@, if offset < input@.len() { offset as int } else { input@.len() as int }, 0),
        total_bytes(result.1@) == if offset < input@.len() { offset as int } else { input@.len() as int },
        forall|i: int| 0 <= i < result.1@.len() ==> 1 <= #[trigger] result.1@[i] <= 4,
{
    let end = if offset < input.len() {
        offset
    } else {
        input.len()
    };
    let mut line: usize = 1;
    let mut column: usize = 1;
    let mut index: usize = 0;
    let mut steps: Vec<usize> = Vec::new();
    assert(steps@ + scan_steps(input@, end as int, 0) =~= scan_steps(input@, end as int, 0));
    while index < end
        invariant
            end <= input@.len() < usize::MAX,
            end == if offset < input@.len() {
                offset
            } else {
                input@.len() as usize
            },
            index <= end,
            1 <= line,
            1 <= column,
            line + column <= index + 2,
            coordinates_from(input@, end as int, index as int, line as int, column as int)
                == line_column_of(input@, offset as int),
            steps@ + scan_steps(input@, end as int, index as int) == scan_steps(input@, end as int, 0),
        decreases end - index,
    {
        let byte = input[index];
        let step: usize;
        if byte == 0x0D {
            if index + 1 < end && input[index + 1] == 0x0A {
                step = 2;
            } else {
                step = 1;
            }
            line = line + 1;
            column = 1;
        } else if byte == 0x0A {
            step = 1;
            line = line + 1;
            column = 1;
        } else {
            let whole: usize = match utf8_width(byte) {
                Some(width) => {
                    if width <= input.len() - index && is_scalar_at(input, index, width) {
                        width
                    } else {
                        1
                    }
                },
                None => 1,
            };
            step = if whole < end - index {
                whole
            } else {
                end - index
            };
            assert(step == column_step(input@, index as int, end as int));
            column = column + 1;
        }
        assert(step as int == scan_step(input@, index as int, end as int));
        proof {
            let rest = scan_steps(input@, end as int, index + step);
            assert(steps@.push(step) + rest =~= steps@ + (seq![step] + rest));
        }
        steps.push(step);
        index = index + step;
    }
    proof {
        lemma_scan_examines_each_byte_once(input@, end as int, 0);
        assert(steps@ =~= steps@ + scan_steps(input@, end as int, index as int));
    }
    ((line, column), steps)
}

/// Computes the one-based line and UTF-8 character column of `offset`.
pub fn line_column_at(input: &[u8], offset: usize) -> (coordinates: (usize, usize))
    requires
        input@.len() < usize::MAX,
    ensures
        (coordinates.0 as int, coordinates.1 as int) == line_column_of(input@, offset as int),
{
    line_column_at_with_inspection(input, offset).0
}

} // verus!
