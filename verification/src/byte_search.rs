//! Byte searches over encoded text.

use vstd::prelude::*;

verus! {

/// The number of consecutive bytes equal to `b` starting at `from`.
pub open spec fn run_len(bytes: Seq<u8>, b: u8, from: int) -> int
    decreases bytes.len() - from,
{
    if 0 <= from < bytes.len() && bytes[from] == b {
        1 + run_len(bytes, b, from + 1)
    } else {
        0
    }
}

/// The first index at or after `from` holding `b`.
pub open spec fn first_index_from(bytes: Seq<u8>, b: u8, from: int) -> Option<int>
    decreases bytes.len() - from,
{
    if from < 0 || from >= bytes.len() {
        None
    } else if bytes[from] == b {
        Some(from)
    } else {
        first_index_from(bytes, b, from + 1)
    }
}

/// The first index holding `b`.
pub open spec fn first_index_of(bytes: Seq<u8>, b: u8) -> Option<int> {
    first_index_from(bytes, b, 0)
}

/// The last index below `n` holding `b`.
pub open spec fn last_index_below(bytes: Seq<u8>, b: u8, n: int) -> Option<int>
    decreases n,
{
    if n <= 0 || n > bytes.len() {
        None
    } else if bytes[n - 1] == b {
        Some(n - 1)
    } else {
        last_index_below(bytes, b, n - 1)
    }
}

/// The last index holding `b`.
pub open spec fn last_index_of(bytes: Seq<u8>, b: u8) -> Option<int> {
    last_index_below(bytes, b, bytes.len() as int)
}

/// A run counted from `from` ends within the sequence and holds only `b`.
pub proof fn lemma_run_len_bounds(bytes: Seq<u8>, b: u8, from: int)
    requires
        0 <= from,
    ensures
        0 <= run_len(bytes, b, from),
        from + run_len(bytes, b, from) <= bytes.len() || run_len(bytes, b, from) == 0,
        forall|j: int| from <= j < from + run_len(bytes, b, from) ==> bytes[j] == b,
        from + run_len(bytes, b, from) < bytes.len() ==> bytes[from + run_len(bytes, b, from)] != b,
    decreases bytes.len() - from,
{
    if 0 <= from < bytes.len() && bytes[from] == b {
        lemma_run_len_bounds(bytes, b, from + 1);
    }
}

/// A found index holds `b`, and no earlier index from `from` does.
pub proof fn lemma_first_index(bytes: Seq<u8>, b: u8, from: int)
    requires
        0 <= from,
    ensures
        first_index_from(bytes, b, from) matches Some(i) ==> from <= i < bytes.len() && bytes[i] == b
            && forall|j: int| from <= j < i ==> bytes[j] != b,
        first_index_from(bytes, b, from) is None ==> forall|j: int| from <= j < bytes.len() ==> bytes[j] != b,
    decreases bytes.len() - from,
{
    if 0 <= from < bytes.len() && bytes[from] != b {
        lemma_first_index(bytes, b, from + 1);
    }
}

/// A found index holds `b`, and no later index below `n` does.
pub proof fn lemma_last_index(bytes: Seq<u8>, b: u8, n: int)
    requires
        n <= bytes.len(),
    ensures
        last_index_below(bytes, b, n) matches Some(i) ==> 0 <= i < n && bytes[i] == b
            && forall|j: int| i < j < n ==> bytes[j] != b,
        last_index_below(bytes, b, n) is None ==> forall|j: int| 0 <= j < n ==> bytes[j] != b,
    decreases n,
{
    if 0 < n && bytes[n - 1] != b {
        lemma_last_index(bytes, b, n - 1);
    }
}

/// Returns the number of consecutive bytes equal to `b` starting at `from`.
pub(crate) fn count_run(bytes: &[u8], b: u8, from: usize) -> (count: usize)
    requires
        from <= bytes@.len(),
    ensures
        count == run_len(bytes@, b, from as int),
{
    let mut end = from;
    while end < bytes.len() && bytes[end] == b
        invariant
            from <= end <= bytes@.len(),
            run_len(bytes@, b, from as int) == (end - from) + run_len(bytes@, b, end as int),
        decreases bytes.len() - end,
    {
        end = end + 1;
    }
    end - from
}

/// Returns the first index holding `b`.
pub(crate) fn find_byte(bytes: &[u8], b: u8) -> (index: Option<usize>)
    ensures
        index matches Some(i) ==> first_index_of(bytes@, b) == Some(i as int),
        index is None ==> first_index_of(bytes@, b) is None,
{
    let mut i: usize = 0;
    while i < bytes.len()
        invariant
            0 <= i <= bytes@.len(),
            first_index_of(bytes@, b) == first_index_from(bytes@, b, i as int),
        decreases bytes.len() - i,
    {
        if bytes[i] == b {
            return Some(i);
        }
        i = i + 1;
    }
    None
}

/// Returns the last index holding `b`.
pub(crate) fn rfind_byte(bytes: &[u8], b: u8) -> (index: Option<usize>)
    ensures
        index matches Some(i) ==> last_index_of(bytes@, b) == Some(i as int),
        index is None ==> last_index_of(bytes@, b) is None,
{
    let mut n: usize = bytes.len();
    while n > 0
        invariant
            0 <= n <= bytes@.len(),
            last_index_of(bytes@, b) == last_index_below(bytes@, b, n as int),
        decreases n,
    {
        if bytes[n - 1] == b {
            return Some(n - 1);
        }
        n = n - 1;
    }
    None
}

} // verus!
