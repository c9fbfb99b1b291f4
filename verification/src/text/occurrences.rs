//! Where and how often a pattern stands in a text.
//!
//! Texts are sequences of characters. An occurrence is named by the offset of
//! its first character, so overlapping occurrences count separately.

use vstd::prelude::*;

verus! {

/// `pattern` stands in `text` with its first character at offset `at`.
pub open spec fn occurs_at(text: Seq<char>, pattern: Seq<char>, at: int) -> bool {
    &&& 0 <= at
    &&& at + pattern.len() <= text.len()
    &&& text.subrange(at, at + pattern.len()) == pattern
}

/// `pattern` stands somewhere in `text`.
pub open spec fn contains_text(text: Seq<char>, pattern: Seq<char>) -> bool {
    exists|at: int| occurs_at(text, pattern, at)
}

/// The number of offsets below `limit` at which `pattern` stands in `text`.
pub open spec fn occurrences_below(text: Seq<char>, pattern: Seq<char>, limit: int) -> nat
    decreases limit,
{
    if limit <= 0 {
        0
    } else {
        let here: nat = if occurs_at(text, pattern, limit - 1) {
            1
        } else {
            0
        };
        occurrences_below(text, pattern, limit - 1) + here
    }
}

/// The number of offsets at which `pattern` stands in `text`.
pub open spec fn occurrences(text: Seq<char>, pattern: Seq<char>) -> nat {
    occurrences_below(text, pattern, text.len() as int)
}

/// None of the last `pattern.len() - 1` characters of `text` is the
/// pattern's first character, so no occurrence can begin in `text` and run
/// past its end.
pub open spec fn tail_avoids_head(text: Seq<char>, pattern: Seq<char>) -> bool {
    forall|i: int|
        0 <= i < text.len() && text.len() - pattern.len() < i ==> #[trigger] text[i] != pattern[0]
}

/// The pattern's first character is nowhere in `text`.
pub open spec fn avoids_head(text: Seq<char>, pattern: Seq<char>) -> bool {
    forall|i: int| 0 <= i < text.len() ==> #[trigger] text[i] != pattern[0]
}

/// The first three characters of `pattern` stand in `text` at offset `at`.
pub open spec fn begins_at(text: Seq<char>, pattern: Seq<char>, at: int) -> bool {
    &&& 0 <= at
    &&& at + 2 < text.len()
    &&& text[at] == pattern[0]
    &&& text[at + 1] == pattern[1]
    &&& text[at + 2] == pattern[2]
}

/// An occurrence begins with the pattern's first character.
pub proof fn lemma_occurrence_begins_with_head(text: Seq<char>, pattern: Seq<char>, at: int)
    requires
        pattern.len() > 0,
        occurs_at(text, pattern, at),
    ensures
        text[at] == pattern[0],
{
    assert(text.subrange(at, at + pattern.len())[0] == pattern[0]);
}

/// Counting up to a limit finds nothing where no occurrence begins below it.
pub proof fn lemma_none_below(text: Seq<char>, pattern: Seq<char>, limit: int)
    requires
        forall|i: int| 0 <= i < limit ==> !occurs_at(text, pattern, i),
    ensures
        occurrences_below(text, pattern, limit) == 0,
    decreases limit,
{
    if limit > 0 {
        lemma_none_below(text, pattern, limit - 1);
    }
}

/// A text without the pattern's first character holds no occurrence.
pub proof fn lemma_no_head_no_occurrence(text: Seq<char>, pattern: Seq<char>)
    requires
        pattern.len() > 0,
        avoids_head(text, pattern),
    ensures
        occurrences(text, pattern) == 0,
{
    assert forall|i: int| 0 <= i < text.len() implies !occurs_at(text, pattern, i) by {
        if occurs_at(text, pattern, i) {
            lemma_occurrence_begins_with_head(text, pattern, i);
        }
    }
    lemma_none_below(text, pattern, text.len() as int);
}

/// Where a pattern of three or more characters occurs, its first three
/// characters stand.
pub proof fn lemma_occurrence_begins(text: Seq<char>, pattern: Seq<char>, at: int)
    requires
        pattern.len() >= 3,
        occurs_at(text, pattern, at),
    ensures
        begins_at(text, pattern, at),
{
    let found = text.subrange(at, at + pattern.len());
    assert(found[0] == pattern[0]);
    assert(found[1] == pattern[1]);
    assert(found[2] == pattern[2]);
}

/// A text in which the pattern's first three characters stand nowhere holds
/// no occurrence.
pub proof fn lemma_no_beginning_no_occurrence(text: Seq<char>, pattern: Seq<char>)
    requires
        pattern.len() >= 3,
        forall|i: int| !begins_at(text, pattern, i),
    ensures
        occurrences(text, pattern) == 0,
{
    assert forall|i: int| 0 <= i < text.len() implies !occurs_at(text, pattern, i) by {
        if occurs_at(text, pattern, i) {
            lemma_occurrence_begins(text, pattern, i);
        }
    }
    lemma_none_below(text, pattern, text.len() as int);
}

/// Counting up to a limit finds one occurrence where the only one begins
/// below it.
proof fn lemma_one_below(text: Seq<char>, pattern: Seq<char>, at: int, limit: int)
    requires
        occurs_at(text, pattern, at),
        forall|i: int| 0 <= i < limit && i != at ==> !occurs_at(text, pattern, i),
    ensures
        occurrences_below(text, pattern, limit) == if at < limit {
            1nat
        } else {
            0nat
        },
    decreases limit,
{
    if limit > 0 {
        lemma_one_below(text, pattern, at, limit - 1);
    }
}

/// A text in which the pattern occurs at `at`, and its first three
/// characters stand nowhere else, holds one occurrence.
pub proof fn lemma_single_occurrence(text: Seq<char>, pattern: Seq<char>, at: int)
    requires
        pattern.len() >= 3,
        occurs_at(text, pattern, at),
        forall|i: int| i != at ==> !begins_at(text, pattern, i),
    ensures
        occurrences(text, pattern) == 1,
{
    assert forall|i: int| 0 <= i < text.len() && i != at implies !occurs_at(text, pattern, i) by {
        if occurs_at(text, pattern, i) {
            lemma_occurrence_begins(text, pattern, i);
        }
    }
    lemma_one_below(text, pattern, at, text.len() as int);
}

/// Below the end of `left`, the count in `left + right` is the count in
/// `left`, as long as no occurrence can straddle the seam.
proof fn lemma_count_in_left(left: Seq<char>, right: Seq<char>, pattern: Seq<char>, limit: int)
    requires
        pattern.len() > 0,
        tail_avoids_head(left, pattern),
        limit <= left.len(),
    ensures
        occurrences_below(left + right, pattern, limit) == occurrences_below(left, pattern, limit),
    decreases limit,
{
    if limit > 0 {
        lemma_count_in_left(left, right, pattern, limit - 1);
        let at = limit - 1;
        let whole = left + right;
        if at + pattern.len() <= left.len() {
            assert(whole.subrange(at, at + pattern.len()) == left.subrange(
                at,
                at + pattern.len(),
            ));
        } else {
            assert(left[at] != pattern[0]);
            assert(whole[at] == left[at]);
            if occurs_at(whole, pattern, at) {
                lemma_occurrence_begins_with_head(whole, pattern, at);
            }
        }
    }
}

/// From the end of `left` on, the count in `left + right` grows as the count
/// in `right` does.
proof fn lemma_count_in_right(left: Seq<char>, right: Seq<char>, pattern: Seq<char>, limit: int)
    requires
        pattern.len() > 0,
        tail_avoids_head(left, pattern),
        0 <= limit <= right.len(),
    ensures
        occurrences_below(left + right, pattern, left.len() + limit) == occurrences(left, pattern)
            + occurrences_below(right, pattern, limit),
    decreases limit,
{
    if limit == 0 {
        lemma_count_in_left(left, right, pattern, left.len() as int);
    } else {
        lemma_count_in_right(left, right, pattern, limit - 1);
        let at = limit - 1;
        let whole = left + right;
        if at + pattern.len() <= right.len() {
            assert(whole.subrange(left.len() + at, left.len() + at + pattern.len())
                == right.subrange(at, at + pattern.len()));
        }
    }
}

/// The occurrences in a concatenation are those of its two parts, where no
/// occurrence can straddle the seam.
pub proof fn lemma_occurrences_concat(left: Seq<char>, right: Seq<char>, pattern: Seq<char>)
    requires
        pattern.len() > 0,
        tail_avoids_head(left, pattern),
    ensures
        occurrences(left + right, pattern) == occurrences(left, pattern) + occurrences(
            right,
            pattern,
        ),
{
    lemma_count_in_right(left, right, pattern, right.len() as int);
}

/// Appending a text without the pattern's first character keeps the seam
/// condition.
pub proof fn lemma_tail_kept_by_headless(left: Seq<char>, right: Seq<char>, pattern: Seq<char>)
    requires
        tail_avoids_head(left, pattern),
        avoids_head(right, pattern),
    ensures
        tail_avoids_head(left + right, pattern),
{
    let whole = left + right;
    assert forall|i: int|
        0 <= i < whole.len() && whole.len() - pattern.len() < i implies #[trigger] whole[i]
        != pattern[0] by {
        if i < left.len() {
            assert(whole[i] == left[i]);
        } else {
            assert(whole[i] == right[i - left.len()]);
        }
    }
}

/// Appending a text that is long enough and itself meets the seam condition
/// establishes it, whatever stood before.
pub proof fn lemma_tail_set_by_right(left: Seq<char>, right: Seq<char>, pattern: Seq<char>)
    requires
        tail_avoids_head(right, pattern),
        right.len() + 1 >= pattern.len(),
    ensures
        tail_avoids_head(left + right, pattern),
{
    let whole = left + right;
    assert forall|i: int|
        0 <= i < whole.len() && whole.len() - pattern.len() < i implies #[trigger] whole[i]
        != pattern[0] by {
        assert(i >= left.len());
        assert(whole[i] == right[i - left.len()]);
    }
}

} // verus!
