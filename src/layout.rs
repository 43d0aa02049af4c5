//! Text layout helpers of the views: truncation, preview line offsets and
//! preview scrolling.

use vstd::prelude::*;
use crate::text::{chars_of, string_of, push_char};

verus! {

/// `s` cut to `max_len` characters, the last one replaced by an ellipsis when cut.
pub open spec fn truncated(s: Seq<char>, max_len: nat) -> Seq<char> {
    if s.len() <= max_len { s } else { s.subrange(0, max_len - 1).push('…') }
}

/// Truncates a string to at most `max_len` characters, ending in `…` when cut.
pub fn truncate_string(s: &str, max_len: usize) -> (r: String)
    requires
        max_len >= 1,
    ensures
        r@ == truncated(s@, max_len as nat),
{
    let v = chars_of(s);
    if v.len() <= max_len {
        string_of(&v, 0, v.len())
    } else {
        let mut r = string_of(&v, 0, max_len - 1);
        push_char(&mut r, '…');
        r
    }
}

/// The first line of comment `i` in the preview: each comment takes a
/// header line, a blank line and its body, and comments are separated by
/// three lines.
pub open spec fn comment_start(counts: Seq<usize>, i: int) -> int
    decreases i,
{
    if i <= 0 { 0 } else { comment_start(counts, i - 1) + 2 + counts[i - 1] + 3 }
}

/// The number of lines of the whole preview.
pub open spec fn preview_total(counts: Seq<usize>) -> int {
    if counts.len() == 0 { 0 } else { comment_start(counts, counts.len() - 1) + 2 + counts[counts.len() - 1] }
}

/// The first line of each comment in the preview, and the total number of
/// lines, from the number of body lines of each comment.
pub fn calculate_preview_positions(counts: &Vec<usize>) -> (r: (Vec<usize>, usize))
    requires
        preview_total(counts@) <= usize::MAX,
    ensures
        r.0@.len() == counts@.len(),
        forall|i: int| 0 <= i < counts@.len() ==> r.0@[i] == comment_start(counts@, i),
        r.1 == preview_total(counts@),
{
    let mut positions: Vec<usize> = Vec::new();
    let mut current: usize = 0;
    let n = counts.len();
    let mut i: usize = 0;
    proof {
        lemma_starts_grow(counts@);
    }
    while i < n
        invariant
            n == counts@.len(),
            i <= n,
            positions@.len() == i,
            forall|j: int| 0 <= j < i ==> positions@[j] == comment_start(counts@, j),
            i == 0 ==> current == 0,
            i > 0 ==> current == comment_start(counts@, i - 1) + 2 + counts@[i - 1],
            preview_total(counts@) <= usize::MAX,
            forall|j: int| 0 <= j < n ==> comment_start(counts@, j) + 2 + counts@[j] <= preview_total(counts@)
                && comment_start(counts@, j) <= preview_total(counts@),
        decreases n - i,
    {
        assert(i > 0 ==> comment_start(counts@, i as int) == comment_start(counts@, i - 1) + 2 + counts@[i - 1] + 3);
        assert(comment_start(counts@, i as int) <= preview_total(counts@));
        assert(comment_start(counts@, i as int) + 2 + counts@[i as int] <= preview_total(counts@));
        if i > 0 {
            current = current + 3;
        }
        assert(current == comment_start(counts@, i as int));
        positions.push(current);
        current = current + 2 + counts[i];
        i += 1;
    }
    (positions, current)
}

proof fn lemma_starts_grow(counts: Seq<usize>)
    ensures
        forall|j: int| 0 <= j < counts.len() ==> comment_start(counts, j) + 2 + counts[j] <= preview_total(counts)
            && comment_start(counts, j) <= preview_total(counts),
{
    assert forall|j: int| 0 <= j < counts.len() implies comment_start(counts, j) + 2 + counts[j] <= preview_total(counts)
        && comment_start(counts, j) <= preview_total(counts) by {
        lemma_start_mono(counts, j, counts.len() - 1);
    }
}

proof fn lemma_start_mono(counts: Seq<usize>, j: int, k: int)
    requires
        0 <= j <= k < counts.len(),
    ensures
        comment_start(counts, j) + 2 + counts[j] <= comment_start(counts, k) + 2 + counts[k] || j == k,
        j < k ==> comment_start(counts, j) + 2 + counts[j] <= comment_start(counts, k),
        comment_start(counts, j) <= comment_start(counts, k),
    decreases k - j,
{
    if j < k {
        lemma_start_mono(counts, j, k - 1);
    }
}

/// The furthest the preview scrolls: the last screen shows the last lines.
pub open spec fn max_scroll(total: nat, height: nat) -> nat {
    if total > height { (total - height) as nat } else { 0 }
}

/// The scroll offset after moving down `step` lines, clamped to the furthest
/// offset.
pub open spec fn scrolled_down(scroll: nat, step: nat, total: nat, height: nat) -> nat {
    if scroll + step >= max_scroll(total, height) {
        max_scroll(total, height)
    } else {
        scroll + step
    }
}

/// Scrolls the preview down by `step` lines.
pub fn scroll_down(scroll: usize, step: usize, total: usize, height: usize) -> (r: usize)
    ensures
        r == scrolled_down(scroll as nat, step as nat, total as nat, height as nat),
        r <= max_scroll(total as nat, height as nat),
{
    let max = if total > height { total - height } else { 0 };
    if scroll >= max {
        max
    } else if step >= max - scroll {
        max
    } else {
        scroll + step
    }
}

/// Scrolls the preview up by `step` lines, stopping at the top.
pub fn scroll_up(scroll: usize, step: usize) -> (r: usize)
    ensures
        r == if scroll >= step { scroll - step } else { 0 },
{
    if scroll >= step { scroll - step } else { 0 }
}

/// The offset of the next comment below the current offset, if any.
pub fn next_section(positions: &Vec<usize>, scroll: usize) -> (r: Option<usize>)
    ensures
        match r {
            Some(k) => k < positions@.len() && positions@[k as int] > scroll && forall|j: int|
                0 <= j < k ==> positions@[j] <= scroll,
            None => forall|j: int| 0 <= j < positions@.len() ==> positions@[j] <= scroll,
        },
{
    let mut k: usize = 0;
    while k < positions.len()
        invariant
            k <= positions@.len(),
            forall|j: int| 0 <= j < k ==> positions@[j] <= scroll,
        decreases positions@.len() - k,
    {
        if positions[k] > scroll {
            return Some(k);
        }
        k += 1;
    }
    None
}

/// The offset of the last comment above the current offset, if any.
pub fn previous_section(positions: &Vec<usize>, scroll: usize) -> (r: Option<usize>)
    ensures
        match r {
            Some(k) => k < positions@.len() && positions@[k as int] < scroll && forall|j: int|
                k < j < positions@.len() ==> positions@[j] >= scroll,
            None => forall|j: int| 0 <= j < positions@.len() ==> positions@[j] >= scroll,
        },
{
    let mut k: usize = positions.len();
    while k > 0
        invariant
            k <= positions@.len(),
            forall|j: int| k <= j < positions@.len() ==> positions@[j] >= scroll,
        decreases k,
    {
        if positions[k - 1] < scroll {
            return Some(k - 1);
        }
        k -= 1;
    }
    None
}

} // verus!
