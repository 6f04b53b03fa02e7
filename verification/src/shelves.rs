//! Counting elves and shelves in a text.
//!
//! Occurrences of a pattern are counted from left to right and never
//! overlap: after a match the search goes on behind it.

use vstd::prelude::*;
use crate::text::{chars_of, matches_at, occurs_at};

verus! {

/// The number of disjoint occurrences of a pattern that a search from
/// position `from` on meets, taking each match as soon as it comes.
pub open spec fn count_from(text: Seq<char>, pattern: Seq<char>, from: int) -> nat
    decreases text.len() - from,
{
    if pattern.len() == 0 || from < 0 || from + pattern.len() > text.len() {
        0
    } else if occurs_at(text, pattern, from) {
        1 + count_from(text, pattern, from + pattern.len())
    } else {
        count_from(text, pattern, from + 1)
    }
}

/// The number of disjoint occurrences of a pattern in a text.
pub open spec fn count_disjoint(text: Seq<char>, pattern: Seq<char>) -> nat {
    count_from(text, pattern, 0)
}

/// A search that starts later meets no more matches.
pub proof fn lemma_later_start_counts_less(
    text: Seq<char>,
    pattern: Seq<char>,
    from: int,
    later: int,
)
    requires
        0 <= from <= later,
    ensures
        count_from(text, pattern, later) <= count_from(text, pattern, from),
    decreases text.len() - from, 1int,
{
    if from < later && pattern.len() > 0 && from + pattern.len() <= text.len() {
        if occurs_at(text, pattern, from) {
            if later >= from + pattern.len() {
                lemma_later_start_counts_less(text, pattern, from + pattern.len(), later);
            } else {
                lemma_close_start_counts_one_more(text, pattern, later, from + pattern.len());
            }
        } else {
            lemma_later_start_counts_less(text, pattern, from + 1, later);
        }
    }
}

/// A search that starts at most one pattern's length earlier meets at most
/// one match more.
pub proof fn lemma_close_start_counts_one_more(
    text: Seq<char>,
    pattern: Seq<char>,
    from: int,
    later: int,
)
    requires
        0 <= from <= later <= from + pattern.len(),
    ensures
        count_from(text, pattern, from) <= 1 + count_from(text, pattern, later),
    decreases text.len() - from, 0int,
{
    if from < later && pattern.len() > 0 && from + pattern.len() <= text.len() {
        if occurs_at(text, pattern, from) {
            lemma_later_start_counts_less(text, pattern, later, from + pattern.len());
        } else {
            lemma_close_start_counts_one_more(text, pattern, from + 1, later);
        }
    }
}

/// A pattern that holds another occurs at most as often as the one it
/// holds, from any position on.
pub proof fn lemma_part_occurs_as_often(
    text: Seq<char>,
    whole: Seq<char>,
    part: Seq<char>,
    offset: int,
    from: int,
)
    requires
        part.len() > 0,
        occurs_at(whole, part, offset),
        0 <= from,
    ensures
        count_from(text, whole, from) <= count_from(text, part, from),
    decreases text.len() - from,
{
    if from + whole.len() <= text.len() {
        if occurs_at(text, whole, from) {
            let behind = from + whole.len();
            lemma_part_occurs_as_often(text, whole, part, offset, behind);
            assert(occurs_at(text, part, from + offset)) by {
                assert(text.subrange(from + offset, from + offset + part.len()) =~= text.subrange(
                    from,
                    from + whole.len(),
                ).subrange(offset, offset + part.len()));
            }
            lemma_later_start_counts_less(text, part, from + offset + part.len(), behind);
            lemma_later_start_counts_less(text, part, from, from + offset);
        } else {
            lemma_part_occurs_as_often(text, whole, part, offset, from + 1);
            lemma_later_start_counts_less(text, part, from, from + 1);
        }
    }
}

/// The three counts taken of a text.
pub struct ElfCount {
    /// Occurrences of `elf`.
    pub elf: usize,
    /// Occurrences of `elf on a shelf`.
    pub elf_shelves: usize,
    /// Occurrences of `shelf` beyond those of `elf on a shelf`.
    pub shelves: usize,
}

/// Counts the disjoint occurrences of a pattern in a text.
fn count_matches(text: &Vec<char>, pattern: &Vec<char>) -> (count: usize)
    requires
        pattern.len() > 0,
    ensures
        count == count_disjoint(text@, pattern@),
{
    let mut count: usize = 0;
    let mut at: usize = 0;
    while at <= text.len() && pattern.len() <= text.len() - at
        invariant
            pattern.len() > 0,
            at <= text.len(),
            count <= at,
            count + count_from(text@, pattern@, at as int) == count_disjoint(text@, pattern@),
        decreases text.len() - at,
    {
        if matches_at(text, pattern, at) {
            count += 1;
            at += pattern.len();
        } else {
            at += 1;
        }
    }
    count
}

/// Counts `elf`, `elf on a shelf`, and the shelves that hold no elf: the
/// occurrences of `shelf` less those of `elf on a shelf`.
pub fn elf(body: String) -> (counts: ElfCount)
    ensures
        counts.elf == count_disjoint(body@, "elf"@),
        counts.elf_shelves == count_disjoint(body@, "elf on a shelf"@),
        counts.shelves == count_disjoint(body@, "shelf"@) - count_disjoint(
            body@,
            "elf on a shelf"@,
        ),
{
    proof {
        reveal_strlit("elf");
        reveal_strlit("elf on a shelf");
        reveal_strlit("shelf");
        elf_shelves_are_shelves(body@);
    }
    let text = chars_of(body.as_str());
    let elf = count_matches(&text, &chars_of("elf"));
    let elf_shelves = count_matches(&text, &chars_of("elf on a shelf"));
    let all_shelves = count_matches(&text, &chars_of("shelf"));
    ElfCount { elf, elf_shelves, shelves: all_shelves - elf_shelves }
}

/// A text holds `elf on a shelf` at most as often as it holds `shelf`.
pub proof fn elf_shelves_are_shelves(text: Seq<char>)
    ensures
        count_disjoint(text, "elf on a shelf"@) <= count_disjoint(text, "shelf"@),
{
    reveal_strlit("elf on a shelf");
    reveal_strlit("shelf");
    assert("elf on a shelf"@.subrange(9, 14) =~= "shelf"@);
    lemma_part_occurs_as_often(text, "elf on a shelf"@, "shelf"@, 9, 0);
}

} // verus!
