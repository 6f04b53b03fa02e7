//! The reindeer reducers: the strength of a herd, and the four titles of the
//! reindeer contest.
//!
//! A title goes to the reindeer with the highest score; among several with
//! that score, to the one that stands first in the herd.

use vstd::prelude::*;
use crate::status::BAD_REQUEST;
use crate::text::{decimal, decimal_string};

verus! {

/// What the strength reducer reads of a reindeer.
pub struct ReindeerSummary {
    pub strength: u32,
}

/// A reindeer of the contest.
pub struct Reindeer {
    pub name: String,
    pub strength: u32,
    /// The speed, a single-precision number, by its bit pattern.
    pub speed_bits: u32,
    pub height: u32,
    pub antler_width: u32,
    pub snow_magic_power: u32,
    pub favorite_food: String,
    pub candies_eaten_yesterday: u32,
}

/// One sentence for each title of the contest.
pub struct CompetitionResults {
    pub fastest: String,
    pub tallest: String,
    pub magician: String,
    pub consumer: String,
}

/// The titles of the contest.
#[derive(Clone, Copy, PartialEq, Eq, Structural)]
pub enum Title {
    /// The highest speed.
    Fastest,
    /// The greatest height.
    Tallest,
    /// The most snow magic power.
    Magician,
    /// The most candies eaten yesterday.
    Consumer,
}

/// The strengths of a herd, added up.
pub open spec fn total_strength(herd: Seq<ReindeerSummary>) -> nat
    decreases herd.len(),
{
    if herd.len() == 0 {
        0
    } else {
        total_strength(herd.drop_last()) + herd.last().strength as nat
    }
}

/// Where a single-precision number stands in the total order of such
/// numbers, by its bit pattern: a pattern with the sign bit clear ranks as
/// itself; one with the sign bit set ranks below all of those, and the lower
/// the larger its other bits are.
pub open spec fn speed_rank(bits: u32) -> int {
    if bits < 0x8000_0000 {
        bits as int
    } else {
        0x7FFF_FFFF - bits
    }
}

/// What a reindeer scores for a title.
pub open spec fn score(reindeer: Reindeer, title: Title) -> int {
    match title {
        Title::Fastest => speed_rank(reindeer.speed_bits),
        Title::Tallest => reindeer.height as int,
        Title::Magician => reindeer.snow_magic_power as int,
        Title::Consumer => reindeer.candies_eaten_yesterday as int,
    }
}

/// The reindeer at `at` takes the title: none scores higher, and none before
/// it scores as high.
pub open spec fn takes_title(herd: Seq<Reindeer>, title: Title, at: int) -> bool {
    &&& 0 <= at < herd.len()
    &&& forall|k: int| 0 <= k < herd.len() ==> score(#[trigger] herd[k], title) <= score(herd[at], title)
    &&& forall|k: int| 0 <= k < at ==> score(#[trigger] herd[k], title) < score(herd[at], title)
}

/// The place in the herd of the reindeer that takes the title.
pub open spec fn winner(herd: Seq<Reindeer>, title: Title) -> int {
    choose|at: int| takes_title(herd, title, at)
}

/// The sentence on the fastest reindeer.
pub open spec fn fastest_line(reindeer: Reindeer) -> Seq<char> {
    "Speeding past the finish line with a strength of "@ + decimal(reindeer.strength as nat)
        + " is "@ + reindeer.name@
}

/// The sentence on the tallest reindeer.
pub open spec fn tallest_line(reindeer: Reindeer) -> Seq<char> {
    reindeer.name@ + " is standing tall with his "@ + decimal(reindeer.antler_width as nat)
        + " cm wide antlers"@
}

/// The sentence on the reindeer with the most snow magic power.
pub open spec fn magician_line(reindeer: Reindeer) -> Seq<char> {
    reindeer.name@ + " could blast you away with a snow magic power of "@ + decimal(
        reindeer.snow_magic_power as nat,
    )
}

/// The sentence on the reindeer that ate the most candies.
pub open spec fn consumer_line(reindeer: Reindeer) -> Seq<char> {
    reindeer.name@ + " ate lots of candies, but also some "@ + reindeer.favorite_food@
}

/// In a herd of one or more, some reindeer takes the title.
pub proof fn title_has_a_winner(herd: Seq<Reindeer>, title: Title)
    requires
        herd.len() > 0,
    ensures
        takes_title(herd, title, winner(herd, title)),
    decreases herd.len(),
{
    if herd.len() == 1 {
        assert(takes_title(herd, title, 0));
    } else {
        let front = herd.drop_last();
        let last = herd.len() - 1;
        title_has_a_winner(front, title);
        let before = winner(front, title);
        if score(herd[last], title) > score(herd[before], title) {
            assert(takes_title(herd, title, last)) by {
                assert forall|k: int| 0 <= k < last implies score(#[trigger] herd[k], title)
                    < score(herd[last], title) by {
                    assert(score(front[k], title) <= score(front[before], title));
                }
            }
        } else {
            assert(takes_title(herd, title, before)) by {
                assert forall|k: int| 0 <= k < herd.len() implies score(#[trigger] herd[k], title)
                    <= score(herd[before], title) by {
                    if k < last {
                        assert(score(front[k], title) <= score(front[before], title));
                    }
                }
                assert forall|k: int| 0 <= k < before implies score(#[trigger] herd[k], title)
                    < score(herd[before], title) by {
                    assert(score(front[k], title) < score(front[before], title));
                }
            }
        }
    }
}

/// Only one reindeer takes a title.
pub proof fn title_has_one_winner(herd: Seq<Reindeer>, title: Title, at: int)
    requires
        takes_title(herd, title, at),
    ensures
        winner(herd, title) == at,
{
    let chosen = winner(herd, title);
    if chosen < at {
        assert(score(herd[at], title) <= score(herd[chosen], title));
    } else if at < chosen {
        assert(score(herd[chosen], title) <= score(herd[at], title));
    }
}

/// Adds up the strengths of a herd.
fn sum_strengths(herd: &Vec<ReindeerSummary>) -> (sum: u128)
    ensures
        sum == total_strength(herd@),
{
    let mut sum: u128 = 0;
    let mut index: usize = 0;
    while index < herd.len()
        invariant
            index <= herd.len(),
            sum == total_strength(herd@.take(index as int)),
            sum <= index * 0xFFFF_FFFF,
        decreases herd.len() - index,
    {
        assert(herd@.take(index as int + 1).drop_last() =~= herd@.take(index as int));
        sum = sum + herd[index].strength as u128;
        index += 1;
    }
    assert(herd@.take(herd.len() as int) =~= herd@);
    sum
}

/// The strength of a herd, where it is a 32-bit number.
pub fn strength_total(herd: &Vec<ReindeerSummary>) -> (total: Option<u32>)
    ensures
        match total {
            Some(sum) => sum == total_strength(herd@),
            None => total_strength(herd@) > u32::MAX,
        },
{
    let sum = sum_strengths(herd);
    if sum <= 0xFFFF_FFFF {
        Some(sum as u32)
    } else {
        None
    }
}

/// The strength of a herd as a decimal numeral.
pub fn strength(reindeer: Vec<ReindeerSummary>) -> (text: String)
    requires
        total_strength(reindeer@) <= u32::MAX,
    ensures
        text@ == decimal(total_strength(reindeer@)),
{
    decimal_string(sum_strengths(&reindeer) as u64)
}

/// The strength of a herd as a decimal numeral, where it is a 32-bit
/// number, and `None` where it is not.
pub fn checked_strength(reindeer: Vec<ReindeerSummary>) -> (text: Option<String>)
    ensures
        match text {
            Some(numeral) => total_strength(reindeer@) <= u32::MAX && numeral@ == decimal(
                total_strength(reindeer@),
            ),
            None => total_strength(reindeer@) > u32::MAX,
        },
{
    match strength_total(&reindeer) {
        Some(_) => Some(strength(reindeer)),
        None => None,
    }
}

/// What a reindeer scores for a title.
fn score_of(reindeer: &Reindeer, title: Title) -> (points: i64)
    ensures
        points == score(*reindeer, title),
{
    match title {
        Title::Fastest => {
            if reindeer.speed_bits < 0x8000_0000 {
                reindeer.speed_bits as i64
            } else {
                0x7FFF_FFFF - reindeer.speed_bits as i64
            }
        },
        Title::Tallest => reindeer.height as i64,
        Title::Magician => reindeer.snow_magic_power as i64,
        Title::Consumer => reindeer.candies_eaten_yesterday as i64,
    }
}

/// The place of the reindeer that takes a title in a herd of one or more.
pub fn title_holder(herd: &Vec<Reindeer>, title: Title) -> (place: Option<usize>)
    ensures
        match place {
            Some(at) => takes_title(herd@, title, at as int) && at == winner(herd@, title),
            None => herd.len() == 0,
        },
{
    if herd.len() == 0 {
        return None;
    }
    let mut best: usize = 0;
    let mut best_score = score_of(&herd[0], title);
    let mut index: usize = 1;
    while index < herd.len()
        invariant
            0 <= best < index <= herd.len(),
            best_score == score(herd[best as int], title),
            forall|k: int|
                0 <= k < index ==> score(#[trigger] herd[k], title) <= score(
                    herd[best as int],
                    title,
                ),
            forall|k: int|
                0 <= k < best ==> score(#[trigger] herd[k], title) < score(herd[best as int], title),
        decreases herd.len() - index,
    {
        let points = score_of(&herd[index], title);
        if points > best_score {
            best = index;
            best_score = points;
        }
        index += 1;
    }
    proof {
        title_has_one_winner(herd@, title, best as int);
    }
    Some(best)
}

/// Writes the sentence on the fastest reindeer.
fn write_fastest(reindeer: &Reindeer) -> (line: String)
    ensures
        line@ == fastest_line(*reindeer),
{
    let mut line = String::from_str("Speeding past the finish line with a strength of ");
    line.append(decimal_string(reindeer.strength as u64).as_str());
    line.append(" is ");
    line.append(reindeer.name.as_str());
    line
}

/// Writes the sentence on the tallest reindeer.
fn write_tallest(reindeer: &Reindeer) -> (line: String)
    ensures
        line@ == tallest_line(*reindeer),
{
    let mut line = reindeer.name.clone();
    line.append(" is standing tall with his ");
    line.append(decimal_string(reindeer.antler_width as u64).as_str());
    line.append(" cm wide antlers");
    line
}

/// Writes the sentence on the reindeer with the most snow magic power.
fn write_magician(reindeer: &Reindeer) -> (line: String)
    ensures
        line@ == magician_line(*reindeer),
{
    let mut line = reindeer.name.clone();
    line.append(" could blast you away with a snow magic power of ");
    line.append(decimal_string(reindeer.snow_magic_power as u64).as_str());
    line
}

/// Writes the sentence on the reindeer that ate the most candies.
fn write_consumer(reindeer: &Reindeer) -> (line: String)
    ensures
        line@ == consumer_line(*reindeer),
{
    let mut line = reindeer.name.clone();
    line.append(" ate lots of candies, but also some ");
    line.append(reindeer.favorite_food.as_str());
    line
}

/// Holds the contest: one sentence on the holder of each title. A herd
/// without reindeer is turned down.
pub fn contest(reindeer: Vec<Reindeer>) -> (outcome: Result<CompetitionResults, u16>)
    ensures
        reindeer.len() == 0 ==> outcome == Err::<CompetitionResults, u16>(BAD_REQUEST),
        reindeer.len() > 0 ==> {
            &&& outcome matches Ok(results)
            &&& results.fastest@ == fastest_line(reindeer[winner(reindeer@, Title::Fastest)])
            &&& results.tallest@ == tallest_line(reindeer[winner(reindeer@, Title::Tallest)])
            &&& results.magician@ == magician_line(reindeer[winner(reindeer@, Title::Magician)])
            &&& results.consumer@ == consumer_line(reindeer[winner(reindeer@, Title::Consumer)])
        },
{
    let fastest = match title_holder(&reindeer, Title::Fastest) {
        Some(at) => at,
        None => {
            return Err(BAD_REQUEST);
        },
    };
    let tallest = match title_holder(&reindeer, Title::Tallest) {
        Some(at) => at,
        None => {
            return Err(BAD_REQUEST);
        },
    };
    let magician = match title_holder(&reindeer, Title::Magician) {
        Some(at) => at,
        None => {
            return Err(BAD_REQUEST);
        },
    };
    let consumer = match title_holder(&reindeer, Title::Consumer) {
        Some(at) => at,
        None => {
            return Err(BAD_REQUEST);
        },
    };
    Ok(
        CompetitionResults {
            fastest: write_fastest(&reindeer[fastest]),
            tallest: write_tallest(&reindeer[tallest]),
            magician: write_magician(&reindeer[magician]),
            consumer: write_consumer(&reindeer[consumer]),
        },
    )
}

} // verus!
