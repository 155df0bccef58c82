use vstd::prelude::*;
use crate::save::Player;

verus! {

/// Offset the game adds to the summed attribute points to obtain a level.
pub const LEVEL_OFFSET: i64 = -7;

/// Sum of a sequence of attribute points.
pub open spec fn stat_sum(stats: Seq<i64>) -> int
    decreases stats.len(),
{
    if stats.len() == 0 {
        0
    } else {
        stat_sum(stats.drop_last()) + stats.last()
    }
}

/// The level that a set of attribute points stands for.
pub open spec fn level_of(stats: Seq<i64>) -> int {
    LEVEL_OFFSET + stat_sum(stats)
}

/// The player's level: the attribute points summed onto `LEVEL_OFFSET`.
/// The sum is held in an `i128`, which no vector of `i64` values can overflow.
pub fn get_player_level(player: &Player) -> (r: i128)
    ensures
        r == level_of(player.stats@),
{
    let stats = &player.stats;
    let mut acc: i128 = LEVEL_OFFSET as i128;
    let mut i: usize = 0;
    while i < stats.len()
        invariant
            i <= stats@.len(),
            acc == LEVEL_OFFSET + stat_sum(stats@.take(i as int)),
            -7 - (i as int) * 0x8000_0000_0000_0000 <= acc <= -7 + (i as int) * 0x8000_0000_0000_0000,
        decreases stats@.len() - i,
    {
        assert(stats@.take(i + 1).drop_last() == stats@.take(i as int));
        acc = acc + stats[i] as i128;
        i = i + 1;
    }
    assert(stats@.take(i as int) == stats@);
    acc
}

} // verus!
