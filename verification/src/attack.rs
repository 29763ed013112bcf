//! Which guilds may be attacked.
use vstd::prelude::*;

verus! {

/// How many ranks above one's own a guild may always be attacked.
pub const RANKS_ABOVE: u32 = 20;

/// How much more honor than one's own a guild above may have.
pub const HONOR_ABOVE: u32 = 3_000;

/// The attack rule: all guilds below (with a higher rank number), and of the
/// guilds above those that are at most 20 ranks or at most 3000 honor above.
pub open spec fn attack_rule(own_rank: u32, own_honor: u32, rank: u32, honor: u32) -> bool {
    ||| rank > own_rank
    ||| rank < own_rank && (own_rank - rank <= 20 || honor - own_honor <= 3000)
}

/// Whether a guild is attackable by the rank and honor rules.
pub fn is_attackable(own_rank: u32, own_honor: u32, guild_rank: u32, guild_honor: u32) -> (r: bool)
    ensures
        r == attack_rule(own_rank, own_honor, guild_rank, guild_honor),
{
    if guild_rank > own_rank {
        true
    } else if guild_rank == own_rank {
        false
    } else {
        let rank_diff: u32 = own_rank - guild_rank;
        let honor_diff: u32 = if guild_honor > own_honor {
            guild_honor - own_honor
        } else {
            0
        };
        rank_diff <= RANKS_ABOVE || honor_diff <= HONOR_ABOVE
    }
}

/// What a stored guild without the field counts as: attackable.
pub fn default_true() -> (r: bool)
    ensures
        r,
{
    true
}

/// Every guild below is attackable, whatever its honor.
pub proof fn guilds_below_are_attackable(own_rank: u32, own_honor: u32, rank: u32, honor: u32)
    requires
        rank > own_rank,
    ensures
        attack_rule(own_rank, own_honor, rank, honor),
{
}

/// A guild above is attackable exactly if it is at most 20 ranks or at most
/// 3000 honor above.
pub proof fn guilds_above_need_rank_or_honor(own_rank: u32, own_honor: u32, rank: u32, honor: u32)
    requires
        rank < own_rank,
    ensures
        attack_rule(own_rank, own_honor, rank, honor) <==> (own_rank - rank <= 20 || honor
            <= own_honor + 3000),
{
}

/// One's own guild is not attackable.
pub proof fn own_guild_is_not_attackable(own_rank: u32, own_honor: u32, honor: u32)
    ensures
        !attack_rule(own_rank, own_honor, own_rank, honor),
{
}

/// Of two guilds on other ranks than one's own, with the same honor, the one
/// further down is attackable if the one further up is.
pub proof fn moving_down_stays_attackable(
    own_rank: u32,
    own_honor: u32,
    upper: u32,
    lower: u32,
    honor: u32,
)
    requires
        upper <= lower,
        lower != own_rank,
        attack_rule(own_rank, own_honor, upper, honor),
    ensures
        attack_rule(own_rank, own_honor, lower, honor),
{
}

} // verus!
