//! Strict mode: whether our active members beat an enemy guild level by level.
//!
//! Both sides are sorted by level, ascending. In the full comparison the
//! enemies meet our lowest active members; in the Top-N comparison they meet
//! our best, as many as there are enemies.
use vstd::prelude::*;

use crate::guild::{MemberInfo, StrictModel, StrictOutcome};
use crate::settings::ScanSettings;
use crate::sorting::{
    sort_levels, sorted_levels, sorted_levels_ascend, sorted_levels_ignore_order,
};
use crate::text::{decimal, push_decimal};

verus! {

/// The levels of members, in their order.
pub open spec fn levels_of(members: Seq<MemberInfo>) -> Seq<u16> {
    members.map_values(|m: MemberInfo| m.level)
}

/// Our levels that `n` enemies are compared with: the last `n` in the Top-N
/// comparison, else the first `n`.
pub open spec fn opponents(topn: bool, own: Seq<u16>, n: nat) -> Seq<u16> {
    if topn {
        own.skip(own.len() - n)
    } else {
        own.take(n as int)
    }
}

/// The first position from `i` on at which the enemy has the higher level.
pub open spec fn first_fail(enemy: Seq<u16>, own: Seq<u16>, i: int) -> Option<int>
    decreases enemy.len() - i,
{
    if i >= enemy.len() {
        None
    } else if enemy[i] > own[i] {
        Some(i)
    } else {
        first_fail(enemy, own, i + 1)
    }
}

/// The message for more enemies than active members of ours.
pub open spec fn too_many_text(enemies: nat, own: nat) -> Seq<char> {
    "Zu viele Mitglieder: Gegner "@ + decimal(enemies) + " > eigene aktiv "@ + decimal(own)
}

/// The message for a guild of ours without active members.
pub open spec fn nobody_active_text() -> Seq<char> {
    "Keine aktiven eigenen Mitglieder (>= 1 Tag offline wird ausgeklammert)."@
}

/// The message for the position at which the enemy has the higher level.
pub open spec fn slot_text(topn: bool, slot: nat, enemy: nat, own: nat) -> Seq<char> {
    "Slot "@ + decimal(slot) + ": Gegner "@ + decimal(enemy) + " > eigene "@ + decimal(own) + (
    if topn {
        " (Top-N, aufsteigend sortiert)"@
    } else {
        " (aufsteigend sortiert)"@
    })
}

/// The verdict if strict mode is off.
pub open spec fn not_evaluated(own: nat) -> StrictModel {
    StrictModel {
        evaluated: false,
        beatable: false,
        own_active_members: own as usize,
        topn: false,
        topn_n: 0,
        fail_index: None,
        fail_enemy_level: None,
        fail_own_level: None,
        fail_reason: None,
    }
}

/// The verdict on an enemy guild with these levels, where `own` holds the
/// levels of our active members in ascending order.
pub open spec fn strict_outcome(
    settings: ScanSettings,
    own: Seq<u16>,
    enemy: Seq<u16>,
) -> StrictModel {
    let sorted = sorted_levels(enemy);
    let topn = settings.strict_topn;
    let undecided = StrictModel {
        evaluated: true,
        topn,
        topn_n: enemy.len() as usize,
        ..not_evaluated(own.len())
    };
    if !settings.strict_mode {
        not_evaluated(own.len())
    } else if enemy.len() > own.len() {
        StrictModel { fail_reason: Some(too_many_text(enemy.len(), own.len())), ..undecided }
    } else if own.len() == 0 {
        StrictModel { fail_reason: Some(nobody_active_text()), ..undecided }
    } else {
        let ours = opponents(topn, own, enemy.len());
        match first_fail(sorted, ours, 0) {
            None => StrictModel { beatable: true, ..undecided },
            Some(i) => StrictModel {
                fail_index: Some(i as usize),
                fail_enemy_level: Some(sorted[i]),
                fail_own_level: Some(ours[i]),
                fail_reason: Some(
                    slot_text(topn, (i + 1) as nat, sorted[i] as nat, ours[i] as nat),
                ),
                ..undecided
            },
        }
    }
}

/// The levels of members, in their order.
fn collect_levels(members: &Vec<MemberInfo>) -> (levels: Vec<u16>)
    ensures
        levels@ == levels_of(members@),
{
    let mut levels: Vec<u16> = Vec::new();
    let mut i: usize = 0;
    while i < members.len()
        invariant
            i <= members@.len(),
            levels@ =~= levels_of(members@).take(i as int),
        decreases members@.len() - i,
    {
        levels.push(members[i].level);
        i = i + 1;
    }
    levels
}

/// The levels of members, in ascending order.
pub fn ascending_levels(members: &Vec<MemberInfo>) -> (levels: Vec<u16>)
    ensures
        levels@ == sorted_levels(levels_of(members@)),
{
    sort_levels(collect_levels(members))
}

/// Writes the message for more enemies than active members of ours.
fn too_many(enemies: usize, own: usize) -> (r: String)
    ensures
        r@ == too_many_text(enemies as nat, own as nat),
{
    let mut r: String = "Zu viele Mitglieder: Gegner ".to_owned();
    push_decimal(&mut r, enemies as u64);
    r.append(" > eigene aktiv ");
    push_decimal(&mut r, own as u64);
    r
}

/// Writes the message for the position at which the enemy has the higher
/// level.
fn slot_message(topn: bool, slot: u64, enemy: u16, own: u16) -> (r: String)
    ensures
        r@ == slot_text(topn, slot as nat, enemy as nat, own as nat),
{
    let mut r: String = "Slot ".to_owned();
    push_decimal(&mut r, slot);
    r.append(": Gegner ");
    push_decimal(&mut r, enemy as u64);
    r.append(" > eigene ");
    push_decimal(&mut r, own as u64);
    if topn {
        r.append(" (Top-N, aufsteigend sortiert)");
    } else {
        r.append(" (aufsteigend sortiert)");
    }
    r
}

/// Judges an enemy guild by its members. `own_levels` holds the levels of our
/// active members in ascending order.
pub fn evaluate_strict(
    settings: &ScanSettings,
    own_levels: &Vec<u16>,
    members: &Vec<MemberInfo>,
) -> (r: StrictOutcome)
    ensures
        r@ == strict_outcome(*settings, own_levels@, levels_of(members@)),
{
    let own_active_members: usize = own_levels.len();
    let mut r: StrictOutcome = StrictOutcome {
        evaluated: false,
        beatable: false,
        own_active_members,
        topn: false,
        topn_n: 0,
        fail_index: None,
        fail_enemy_level: None,
        fail_own_level: None,
        fail_reason: None,
    };
    if !settings.strict_mode {
        return r;
    }
    let enemy: Vec<u16> = ascending_levels(members);
    proof {
        sorted_levels_ascend(levels_of(members@));
    }
    let n: usize = enemy.len();
    r.evaluated = true;
    r.topn = settings.strict_topn;
    r.topn_n = n;
    if n > own_active_members {
        r.fail_reason = Some(too_many(n, own_active_members));
        return r;
    }
    if own_active_members == 0 {
        r.fail_reason = Some(
            "Keine aktiven eigenen Mitglieder (>= 1 Tag offline wird ausgeklammert).".to_owned(),
        );
        return r;
    }
    let start: usize = if settings.strict_topn {
        own_active_members - n
    } else {
        0
    };
    let ghost ours = opponents(settings.strict_topn, own_levels@, n as nat);
    let mut i: usize = 0;
    while i < n
        invariant
            i <= n,
            n == enemy@.len(),
            own_active_members == own_levels@.len(),
            start + n <= own_active_members,
            ours.len() == n,
            forall|k: int| 0 <= k < n ==> #[trigger] ours[k] == own_levels@[start + k],
            first_fail(enemy@, ours, 0) == first_fail(enemy@, ours, i as int),
            r@ == (StrictModel {
                evaluated: true,
                topn: settings.strict_topn,
                topn_n: n,
                ..not_evaluated(own_levels@.len())
            }),
            strict_outcome(*settings, own_levels@, levels_of(members@)) == match first_fail(
                enemy@,
                ours,
                0,
            ) {
                None => StrictModel { beatable: true, ..r@ },
                Some(at) => StrictModel {
                    fail_index: Some(at as usize),
                    fail_enemy_level: Some(enemy@[at]),
                    fail_own_level: Some(ours[at]),
                    fail_reason: Some(
                        slot_text(
                            settings.strict_topn,
                            (at + 1) as nat,
                            enemy@[at] as nat,
                            ours[at] as nat,
                        ),
                    ),
                    ..r@
                },
            },
        decreases n - i,
    {
        let own_level: u16 = own_levels[start + i];
        assert(ours[i as int] == own_level);
        if enemy[i] > own_level {
            r.fail_index = Some(i);
            r.fail_enemy_level = Some(enemy[i]);
            r.fail_own_level = Some(own_level);
            r.fail_reason =
            Some(slot_message(settings.strict_topn, i as u64 + 1, enemy[i], own_level));
            return r;
        }
        i = i + 1;
    }
    r.beatable = true;
    r
}

// ── Laws ─────────────────────────────────────────────────────────────────────

/// `first_fail` finds a position at which the enemy has the higher level, and
/// at none before it; if it finds none, there is none.
pub proof fn first_fail_is_first(enemy: Seq<u16>, own: Seq<u16>, i: int)
    requires
        0 <= i,
    ensures
        match first_fail(enemy, own, i) {
            Some(k) => i <= k < enemy.len() && enemy[k] > own[k] && forall|j: int|
                i <= j < k ==> #[trigger] enemy[j] <= own[j],
            None => forall|j: int| i <= j < enemy.len() ==> #[trigger] enemy[j] <= own[j],
        },
    decreases enemy.len() - i,
{
    if i < enemy.len() && enemy[i] <= own[i] {
        first_fail_is_first(enemy, own, i + 1);
    }
}

/// A guild counts as beatable exactly if strict mode is on, we have active
/// members and no fewer than the guild has members, and slot by slot no enemy
/// has the higher level.
pub proof fn beatable_means_every_slot_wins(settings: ScanSettings, own: Seq<u16>, enemy: Seq<u16>)
    ensures
        strict_outcome(settings, own, enemy).beatable <==> {
            &&& settings.strict_mode
            &&& own.len() > 0
            &&& enemy.len() <= own.len()
            &&& forall|i: int|
                0 <= i < enemy.len() ==> sorted_levels(enemy)[i] <= #[trigger] opponents(
                    settings.strict_topn,
                    own,
                    enemy.len(),
                )[i]
        },
{
    let sorted = sorted_levels(enemy);
    let ours = opponents(settings.strict_topn, own, enemy.len());
    sorted_levels_ascend(enemy);
    first_fail_is_first(sorted, ours, 0);
    if strict_outcome(settings, own, enemy).beatable {
        assert forall|i: int| 0 <= i < enemy.len() implies sorted[i] <= #[trigger] ours[i] by {
            assert(sorted[i] <= ours[i]);
        }
    }
}

/// A verdict gives a reason exactly if it was made and is negative.
pub proof fn reason_given_iff_not_beatable(settings: ScanSettings, own: Seq<u16>, enemy: Seq<u16>)
    ensures
        strict_outcome(settings, own, enemy).evaluated == settings.strict_mode,
        strict_outcome(settings, own, enemy).fail_reason is Some <==> (strict_outcome(
            settings,
            own,
            enemy,
        ).evaluated && !strict_outcome(settings, own, enemy).beatable),
{
}

/// What is beatable for our lowest members is beatable for our best: a guild
/// that passes the full comparison passes the Top-N comparison.
pub proof fn full_comparison_is_stricter(settings: ScanSettings, members: Seq<u16>, enemy: Seq<u16>)
    requires
        strict_outcome(
            ScanSettings { strict_topn: false, ..settings },
            sorted_levels(members),
            enemy,
        ).beatable,
    ensures
        strict_outcome(
            ScanSettings { strict_topn: true, ..settings },
            sorted_levels(members),
            enemy,
        ).beatable,
{
    let own = sorted_levels(members);
    let full = ScanSettings { strict_topn: false, ..settings };
    let best = ScanSettings { strict_topn: true, ..settings };
    beatable_means_every_slot_wins(full, own, enemy);
    beatable_means_every_slot_wins(best, own, enemy);
    sorted_levels_ascend(members);
    let n = enemy.len();
    assert forall|i: int| 0 <= i < n implies sorted_levels(enemy)[i] <= #[trigger] opponents(
        true,
        own,
        n,
    )[i] by {
        assert(sorted_levels(enemy)[i] <= opponents(false, own, n)[i]);
        assert(own[i] <= own[own.len() - n + i]);
    }
}

/// The verdict does not depend on the order in which either guild lists its
/// members.
pub proof fn verdict_ignores_listing_order(
    settings: ScanSettings,
    own_a: Seq<u16>,
    own_b: Seq<u16>,
    enemy_a: Seq<u16>,
    enemy_b: Seq<u16>,
)
    requires
        own_a.to_multiset() == own_b.to_multiset(),
        enemy_a.to_multiset() == enemy_b.to_multiset(),
    ensures
        strict_outcome(settings, sorted_levels(own_a), enemy_a) == strict_outcome(
            settings,
            sorted_levels(own_b),
            enemy_b,
        ),
{
    sorted_levels_ignore_order(own_a, own_b);
    sorted_levels_ignore_order(enemy_a, enemy_b);
    sorted_levels_ascend(enemy_a);
    sorted_levels_ascend(enemy_b);
}

/// The levels of members are their levels.
pub proof fn levels_are_those_of_members(members: Seq<MemberInfo>, i: int)
    requires
        0 <= i < members.len(),
    ensures
        levels_of(members).len() == members.len(),
        levels_of(members)[i] == members[i].level,
{
}

/// In the Top-N comparison slot `i` of `n` enemies meets the level at position
/// `own.len() - n + i` of ours, in the full comparison the one at position `i`.
/// The guild is beatable exactly if strict mode is on, we have active members and
/// no fewer than it has, and no enemy has a higher level than the one it meets.
pub proof fn best_members_meet_the_enemy(settings: ScanSettings, own: Seq<u16>, enemy: Seq<u16>)
    ensures
        strict_outcome(settings, own, enemy).beatable <==> {
            &&& settings.strict_mode
            &&& own.len() > 0
            &&& enemy.len() <= own.len()
            &&& forall|i: int|
                0 <= i < enemy.len() ==> #[trigger] sorted_levels(enemy)[i] <= own[(
                if settings.strict_topn {
                    own.len() - enemy.len()
                } else {
                    0
                }) + i]
        },
{
    let sorted = sorted_levels(enemy);
    let ours = opponents(settings.strict_topn, own, enemy.len());
    sorted_levels_ascend(enemy);
    first_fail_is_first(sorted, ours, 0);
    if own.len() > 0 && enemy.len() <= own.len() {
        assert forall|i: int| 0 <= i < enemy.len() implies #[trigger] ours[i] == own[(
        if settings.strict_topn {
            own.len() - enemy.len()
        } else {
            0
        }) + i] by {}
        if strict_outcome(settings, own, enemy).beatable {
            assert forall|i: int| 0 <= i < enemy.len() implies #[trigger] sorted[i] <= own[(
            if settings.strict_topn {
                own.len() - enemy.len()
            } else {
                0
            }) + i] by {
                assert(ours[i] == own[(if settings.strict_topn {
                    own.len() - enemy.len()
                } else {
                    0
                }) + i]);
            }
        } else if settings.strict_mode {
            let k = first_fail(sorted, ours, 0)->0;
            assert(sorted[k] > ours[k]);
        }
    }
}

/// A verdict that names a slot names the first one in which the enemy has the
/// higher level, with the two levels that meet there.
pub proof fn failing_slot_is_the_first(settings: ScanSettings, own: Seq<u16>, enemy: Seq<u16>)
    requires
        own.len() <= usize::MAX,
    ensures
        strict_outcome(settings, own, enemy).fail_index matches Some(slot) ==> {
            let offset = if settings.strict_topn {
                own.len() - enemy.len()
            } else {
                0
            };
            &&& slot < enemy.len() <= own.len()
            &&& sorted_levels(enemy)[slot as int] > own[offset + slot]
            &&& forall|i: int|
                0 <= i < slot ==> #[trigger] sorted_levels(enemy)[i] <= own[offset + i]
            &&& strict_outcome(settings, own, enemy).fail_enemy_level == Some(
                sorted_levels(enemy)[slot as int],
            )
            &&& strict_outcome(settings, own, enemy).fail_own_level == Some(own[offset + slot])
        },
{
    let sorted = sorted_levels(enemy);
    let ours = opponents(settings.strict_topn, own, enemy.len());
    sorted_levels_ascend(enemy);
    first_fail_is_first(sorted, ours, 0);
    if settings.strict_mode && own.len() > 0 && enemy.len() <= own.len() {
        assert forall|i: int| 0 <= i < enemy.len() implies #[trigger] ours[i] == own[(
        if settings.strict_topn {
            own.len() - enemy.len()
        } else {
            0
        }) + i] by {}
    }
}

/// A verdict tells how many active members we have, and where it was made, how
/// many enemies there are and which comparison was used.
pub proof fn verdict_tells_the_numbers(settings: ScanSettings, own: Seq<u16>, enemy: Seq<u16>)
    requires
        own.len() <= usize::MAX,
        enemy.len() <= usize::MAX,
    ensures
        strict_outcome(settings, own, enemy).own_active_members == own.len(),
        settings.strict_mode ==> strict_outcome(settings, own, enemy).topn_n == enemy.len()
            && strict_outcome(settings, own, enemy).topn == settings.strict_topn,
        !settings.strict_mode ==> strict_outcome(settings, own, enemy).topn_n == 0
            && !strict_outcome(settings, own, enemy).topn,
        settings.strict_mode && enemy.len() <= own.len() && own.len() > 0 ==> (strict_outcome(
            settings,
            own,
            enemy,
        ).beatable <==> strict_outcome(settings, own, enemy).fail_index is None),
{
}

} // verus!
