//! Guilds with their members, as they are read one by one.
use vstd::prelude::*;

use crate::attack::{attack_rule, is_attackable};
use crate::guild::{
    DetailedGuild, DetailedGuildModel, HofGuild, MemberInfo, SimModel, SimRecord, StrictOutcome,
};
use crate::settings::ScanSettings;
use crate::strict::{evaluate_strict, levels_of, not_evaluated, strict_outcome};

verus! {

/// A member of a guild that was looked up.
#[derive(Debug)]
pub struct ViewedMember {
    pub name: String,
    pub level: u16,
}

/// A guild that was looked up.
#[derive(Debug)]
pub struct GuildView {
    pub rank: u32,
    pub honor: u32,
    pub finished_raids: u16,
    pub members: Vec<ViewedMember>,
}

/// What is kept of a member that was looked up: name and level.
pub open spec fn kept_member(m: ViewedMember) -> MemberInfo {
    MemberInfo {
        name: m.name,
        level: m.level,
        last_online: None,
        offline_days: None,
        is_active_24h: None,
    }
}

/// What is kept of the members that were looked up.
pub open spec fn kept_members(members: Seq<ViewedMember>) -> Seq<MemberInfo> {
    members.map_values(|m: ViewedMember| kept_member(m))
}

/// The highest level, or 0 where there is none.
pub open spec fn highest(levels: Seq<u16>) -> u16
    decreases levels.len(),
{
    if levels.len() == 0 {
        0
    } else {
        let before = highest(levels.drop_last());
        if levels.last() > before {
            levels.last()
        } else {
            before
        }
    }
}

/// The lowest level, or 0 where there is none.
pub open spec fn lowest(levels: Seq<u16>) -> u16
    decreases levels.len(),
{
    if levels.len() == 0 {
        0
    } else if levels.len() == 1 {
        levels[0]
    } else {
        let before = lowest(levels.drop_last());
        if levels.last() < before {
            levels.last()
        } else {
            before
        }
    }
}

/// The sum of levels.
pub open spec fn total(levels: Seq<u16>) -> nat
    decreases levels.len(),
{
    if levels.len() == 0 {
        0
    } else {
        total(levels.drop_last()) + levels.last() as nat
    }
}

impl GuildView {
    /// The levels of the members, in their order.
    pub open spec fn levels(&self) -> Seq<u16> {
        levels_of(kept_members(self.members@))
    }

    /// What is read off the members and the raids; the rest is given.
    pub open spec fn completed(&self, rest: DetailedGuildModel) -> DetailedGuildModel {
        DetailedGuildModel {
            member_count: self.members@.len() as usize,
            members: kept_members(self.members@),
            max_level: highest(self.levels()),
            min_level: lowest(self.levels()),
            total_level: total(self.levels()) as u32,
            finished_raids: self.finished_raids,
            ..rest
        }
    }

    /// Whether the sum of the levels fits where it is kept.
    pub fn total_fits(&self) -> (r: bool)
        ensures
            r == (total(self.levels()) <= u32::MAX),
    {
        let ghost levels = self.levels();
        let mut sum: u32 = 0;
        let mut i: usize = 0;
        while i < self.members.len()
            invariant
                i <= self.members@.len(),
                levels == self.levels(),
                sum == total(levels.take(i as int)),
            decreases self.members@.len() - i,
        {
            assert(levels.take(i + 1).drop_last() =~= levels.take(i as int));
            assert(levels.take(i + 1).last() == self.members@[i as int].level);
            match sum.checked_add(self.members[i].level as u32) {
                Some(s) => {
                    sum = s;
                },
                None => {
                    proof {
                        total_of_prefix(levels, i + 1);
                    }
                    return false;
                },
            }
            i = i + 1;
        }
        assert(levels.take(i as int) =~= levels);
        true
    }
}

/// The first levels of a list sum up to at most what all do.
proof fn total_of_prefix(levels: Seq<u16>, k: int)
    requires
        0 <= k <= levels.len(),
    ensures
        total(levels.take(k)) <= total(levels),
    decreases levels.len() - k,
{
    if k < levels.len() {
        assert(levels.take(k + 1).drop_last() =~= levels.take(k));
        total_of_prefix(levels, k + 1);
    } else {
        assert(levels.take(k) =~= levels);
    }
}

/// The members that were looked up, with the highest, lowest and summed level.
fn read_members(members: Vec<ViewedMember>) -> (r: (Vec<MemberInfo>, u16, u16, u32))
    requires
        total(levels_of(kept_members(members@))) <= u32::MAX,
    ensures
        r.0@ == kept_members(members@),
        r.1 == highest(levels_of(kept_members(members@))),
        r.2 == lowest(levels_of(kept_members(members@))),
        r.3 == total(levels_of(kept_members(members@))),
        r.0@.len() == members@.len(),
        forall|i: int|
            0 <= i < members@.len() ==> {
                &&& (#[trigger] r.0@[i]).level == members@[i].level
                &&& r.0@[i].name@ == members@[i].name@
                &&& r.2 <= r.0@[i].level <= r.1
            },
        r.0@.len() == 0 ==> r.1 == 0 && r.2 == 0 && r.3 == 0,
        r.0@.len() > 0 ==> (exists|i: int|
            0 <= i < r.0@.len() && (#[trigger] r.0@[i]).level == r.1),
        r.0@.len() > 0 ==> (exists|i: int|
            0 <= i < r.0@.len() && (#[trigger] r.0@[i]).level == r.2),
{
    let ghost levels = levels_of(kept_members(members@));
    let mut kept: Vec<MemberInfo> = Vec::new();
    let mut max_level: u16 = 0;
    let mut min_level: u16 = 0;
    let mut total_level: u32 = 0;
    let mut i: usize = 0;
    while i < members.len()
        invariant
            i <= members@.len(),
            levels == levels_of(kept_members(members@)),
            total(levels) <= u32::MAX,
            kept@ =~= kept_members(members@).take(i as int),
            max_level == highest(levels.take(i as int)),
            min_level == lowest(levels.take(i as int)),
            total_level == total(levels.take(i as int)),
        decreases members@.len() - i,
    {
        proof {
            assert(levels.take(i + 1).drop_last() =~= levels.take(i as int));
            assert(levels.take(i + 1).last() == members@[i as int].level);
            assert(i == 0 ==> levels.take(i + 1)[0] == members@[i as int].level);
            total_of_prefix(levels, i + 1);
        }
        let level: u16 = members[i].level;
        kept.push(
            MemberInfo {
                name: members[i].name.clone(),
                level,
                last_online: None,
                offline_days: None,
                is_active_24h: None,
            },
        );
        if level > max_level {
            max_level = level;
        }
        if i == 0 || level < min_level {
            min_level = level;
        }
        total_level = total_level + level as u32;
        i = i + 1;
    }
    assert(levels.take(i as int) =~= levels);
    proof {
        assert forall|k: int| 0 <= k < levels.len() implies min_level <= (
        #[trigger] kept@[k]).level <= max_level by {
            levels_lie_in_range(levels, k);
            assert(kept@[k].level == levels[k]);
        }
        if levels.len() > 0 {
            levels_lie_in_range(levels, 0);
            let h = choose|k: int| 0 <= k < levels.len() && levels[k] == highest(levels);
            let l = choose|k: int| 0 <= k < levels.len() && levels[k] == lowest(levels);
            assert(kept@[h].level == max_level);
            assert(kept@[l].level == min_level);
        }
    }
    (kept, max_level, min_level, total_level)
}

/// What a scan keeps of an attackable guild: what the hall of fame said of it,
/// its members, and the verdict of strict mode.
pub open spec fn scanned(
    target: HofGuild,
    view: GuildView,
    settings: ScanSettings,
    own_levels: Seq<u16>,
) -> DetailedGuildModel {
    view.completed(
        DetailedGuildModel {
            name: target.name@,
            rank: target.rank,
            honor: target.honor,
            member_count: 0,
            members: Seq::empty(),
            max_level: 0,
            min_level: 0,
            total_level: 0,
            finished_raids: 0,
            is_attacked: target.is_attacked,
            attackable: true,
            strict: strict_outcome(settings, own_levels, view.levels()),
            sim: SimModel::none(),
        },
    )
}

/// Builds what a scan keeps of an attackable guild.
pub fn scan_detail(
    target: &HofGuild,
    view: GuildView,
    settings: &ScanSettings,
    own_levels: &Vec<u16>,
) -> (r: DetailedGuild)
    requires
        total(view.levels()) <= u32::MAX,
    ensures
        r@ == scanned(*target, view, *settings, own_levels@),
        r.member_count == r.members@.len(),
        r.members@.len() == view.members@.len(),
        forall|i: int|
            0 <= i < view.members@.len() ==> {
                &&& (#[trigger] r.members@[i]).level == view.members@[i].level
                &&& r.members@[i].name@ == view.members@[i].name@
                &&& r.min_level <= r.members@[i].level <= r.max_level
            },
        r.members@.len() == 0 ==> r.max_level == 0 && r.min_level == 0 && r.total_level == 0,
        r.members@.len() > 0 ==> (exists|i: int|
            0 <= i < r.members@.len() && (#[trigger] r.members@[i]).level == r.max_level),
        r.members@.len() > 0 ==> (exists|i: int|
            0 <= i < r.members@.len() && (#[trigger] r.members@[i]).level == r.min_level),
{
    let (members, max_level, min_level, total_level): (Vec<MemberInfo>, u16, u16, u32) =
        read_members(view.members);
    let strict: StrictOutcome = evaluate_strict(settings, own_levels, &members);
    DetailedGuild {
        name: target.name.clone(),
        rank: target.rank,
        honor: target.honor,
        member_count: members.len(),
        members,
        max_level,
        min_level,
        total_level,
        finished_raids: view.finished_raids,
        is_attacked: target.is_attacked,
        attackable: true,
        strict,
        sim: SimRecord::none(),
    }
}

/// What is known of a guild that was looked up outside a scan: no verdict of
/// strict mode, and attackable by what is known of our own guild, if one is
/// loaded.
pub open spec fn looked_up(
    name: Seq<char>,
    view: GuildView,
    own: Option<(u32, u32)>,
) -> DetailedGuildModel {
    view.completed(
        DetailedGuildModel {
            name,
            rank: view.rank,
            honor: view.honor,
            member_count: 0,
            members: Seq::empty(),
            max_level: 0,
            min_level: 0,
            total_level: 0,
            finished_raids: 0,
            is_attacked: false,
            attackable: match own {
                Some((rank, honor)) => attack_rule(rank, honor, view.rank, view.honor),
                None => false,
            },
            strict: not_evaluated(0),
            sim: SimModel::none(),
        },
    )
}

/// Builds what is known of a guild that was looked up outside a scan; `own` is
/// the rank and honor of our guild.
pub fn live_detail(name: String, view: GuildView, own: Option<(u32, u32)>) -> (r: DetailedGuild)
    requires
        total(view.levels()) <= u32::MAX,
    ensures
        r@ == looked_up(name@, view, own),
        r.member_count == r.members@.len(),
        r.members@.len() == view.members@.len(),
        forall|i: int|
            0 <= i < view.members@.len() ==> {
                &&& (#[trigger] r.members@[i]).level == view.members@[i].level
                &&& r.members@[i].name@ == view.members@[i].name@
                &&& r.min_level <= r.members@[i].level <= r.max_level
            },
        r.members@.len() == 0 ==> r.max_level == 0 && r.min_level == 0 && r.total_level == 0,
        r.members@.len() > 0 ==> (exists|i: int|
            0 <= i < r.members@.len() && (#[trigger] r.members@[i]).level == r.max_level),
        r.members@.len() > 0 ==> (exists|i: int|
            0 <= i < r.members@.len() && (#[trigger] r.members@[i]).level == r.min_level),
{
    let attackable: bool = match own {
        Some((rank, honor)) => is_attackable(rank, honor, view.rank, view.honor),
        None => false,
    };
    let (members, max_level, min_level, total_level): (Vec<MemberInfo>, u16, u16, u32) =
        read_members(view.members);
    DetailedGuild {
        name,
        rank: view.rank,
        honor: view.honor,
        member_count: members.len(),
        members,
        max_level,
        min_level,
        total_level,
        finished_raids: view.finished_raids,
        is_attacked: false,
        attackable,
        strict: StrictOutcome {
            evaluated: false,
            beatable: false,
            own_active_members: 0,
            topn: false,
            topn_n: 0,
            fail_index: None,
            fail_enemy_level: None,
            fail_own_level: None,
            fail_reason: None,
        },
        sim: SimRecord::none(),
    }
}

/// Every level lies between the lowest and the highest, and both occur.
pub proof fn levels_lie_in_range(levels: Seq<u16>, i: int)
    requires
        0 <= i < levels.len(),
    ensures
        lowest(levels) <= levels[i] <= highest(levels),
        levels.contains(lowest(levels)),
        levels.contains(highest(levels)),
    decreases levels.len(),
{
    let init = levels.drop_last();
    assert(levels[levels.len() - 1] == levels.last());
    if init.len() > 0 {
        let at = if i < init.len() {
            i
        } else {
            0
        };
        levels_lie_in_range(init, at);
        let l = choose|k: int| 0 <= k < init.len() && init[k] == lowest(init);
        let h = choose|k: int| 0 <= k < init.len() && init[k] == highest(init);
        assert(levels[l] == lowest(init));
        assert(levels[h] == highest(init));
    } else {
        assert(levels[0] == levels.last());
        assert(highest(init) == 0);
    }
}

/// The sum of levels counts every level once.
pub proof fn sum_counts_every_level(levels: Seq<u16>, next: u16)
    ensures
        total(Seq::empty()) == 0,
        total(levels.push(next)) == total(levels) + next,
{
    assert(levels.push(next).drop_last() =~= levels);
}

/// What is read off the members is true of them: there are as many as counted,
/// with the names and levels that were looked up and nothing else known of them;
/// no level is above the highest or below the lowest, both belong to a member,
/// and without members both are 0.
pub proof fn guild_is_summed_up(view: GuildView, rest: DetailedGuildModel)
    requires
        view.members@.len() <= usize::MAX,
        total(view.levels()) <= u32::MAX,
    ensures
        view.completed(rest).member_count == view.members@.len(),
        view.completed(rest).members.len() == view.members@.len(),
        forall|i: int|
            0 <= i < view.members@.len() ==> {
                let m = #[trigger] view.completed(rest).members[i];
                &&& m.name@ == view.members@[i].name@
                &&& m.level == view.members@[i].level
                &&& m.last_online is None
                &&& m.offline_days is None
                &&& m.is_active_24h is None
                &&& view.completed(rest).min_level <= m.level <= view.completed(rest).max_level
            },
        view.members@.len() == 0 ==> view.completed(rest).max_level == 0 && view.completed(
            rest,
        ).min_level == 0 && view.completed(rest).total_level == 0,
        view.members@.len() > 0 ==> (exists|i: int|
            0 <= i < view.members@.len() && #[trigger] view.completed(rest).members[i].level
                == view.completed(rest).max_level),
        view.members@.len() > 0 ==> (exists|i: int|
            0 <= i < view.members@.len() && #[trigger] view.completed(rest).members[i].level
                == view.completed(rest).min_level),
        view.completed(rest).total_level == total(
            Seq::new(view.members@.len(), |i: int| view.members@[i].level),
        ),
        view.completed(rest).finished_raids == view.finished_raids,
{
    let levels = view.levels();
    let d = view.completed(rest);
    assert(levels =~= Seq::new(view.members@.len(), |i: int| view.members@[i].level));
    assert forall|i: int| 0 <= i < view.members@.len() implies {
        let m = #[trigger] d.members[i];
        &&& m.name@ == view.members@[i].name@
        &&& m.level == view.members@[i].level
        &&& m.last_online is None
        &&& m.offline_days is None
        &&& m.is_active_24h is None
        &&& d.min_level <= m.level <= d.max_level
    } by {
        levels_lie_in_range(levels, i);
        assert(levels[i] == view.members@[i].level);
    }
    if view.members@.len() > 0 {
        levels_lie_in_range(levels, 0);
        let h = choose|k: int| 0 <= k < levels.len() && levels[k] == highest(levels);
        let l = choose|k: int| 0 <= k < levels.len() && levels[k] == lowest(levels);
        assert(d.members[h].level == d.max_level);
        assert(d.members[l].level == d.min_level);
    }
}

/// A guild that a scan has read carries what the hall of fame said of it, counts
/// as attackable and has no simulated battle.
pub proof fn scanned_guild_is_the_target(
    target: HofGuild,
    view: GuildView,
    settings: ScanSettings,
    own_levels: Seq<u16>,
)
    ensures
        scanned(target, view, settings, own_levels).name == target.name@,
        scanned(target, view, settings, own_levels).rank == target.rank,
        scanned(target, view, settings, own_levels).honor == target.honor,
        scanned(target, view, settings, own_levels).is_attacked == target.is_attacked,
        scanned(target, view, settings, own_levels).attackable,
        scanned(target, view, settings, own_levels).sim.win_ratio is None,
        scanned(target, view, settings, own_levels).sim.evaluated_at is None,
{
}

/// A guild that was looked up outside a scan carries what the lookup said of it,
/// is not judged, and counts as attackable exactly if our guild is known and the
/// attack rule allows it.
pub proof fn looked_up_guild_is_the_view(
    name: Seq<char>,
    view: GuildView,
    own: Option<(u32, u32)>,
)
    ensures
        looked_up(name, view, own).name == name,
        looked_up(name, view, own).rank == view.rank,
        looked_up(name, view, own).honor == view.honor,
        !looked_up(name, view, own).is_attacked,
        !looked_up(name, view, own).strict.evaluated,
        looked_up(name, view, own).sim.win_ratio is None,
        looked_up(name, view, own).attackable <==> {
            &&& own matches Some((rank, honor))
            &&& view.rank > rank || (view.rank < rank && (rank - view.rank <= 20 || view.honor
                <= honor + 3000))
        },
{
}

} // verus!
