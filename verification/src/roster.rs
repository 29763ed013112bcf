//! Our own guild and which of its members are active.
use vstd::prelude::*;
use vstd::seq_lib::*;

use crate::clock::{
    date_time_text, less_than_hours_ago, seconds_since, show_date_time, whole_seconds, Timestamp,
};
use crate::guild::{opt_text, MemberInfo, OfflineDays, OwnGuild};
use crate::sorting::{filtered_is_contained, texts};

verus! {

/// Within how many hours a member must have been seen to be active.
pub const ACTIVE_HOURS: u32 = 24;

/// When a member was last seen.
#[derive(Clone, Copy, Debug)]
pub struct LastSeen {
    pub at: Timestamp,
    /// How long ago that is, to be shown.
    pub offline_days: OfflineDays,
}

/// A member of our guild, as the server lists it.
#[derive(Debug)]
pub struct RosterMember {
    pub name: String,
    pub level: u16,
    pub last_seen: Option<LastSeen>,
}

/// Our guild, as the server describes it.
#[derive(Debug)]
pub struct LoadedGuild {
    pub name: String,
    pub rank: u32,
    pub honor: u32,
    pub roster: Vec<RosterMember>,
}

/// What a `MemberInfo` says.
pub struct MemberModel {
    pub name: Seq<char>,
    pub level: u16,
    pub last_online: Option<Seq<char>>,
    pub offline_days: Option<OfflineDays>,
    pub is_active_24h: Option<bool>,
}

impl View for MemberInfo {
    type V = MemberModel;

    open spec fn view(&self) -> MemberModel {
        MemberModel {
            name: self.name@,
            level: self.level,
            last_online: opt_text(self.last_online),
            offline_days: self.offline_days,
            is_active_24h: self.is_active_24h,
        }
    }
}

/// The seconds since a member was seen, 0 for one seen later than `now`.
pub fn offline_seconds(now: Timestamp, at: Timestamp) -> (secs: i64)
    ensures
        secs == if now.instant() >= at.instant() {
            whole_seconds(now.instant() - at.instant())
        } else {
            0
        },
        now.instant() >= at.instant() ==> secs * 1_000_000_000 <= now.instant() - at.instant() < (
        secs + 1) * 1_000_000_000,
        now.instant() <= at.instant() ==> secs == 0,
{
    let secs: i64 = seconds_since(now, at);
    if secs < 0 {
        0
    } else {
        secs
    }
}

/// Whether a member that was seen then is active: less than a day has passed.
pub open spec fn active_since(at: Timestamp, now: Timestamp) -> bool {
    now.instant() - at.instant() < 86_400_000_000_000
}

/// What is known of a member. One that was never seen is not active.
pub open spec fn member_at(m: RosterMember, now: Timestamp) -> MemberModel {
    match m.last_seen {
        Some(seen) => MemberModel {
            name: m.name@,
            level: m.level,
            last_online: Some(date_time_text(seen.at)),
            offline_days: Some(seen.offline_days),
            is_active_24h: Some(active_since(seen.at, now)),
        },
        None => MemberModel {
            name: m.name@,
            level: m.level,
            last_online: None,
            offline_days: None,
            is_active_24h: Some(false),
        },
    }
}

/// The active members of a list, in their order.
pub open spec fn active_of(members: Seq<MemberInfo>) -> Seq<MemberInfo> {
    members.filter(|m: MemberInfo| m.is_active_24h == Some(true))
}

/// Whether `own` is what is known of our guild at a point in time.
pub open spec fn known_at(guild: LoadedGuild, now: Timestamp, own: OwnGuild) -> bool {
    &&& own.name@ == guild.name@
    &&& own.rank == guild.rank
    &&& own.honor == guild.honor
    &&& own.member_count == guild.roster@.len()
    &&& own.active_member_count == own.active_members@.len()
    &&& own.members@.len() == guild.roster@.len()
    &&& forall|i: int|
        0 <= i < own.members@.len() ==> (#[trigger] own.members@[i])@ == member_at(
            guild.roster@[i],
            now,
        )
    &&& own.active_members@ == active_of(own.members@)
}

/// What is known of a member.
fn read_member(m: &RosterMember, now: Timestamp) -> (r: MemberInfo)
    ensures
        r@ == member_at(*m, now),
{
    match m.last_seen {
        Some(seen) => MemberInfo {
            name: m.name.clone(),
            level: m.level,
            last_online: Some(show_date_time(seen.at)),
            offline_days: Some(seen.offline_days),
            is_active_24h: Some(less_than_hours_ago(now, seen.at, ACTIVE_HOURS)),
        },
        None => MemberInfo {
            name: m.name.clone(),
            level: m.level,
            last_online: None,
            offline_days: None,
            is_active_24h: Some(false),
        },
    }
}

/// What is known of our guild at a point in time.
pub fn read_own_guild(guild: LoadedGuild, now: Timestamp) -> (own: OwnGuild)
    ensures
        known_at(guild, now, own),
{
    let ghost active = |m: MemberInfo| m.is_active_24h == Some(true);
    let mut members: Vec<MemberInfo> = Vec::new();
    let mut active_members: Vec<MemberInfo> = Vec::new();
    let mut i: usize = 0;
    proof {
        reveal(Seq::filter);
        assert(members@.filter(active) =~= Seq::<MemberInfo>::empty());
    }
    while i < guild.roster.len()
        invariant
            i <= guild.roster@.len(),
            active == (|m: MemberInfo| m.is_active_24h == Some(true)),
            members@.len() == i,
            forall|k: int|
                0 <= k < i ==> (#[trigger] members@[k])@ == member_at(guild.roster@[k], now),
            active_members@ =~= members@.filter(active),
        decreases guild.roster@.len() - i,
    {
        let info: MemberInfo = read_member(&guild.roster[i], now);
        proof {
            members@.lemma_filter_push(info, active);
        }
        let is_active: bool = match info.is_active_24h {
            Some(v) => v,
            None => false,
        };
        if is_active {
            active_members.push(info.clone());
        }
        members.push(info);
        i = i + 1;
    }
    OwnGuild {
        name: guild.name,
        rank: guild.rank,
        honor: guild.honor,
        member_count: members.len(),
        active_member_count: active_members.len(),
        members,
        active_members,
    }
}

/// The names of members, in their order.
pub open spec fn names_of(members: Seq<MemberInfo>) -> Seq<Seq<char>> {
    members.map_values(|m: MemberInfo| m.name@)
}

/// The names of members, in their order.
pub fn collect_names(members: &Vec<MemberInfo>) -> (r: Vec<String>)
    ensures
        texts(r@) == names_of(members@),
{
    let mut r: Vec<String> = Vec::new();
    let mut i: usize = 0;
    while i < members.len()
        invariant
            i <= members@.len(),
            texts(r@) =~= names_of(members@).take(i as int),
        decreases members@.len() - i,
    {
        let ghost before = r@;
        r.push(members[i].name.clone());
        assert(texts(r@) =~= texts(before).push(members@[i as int].name@));
        i = i + 1;
    }
    assert(names_of(members@).take(i as int) =~= names_of(members@));
    r
}

/// A member is active exactly if it was seen less than 24 hours ago.
pub proof fn active_means_seen_within_a_day(guild: LoadedGuild, now: Timestamp, own: OwnGuild, i: int)
    requires
        known_at(guild, now, own),
        0 <= i < guild.roster@.len(),
    ensures
        own.active_members@.contains(own.members@[i]) <==> match guild.roster@[i].last_seen {
            Some(seen) => now.instant() - seen.at.instant() < 24 * 3_600_000_000_000,
            None => false,
        },
{
    broadcast use group_filter_ensures;

    let active = |m: MemberInfo| m.is_active_24h == Some(true);
    let all = own.members@;
    assert(all[i]@ == member_at(guild.roster@[i], now));
    assert(all.contains(all[i]));
    if all.filter(active).contains(all[i]) {
        let k = choose|k: int| 0 <= k < all.filter(active).len() && all.filter(active)[k] == all[i];
        assert(active(all.filter(active)[k]));
    }
    if active(all[i]) {
        assert(all.filter(active).contains(all[i]));
    }
}

/// Every active member is a member, and there are no more of them.
pub proof fn active_members_are_members(guild: LoadedGuild, now: Timestamp, own: OwnGuild, k: int)
    requires
        known_at(guild, now, own),
        0 <= k < own.active_members@.len(),
    ensures
        own.members@.contains(own.active_members@[k]),
        own.active_member_count <= own.member_count,
{
    broadcast use group_filter_ensures;

    filtered_is_contained(own.members@, |m: MemberInfo| m.is_active_24h == Some(true), k);
}

/// Our guild is known as the server describes it: with its name, rank and honor,
/// and every member in its place with name and level, when it was seen, and
/// whether it was seen less than 24 hours ago. The active members are those, in
/// the same order.
pub proof fn own_guild_is_as_described(guild: LoadedGuild, now: Timestamp, own: OwnGuild)
    requires
        known_at(guild, now, own),
    ensures
        own.name@ == guild.name@,
        own.rank == guild.rank,
        own.honor == guild.honor,
        own.member_count == guild.roster@.len(),
        own.members@.len() == guild.roster@.len(),
        own.active_member_count == own.active_members@.len(),
        own.active_members@ == own.members@.filter(
            |m: MemberInfo| m.is_active_24h == Some(true),
        ),
        forall|i: int|
            0 <= i < own.members@.len() ==> {
                let m = #[trigger] own.members@[i];
                let described = guild.roster@[i];
                &&& m.name@ == described.name@
                &&& m.level == described.level
                &&& described.last_seen is None ==> m.last_online is None && m.offline_days is None
                    && m.is_active_24h == Some(false)
                &&& described.last_seen matches Some(seen) ==> {
                    &&& m.last_online matches Some(text)
                    &&& text@ == date_time_text(seen.at)
                    &&& m.offline_days == Some(seen.offline_days)
                    &&& m.is_active_24h == Some(
                        now.instant() - seen.at.instant() < 24 * 3_600_000_000_000,
                    )
                }
            },
{
    assert forall|i: int| 0 <= i < own.members@.len() implies {
        let m = #[trigger] own.members@[i];
        let described = guild.roster@[i];
        &&& m.name@ == described.name@
        &&& m.level == described.level
        &&& described.last_seen is None ==> m.last_online is None && m.offline_days is None
            && m.is_active_24h == Some(false)
        &&& described.last_seen matches Some(seen) ==> {
            &&& m.last_online matches Some(text)
            &&& text@ == date_time_text(seen.at)
            &&& m.offline_days == Some(seen.offline_days)
            &&& m.is_active_24h == Some(
                now.instant() - seen.at.instant() < 24 * 3_600_000_000_000,
            )
        }
    } by {
        assert(own.members@[i]@ == member_at(guild.roster@[i], now));
    }
}

/// The names of members are their names, in their order.
pub proof fn names_are_those_of_members(members: Seq<MemberInfo>, i: int)
    requires
        0 <= i < members.len(),
    ensures
        names_of(members).len() == members.len(),
        names_of(members)[i] == members[i].name@,
{
}

} // verus!
