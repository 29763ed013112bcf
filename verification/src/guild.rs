//! Guilds, their members, and the data of a scan.
use vstd::prelude::*;

verus! {

/// The text of an optional string.
pub open spec fn opt_text(s: Option<String>) -> Option<Seq<char>> {
    match s {
        Some(t) => Some(t@),
        None => None,
    }
}

/// Days since a member was last seen, to one decimal: the bit pattern of an
/// IEEE single precision number. The library carries it and does not compute
/// with it.
#[derive(Clone, Copy, Debug, PartialEq, Eq, Structural)]
pub struct OfflineDays {
    pub bits: u32,
}

/// The share of simulated fights that were won: the bit pattern of an IEEE
/// double precision number. The library carries it and does not compute with
/// it.
#[derive(Clone, Copy, Debug, PartialEq, Eq, Structural)]
pub struct WinRatio {
    pub bits: u64,
}

/// A member of a guild. Of the members of other guilds only name and level are
/// known.
#[derive(Debug)]
pub struct MemberInfo {
    pub name: String,
    pub level: u16,
    pub last_online: Option<String>,
    pub offline_days: Option<OfflineDays>,
    pub is_active_24h: Option<bool>,
}

impl Clone for MemberInfo {
    fn clone(&self) -> (r: MemberInfo)
        ensures
            r == *self,
    {
        MemberInfo {
            name: self.name.clone(),
            level: self.level,
            last_online: self.last_online.clone(),
            offline_days: self.offline_days,
            is_active_24h: self.is_active_24h,
        }
    }
}

/// One's own guild, with all members and those that were seen in the last 24
/// hours.
#[derive(Debug)]
pub struct OwnGuild {
    pub name: String,
    pub rank: u32,
    pub honor: u32,
    pub member_count: usize,
    pub active_member_count: usize,
    pub members: Vec<MemberInfo>,
    pub active_members: Vec<MemberInfo>,
}

/// What an `OwnGuild` says.
#[verifier::ext_equal]
pub struct OwnGuildModel {
    pub name: Seq<char>,
    pub rank: u32,
    pub honor: u32,
    pub member_count: usize,
    pub active_member_count: usize,
    pub members: Seq<MemberInfo>,
    pub active_members: Seq<MemberInfo>,
}

impl View for OwnGuild {
    type V = OwnGuildModel;

    open spec fn view(&self) -> OwnGuildModel {
        OwnGuildModel {
            name: self.name@,
            rank: self.rank,
            honor: self.honor,
            member_count: self.member_count,
            active_member_count: self.active_member_count,
            members: self.members@,
            active_members: self.active_members@,
        }
    }
}

impl Clone for OwnGuild {
    fn clone(&self) -> (r: OwnGuild)
        ensures
            r@ == self@,
    {
        let r: OwnGuild = OwnGuild {
            name: self.name.clone(),
            rank: self.rank,
            honor: self.honor,
            member_count: self.member_count,
            active_member_count: self.active_member_count,
            members: self.members.clone(),
            active_members: self.active_members.clone(),
        };
        assert(r.members@ =~= self.members@);
        assert(r.active_members@ =~= self.active_members@);
        r
    }
}

/// A guild as the hall of fame lists it.
#[derive(Debug)]
pub struct HofEntry {
    pub name: String,
    pub rank: u32,
    pub leader: String,
    pub member_count: u32,
    pub honor: u32,
    pub is_attacked: bool,
}

/// A guild of the hall of fame that a scan has kept, without its members.
#[derive(Debug)]
pub struct HofGuild {
    pub name: String,
    pub rank: u32,
    pub leader: String,
    pub member_count: u32,
    pub honor: u32,
    pub is_attacked: bool,
    /// Whether we may attack it.
    pub attackable: bool,
}

impl Clone for HofGuild {
    fn clone(&self) -> (r: HofGuild)
        ensures
            r == *self,
    {
        HofGuild {
            name: self.name.clone(),
            rank: self.rank,
            leader: self.leader.clone(),
            member_count: self.member_count,
            honor: self.honor,
            is_attacked: self.is_attacked,
            attackable: self.attackable,
        }
    }
}

/// The verdict of strict mode on a guild.
#[derive(Debug)]
pub struct StrictOutcome {
    pub evaluated: bool,
    pub beatable: bool,
    pub own_active_members: usize,
    pub topn: bool,
    pub topn_n: usize,
    pub fail_index: Option<usize>,
    pub fail_enemy_level: Option<u16>,
    pub fail_own_level: Option<u16>,
    pub fail_reason: Option<String>,
}

/// What a `StrictOutcome` says.
pub struct StrictModel {
    pub evaluated: bool,
    pub beatable: bool,
    pub own_active_members: usize,
    pub topn: bool,
    pub topn_n: usize,
    pub fail_index: Option<usize>,
    pub fail_enemy_level: Option<u16>,
    pub fail_own_level: Option<u16>,
    pub fail_reason: Option<Seq<char>>,
}

impl View for StrictOutcome {
    type V = StrictModel;

    open spec fn view(&self) -> StrictModel {
        StrictModel {
            evaluated: self.evaluated,
            beatable: self.beatable,
            own_active_members: self.own_active_members,
            topn: self.topn,
            topn_n: self.topn_n,
            fail_index: self.fail_index,
            fail_enemy_level: self.fail_enemy_level,
            fail_own_level: self.fail_own_level,
            fail_reason: opt_text(self.fail_reason),
        }
    }
}

impl Clone for StrictOutcome {
    fn clone(&self) -> (r: StrictOutcome)
        ensures
            r@ == self@,
    {
        StrictOutcome {
            evaluated: self.evaluated,
            beatable: self.beatable,
            own_active_members: self.own_active_members,
            topn: self.topn,
            topn_n: self.topn_n,
            fail_index: self.fail_index,
            fail_enemy_level: self.fail_enemy_level,
            fail_own_level: self.fail_own_level,
            fail_reason: self.fail_reason.clone(),
        }
    }
}

/// The result of the last simulated battle against a guild.
#[derive(Debug)]
pub struct SimRecord {
    pub win_ratio: Option<WinRatio>,
    pub mushrooms: Option<u8>,
    pub iterations: Option<u32>,
    pub evaluated_at: Option<String>,
}

/// What a `SimRecord` says.
pub struct SimModel {
    pub win_ratio: Option<WinRatio>,
    pub mushrooms: Option<u8>,
    pub iterations: Option<u32>,
    pub evaluated_at: Option<Seq<char>>,
}

impl View for SimRecord {
    type V = SimModel;

    open spec fn view(&self) -> SimModel {
        SimModel {
            win_ratio: self.win_ratio,
            mushrooms: self.mushrooms,
            iterations: self.iterations,
            evaluated_at: opt_text(self.evaluated_at),
        }
    }
}

impl SimModel {
    /// The record of a guild that no battle was simulated against.
    pub open spec fn none() -> SimModel {
        SimModel { win_ratio: None, mushrooms: None, iterations: None, evaluated_at: None }
    }
}

impl Clone for SimRecord {
    fn clone(&self) -> (r: SimRecord)
        ensures
            r@ == self@,
    {
        SimRecord {
            win_ratio: self.win_ratio,
            mushrooms: self.mushrooms,
            iterations: self.iterations,
            evaluated_at: self.evaluated_at.clone(),
        }
    }
}

impl SimRecord {
    /// The record of a guild that no battle was simulated against.
    pub fn none() -> (r: SimRecord)
        ensures
            r@ == SimModel::none(),
    {
        SimRecord { win_ratio: None, mushrooms: None, iterations: None, evaluated_at: None }
    }
}

/// A guild with its members, and what is known of the chances against it.
#[derive(Debug)]
pub struct DetailedGuild {
    pub name: String,
    pub rank: u32,
    pub honor: u32,
    pub member_count: usize,
    pub members: Vec<MemberInfo>,
    pub max_level: u16,
    pub min_level: u16,
    pub total_level: u32,
    pub finished_raids: u16,
    pub is_attacked: bool,
    /// Whether we may attack it. A guild that was loaded only to simulate a
    /// battle against it may be out of reach.
    pub attackable: bool,
    pub strict: StrictOutcome,
    pub sim: SimRecord,
}

/// What a `DetailedGuild` says.
#[verifier::ext_equal]
pub struct DetailedGuildModel {
    pub name: Seq<char>,
    pub rank: u32,
    pub honor: u32,
    pub member_count: usize,
    pub members: Seq<MemberInfo>,
    pub max_level: u16,
    pub min_level: u16,
    pub total_level: u32,
    pub finished_raids: u16,
    pub is_attacked: bool,
    pub attackable: bool,
    pub strict: StrictModel,
    pub sim: SimModel,
}

impl View for DetailedGuild {
    type V = DetailedGuildModel;

    open spec fn view(&self) -> DetailedGuildModel {
        DetailedGuildModel {
            name: self.name@,
            rank: self.rank,
            honor: self.honor,
            member_count: self.member_count,
            members: self.members@,
            max_level: self.max_level,
            min_level: self.min_level,
            total_level: self.total_level,
            finished_raids: self.finished_raids,
            is_attacked: self.is_attacked,
            attackable: self.attackable,
            strict: self.strict@,
            sim: self.sim@,
        }
    }
}

impl Clone for DetailedGuild {
    fn clone(&self) -> (r: DetailedGuild)
        ensures
            r@ == self@,
    {
        let members: Vec<MemberInfo> = self.members.clone();
        assert(members@ =~= self.members@);
        DetailedGuild {
            name: self.name.clone(),
            rank: self.rank,
            honor: self.honor,
            member_count: self.member_count,
            members,
            max_level: self.max_level,
            min_level: self.min_level,
            total_level: self.total_level,
            finished_raids: self.finished_raids,
            is_attacked: self.is_attacked,
            attackable: self.attackable,
            strict: self.strict.clone(),
            sim: self.sim.clone(),
        }
    }
}

/// What the guilds of a list say.
pub open spec fn models(guilds: Seq<DetailedGuild>) -> Seq<DetailedGuildModel> {
    guilds.map_values(|g: DetailedGuild| g@)
}

/// The data of a scan, as it is stored.
#[derive(Debug)]
pub struct ScanData {
    /// When the scan was made.
    pub scanned_at: String,
    /// The server that was scanned.
    pub server: String,
    /// Our guild at the time.
    pub own_guild: OwnGuild,
    /// The guilds of the hall of fame that were kept.
    pub hof_guilds: Vec<HofGuild>,
    /// The guilds whose members are known.
    pub detailed_guilds: Vec<DetailedGuild>,
}

/// What a `ScanData` says.
#[verifier::ext_equal]
pub struct ScanModel {
    pub scanned_at: Seq<char>,
    pub server: Seq<char>,
    pub own_guild: OwnGuildModel,
    pub hof_guilds: Seq<HofGuild>,
    pub detailed_guilds: Seq<DetailedGuildModel>,
}

impl View for ScanData {
    type V = ScanModel;

    open spec fn view(&self) -> ScanModel {
        ScanModel {
            scanned_at: self.scanned_at@,
            server: self.server@,
            own_guild: self.own_guild@,
            hof_guilds: self.hof_guilds@,
            detailed_guilds: models(self.detailed_guilds@),
        }
    }
}

/// The position of the first guild of that name.
pub open spec fn first_named(guilds: Seq<DetailedGuildModel>, name: Seq<char>) -> Option<int>
    decreases guilds.len(),
{
    if guilds.len() == 0 {
        None
    } else {
        match first_named(guilds.drop_last(), name) {
            Some(i) => Some(i),
            None => if guilds.last().name == name {
                Some(guilds.len() - 1)
            } else {
                None
            },
        }
    }
}

/// The first guild of a name has the name, and none before it does; if there
/// is no first one, none has it.
pub proof fn first_named_is_first(guilds: Seq<DetailedGuildModel>, name: Seq<char>)
    ensures
        match first_named(guilds, name) {
            Some(i) => 0 <= i < guilds.len() && guilds[i].name == name && forall|k: int|
                0 <= k < i ==> (#[trigger] guilds[k]).name != name,
            None => forall|k: int| 0 <= k < guilds.len() ==> (#[trigger] guilds[k]).name != name,
        },
    decreases guilds.len(),
{
    if guilds.len() > 0 {
        first_named_is_first(guilds.drop_last(), name);
        assert forall|k: int| 0 <= k < guilds.len() - 1 implies #[trigger] guilds[k]
            == guilds.drop_last()[k] by {}
    }
}

/// Finds the first guild of a name.
pub fn find_guild(guilds: &Vec<DetailedGuild>, name: &String) -> (r: Option<usize>)
    ensures
        match r {
            Some(i) => i < guilds@.len() && first_named(models(guilds@), name@) == Some(i as int),
            None => first_named(models(guilds@), name@) is None,
        },
{
    let mut i: usize = 0;
    assert(models(guilds@).take(0) =~= Seq::<DetailedGuildModel>::empty());
    while i < guilds.len()
        invariant
            i <= guilds@.len(),
            first_named(models(guilds@).take(i as int), name@) is None,
        decreases guilds@.len() - i,
    {
        proof {
            let now = models(guilds@).take(i + 1);
            assert(now.drop_last() =~= models(guilds@).take(i as int));
            assert(now.last() == guilds@[i as int]@);
        }
        if guilds[i].name == *name {
            proof {
                first_named_of_prefix(models(guilds@), i + 1, name@);
            }
            return Some(i);
        }
        i = i + 1;
    }
    assert(models(guilds@).take(i as int) =~= models(guilds@));
    None
}

/// A guild found in the front part of a list is the first one of the list.
proof fn first_named_of_prefix(guilds: Seq<DetailedGuildModel>, k: int, name: Seq<char>)
    requires
        0 <= k <= guilds.len(),
        first_named(guilds.take(k), name) is Some,
    ensures
        first_named(guilds, name) == first_named(guilds.take(k), name),
    decreases guilds.len() - k,
{
    if k < guilds.len() {
        assert(guilds.take(k + 1).drop_last() =~= guilds.take(k));
        first_named_of_prefix(guilds, k + 1, name);
    } else {
        assert(guilds.take(k) =~= guilds);
    }
}

} // verus!
