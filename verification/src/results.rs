//! What is shown of a scan.
use vstd::prelude::*;
use vstd::seq_lib::*;

use crate::guild::{
    find_guild, first_named, first_named_is_first, models, DetailedGuild, DetailedGuildModel,
    HofGuild, OwnGuild, OwnGuildModel, ScanData, ScanModel, SimModel, SimRecord,
};
use crate::settings::or_present;
use crate::sorting::{filtered_is_contained, same_filter_keeps_same};

verus! {

/// Which guilds to show.
#[derive(Clone, Copy, Debug)]
pub struct FilterRequest {
    /// The largest number of members.
    pub max_members: Option<u32>,
    /// The largest level of the highest member.
    pub max_highest_level: Option<u16>,
    /// Whether to leave out guilds that are under attack.
    pub hide_attacked: Option<bool>,
    /// Whether to show only guilds that strict mode calls beatable, where it
    /// was used; so unless told otherwise.
    pub strict_only: Option<bool>,
}

/// A guild of the hall of fame, with the last battle simulated against it.
#[derive(Debug)]
pub struct HofGuildView {
    pub guild: HofGuild,
    pub sim: SimRecord,
}

/// What a `HofGuildView` says.
pub struct HofViewModel {
    pub guild: HofGuild,
    pub sim: SimModel,
}

impl View for HofGuildView {
    type V = HofViewModel;

    open spec fn view(&self) -> HofViewModel {
        HofViewModel { guild: self.guild, sim: self.sim@ }
    }
}

/// What is shown of a scan.
#[derive(Debug)]
pub struct FilteredResult {
    pub own_guild: OwnGuild,
    /// The guilds that pass the filter.
    pub guilds: Vec<DetailedGuild>,
    /// All guilds of the hall of fame that the scan has kept.
    pub hof_guilds: Vec<HofGuildView>,
    /// The number of attackable guilds.
    pub total_attackable: usize,
    /// The number of guilds that pass the filter.
    pub filtered_count: usize,
    pub scanned_at: String,
}

/// What a `FilteredResult` says.
#[verifier::ext_equal]
pub struct ResultModel {
    pub own_guild: OwnGuildModel,
    pub guilds: Seq<DetailedGuildModel>,
    pub hof_guilds: Seq<HofViewModel>,
    pub total_attackable: usize,
    pub filtered_count: usize,
    pub scanned_at: Seq<char>,
}

impl View for FilteredResult {
    type V = ResultModel;

    open spec fn view(&self) -> ResultModel {
        ResultModel {
            own_guild: self.own_guild@,
            guilds: models(self.guilds@),
            hof_guilds: self.hof_guilds@.map_values(|g: HofGuildView| g@),
            total_attackable: self.total_attackable,
            filtered_count: self.filtered_count,
            scanned_at: self.scanned_at@,
        }
    }
}

/// Whether strict mode was used on an attackable guild.
pub open spec fn strict_available(guilds: Seq<DetailedGuildModel>) -> bool {
    exists|i: int|
        0 <= i < guilds.len() && (#[trigger] guilds[i]).attackable && guilds[i].strict.evaluated
}

/// Whether a guild passes the filter, where `strict` says whether strict mode
/// was used.
pub open spec fn passes(filter: FilterRequest, strict: bool, g: DetailedGuildModel) -> bool {
    &&& g.attackable
    &&& filter.max_members matches Some(max) ==> g.member_count <= max
    &&& filter.max_highest_level matches Some(max) ==> g.max_level <= max
    &&& !(or_present(filter.hide_attacked, false) && g.is_attacked)
    &&& or_present(filter.strict_only, true) && strict ==> g.strict.evaluated
        && g.strict.beatable
}

/// The guilds that pass the filter, in their order.
pub open spec fn passing(filter: FilterRequest, guilds: Seq<DetailedGuildModel>) -> Seq<
    DetailedGuildModel,
> {
    guilds.filter(|g: DetailedGuildModel| passes(filter, strict_available(guilds), g))
}

/// The attackable guilds, in their order.
pub open spec fn attackable(guilds: Seq<DetailedGuildModel>) -> Seq<DetailedGuildModel> {
    guilds.filter(|g: DetailedGuildModel| g.attackable)
}

/// The last battle simulated against the guild of a name.
pub open spec fn last_sim(guilds: Seq<DetailedGuildModel>, name: Seq<char>) -> SimModel {
    match first_named(guilds, name) {
        Some(i) => guilds[i].sim,
        None => SimModel::none(),
    }
}

/// What is shown of a scan under a filter.
pub open spec fn shown(scan: ScanModel, filter: FilterRequest) -> ResultModel {
    ResultModel {
        own_guild: scan.own_guild,
        guilds: passing(filter, scan.detailed_guilds),
        hof_guilds: scan.hof_guilds.map_values(
            |g: HofGuild| HofViewModel { guild: g, sim: last_sim(scan.detailed_guilds, g.name@) },
        ),
        total_attackable: attackable(scan.detailed_guilds).len() as usize,
        filtered_count: passing(filter, scan.detailed_guilds).len() as usize,
        scanned_at: scan.scanned_at,
    }
}

/// Counts the attackable guilds, and tells whether strict mode was used on one.
fn survey(guilds: &Vec<DetailedGuild>) -> (r: (usize, bool))
    ensures
        r.0 == attackable(models(guilds@)).len(),
        r.1 == strict_available(models(guilds@)),
{
    let ghost all = models(guilds@);
    let ghost pred = |g: DetailedGuildModel| g.attackable;
    let mut count: usize = 0;
    let mut strict: bool = false;
    let mut i: usize = 0;
    proof {
        reveal(Seq::filter);
        assert(all.take(0).filter(pred).len() == 0);
    }
    while i < guilds.len()
        invariant
            i <= guilds@.len(),
            all == models(guilds@),
            pred == (|g: DetailedGuildModel| g.attackable),
            count <= i,
            count == all.take(i as int).filter(pred).len(),
            strict == exists|k: int|
                0 <= k < i && (#[trigger] all[k]).attackable && all[k].strict.evaluated,
        decreases guilds@.len() - i,
    {
        proof {
            assert(all.take(i + 1) =~= all.take(i as int).push(all[i as int]));
            all.take(i as int).lemma_filter_push(all[i as int], pred);
            assert(all[i as int] == guilds@[i as int]@);
        }
        if guilds[i].attackable {
            count = count + 1;
            if guilds[i].strict.evaluated {
                strict = true;
            }
        }
        i = i + 1;
    }
    assert(all.take(i as int) =~= all);
    (count, strict)
}

/// Whether a guild passes the filter.
fn keeps(filter: &FilterRequest, strict: bool, g: &DetailedGuild) -> (r: bool)
    ensures
        r == passes(*filter, strict, g@),
{
    if !g.attackable {
        return false;
    }
    if let Some(max) = filter.max_members {
        if g.member_count > max as usize {
            return false;
        }
    }
    if let Some(max) = filter.max_highest_level {
        if g.max_level > max {
            return false;
        }
    }
    let hide_attacked: bool = match filter.hide_attacked {
        Some(v) => v,
        None => false,
    };
    if hide_attacked && g.is_attacked {
        return false;
    }
    let strict_only: bool = match filter.strict_only {
        Some(v) => v,
        None => true,
    };
    if strict_only && strict && (!g.strict.evaluated || !g.strict.beatable) {
        return false;
    }
    true
}

/// The guilds that pass the filter.
fn select(filter: &FilterRequest, strict: bool, guilds: &Vec<DetailedGuild>) -> (r: Vec<
    DetailedGuild,
>)
    ensures
        models(r@) == models(guilds@).filter(
            |g: DetailedGuildModel| passes(*filter, strict, g),
        ),
{
    let ghost all = models(guilds@);
    let ghost pred = |g: DetailedGuildModel| passes(*filter, strict, g);
    let mut r: Vec<DetailedGuild> = Vec::new();
    let mut i: usize = 0;
    proof {
        reveal(Seq::filter);
        assert(all.take(0).filter(pred) =~= Seq::empty());
    }
    while i < guilds.len()
        invariant
            i <= guilds@.len(),
            all == models(guilds@),
            pred == (|g: DetailedGuildModel| passes(*filter, strict, g)),
            models(r@) =~= all.take(i as int).filter(pred),
        decreases guilds@.len() - i,
    {
        proof {
            assert(all.take(i + 1) =~= all.take(i as int).push(all[i as int]));
            all.take(i as int).lemma_filter_push(all[i as int], pred);
            assert(all[i as int] == guilds@[i as int]@);
        }
        if keeps(filter, strict, &guilds[i]) {
            let ghost before = r@;
            r.push(guilds[i].clone());
            assert(models(r@) =~= models(before).push(all[i as int]));
        }
        i = i + 1;
    }
    assert(all.take(i as int) =~= all);
    r
}

/// The guilds of the hall of fame, each with the last battle simulated against
/// it.
fn with_battles(hof: &Vec<HofGuild>, guilds: &Vec<DetailedGuild>) -> (r: Vec<HofGuildView>)
    ensures
        r@.map_values(|g: HofGuildView| g@) == hof@.map_values(
            |g: HofGuild| HofViewModel { guild: g, sim: last_sim(models(guilds@), g.name@) },
        ),
{
    let mut r: Vec<HofGuildView> = Vec::new();
    let mut i: usize = 0;
    while i < hof.len()
        invariant
            i <= hof@.len(),
            r@.len() == i,
            forall|k: int|
                0 <= k < i ==> (#[trigger] r@[k])@ == (HofViewModel {
                    guild: hof@[k],
                    sim: last_sim(models(guilds@), hof@[k].name@),
                }),
        decreases hof@.len() - i,
    {
        let sim: SimRecord = match find_guild(guilds, &hof[i].name) {
            Some(at) => guilds[at].sim.clone(),
            None => SimRecord::none(),
        };
        r.push(HofGuildView { guild: hof[i].clone(), sim });
        i = i + 1;
    }
    assert(r@.map_values(|g: HofGuildView| g@) =~= hof@.map_values(
        |g: HofGuild| HofViewModel { guild: g, sim: last_sim(models(guilds@), g.name@) },
    ));
    r
}

/// Shows the scan under a filter, if there is one.
pub fn get_results(scan: Option<&ScanData>, filter: &FilterRequest) -> (r: Result<
    FilteredResult,
    String,
>)
    ensures
        match scan {
            Some(s) => r matches Ok(shown_result) && shown_result@ == shown(s@, *filter),
            None => r matches Err(e) && e@ == "Keine Scan-Daten vorhanden"@,
        },
{
    match scan {
        Some(scan) => {
            let (total_attackable, strict): (usize, bool) = survey(&scan.detailed_guilds);
            let guilds: Vec<DetailedGuild> = select(filter, strict, &scan.detailed_guilds);
            assert(models(guilds@).len() == guilds@.len());
            Ok(
                FilteredResult {
                    own_guild: scan.own_guild.clone(),
                    filtered_count: guilds.len(),
                    guilds,
                    hof_guilds: with_battles(&scan.hof_guilds, &scan.detailed_guilds),
                    total_attackable,
                    scanned_at: scan.scanned_at.clone(),
                },
            )
        },
        None => Err("Keine Scan-Daten vorhanden".to_owned()),
    }
}

// ── Laws ─────────────────────────────────────────────────────────────────────

/// A stronger filter lets through no more.
proof fn stronger_filter_keeps_fewer<T>(
    s: Seq<T>,
    strong: spec_fn(T) -> bool,
    weak: spec_fn(T) -> bool,
)
    requires
        forall|x: T| #[trigger] strong(x) ==> weak(x),
    ensures
        s.filter(strong).len() <= s.filter(weak).len(),
    decreases s.len(),
{
    reveal(Seq::filter);
    if s.len() > 0 {
        stronger_filter_keeps_fewer(s.drop_last(), strong, weak);
    }
}

/// Every guild that is shown is one of the scan and attackable; no filter shows
/// more than all attackable guilds.
pub proof fn shown_guilds_are_attackable(guilds: Seq<DetailedGuildModel>, filter: FilterRequest)
    ensures
        forall|i: int|
            0 <= i < passing(filter, guilds).len() ==> {
                &&& (#[trigger] passing(filter, guilds)[i]).attackable
                &&& guilds.contains(passing(filter, guilds)[i])
            },
        passing(filter, guilds).len() <= attackable(guilds).len(),
        attackable(guilds).len() <= guilds.len(),
{
    broadcast use group_filter_ensures;

    let strict = strict_available(guilds);
    let strong = |g: DetailedGuildModel| passes(filter, strict, g);
    let weak = |g: DetailedGuildModel| g.attackable;
    assert forall|i: int| 0 <= i < guilds.filter(strong).len() implies {
        &&& (#[trigger] guilds.filter(strong)[i]).attackable
        &&& guilds.contains(guilds.filter(strong)[i])
    } by {
        filtered_is_contained(guilds, strong, i);
        assert(strong(guilds.filter(strong)[i]));
    }
    stronger_filter_keeps_fewer(guilds, strong, weak);
}

/// Every guild that is shown keeps the limits of the filter.
pub proof fn shown_guilds_keep_limits(
    guilds: Seq<DetailedGuildModel>,
    filter: FilterRequest,
    i: int,
)
    requires
        0 <= i < passing(filter, guilds).len(),
    ensures
        filter.max_members matches Some(max) ==> passing(filter, guilds)[i].member_count <= max,
        filter.max_highest_level matches Some(max) ==> passing(filter, guilds)[i].max_level <= max,
        filter.hide_attacked == Some(true) ==> !passing(filter, guilds)[i].is_attacked,
{
    broadcast use group_filter_ensures;

    let pred = |g: DetailedGuildModel| passes(filter, strict_available(guilds), g);
    assert(pred(guilds.filter(pred)[i]));
}

/// Where strict mode was used and the filter does not say otherwise, only
/// beatable guilds are shown.
pub proof fn beatable_guilds_by_default(
    guilds: Seq<DetailedGuildModel>,
    filter: FilterRequest,
    i: int,
)
    requires
        strict_available(guilds),
        filter.strict_only != Some(false),
        0 <= i < passing(filter, guilds).len(),
    ensures
        passing(filter, guilds)[i].strict.evaluated,
        passing(filter, guilds)[i].strict.beatable,
{
    broadcast use group_filter_ensures;

    let pred = |g: DetailedGuildModel| passes(filter, strict_available(guilds), g);
    assert(pred(guilds.filter(pred)[i]));
}

/// Without limits all attackable guilds are shown, where strict mode was not
/// used or is not asked for.
pub proof fn no_limits_show_all_attackable(guilds: Seq<DetailedGuildModel>, filter: FilterRequest)
    requires
        filter.max_members is None,
        filter.max_highest_level is None,
        filter.hide_attacked != Some(true),
        filter.strict_only == Some(false) || !strict_available(guilds),
    ensures
        passing(filter, guilds) == attackable(guilds),
{
    same_filter_keeps_same(
        guilds,
        |g: DetailedGuildModel| passes(filter, strict_available(guilds), g),
        |g: DetailedGuildModel| g.attackable,
    );
}

/// The list of the hall of fame does not depend on the filter, and a guild of
/// it carries a battle only if one was simulated against a guild of its name.
pub proof fn hall_of_fame_is_not_filtered(
    scan: ScanModel,
    filter: FilterRequest,
    other: FilterRequest,
    i: int,
)
    requires
        0 <= i < scan.hof_guilds.len(),
    ensures
        shown(scan, filter).hof_guilds == shown(scan, other).hof_guilds,
        shown(scan, filter).hof_guilds.len() == scan.hof_guilds.len(),
        shown(scan, filter).hof_guilds[i].guild == scan.hof_guilds[i],
        shown(scan, filter).hof_guilds[i].sim != SimModel::none() ==> exists|k: int|
            0 <= k < scan.detailed_guilds.len() && #[trigger] scan.detailed_guilds[k].name
                == scan.hof_guilds[i].name@ && scan.detailed_guilds[k].sim == shown(
                scan,
                filter,
            ).hof_guilds[i].sim,
{
    first_named_is_first(scan.detailed_guilds, scan.hof_guilds[i].name@);
}

/// A filter shows, in their order, exactly the guilds that keep its limits: those
/// that are attackable, have no more members than allowed and no member of a
/// higher level than allowed where that is asked for, are not under attack where
/// such are to be hidden, and are judged beatable where some attackable guild was
/// judged and the filter does not say otherwise.
pub proof fn filter_shows_what_keeps_its_limits(
    guilds: Seq<DetailedGuildModel>,
    filter: FilterRequest,
)
    ensures
        passing(filter, guilds) == guilds.filter(
            |g: DetailedGuildModel|
                {
                    &&& g.attackable
                    &&& filter.max_members is Some ==> g.member_count <= filter.max_members->0
                    &&& filter.max_highest_level is Some ==> g.max_level
                        <= filter.max_highest_level->0
                    &&& filter.hide_attacked == Some(true) ==> !g.is_attacked
                    &&& filter.strict_only != Some(false) && (exists|i: int|
                        0 <= i < guilds.len() && (#[trigger] guilds[i]).attackable
                            && guilds[i].strict.evaluated) ==> g.strict.evaluated
                        && g.strict.beatable
                },
        ),
{
    let judged = exists|i: int|
        0 <= i < guilds.len() && (#[trigger] guilds[i]).attackable && guilds[i].strict.evaluated;
    assert(judged == strict_available(guilds));
    same_filter_keeps_same(
        guilds,
        |g: DetailedGuildModel| passes(filter, strict_available(guilds), g),
        |g: DetailedGuildModel|
            {
                &&& g.attackable
                &&& filter.max_members is Some ==> g.member_count <= filter.max_members->0
                &&& filter.max_highest_level is Some ==> g.max_level
                    <= filter.max_highest_level->0
                &&& filter.hide_attacked == Some(true) ==> !g.is_attacked
                &&& filter.strict_only != Some(false) && (exists|i: int|
                    0 <= i < guilds.len() && (#[trigger] guilds[i]).attackable
                        && guilds[i].strict.evaluated) ==> g.strict.evaluated && g.strict.beatable
            },
    );
}

/// A filter hides nothing that keeps its limits.
pub proof fn filter_hides_nothing_within_limits(
    guilds: Seq<DetailedGuildModel>,
    filter: FilterRequest,
    i: int,
)
    requires
        0 <= i < guilds.len(),
        guilds[i].attackable,
        filter.max_members matches Some(max) ==> guilds[i].member_count <= max,
        filter.max_highest_level matches Some(max) ==> guilds[i].max_level <= max,
        filter.hide_attacked == Some(true) ==> !guilds[i].is_attacked,
        filter.strict_only != Some(false) && (exists|k: int|
            0 <= k < guilds.len() && (#[trigger] guilds[k]).attackable
                && guilds[k].strict.evaluated) ==> guilds[i].strict.evaluated
            && guilds[i].strict.beatable,
    ensures
        passing(filter, guilds).contains(guilds[i]),
{
    broadcast use group_filter_ensures;

    let pred = |g: DetailedGuildModel| passes(filter, strict_available(guilds), g);
    assert(guilds.contains(guilds[i]));
    assert(pred(guilds[i]));
    assert(guilds.filter(pred).contains(guilds[i]));
}

/// What is shown of a scan is its own guild and date, the guilds that pass, their
/// number and the number of all attackable ones, and the whole hall of fame, each
/// guild of it with the battle of the first guild that has its name.
pub proof fn result_shows_the_scan(scan: ScanModel, filter: FilterRequest, i: int)
    requires
        scan.detailed_guilds.len() <= usize::MAX,
    ensures
        shown(scan, filter).own_guild == scan.own_guild,
        shown(scan, filter).scanned_at == scan.scanned_at,
        shown(scan, filter).guilds == passing(filter, scan.detailed_guilds),
        shown(scan, filter).filtered_count == shown(scan, filter).guilds.len(),
        shown(scan, filter).total_attackable == scan.detailed_guilds.filter(
            |g: DetailedGuildModel| g.attackable,
        ).len(),
        shown(scan, filter).hof_guilds.len() == scan.hof_guilds.len(),
        0 <= i < scan.hof_guilds.len() ==> {
            let v = shown(scan, filter).hof_guilds[i];
            &&& v.guild == scan.hof_guilds[i]
            &&& (forall|k: int|
                0 <= k < scan.detailed_guilds.len() ==> (
                #[trigger] scan.detailed_guilds[k]).name != scan.hof_guilds[i].name@)
                ==> v.sim.win_ratio is None && v.sim.mushrooms is None && v.sim.iterations is None
                && v.sim.evaluated_at is None
            &&& forall|k: int|
                0 <= k < scan.detailed_guilds.len() && (
                #[trigger] scan.detailed_guilds[k]).name == scan.hof_guilds[i].name@ && (forall|
                    j: int,
                |
                    0 <= j < k ==> (#[trigger] scan.detailed_guilds[j]).name
                        != scan.hof_guilds[i].name@) ==> v.sim == scan.detailed_guilds[k].sim
        },
{
    broadcast use group_filter_ensures;

    shown_guilds_are_attackable(scan.detailed_guilds, filter);
    if 0 <= i < scan.hof_guilds.len() {
        let name = scan.hof_guilds[i].name@;
        first_named_is_first(scan.detailed_guilds, name);
        assert forall|k: int|
            0 <= k < scan.detailed_guilds.len() && (#[trigger] scan.detailed_guilds[k]).name
                == name && (forall|j: int|
                0 <= j < k ==> (#[trigger] scan.detailed_guilds[j]).name
                    != name) implies shown(scan, filter).hof_guilds[i].sim
            == scan.detailed_guilds[k].sim by {
            match first_named(scan.detailed_guilds, name) {
                Some(f) => {
                    if f < k {
                        assert(scan.detailed_guilds[f].name != name);
                    } else if k < f {
                        assert(scan.detailed_guilds[k].name != name);
                    }
                },
                None => {},
            }
        }
    }
}

} // verus!
