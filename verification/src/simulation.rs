//! A simulation of battles against chosen guilds, guild by guild.
use vstd::prelude::*;

use crate::clock::{date_time_text, now, show_date_time, Timestamp};
use crate::guild::{
    find_guild, first_named, first_named_is_first, models, DetailedGuildModel, ScanData, ScanModel,
    SimModel, SimRecord, WinRatio,
};
use crate::progress::{ProgressModel, ProgressState, TaskModel};
use crate::sorting::texts;
use crate::text::{decimal, push_decimal};

verus! {

/// The largest number of mushrooms.
pub const MUSHROOMS_MAX: u8 = 3;

/// The number of fights against a guild, unless told otherwise.
pub const ITERATIONS_DEFAULT: u32 = 2_500;

/// The smallest number of fights against a guild.
pub const ITERATIONS_MIN: u32 = 100;

/// The largest number of fights against a guild.
pub const ITERATIONS_MAX: u32 = 20_000;

/// A request to simulate battles.
#[derive(Debug)]
pub struct SimulateRequest {
    /// The guilds to fight.
    pub guild_names: Vec<String>,
    /// The number of mushrooms to shoot.
    pub mushrooms: u8,
    /// The number of fights against each guild.
    pub iterations: Option<u32>,
}

/// The number of mushrooms that are shot where this many are asked for.
pub open spec fn mushrooms_for(asked: u8) -> u8 {
    if asked <= 3 {
        asked
    } else {
        3
    }
}

/// The number of fights where this many are asked for.
pub open spec fn iterations_for(asked: Option<u32>) -> u32 {
    match asked {
        None => 2_500,
        Some(n) => if n < 100 {
            100
        } else if n > 20_000 {
            20_000
        } else {
            n
        },
    }
}

/// A running simulation.
#[derive(Debug)]
pub struct SimRun {
    /// The guilds to fight.
    pub guild_names: Vec<String>,
    pub mushrooms: u8,
    pub iterations: u32,
    /// How many guilds were fought.
    pub next: usize,
    /// The guilds that were fought, with the share of fights won.
    pub results: Vec<(String, WinRatio)>,
}

/// What a `SimRun` says.
#[verifier::ext_equal]
pub struct SimRunModel {
    pub guild_names: Seq<Seq<char>>,
    pub mushrooms: u8,
    pub iterations: u32,
    pub next: usize,
    pub results: Seq<(Seq<char>, WinRatio)>,
}

/// What results say.
pub open spec fn outcomes(results: Seq<(String, WinRatio)>) -> Seq<(Seq<char>, WinRatio)> {
    results.map_values(|r: (String, WinRatio)| (r.0@, r.1))
}

impl View for SimRun {
    type V = SimRunModel;

    open spec fn view(&self) -> SimRunModel {
        SimRunModel {
            guild_names: texts(self.guild_names@),
            mushrooms: self.mushrooms,
            iterations: self.iterations,
            next: self.next,
            results: outcomes(self.results@),
        }
    }
}

impl SimRunModel {
    /// The simulation after the next guild, with the share of fights won, if the
    /// guild could be fought.
    pub open spec fn with_share(self, share: Option<WinRatio>) -> SimRunModel {
        SimRunModel {
            next: (self.next + 1) as usize,
            results: match share {
                Some(ratio) => self.results.push((self.guild_names[self.next as int], ratio)),
                None => self.results,
            },
            ..self
        }
    }
}

/// The message for a guild.
pub open spec fn battle_text(number: nat, guilds: nat, name: Seq<char>) -> Seq<char> {
    "Simuliere "@ + decimal(number) + "/"@ + decimal(guilds) + ": "@ + name
}

/// Writes the message for a guild.
fn battle_message(number: u32, guilds: usize, name: &String) -> (r: String)
    ensures
        r@ == battle_text(number as nat, guilds as nat, name@),
{
    let mut r: String = "Simuliere ".to_owned();
    push_decimal(&mut r, number as u64);
    r.append("/");
    push_decimal(&mut r, guilds as u64);
    r.append(": ");
    r.append(name.as_str());
    r
}

impl SimRun {
    /// What holds throughout a simulation.
    pub open spec fn wf(&self) -> bool {
        &&& self.next <= self.guild_names@.len() <= u32::MAX
        &&& self.results@.len() <= self.next
        &&& self.mushrooms <= 3
        &&& 100 <= self.iterations <= 20_000
    }

    /// A simulation that has not fought yet.
    pub fn new(req: SimulateRequest) -> (r: SimRun)
        requires
            req.guild_names@.len() <= u32::MAX,
        ensures
            r.wf(),
            r@ == (SimRunModel {
                guild_names: texts(req.guild_names@),
                mushrooms: mushrooms_for(req.mushrooms),
                iterations: iterations_for(req.iterations),
                next: 0,
                results: Seq::empty(),
            }),
    {
        let mushrooms: u8 = if req.mushrooms > MUSHROOMS_MAX {
            MUSHROOMS_MAX
        } else {
            req.mushrooms
        };
        let asked: u32 = match req.iterations {
            Some(n) => n,
            None => ITERATIONS_DEFAULT,
        };
        let iterations: u32 = if asked < ITERATIONS_MIN {
            ITERATIONS_MIN
        } else if asked > ITERATIONS_MAX {
            ITERATIONS_MAX
        } else {
            asked
        };
        let r: SimRun = SimRun {
            guild_names: req.guild_names,
            mushrooms,
            iterations,
            next: 0,
            results: Vec::new(),
        };
        assert(r@.results =~= Seq::empty());
        r
    }

    /// The next guild to fight, if any, and reports it. A request to stop ends
    /// the simulation.
    pub fn next_guild(&self, progress: &mut ProgressState) -> (name: Option<String>)
        requires
            self.wf(),
        ensures
            name is Some <==> !old(progress).cancel_sim && self.next < self.guild_names@.len(),
            match name {
                Some(name) => name@ == self@.guild_names[self.next as int] && final(progress)@ == (
                ProgressModel {
                    sim: TaskModel {
                        current: (self.next + 1) as u32,
                        message: battle_text(
                            (self.next + 1) as nat,
                            self.guild_names@.len(),
                            name@,
                        ),
                        ..old(progress)@.sim
                    },
                    ..old(progress)@
                }),
                None => final(progress)@ == old(progress)@,
            },
    {
        if progress.cancel_sim || self.next >= self.guild_names.len() {
            return None;
        }
        let number: u32 = self.next as u32 + 1;
        let name: String = self.guild_names[self.next].clone();
        progress.sim.current = number;
        progress.sim.message = battle_message(number, self.guild_names.len(), &name);
        Some(name)
    }

    /// Takes in the share of fights won against the guild that was asked for,
    /// if it could be fought.
    pub fn simulated(&mut self, ratio: Option<WinRatio>)
        requires
            old(self).wf(),
            old(self).next < old(self).guild_names@.len(),
        ensures
            final(self).wf(),
            final(self)@ == old(self)@.with_share(ratio),
    {
        let ghost before = self@;
        if let Some(ratio) = ratio {
            let name: String = self.guild_names[self.next].clone();
            self.results.push((name, ratio));
            assert(outcomes(self.results@) =~= before.results.push((name@, ratio)));
        }
        self.next = self.next + 1;
    }
}

// ── Recording results ────────────────────────────────────────────────────────

/// The guilds after a battle against the guild of a name.
pub open spec fn with_result(guilds: Seq<DetailedGuildModel>, name: Seq<char>, sim: SimModel) -> Seq<
    DetailedGuildModel,
> {
    match first_named(guilds, name) {
        Some(i) => guilds.update(i, DetailedGuildModel { sim, ..guilds[i] }),
        None => guilds,
    }
}

/// The record of a battle.
pub open spec fn record_of(run: SimRunModel, ratio: WinRatio, at: Seq<char>) -> SimModel {
    SimModel {
        win_ratio: Some(ratio),
        mushrooms: Some(run.mushrooms),
        iterations: Some(run.iterations),
        evaluated_at: Some(at),
    }
}

/// The guilds after the first `n` battles of a simulation.
pub open spec fn with_results(
    guilds: Seq<DetailedGuildModel>,
    run: SimRunModel,
    at: Seq<char>,
    n: int,
) -> Seq<DetailedGuildModel>
    decreases n,
{
    if n <= 0 {
        guilds
    } else {
        let (name, ratio) = run.results[n - 1];
        with_result(with_results(guilds, run, at, n - 1), name, record_of(run, ratio, at))
    }
}

impl SimRun {
    /// Records the results in a scan: the first guild of each name gets the
    /// record of its battle.
    pub fn record(&self, scan: &mut ScanData, at: Timestamp)
        ensures
            final(scan)@ == (ScanModel {
                detailed_guilds: with_results(
                    old(scan)@.detailed_guilds,
                    self@,
                    date_time_text(at),
                    self@.results.len() as int,
                ),
                ..old(scan)@
            }),
    {
        let ghost before = scan@;
        let stamp: String = show_date_time(at);
        let mut k: usize = 0;
        while k < self.results.len()
            invariant
                k <= self.results@.len(),
                stamp@ == date_time_text(at),
                scan@ == (ScanModel {
                    detailed_guilds: with_results(
                        before.detailed_guilds,
                        self@,
                        date_time_text(at),
                        k as int,
                    ),
                    ..before
                }),
            decreases self.results@.len() - k,
        {
            let ghost guilds = scan.detailed_guilds@;
            assert(self@.results[k as int] == (self.results@[k as int].0@, self.results@[k as int].1));
            if let Some(i) = find_guild(&scan.detailed_guilds, &self.results[k].0) {
                let sim: SimRecord = SimRecord {
                    win_ratio: Some(self.results[k].1),
                    mushrooms: Some(self.mushrooms),
                    iterations: Some(self.iterations),
                    evaluated_at: Some(stamp.clone()),
                };
                scan.detailed_guilds[i].sim = sim;
                assert(models(scan.detailed_guilds@) =~= models(guilds).update(
                    i as int,
                    DetailedGuildModel { sim: sim@, ..models(guilds)[i as int] },
                ));
            }
            k = k + 1;
        }
    }

    /// Records the results in a scan now.
    pub fn record_now(&self, scan: &mut ScanData)
        ensures
            exists|at: Timestamp|
                final(scan)@ == (ScanModel {
                    detailed_guilds: with_results(
                        old(scan)@.detailed_guilds,
                        self@,
                        #[trigger] date_time_text(at),
                        self@.results.len() as int,
                    ),
                    ..old(scan)@
                }),
    {
        let at: Timestamp = now();
        self.record(scan, at);
    }
}

// ── Laws ─────────────────────────────────────────────────────────────────────

/// Whatever is asked for, at most 3 mushrooms are shot, and there are 100 to
/// 20000 fights.
pub proof fn simulation_is_bounded(mushrooms: u8, iterations: Option<u32>)
    ensures
        mushrooms_for(mushrooms) <= 3,
        100 <= iterations_for(iterations) <= 20_000,
{
}

/// The first `n` guilds that could be fought, in order, with the share of fights
/// won. `shares` gives the share for each number of a guild, if it could be
/// fought.
pub open spec fn fought(
    guild_names: Seq<Seq<char>>,
    shares: spec_fn(int) -> Option<WinRatio>,
    n: int,
) -> Seq<(Seq<char>, WinRatio)>
    decreases n,
{
    if n <= 0 {
        Seq::empty()
    } else {
        match shares(n - 1) {
            Some(ratio) => fought(guild_names, shares, n - 1).push((guild_names[n - 1], ratio)),
            None => fought(guild_names, shares, n - 1),
        }
    }
}

/// Whether the results of a simulation are those of its guilds so far.
pub open spec fn has_fought(run: SimRunModel, shares: spec_fn(int) -> Option<WinRatio>) -> bool {
    run.results == fought(run.guild_names, shares, run.next as int)
}

/// A simulation starts out without results, and with each guild it holds those
/// of the guilds that could be fought so far, in order.
pub proof fn simulation_holds_what_was_fought(
    run: SimRunModel,
    shares: spec_fn(int) -> Option<WinRatio>,
)
    ensures
        run.next == 0 && run.results.len() == 0 ==> has_fought(run, shares),
        has_fought(run, shares) && run.next < run.guild_names.len() <= u32::MAX ==> has_fought(
            run.with_share(shares(run.next as int)),
            shares,
        ),
{
    if run.results.len() == 0 {
        assert(run.results =~= Seq::empty());
    }
}

/// Recording changes nothing but the records of battles.
pub proof fn recording_changes_only_records(
    guilds: Seq<DetailedGuildModel>,
    run: SimRunModel,
    at: Seq<char>,
    n: int,
)
    ensures
        with_results(guilds, run, at, n).len() == guilds.len(),
        forall|i: int|
            0 <= i < guilds.len() ==> #[trigger] with_results(guilds, run, at, n)[i] == (
            DetailedGuildModel { sim: with_results(guilds, run, at, n)[i].sim, ..guilds[i] }),
    decreases n,
{
    if n > 0 {
        recording_changes_only_records(guilds, run, at, n - 1);
        first_named_is_first(with_results(guilds, run, at, n - 1), run.results[n - 1].0);
    }
}

/// Recording leaves the names, and with them the first guild of each name.
proof fn recording_keeps_first_named(
    guilds: Seq<DetailedGuildModel>,
    run: SimRunModel,
    at: Seq<char>,
    n: int,
    name: Seq<char>,
)
    ensures
        first_named(with_results(guilds, run, at, n), name) == first_named(guilds, name),
{
    let after = with_results(guilds, run, at, n);
    recording_changes_only_records(guilds, run, at, n);
    first_named_is_first(after, name);
    first_named_is_first(guilds, name);
    assert forall|i: int| 0 <= i < guilds.len() implies (#[trigger] after[i]).name
        == guilds[i].name by {}
    match (first_named(after, name), first_named(guilds, name)) {
        (Some(a), Some(g)) => {
            if a < g {
                assert(guilds[a].name != name);
            } else if g < a {
                assert(after[g].name != name);
            }
        },
        (Some(a), None) => {
            assert(guilds[a].name != name);
        },
        (None, Some(g)) => {
            assert(after[g].name != name);
        },
        (None, None) => {},
    }
}

/// A guild that was not fought keeps its record.
pub proof fn unfought_guild_keeps_record(
    guilds: Seq<DetailedGuildModel>,
    run: SimRunModel,
    at: Seq<char>,
    n: int,
    i: int,
)
    requires
        0 <= i < guilds.len(),
        n <= run.results.len(),
        forall|k: int| 0 <= k < n ==> (#[trigger] run.results[k]).0 != guilds[i].name,
    ensures
        with_results(guilds, run, at, n)[i] == guilds[i],
    decreases n,
{
    if n > 0 {
        unfought_guild_keeps_record(guilds, run, at, n - 1, i);
        recording_changes_only_records(guilds, run, at, n - 1);
        let before = with_results(guilds, run, at, n - 1);
        first_named_is_first(before, run.results[n - 1].0);
        assert(before[i].name == guilds[i].name);
        assert(run.results[n - 1].0 != guilds[i].name);
    }
}

/// A guild that was fought gets the record of its last battle, if it is the
/// first one of its name.
pub proof fn fought_guild_gets_record(
    guilds: Seq<DetailedGuildModel>,
    run: SimRunModel,
    at: Seq<char>,
    n: int,
    k: int,
    i: int,
)
    requires
        0 <= k < n <= run.results.len(),
        forall|j: int| k < j < n ==> (#[trigger] run.results[j]).0 != run.results[k].0,
        first_named(guilds, run.results[k].0) == Some(i),
    ensures
        0 <= i < guilds.len(),
        with_results(guilds, run, at, n)[i].sim == record_of(run, run.results[k].1, at),
    decreases n,
{
    first_named_is_first(guilds, run.results[k].0);
    let before = with_results(guilds, run, at, n - 1);
    recording_changes_only_records(guilds, run, at, n - 1);
    recording_keeps_first_named(guilds, run, at, n - 1, run.results[n - 1].0);
    if k == n - 1 {
    } else {
        fought_guild_gets_record(guilds, run, at, n - 1, k, i);
        assert(run.results[n - 1].0 != run.results[k].0);
        first_named_is_first(before, run.results[n - 1].0);
        assert(before[i].name == guilds[i].name);
    }
}

/// As many mushrooms are shot as asked for, but at most 3; there are as many fights
/// as asked for, but at least 100 and at most 20000, and 2500 if nothing is asked.
pub proof fn simulation_follows_the_request(mushrooms: u8, iterations: u32)
    ensures
        mushrooms <= 3 ==> mushrooms_for(mushrooms) == mushrooms,
        mushrooms > 3 ==> mushrooms_for(mushrooms) == 3,
        iterations_for(None) == 2_500,
        iterations < 100 ==> iterations_for(Some(iterations)) == 100,
        100 <= iterations <= 20_000 ==> iterations_for(Some(iterations)) == iterations,
        iterations > 20_000 ==> iterations_for(Some(iterations)) == 20_000,
{
}

/// A record tells the share of fights won, the mushrooms and the fights of the
/// simulation, and when it was made.
pub proof fn record_tells_the_simulation(run: SimRunModel, ratio: WinRatio, at: Seq<char>)
    ensures
        record_of(run, ratio, at).win_ratio == Some(ratio),
        record_of(run, ratio, at).mushrooms == Some(run.mushrooms),
        record_of(run, ratio, at).iterations == Some(run.iterations),
        record_of(run, ratio, at).evaluated_at == Some(at),
{
}

/// After a guild, the next one is due; a share is kept under the name of the guild
/// that was fought, after those kept before, and nothing else changes.
pub proof fn share_is_kept_under_its_guild(run: SimRunModel, ratio: WinRatio)
    requires
        run.next < run.guild_names.len() <= u32::MAX,
    ensures
        run.with_share(None).next == run.next + 1,
        run.with_share(None).results == run.results,
        run.with_share(Some(ratio)).next == run.next + 1,
        run.with_share(Some(ratio)).results == run.results.push(
            (run.guild_names[run.next as int], ratio),
        ),
        run.with_share(Some(ratio)).guild_names == run.guild_names,
        run.with_share(Some(ratio)).mushrooms == run.mushrooms,
        run.with_share(Some(ratio)).iterations == run.iterations,
{
}

/// Of a simulation whose guilds all have different names, every result is recorded:
/// the first guild of each name gets its share, with the mushrooms, the number of
/// fights and the date of the simulation.
pub proof fn every_result_is_recorded(
    guilds: Seq<DetailedGuildModel>,
    run: SimRunModel,
    at: Seq<char>,
    k: int,
    i: int,
)
    requires
        0 <= k < run.results.len(),
        forall|a: int, b: int|
            0 <= a < b < run.results.len() ==> (#[trigger] run.results[a]).0 != (
            #[trigger] run.results[b]).0,
        0 <= i < guilds.len(),
        guilds[i].name == run.results[k].0,
        forall|j: int| 0 <= j < i ==> (#[trigger] guilds[j]).name != guilds[i].name,
    ensures
        ({
            let sim = with_results(guilds, run, at, run.results.len() as int)[i].sim;
            &&& sim.win_ratio == Some(run.results[k].1)
            &&& sim.mushrooms == Some(run.mushrooms)
            &&& sim.iterations == Some(run.iterations)
            &&& sim.evaluated_at == Some(at)
        }),
{
    let name = run.results[k].0;
    first_named_is_first(guilds, name);
    let f = first_named(guilds, name);
    if f is Some && f->0 < i {
        assert(guilds[f->0].name != guilds[i].name);
    }
    if f is Some && f->0 > i {
        assert(guilds[i].name != name);
    }
    assert(f == Some(i));
    fought_guild_gets_record(guilds, run, at, run.results.len() as int, k, i);
}

} // verus!
