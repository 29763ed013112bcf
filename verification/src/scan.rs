//! A scan, step by step.
//!
//! A `ScanRun` decides what to read next. Whoever drives it reads the page or
//! the guild and hands it back, until the run is finished:
//!
//! 1. the pages of the window of ranks around our own, downwards,
//! 2. the pages above it, upwards, as far as the settings say,
//! 3. the members of every attackable guild found, by rank.
use vstd::prelude::*;
use vstd::seq_lib::*;

use crate::attack::attack_rule;
use crate::clock::{date_time_text, now, show_date_time, Timestamp};
use crate::detail::{scan_detail, scanned, total, GuildView};
use crate::guild::{
    models, DetailedGuild, DetailedGuildModel, HofEntry, HofGuild, OwnGuild, OwnGuildModel, ScanData,
    ScanModel,
};
use crate::hof::{
    collect_upward_page, collect_window_page, from_page, has_name, page_lists_its_ranks, page_of,
    rank_window, rated,
    upward_after, upward_keeps, upward_page_misses_nothing, upward_page_only_adds, window_after,
    window_end, window_guilds_are_attackable, window_keeps, window_page_keeps,
    window_page_misses_nothing, window_start, Above, RankWindow, Standing,
};
use crate::progress::{ProgressModel, ProgressState, ScanPhase, TaskModel};
use crate::settings::ScanSettings;
use crate::sorting::{
    ascending, filtered_is_contained, sort, sorted_levels, sorted_levels_ascend, sorting_adds_nothing,
    sorting_keeps_length, stably_sorted, Ordered,
};
use crate::strict::{ascending_levels, levels_of, strict_outcome};
use crate::text::{decimal, push_decimal};

verus! {

/// The pause after a page of the hall of fame, in milliseconds.
pub const PAGE_PAUSE_MS: u64 = 250;

/// The pause after a guild, in milliseconds.
pub const GUILD_PAUSE_MS: u64 = 400;

/// How far a scan has come.
#[derive(Clone, Copy, Debug, PartialEq, Eq, Structural)]
pub enum ScanStage {
    /// In the window; `page` is the next one, or one past the last.
    Window { page: u32 },
    /// Above the window; `above` is the next page, if there is any further up,
    /// and `extra` pages were read.
    Upward { above: Option<u32>, extra: u32 },
    /// The members of the target with number `next` are due, if there is one.
    Details { next: usize },
    /// Nothing more to read.
    Finished,
}

/// What is to be done for a scan.
#[derive(Debug)]
pub enum ScanAction {
    /// Read this page of the hall of fame.
    FetchPage { page: u32 },
    /// Read the members of this guild.
    FetchGuild { name: String },
    /// Ask again; the hall of fame is done with.
    Continue,
    /// Store what was found.
    Finish,
}

/// A running scan.
#[derive(Debug)]
pub struct ScanRun {
    /// Our guild.
    pub own: OwnGuild,
    /// The server that is scanned.
    pub server: String,
    pub settings: ScanSettings,
    /// The levels of our active members, ascending.
    pub own_levels: Vec<u16>,
    pub window: RankWindow,
    pub stage: ScanStage,
    /// The guilds of the hall of fame that were kept.
    pub guilds: Vec<HofGuild>,
    /// The attackable ones among them, once the hall of fame is done with.
    pub targets: Vec<HofGuild>,
    /// The targets whose members were read.
    pub details: Vec<DetailedGuild>,
}

/// What a `ScanRun` says.
#[verifier::ext_equal]
pub struct RunModel {
    pub own: OwnGuildModel,
    pub server: Seq<char>,
    pub settings: ScanSettings,
    pub own_levels: Seq<u16>,
    pub window: RankWindow,
    pub stage: ScanStage,
    pub guilds: Seq<HofGuild>,
    pub targets: Seq<HofGuild>,
    pub details: Seq<DetailedGuildModel>,
}

impl View for ScanRun {
    type V = RunModel;

    open spec fn view(&self) -> RunModel {
        RunModel {
            own: self.own@,
            server: self.server@,
            settings: self.settings,
            own_levels: self.own_levels@,
            window: self.window,
            stage: self.stage,
            guilds: self.guilds@,
            targets: self.targets@,
            details: models(self.details@),
        }
    }
}

/// The attackable guilds of a list, in their order.
pub open spec fn attackable_of(guilds: Seq<HofGuild>) -> Seq<HofGuild> {
    guilds.filter(|g: HofGuild| g.attackable)
}

/// Whether a target is the source of what was read.
pub open spec fn read_from(target: HofGuild, d: DetailedGuildModel) -> bool {
    &&& d.name == target.name@
    &&& d.rank == target.rank
    &&& d.honor == target.honor
    &&& d.is_attacked == target.is_attacked
}

impl RunModel {
    /// The name, rank and honor of our guild.
    pub open spec fn standing(self) -> Standing {
        Standing { name: self.own.name, rank: self.own.rank, honor: self.own.honor }
    }

    /// Whether the pages above the window are wanted at all.
    pub open spec fn wants_upward(self) -> bool {
        self.settings.full_up_scan || self.settings.honor_up_scan
    }

    /// Which guilds above the window are wanted.
    pub open spec fn above(self) -> Above {
        Above { any: self.wants_upward(), full: self.settings.full_up_scan }
    }

    /// Whether another page above the window may be read after `extra` ones.
    pub open spec fn may_go_up(self, extra: int) -> bool {
        self.settings.full_up_scan || extra < self.settings.max_extra_up_pages
    }

    /// Whether the hall of fame is still read.
    pub open spec fn listing(self) -> bool {
        self.stage is Window || self.stage is Upward
    }

    /// What holds of every guild that was kept: it is not our own and not on
    /// our rank, it is marked by the attack rule, it lies in the window or
    /// above us and, unless the whole hall of fame is read, it is attackable.
    pub open spec fn keeps(self, g: HofGuild) -> bool {
        &&& g.name@ != self.own.name
        &&& g.rank != self.own.rank
        &&& g.attackable == attack_rule(self.own.rank, self.own.honor, g.rank, g.honor)
        &&& g.rank <= self.window.rank_down_end
        &&& g.rank < self.window.rank_up_start ==> g.rank < self.own.rank && self.wants_upward()
        &&& !self.settings.full_up_scan ==> g.attackable
    }

    /// What holds of every guild whose members were read: it is a target, and
    /// attackable.
    pub open spec fn was_read(self, d: DetailedGuildModel) -> bool {
        d.attackable && exists|i: int|
            0 <= i < self.targets.len() && read_from(#[trigger] self.targets[i], d)
    }

    /// Whether the stage fits the settings and the lists.
    pub open spec fn stage_fits(self) -> bool {
        match self.stage {
            ScanStage::Window { page } => {
                &&& self.window.page_low <= page <= self.window.page_high + 1
                &&& self.targets.len() == 0
                &&& self.details.len() == 0
            },
            ScanStage::Upward { above, extra } => {
                &&& self.wants_upward()
                &&& !self.settings.full_up_scan ==> extra <= self.settings.max_extra_up_pages
                &&& match above {
                    Some(q) => q + extra + 1 == self.window.page_low,
                    None => extra == self.window.page_low,
                }
                &&& self.targets.len() == 0
                &&& self.details.len() == 0
            },
            ScanStage::Details { next } => {
                &&& self.details.len() <= next <= self.targets.len()
                &&& ascending(self.guilds)
                &&& self.targets == attackable_of(self.guilds)
            },
            ScanStage::Finished => {
                &&& self.details.len() <= self.targets.len()
                &&& ascending(self.guilds)
                &&& self.targets == attackable_of(self.guilds)
            },
        }
    }

    /// What holds throughout a scan.
    pub open spec fn wf(self) -> bool {
        &&& self.window.well_formed()
        &&& self.window.rank_up_start == window_start(self.own.rank)
        &&& self.window.rank_down_end == window_end(self.own.rank, self.settings.down_limit)
        &&& self.window.page_low == page_of(window_start(self.own.rank))
        &&& self.window.page_high == page_of(window_end(self.own.rank, self.settings.down_limit))
        &&& self.own_levels == sorted_levels(levels_of(self.own.active_members))
        &&& self.stage_fits()
        &&& self.guilds.len() <= u32::MAX
        &&& forall|i: int| 0 <= i < self.guilds.len() ==> self.keeps(#[trigger] self.guilds[i])
        &&& forall|k: int| 0 <= k < self.details.len() ==> self.was_read(#[trigger] self.details[k])
    }

    /// The page of the hall of fame that is due, if any.
    pub open spec fn page_due(self) -> Option<u32> {
        match self.stage {
            ScanStage::Window { page } => if page <= self.window.page_high {
                Some(page)
            } else if self.wants_upward() && self.window.page_low > 0 && self.may_go_up(0) {
                Some((self.window.page_low - 1) as u32)
            } else {
                None
            },
            ScanStage::Upward { above, extra } => if self.may_go_up(extra as int) {
                above
            } else {
                None
            },
            _ => None,
        }
    }

    /// What is to be done next.
    pub open spec fn due(self, cancelled: bool) -> ScanAction {
        match self.stage {
            ScanStage::Finished => ScanAction::Finish,
            ScanStage::Details { next } => if !cancelled && next < self.targets.len() {
                ScanAction::FetchGuild { name: self.targets[next as int].name }
            } else {
                ScanAction::Finish
            },
            _ => match self.page_due() {
                Some(page) => if cancelled {
                    ScanAction::Continue
                } else {
                    ScanAction::FetchPage { page }
                },
                None => ScanAction::Continue,
            },
        }
    }

    /// The run after it was asked what is due. It changes only where it goes on
    /// above the window, where the hall of fame is done with (the guilds are
    /// then sorted by rank and the attackable ones become targets), and where
    /// it ends.
    pub open spec fn steps_to(self, cancelled: bool, next: RunModel) -> bool {
        match self.due(cancelled) {
            ScanAction::FetchPage { page } => next == (RunModel {
                stage: match self.stage {
                    ScanStage::Window { page: p } => if p <= self.window.page_high {
                        self.stage
                    } else {
                        ScanStage::Upward { above: Some(page), extra: 0 }
                    },
                    _ => self.stage,
                },
                ..self
            }),
            ScanAction::FetchGuild { .. } => next == self,
            ScanAction::Continue => {
                &&& stably_sorted(self.guilds, next.guilds)
                &&& next == (RunModel {
                    stage: ScanStage::Details { next: 0 },
                    guilds: next.guilds,
                    targets: attackable_of(next.guilds),
                    ..self
                })
            },
            ScanAction::Finish => next == (RunModel { stage: ScanStage::Finished, ..self }),
        }
    }

    /// The reported progress once this run was asked what is due.
    pub open spec fn reported(
        self,
        action: ScanAction,
        before: TaskModel<ScanPhase>,
    ) -> TaskModel<ScanPhase> {
        match action {
            ScanAction::FetchPage { page } => if self.stage is Window {
                TaskModel {
                    current: (page - self.window.page_low + 1) as u32,
                    message: window_page_text((page + 1) as nat, self.guilds.len()),
                    ..before
                }
            } else {
                TaskModel {
                    message: upward_page_text(self.settings.full_up_scan, (page + 1) as nat),
                    ..before
                }
            },
            ScanAction::FetchGuild { name } => match self.stage {
                ScanStage::Details { next } => TaskModel {
                    current: (next + 1) as u32,
                    message: guild_text((next + 1) as nat, self.targets.len(), name@),
                    ..before
                },
                _ => before,
            },
            ScanAction::Continue => TaskModel {
                phase: ScanPhase::Details,
                current: 0,
                total: self.targets.len() as u32,
                message: details_text(self.targets.len()),
                ..before
            },
            ScanAction::Finish => before,
        }
    }

    /// Whether a page was asked for.
    pub open spec fn awaits_page(self) -> bool {
        match self.stage {
            ScanStage::Window { page } => page <= self.window.page_high,
            ScanStage::Upward { above, extra } => above is Some && self.may_go_up(extra as int),
            _ => false,
        }
    }

    /// The run after the page that it asked for.
    pub open spec fn with_page(self, page: Seq<HofEntry>) -> RunModel {
        match self.stage {
            ScanStage::Window { page: p } => RunModel {
                stage: ScanStage::Window { page: (p + 1) as u32 },
                guilds: window_after(
                    self.standing(),
                    self.window,
                    self.above(),
                    self.guilds,
                    page,
                ),
                ..self
            },
            ScanStage::Upward { above: Some(q), extra } => RunModel {
                stage: ScanStage::Upward {
                    above: if q == 0 {
                        None
                    } else {
                        Some((q - 1) as u32)
                    },
                    extra: (extra + 1) as u32,
                },
                guilds: upward_after(
                    self.standing(),
                    self.settings.full_up_scan,
                    self.guilds,
                    page,
                ),
                ..self
            },
            _ => self,
        }
    }

    /// Whether a guild was asked for.
    pub open spec fn awaits_guild(self) -> bool {
        self.stage matches ScanStage::Details { next } && next < self.targets.len()
    }

    /// The run after the guild that it asked for, which may not have been
    /// found.
    pub open spec fn with_guild(self, view: Option<GuildView>) -> RunModel {
        match self.stage {
            ScanStage::Details { next } => RunModel {
                stage: ScanStage::Details { next: (next + 1) as usize },
                details: match view {
                    Some(v) => self.details.push(
                        scanned(self.targets[next as int], v, self.settings, self.own_levels),
                    ),
                    None => self.details,
                },
                ..self
            },
            _ => self,
        }
    }

    /// What is stored of the run at a point in time.
    pub open spec fn data(self, at: Timestamp) -> ScanModel {
        ScanModel {
            scanned_at: date_time_text(at),
            server: self.server,
            own_guild: self.own,
            hof_guilds: self.guilds,
            detailed_guilds: self.details,
        }
    }
}

// ── Messages ─────────────────────────────────────────────────────────────────

/// The message at the start of the window.
pub open spec fn window_text(start: nat, end: nat, pages: nat) -> Seq<char> {
    "Scanne Rangbereich #"@ + decimal(start) + "..#"@ + decimal(end) + " ("@ + decimal(pages)
        + " Seiten)..."@
}

/// The message for a page of the window.
pub open spec fn window_page_text(page: nat, found: nat) -> Seq<char> {
    "HoF Seite "@ + decimal(page) + " wird gescannt... ("@ + decimal(found) + " Gilden gesammelt)"@
}

/// The message for a page above the window.
pub open spec fn upward_page_text(full: bool, page: nat) -> Seq<char> {
    if full {
        "Vollständige Ehrenhalle: Seite "@ + decimal(page) + " wird geladen..."@
    } else {
        "HoF (Ehre-Regel): Seite "@ + decimal(page) + " wird geprüft..."@
    }
}

/// The message once the targets are known.
pub open spec fn details_text(targets: nat) -> Seq<char> {
    "Phase 2: Lade Details für "@ + decimal(targets) + " angreifbare Gilden..."@
}

/// The message for a guild.
pub open spec fn guild_text(number: nat, targets: nat, name: Seq<char>) -> Seq<char> {
    "Lade Gilde "@ + decimal(number) + "/"@ + decimal(targets) + ": "@ + name
}

/// Writes the message at the start of the window.
fn window_message(start: u32, end: u32, pages: u32) -> (r: String)
    ensures
        r@ == window_text(start as nat, end as nat, pages as nat),
{
    let mut r: String = "Scanne Rangbereich #".to_owned();
    push_decimal(&mut r, start as u64);
    r.append("..#");
    push_decimal(&mut r, end as u64);
    r.append(" (");
    push_decimal(&mut r, pages as u64);
    r.append(" Seiten)...");
    r
}

/// Writes the message for a page of the window.
fn window_page_message(page: u32, found: usize) -> (r: String)
    ensures
        r@ == window_page_text(page as nat, found as nat),
{
    let mut r: String = "HoF Seite ".to_owned();
    push_decimal(&mut r, page as u64);
    r.append(" wird gescannt... (");
    push_decimal(&mut r, found as u64);
    r.append(" Gilden gesammelt)");
    r
}

/// Writes the message for a page above the window.
fn upward_page_message(full: bool, page: u32) -> (r: String)
    ensures
        r@ == upward_page_text(full, page as nat),
{
    if full {
        let mut r: String = "Vollständige Ehrenhalle: Seite ".to_owned();
        push_decimal(&mut r, page as u64);
        r.append(" wird geladen...");
        r
    } else {
        let mut r: String = "HoF (Ehre-Regel): Seite ".to_owned();
        push_decimal(&mut r, page as u64);
        r.append(" wird geprüft...");
        r
    }
}

/// Writes the message once the targets are known.
fn details_message(targets: usize) -> (r: String)
    ensures
        r@ == details_text(targets as nat),
{
    let mut r: String = "Phase 2: Lade Details für ".to_owned();
    push_decimal(&mut r, targets as u64);
    r.append(" angreifbare Gilden...");
    r
}

/// Writes the message for a guild.
fn guild_message(number: u32, targets: usize, name: &String) -> (r: String)
    ensures
        r@ == guild_text(number as nat, targets as nat, name@),
{
    let mut r: String = "Lade Gilde ".to_owned();
    push_decimal(&mut r, number as u64);
    r.append("/");
    push_decimal(&mut r, targets as u64);
    r.append(": ");
    r.append(name.as_str());
    r
}

// ── Running a scan ───────────────────────────────────────────────────────────

/// What a page above the window adds is as `keeps` says.
proof fn upward_page_keeps(run: RunModel, page: Seq<HofEntry>)
    requires
        run.wf(),
        run.wants_upward(),
    ensures
        forall|i: int|
            0 <= i < upward_after(
                run.standing(),
                run.settings.full_up_scan,
                run.guilds,
                page,
            ).len() ==> run.keeps(
                #[trigger] upward_after(
                    run.standing(),
                    run.settings.full_up_scan,
                    run.guilds,
                    page,
                )[i],
            ),
{
    let own = run.standing();
    let full = run.settings.full_up_scan;
    let keep = |e: HofEntry| upward_keeps(own, full, e);
    let after = upward_after(own, full, run.guilds, page);
    upward_page_only_adds(own, full, run.guilds, page);
    assert forall|i: int| 0 <= i < after.len() implies run.keeps(#[trigger] after[i]) by {
        if i < run.guilds.len() {
            assert(after.take(run.guilds.len() as int)[i] == after[i]);
            assert(run.keeps(run.guilds[i]));
        } else {
            assert(from_page(own, keep, page, after[i]));
            let k = choose|k: int|
                0 <= k < page.len() && keep(#[trigger] page[k]) && after[i] == rated(own, page[k]);
            assert(keep(page[k]));
        }
    }
}

/// What a page of the window adds is as `keeps` says.
proof fn window_page_keeps_order(run: RunModel, page: Seq<HofEntry>)
    requires
        run.wf(),
    ensures
        forall|i: int|
            0 <= i < window_after(
                run.standing(),
                run.window,
                run.above(),
                run.guilds,
                page,
            ).len() ==> run.keeps(
                #[trigger] window_after(
                    run.standing(),
                    run.window,
                    run.above(),
                    run.guilds,
                    page,
                )[i],
            ),
{
    let own = run.standing();
    let keep = |e: HofEntry| window_page_keeps(own, run.window, run.above(), e);
    let after = window_after(own, run.window, run.above(), run.guilds, page);
    window_page_misses_nothing(own, run.window, run.above(), run.guilds, page);
    assert forall|i: int| 0 <= i < after.len() implies run.keeps(#[trigger] after[i]) by {
        if i < run.guilds.len() {
            assert(after.take(run.guilds.len() as int)[i] == after[i]);
            assert(run.keeps(run.guilds[i]));
        } else {
            assert(from_page(own, keep, page, after[i]));
            let k = choose|k: int|
                0 <= k < page.len() && keep(#[trigger] page[k]) && after[i] == rated(own, page[k]);
            assert(keep(page[k]));
        }
    }
}

/// A guild that was read leaves the run in order.
proof fn guild_keeps_order(run: RunModel, view: Option<GuildView>)
    requires
        run.wf(),
        run.awaits_guild(),
    ensures
        run.with_guild(view).wf(),
{
    let next = run.with_guild(view);
    assert forall|k: int| 0 <= k < next.details.len() implies next.was_read(
        #[trigger] next.details[k],
    ) by {
        if k < run.details.len() {
            assert(run.was_read(run.details[k]));
            let i = choose|i: int|
                0 <= i < run.targets.len() && read_from(
                    #[trigger] run.targets[i],
                    run.details[k],
                );
            assert(read_from(next.targets[i], next.details[k]));
        } else {
            let at = run.stage->next as int;
            assert(read_from(next.targets[at], next.details[k]));
        }
    }
}

/// A run that ends is in order.
proof fn ending_keeps_order(run: RunModel)
    requires
        run.wf(),
        run.stage is Details,
    ensures
        (RunModel { stage: ScanStage::Finished, ..run }).wf(),
{
    let next = RunModel { stage: ScanStage::Finished, ..run };
    assert forall|k: int| 0 <= k < next.details.len() implies next.was_read(
        #[trigger] next.details[k],
    ) by {
        assert(run.was_read(run.details[k]));
        let i = choose|i: int|
            0 <= i < run.targets.len() && read_from(#[trigger] run.targets[i], run.details[k]);
        assert(read_from(next.targets[i], next.details[k]));
    }
    assert forall|i: int| 0 <= i < next.guilds.len() implies next.keeps(
        #[trigger] next.guilds[i],
    ) by {
        assert(run.keeps(run.guilds[i]));
    }
}

/// The attackable guilds of a list.
fn collect_targets(guilds: &Vec<HofGuild>) -> (r: Vec<HofGuild>)
    ensures
        r@ == attackable_of(guilds@),
{
    let ghost pred = |g: HofGuild| g.attackable;
    let mut r: Vec<HofGuild> = Vec::new();
    let mut i: usize = 0;
    proof {
        reveal(Seq::filter);
        assert(guilds@.take(0).filter(pred) =~= Seq::<HofGuild>::empty());
    }
    while i < guilds.len()
        invariant
            i <= guilds@.len(),
            pred == (|g: HofGuild| g.attackable),
            r@ =~= guilds@.take(i as int).filter(pred),
        decreases guilds@.len() - i,
    {
        proof {
            assert(guilds@.take(i + 1) =~= guilds@.take(i as int).push(guilds@[i as int]));
            guilds@.take(i as int).lemma_filter_push(guilds@[i as int], pred);
        }
        if guilds[i].attackable {
            r.push(guilds[i].clone());
        }
        i = i + 1;
    }
    assert(guilds@.take(i as int) =~= guilds@);
    r
}

impl ScanRun {
    /// Whether the run is in order.
    pub open spec fn wf(&self) -> bool {
        self@.wf()
    }

    /// A scan that has read nothing yet.
    pub fn new(own: OwnGuild, server: String, settings: ScanSettings) -> (r: ScanRun)
        ensures
            r.wf(),
            r@ == (RunModel {
                own: own@,
                server: server@,
                settings,
                own_levels: sorted_levels(levels_of(own.active_members@)),
                window: r.window,
                stage: ScanStage::Window { page: r.window.page_low },
                guilds: Seq::empty(),
                targets: Seq::empty(),
                details: Seq::empty(),
            }),
    {
        let own_levels: Vec<u16> = ascending_levels(&own.active_members);
        let window: RankWindow = rank_window(own.rank, settings.down_limit);
        let r: ScanRun = ScanRun {
            own,
            server,
            settings,
            own_levels,
            window,
            stage: ScanStage::Window { page: window.page_low },
            guilds: Vec::new(),
            targets: Vec::new(),
            details: Vec::new(),
        };
        assert(r@.details =~= Seq::empty());
        r
    }

    /// Reports the window of ranks and its number of pages.
    pub fn announce(&self, progress: &mut ProgressState)
        requires
            self.wf(),
        ensures
            final(progress)@ == (ProgressModel {
                scan: TaskModel {
                    total: (self.window.page_high - self.window.page_low + 1) as u32,
                    message: window_text(
                        self.window.rank_up_start as nat,
                        self.window.rank_down_end as nat,
                        (self.window.page_high - self.window.page_low + 1) as nat,
                    ),
                    ..old(progress)@.scan
                },
                ..old(progress)@
            }),
    {
        let pages: u32 = self.window.page_count();
        progress.scan.total = pages;
        progress.scan.message =
        window_message(self.window.rank_up_start, self.window.rank_down_end, pages);
    }

    /// The page of the hall of fame that is due, if any.
    fn find_page(&self) -> (r: Option<u32>)
        requires
            self.wf(),
        ensures
            r == self@.page_due(),
    {
        let upward: bool = self.settings.full_up_scan || self.settings.honor_up_scan;
        match self.stage {
            ScanStage::Window { page } => {
                if page <= self.window.page_high {
                    Some(page)
                } else if upward && self.window.page_low > 0 && (self.settings.full_up_scan
                    || self.settings.max_extra_up_pages > 0) {
                    Some(self.window.page_low - 1)
                } else {
                    None
                }
            },
            ScanStage::Upward { above, extra } => {
                if self.settings.full_up_scan || extra < self.settings.max_extra_up_pages {
                    above
                } else {
                    None
                }
            },
            _ => None,
        }
    }

    /// The hall of fame is done with: sorts the guilds by rank and picks the
    /// targets.
    fn begin_details(&mut self)
        requires
            old(self).wf(),
            old(self)@.listing(),
        ensures
            final(self).wf(),
            stably_sorted(old(self)@.guilds, final(self)@.guilds),
            final(self)@ == (RunModel {
                stage: ScanStage::Details { next: 0 },
                guilds: final(self)@.guilds,
                targets: attackable_of(final(self)@.guilds),
                ..old(self)@
            }),
    {
        let ghost before = self@;
        let mut taken: Vec<HofGuild> = Vec::new();
        std::mem::swap(&mut taken, &mut self.guilds);
        let sorted: Vec<HofGuild> = sort(taken);
        proof {
            sorting_keeps_length(before.guilds, sorted@);
            assert forall|i: int| 0 <= i < sorted@.len() implies before.keeps(
                #[trigger] sorted@[i],
            ) by {
                sorting_adds_nothing(before.guilds, sorted@, i);
                let k = choose|k: int|
                    0 <= k < before.guilds.len() && before.guilds[k] == sorted@[i];
                assert(before.keeps(before.guilds[k]));
            }
        }
        self.targets = collect_targets(&sorted);
        self.guilds = sorted;
        self.stage = ScanStage::Details { next: 0 };
    }

    /// Decides what is to be done next, and reports it. A request to stop ends
    /// the reading.
    pub fn next_action(&mut self, progress: &mut ProgressState) -> (action: ScanAction)
        requires
            old(self).wf(),
        ensures
            final(self).wf(),
            action == old(self)@.due(old(progress).cancel_scan),
            old(self)@.steps_to(old(progress).cancel_scan, final(self)@),
            final(progress)@ == (ProgressModel {
                scan: final(self)@.reported(action, old(progress)@.scan),
                ..old(progress)@
            }),
            action is FetchPage ==> final(self)@.awaits_page(),
            action is FetchGuild ==> final(self)@.awaits_guild(),
    {
        let cancelled: bool = progress.cancel_scan;
        match self.stage {
            ScanStage::Finished => ScanAction::Finish,
            ScanStage::Details { next } => {
                if cancelled || next >= self.targets.len() {
                    proof {
                        ending_keeps_order(self@);
                    }
                    self.stage = ScanStage::Finished;
                    return ScanAction::Finish;
                }
                proof {
                    self@.guilds.lemma_filter_len(|g: HofGuild| g.attackable);
                }
                let number: u32 = next as u32 + 1;
                let name: String = self.targets[next].name.clone();
                progress.scan.current = number;
                progress.scan.message = guild_message(number, self.targets.len(), &name);
                ScanAction::FetchGuild { name }
            },
            _ => {
                match self.find_page() {
                    Some(page) => {
                        if !cancelled {
                            if let ScanStage::Window { page: p } = self.stage {
                                if p > self.window.page_high {
                                    self.stage = ScanStage::Upward { above: Some(page), extra: 0 };
                                }
                            }
                            if let ScanStage::Window { .. } = self.stage {
                                progress.scan.current = page - self.window.page_low + 1;
                                progress.scan.message =
                                window_page_message(page + 1, self.guilds.len());
                            } else {
                                progress.scan.message =
                                upward_page_message(self.settings.full_up_scan, page + 1);
                            }
                            return ScanAction::FetchPage { page };
                        }
                    },
                    None => {},
                }
                self.begin_details();
                let count: usize = self.targets.len();
                progress.scan.phase = ScanPhase::Details;
                progress.scan.current = 0;
                progress.scan.total = count as u32;
                progress.scan.message = details_message(count);
                ScanAction::Continue
            },
        }
    }

    /// Takes in the page that was asked for; a page that could not be read is
    /// empty. Returns how long to wait, in milliseconds.
    pub fn page_loaded(&mut self, page: Vec<HofEntry>) -> (pause: u64)
        requires
            old(self).wf(),
            old(self)@.awaits_page(),
            old(self)@.guilds.len() + page@.len() <= u32::MAX,
        ensures
            final(self).wf(),
            final(self)@ == old(self)@.with_page(page@),
            pause == if old(self).stage matches ScanStage::Upward { above: Some(0), .. } {
                0u64
            } else {
                PAGE_PAUSE_MS
            },
    {
        let ghost before = self@;
        match self.stage {
            ScanStage::Window { page: p } => {
                proof {
                    window_page_keeps_order(before, page@);
                    window_page_misses_nothing(
                        before.standing(),
                        before.window,
                        before.above(),
                        before.guilds,
                        page@,
                    );
                }
                let up: Above = Above {
                    any: self.settings.full_up_scan || self.settings.honor_up_scan,
                    full: self.settings.full_up_scan,
                };
                collect_window_page(&self.own, &self.window, up, &page, &mut self.guilds);
                self.stage = ScanStage::Window { page: p + 1 };
                PAGE_PAUSE_MS
            },
            ScanStage::Upward { above: Some(q), extra } => {
                proof {
                    upward_page_keeps(before, page@);
                    upward_page_only_adds(
                        before.standing(),
                        before.settings.full_up_scan,
                        before.guilds,
                        page@,
                    );
                }
                collect_upward_page(
                    &self.own,
                    self.settings.full_up_scan,
                    &page,
                    &mut self.guilds,
                );
                if q == 0 {
                    self.stage = ScanStage::Upward { above: None, extra: extra + 1 };
                    0
                } else {
                    self.stage = ScanStage::Upward { above: Some(q - 1), extra: extra + 1 };
                    PAGE_PAUSE_MS
                }
            },
            _ => PAGE_PAUSE_MS,
        }
    }

    /// Takes in the guild that was asked for, if it was found. Returns how long
    /// to wait, in milliseconds.
    pub fn guild_loaded(&mut self, view: Option<GuildView>) -> (pause: u64)
        requires
            old(self).wf(),
            old(self)@.awaits_guild(),
            view matches Some(v) ==> total(v.levels()) <= u32::MAX,
        ensures
            final(self).wf(),
            final(self)@ == old(self)@.with_guild(view),
            pause == GUILD_PAUSE_MS,
    {
        let ghost before = self@;
        proof {
            guild_keeps_order(before, view);
        }
        if let ScanStage::Details { next } = self.stage {
            if let Some(v) = view {
                let detail: DetailedGuild = scan_detail(
                    &self.targets[next],
                    v,
                    &self.settings,
                    &self.own_levels,
                );
                self.details.push(detail);
                assert(models(self.details@) =~= before.details.push(detail@));
            }
            self.stage = ScanStage::Details { next: next + 1 };
        }
        GUILD_PAUSE_MS
    }

    /// What is stored of the run at a point in time.
    pub fn into_data(self, at: Timestamp) -> (r: ScanData)
        ensures
            r@ == self@.data(at),
    {
        ScanData {
            scanned_at: show_date_time(at),
            server: self.server,
            own_guild: self.own,
            hof_guilds: self.guilds,
            detailed_guilds: self.details,
        }
    }

    /// What is stored of the run now.
    pub fn finish(self) -> (r: ScanData)
        ensures
            exists|at: Timestamp| r@ == #[trigger] self@.data(at),
    {
        let at: Timestamp = now();
        self.into_data(at)
    }
}

// ── Laws ─────────────────────────────────────────────────────────────────────

/// A scan that is to stop reads nothing more.
pub proof fn cancelled_scan_reads_nothing(run: RunModel)
    ensures
        run.due(true) is Continue || run.due(true) is Finish,
{
}

/// A scan never lists our own guild nor one on our rank, and marks every guild
/// by the attack rule.
pub proof fn listed_guilds_are_rated_others(run: RunModel, i: int)
    requires
        run.wf(),
        0 <= i < run.guilds.len(),
    ensures
        run.guilds[i].name@ != run.own.name,
        run.guilds[i].rank != run.own.rank,
        run.guilds[i].attackable == attack_rule(
            run.own.rank,
            run.own.honor,
            run.guilds[i].rank,
            run.guilds[i].honor,
        ),
{
    assert(run.keeps(run.guilds[i]));
}

/// Only the scan of the whole hall of fame lists guilds that are out of reach.
pub proof fn only_full_scan_lists_unreachable_guilds(run: RunModel, i: int)
    requires
        run.wf(),
        0 <= i < run.guilds.len(),
        !run.guilds[i].attackable,
    ensures
        run.settings.full_up_scan,
{
    assert(run.keeps(run.guilds[i]));
}

/// What a scan stores is sorted by rank, and every guild whose members it
/// stores is attackable and in the list.
pub proof fn stored_scan_is_sorted_and_attackable(run: RunModel, at: Timestamp)
    requires
        run.wf(),
        run.stage is Finished,
    ensures
        ascending(run.data(at).hof_guilds),
        forall|k: int|
            0 <= k < run.data(at).detailed_guilds.len() ==> {
                let d = #[trigger] run.data(at).detailed_guilds[k];
                d.attackable && exists|i: int|
                    0 <= i < run.guilds.len() && run.guilds[i].attackable && read_from(
                        #[trigger] run.guilds[i],
                        d,
                    )
            },
{
    broadcast use group_filter_ensures;

    let pred = |g: HofGuild| g.attackable;
    assert forall|k: int| 0 <= k < run.data(at).detailed_guilds.len() implies {
        let d = #[trigger] run.data(at).detailed_guilds[k];
        d.attackable && exists|i: int|
            0 <= i < run.guilds.len() && run.guilds[i].attackable && read_from(
                #[trigger] run.guilds[i],
                d,
            )
    } by {
        let d = run.details[k];
        assert(run.was_read(d));
        let t = choose|t: int| 0 <= t < run.targets.len() && read_from(#[trigger] run.targets[t], d);
        filtered_is_contained(run.guilds, pred, t);
        assert(pred(run.guilds.filter(pred)[t]));
        let i = choose|i: int| 0 <= i < run.guilds.len() && run.guilds[i] == run.targets[t];
        assert(read_from(run.guilds[i], d));
    }
}

/// By the honor rule alone, a scan reads at most as many extra pages as the
/// settings allow.
pub proof fn honor_scan_stays_in_limit(run: RunModel)
    requires
        run.wf(),
        !run.settings.full_up_scan,
    ensures
        run.stage matches ScanStage::Upward { extra, .. } ==> extra
            <= run.settings.max_extra_up_pages,
{
}

/// How many pages above the window a scan reads if it is not stopped.
pub open spec fn extra_pages(run: RunModel) -> int {
    if !run.wants_upward() {
        0
    } else if run.settings.full_up_scan || run.window.page_low
        <= run.settings.max_extra_up_pages {
        run.window.page_low as int
    } else {
        run.settings.max_extra_up_pages as int
    }
}

/// Where no page is due any more, all pages of the window were read, and above
/// it as many as wanted: all up to rank 1 if the whole hall of fame is wanted,
/// by the honor rule as many as the limit allows, and else none.
pub proof fn all_wanted_pages_are_read(run: RunModel)
    requires
        run.wf(),
        run.listing(),
        run.page_due() is None,
    ensures
        match run.stage {
            ScanStage::Window { page } => page == run.window.page_high + 1 && extra_pages(run) == 0,
            ScanStage::Upward { extra, .. } => extra == extra_pages(run),
            _ => false,
        },
{
}

/// How many pages a scan may still read.
pub open spec fn pages_left(run: RunModel) -> int {
    match run.stage {
        ScanStage::Window { page } => run.window.page_high + 1 - page + run.window.page_low,
        ScanStage::Upward { above: Some(q), .. } => q + 1,
        _ => 0,
    }
}

/// How many guilds a scan may still read.
pub open spec fn guilds_left(run: RunModel) -> int {
    match run.stage {
        ScanStage::Details { next } => run.targets.len() - next,
        _ => 0,
    }
}

/// A scan comes to an end: with every page there is one less to read, with
/// every guild as well, and asking what is due adds none.
pub proof fn scan_comes_to_an_end(
    run: RunModel,
    page: Seq<HofEntry>,
    view: Option<GuildView>,
    cancelled: bool,
    next: RunModel,
)
    requires
        run.wf(),
    ensures
        run.awaits_page() ==> 0 <= pages_left(run.with_page(page)) < pages_left(run),
        run.awaits_guild() ==> 0 <= guilds_left(run.with_guild(view)) < guilds_left(run),
        run.steps_to(cancelled, next) ==> pages_left(next) <= pages_left(run),
        run.steps_to(cancelled, next) && !run.listing() ==> guilds_left(next) <= guilds_left(run),
{
}

// What a whole scan finds. `hall` gives the guilds that each page lists.

/// What the pages of the window before page `end` bring.
pub open spec fn window_found(
    run: RunModel,
    hall: spec_fn(int) -> Seq<HofEntry>,
    end: int,
) -> Seq<HofGuild>
    decreases end - run.window.page_low,
{
    if end <= run.window.page_low {
        Seq::empty()
    } else {
        window_after(
            run.standing(),
            run.window,
            run.above(),
            window_found(run, hall, end - 1),
            hall(end - 1),
        )
    }
}

/// What the window and the first `extra` pages above it bring.
pub open spec fn found(
    run: RunModel,
    hall: spec_fn(int) -> Seq<HofEntry>,
    extra: int,
) -> Seq<HofGuild>
    decreases extra,
{
    if extra <= 0 {
        window_found(run, hall, run.window.page_high + 1)
    } else {
        upward_after(
            run.standing(),
            run.settings.full_up_scan,
            found(run, hall, extra - 1),
            hall(run.window.page_low - extra),
        )
    }
}

/// Whether the guilds of a run are what the pages read so far list.
pub open spec fn lists(run: RunModel, hall: spec_fn(int) -> Seq<HofEntry>) -> bool {
    match run.stage {
        ScanStage::Window { page } => run.guilds == window_found(run, hall, page as int),
        ScanStage::Upward { extra, .. } => run.guilds == found(run, hall, extra as int),
        _ => stably_sorted(found(run, hall, extra_pages(run)), run.guilds),
    }
}

/// What the window brings depends on the window, the settings and our guild
/// only.
proof fn window_found_ignores_progress(
    a: RunModel,
    b: RunModel,
    hall: spec_fn(int) -> Seq<HofEntry>,
    end: int,
)
    requires
        a.window == b.window,
        a.settings == b.settings,
        a.own == b.own,
    ensures
        window_found(a, hall, end) == window_found(b, hall, end),
    decreases end - a.window.page_low,
{
    if end > a.window.page_low {
        window_found_ignores_progress(a, b, hall, end - 1);
    }
}

/// What was found depends on the window, the settings and our guild only.
proof fn found_ignores_progress(
    a: RunModel,
    b: RunModel,
    hall: spec_fn(int) -> Seq<HofEntry>,
    extra: int,
)
    requires
        a.window == b.window,
        a.settings == b.settings,
        a.own == b.own,
    ensures
        found(a, hall, extra) == found(b, hall, extra),
    decreases extra,
{
    if extra > 0 {
        found_ignores_progress(a, b, hall, extra - 1);
    } else {
        window_found_ignores_progress(a, b, hall, a.window.page_high + 1);
    }
}

/// With each page that is due a scan has what the pages so far list; and once
/// no page is due any more, it has what all wanted pages list, sorted by rank.
pub proof fn scan_lists_what_pages_list(
    run: RunModel,
    hall: spec_fn(int) -> Seq<HofEntry>,
    next: RunModel,
)
    requires
        run.wf(),
        lists(run, hall),
        run.steps_to(false, next),
    ensures
        lists(next, hall),
        run.due(false) matches ScanAction::FetchPage { page } ==> lists(
            next.with_page(hall(page as int)),
            hall,
        ),
{
    match run.due(false) {
        ScanAction::FetchPage { page } => {
            let after = next.with_page(hall(page as int));
            match next.stage {
                ScanStage::Window { page: p } => {
                    window_found_ignores_progress(run, next, hall, p as int);
                    window_found_ignores_progress(next, after, hall, p + 1);
                },
                ScanStage::Upward { extra, .. } => {
                    found_ignores_progress(run, next, hall, extra as int);
                    found_ignores_progress(next, after, hall, extra + 1);
                    found_ignores_progress(run, next, hall, 0);
                },
                _ => {},
            }
        },
        ScanAction::Continue => {
            all_wanted_pages_are_read(run);
            found_ignores_progress(run, next, hall, extra_pages(run));
        },
        _ => {
            found_ignores_progress(run, next, hall, extra_pages(run));
        },
    }
}

/// Whether `after` starts with what `before` holds.
pub open spec fn extends(before: Seq<HofGuild>, after: Seq<HofGuild>) -> bool {
    before.len() <= after.len() && after.take(before.len() as int) == before
}

/// What an extended list holds, it held before or has got since; its names stay.
proof fn extended_list_holds(before: Seq<HofGuild>, after: Seq<HofGuild>)
    requires
        extends(before, after),
    ensures
        forall|g: HofGuild| before.contains(g) ==> #[trigger] after.contains(g),
        forall|name: Seq<char>| has_name(before, name) ==> #[trigger] has_name(after, name),
{
    assert forall|k: int| 0 <= k < before.len() implies #[trigger] after[k] == before[k] by {
        assert(after.take(before.len() as int)[k] == after[k]);
    }
    assert forall|g: HofGuild| before.contains(g) implies #[trigger] after.contains(g) by {
        let k = choose|k: int| 0 <= k < before.len() && before[k] == g;
        assert(after[k] == g);
    }
    assert forall|name: Seq<char>| has_name(before, name) implies #[trigger] has_name(
        after,
        name,
    ) by {
        let k = choose|k: int| 0 <= k < before.len() && (#[trigger] before[k]).name@ == name;
        assert(after[k].name@ == name);
    }
}

/// What the first pages of the window bring stays.
proof fn window_found_extends(
    run: RunModel,
    hall: spec_fn(int) -> Seq<HofEntry>,
    few: int,
    many: int,
)
    requires
        run.window.page_low <= few <= many,
    ensures
        extends(window_found(run, hall, few), window_found(run, hall, many)),
    decreases many,
{
    let start = window_found(run, hall, few);
    if few < many {
        window_found_extends(run, hall, few, many - 1);
        let before = window_found(run, hall, many - 1);
        let after = window_found(run, hall, many);
        window_page_misses_nothing(
            run.standing(),
            run.window,
            run.above(),
            before,
            hall(many - 1),
        );
        assert(after.take(start.len() as int) =~= after.take(before.len() as int).take(
            start.len() as int,
        ));
    } else {
        assert(start.take(start.len() as int) =~= start);
    }
}

/// What the first pages above the window bring stays.
proof fn found_extends(run: RunModel, hall: spec_fn(int) -> Seq<HofEntry>, few: int, many: int)
    requires
        0 <= few <= many,
    ensures
        extends(found(run, hall, few), found(run, hall, many)),
    decreases many,
{
    let start = found(run, hall, few);
    if few < many {
        found_extends(run, hall, few, many - 1);
        let before = found(run, hall, many - 1);
        let after = found(run, hall, many);
        upward_page_only_adds(
            run.standing(),
            run.settings.full_up_scan,
            before,
            hall(run.window.page_low - many),
        );
        assert(after.take(start.len() as int) =~= after.take(before.len() as int).take(
            start.len() as int,
        ));
    } else {
        assert(start.take(start.len() as int) =~= start);
    }
}

/// The list after a page of the window is part of what the whole scan finds, and
/// sorting keeps it.
proof fn window_page_stays(run: RunModel, hall: spec_fn(int) -> Seq<HofEntry>, page: int)
    requires
        run.wf(),
        lists(run, hall),
        !run.listing(),
        run.window.page_low <= page <= run.window.page_high,
    ensures
        forall|g: HofGuild|
            window_found(run, hall, page + 1).contains(g) ==> #[trigger] run.guilds.contains(g),
        forall|name: Seq<char>|
            has_name(window_found(run, hall, page + 1), name) ==> #[trigger] has_name(
                run.guilds,
                name,
            ),
{
    let all = found(run, hall, extra_pages(run));
    window_found_extends(run, hall, page + 1, run.window.page_high + 1);
    extended_list_holds(
        window_found(run, hall, page + 1),
        window_found(run, hall, run.window.page_high + 1),
    );
    found_extends(run, hall, 0, extra_pages(run));
    extended_list_holds(found(run, hall, 0), all);
    sorted_list_holds(all, run.guilds);
}

/// A sorted list holds the same guilds and names.
proof fn sorted_list_holds(all: Seq<HofGuild>, sorted: Seq<HofGuild>)
    requires
        stably_sorted(all, sorted),
    ensures
        forall|g: HofGuild| all.contains(g) ==> #[trigger] sorted.contains(g),
        forall|name: Seq<char>| has_name(all, name) ==> #[trigger] has_name(sorted, name),
{
    all.to_multiset_ensures();
    sorted.to_multiset_ensures();
    assert forall|g: HofGuild| all.contains(g) implies #[trigger] sorted.contains(g) by {
        assert(all.to_multiset().count(g) > 0);
    }
    assert forall|name: Seq<char>| has_name(all, name) implies #[trigger] has_name(
        sorted,
        name,
    ) by {
        let k = choose|k: int| 0 <= k < all.len() && (#[trigger] all[k]).name@ == name;
        assert(all.contains(all[k]));
        assert(sorted.contains(all[k]));
        let j = choose|j: int| 0 <= j < sorted.len() && sorted[j] == all[k];
        assert(sorted[j].name@ == name);
    }
}

/// A scan misses no guild of the window: once all pages were read, every guild
/// that a page of the window lists, other than our own and on another rank in
/// the window, is in the list, and it is a target.
pub proof fn scan_finds_every_guild_of_the_window(
    run: RunModel,
    hall: spec_fn(int) -> Seq<HofEntry>,
    page: int,
    i: int,
)
    requires
        run.wf(),
        lists(run, hall),
        !run.listing(),
        run.window.page_low <= page <= run.window.page_high,
        0 <= i < hall(page).len(),
        window_keeps(
            run.standing(),
            run.window.rank_up_start,
            run.window.rank_down_end,
            hall(page)[i],
        ),
    ensures
        run.guilds.contains(rated(run.standing(), hall(page)[i])),
        run.targets.contains(rated(run.standing(), hall(page)[i])),
{
    broadcast use group_filter_ensures;

    let own = run.standing();
    let g = rated(own, hall(page)[i]);
    window_page_misses_nothing(
        own,
        run.window,
        run.above(),
        window_found(run, hall, page),
        hall(page),
    );
    window_page_stays(run, hall, page);
    assert(window_found(run, hall, page + 1).contains(g));
    assert(run.guilds.contains(g));
    window_guilds_are_attackable(own, run.window.rank_down_end, hall(page)[i]);
    let pred = |x: HofGuild| x.attackable;
    assert(pred(g));
    assert(run.guilds.filter(pred).contains(g));
}

/// A scan that goes above the window misses no guild above us on the pages that
/// it reads: once all pages were read, every guild on them that stands above us
/// and, unless the whole hall of fame is wanted, keeps the honor rule, is in the
/// list.
pub proof fn scan_finds_every_guild_above(
    run: RunModel,
    hall: spec_fn(int) -> Seq<HofEntry>,
    page: int,
    i: int,
)
    requires
        run.wf(),
        lists(run, hall),
        !run.listing(),
        run.wants_upward(),
        run.window.page_low - extra_pages(run) <= page <= run.window.page_high,
        0 <= i < hall(page).len(),
        upward_keeps(run.standing(), run.settings.full_up_scan, hall(page)[i]),
    ensures
        has_name(run.guilds, hall(page)[i].name@),
{
    let own = run.standing();
    let e = hall(page)[i];
    if page < run.window.page_low {
        let extra = run.window.page_low - page;
        let all = found(run, hall, extra_pages(run));
        upward_page_misses_nothing(
            own,
            run.settings.full_up_scan,
            found(run, hall, extra - 1),
            hall(page),
            i,
        );
        found_extends(run, hall, extra, extra_pages(run));
        extended_list_holds(found(run, hall, extra), all);
        sorted_list_holds(all, run.guilds);
    } else if e.rank < run.window.rank_up_start {
        window_page_misses_nothing(
            own,
            run.window,
            run.above(),
            window_found(run, hall, page),
            hall(page),
        );
        window_page_stays(run, hall, page);
        assert(has_name(window_found(run, hall, page + 1), e.name@));
    } else {
        scan_finds_every_guild_of_the_window(run, hall, page, i);
        let k = choose|k: int|
            0 <= k < run.guilds.len() && run.guilds[k] == rated(own, e);
        assert(run.guilds[k].name@ == e.name@);
    }
}

/// The scan of the whole hall of fame is complete: if each page lists guilds of
/// the ranks that belong on it, every guild from rank 1 to the end of the window
/// is in the list, whatever its honor and whatever the limit of extra pages.
/// Only our own guild and guilds on our rank are not.
pub proof fn full_scan_finds_every_guild(
    run: RunModel,
    hall: spec_fn(int) -> Seq<HofEntry>,
    page: int,
    i: int,
)
    requires
        run.wf(),
        lists(run, hall),
        !run.listing(),
        run.settings.full_up_scan,
        0 <= i < hall(page).len(),
        page == page_of(hall(page)[i].rank as int),
        1 <= hall(page)[i].rank <= run.window.rank_down_end,
        hall(page)[i].name@ != run.own.name,
        hall(page)[i].rank != run.own.rank,
    ensures
        has_name(run.guilds, hall(page)[i].name@),
{
    let e = hall(page)[i];
    if e.rank < run.own.rank {
        scan_finds_every_guild_above(run, hall, page, i);
    } else {
        scan_finds_every_guild_of_the_window(run, hall, page, i);
        let k = choose|k: int|
            0 <= k < run.guilds.len() && run.guilds[k] == rated(run.standing(), e);
        assert(run.guilds[k].name@ == e.name@);
    }
}

/// A guild is rated from an entry of a page.
pub open spec fn rated_from(
    run: RunModel,
    hall: spec_fn(int) -> Seq<HofEntry>,
    page: int,
    i: int,
    g: HofGuild,
) -> bool {
    &&& run.window.page_low - extra_pages(run) <= page <= run.window.page_high
    &&& 0 <= i < hall(page).len()
    &&& g == rated(run.standing(), hall(page)[i])
}

/// What the window brings is listed on its pages.
proof fn window_found_is_listed(
    run: RunModel,
    hall: spec_fn(int) -> Seq<HofEntry>,
    end: int,
    k: int,
) -> (at: (int, int))
    requires
        run.window.page_low <= end <= run.window.page_high + 1,
        extra_pages(run) >= 0,
        0 <= k < window_found(run, hall, end).len(),
    ensures
        rated_from(run, hall, at.0, at.1, window_found(run, hall, end)[k]),
    decreases end,
{
    let own = run.standing();
    let before = window_found(run, hall, end - 1);
    let after = window_found(run, hall, end);
    let page = hall(end - 1);
    window_page_misses_nothing(own, run.window, run.above(), before, page);
    if k < before.len() {
        assert(after.take(before.len() as int)[k] == after[k]);
        window_found_is_listed(run, hall, end - 1, k)
    } else {
        let keep = |e: HofEntry| window_page_keeps(own, run.window, run.above(), e);
        assert(from_page(own, keep, page, after[k]));
        let i = choose|i: int|
            0 <= i < page.len() && keep(#[trigger] page[i]) && after[k] == rated(own, page[i]);
        (end - 1, i)
    }
}

/// What was found is listed on the pages that were read.
proof fn found_is_listed(
    run: RunModel,
    hall: spec_fn(int) -> Seq<HofEntry>,
    extra: int,
    k: int,
) -> (at: (int, int))
    requires
        run.wf(),
        0 <= extra <= extra_pages(run),
        0 <= k < found(run, hall, extra).len(),
    ensures
        rated_from(run, hall, at.0, at.1, found(run, hall, extra)[k]),
    decreases extra,
{
    let own = run.standing();
    if extra == 0 {
        window_found_is_listed(run, hall, run.window.page_high + 1, k)
    } else {
        let before = found(run, hall, extra - 1);
        let after = found(run, hall, extra);
        let page = hall(run.window.page_low - extra);
        upward_page_only_adds(own, run.settings.full_up_scan, before, page);
        if k < before.len() {
            assert(after.take(before.len() as int)[k] == after[k]);
            found_is_listed(run, hall, extra - 1, k)
        } else {
            let keep = |e: HofEntry| upward_keeps(own, run.settings.full_up_scan, e);
            assert(from_page(own, keep, page, after[k]));
            let i = choose|i: int|
                0 <= i < page.len() && keep(#[trigger] page[i]) && after[k] == rated(own, page[i]);
            (run.window.page_low - extra, i)
        }
    }
}

/// A scan invents nothing: once all pages were read, every guild in the list is
/// one that a page which was read lists, with its mark.
pub proof fn listed_guilds_come_from_pages(
    run: RunModel,
    hall: spec_fn(int) -> Seq<HofEntry>,
    k: int,
)
    requires
        run.wf(),
        lists(run, hall),
        !run.listing(),
        0 <= k < run.guilds.len(),
    ensures
        exists|page: int, i: int| #[trigger] rated_from(run, hall, page, i, run.guilds[k]),
{
    let all = found(run, hall, extra_pages(run));
    sorting_adds_nothing(all, run.guilds, k);
    let j = choose|j: int| 0 <= j < all.len() && all[j] == run.guilds[k];
    let at = found_is_listed(run, hall, extra_pages(run), j);
    assert(rated_from(run, hall, at.0, at.1, run.guilds[k]));
}

/// Where no two entries of the pages that are read have the same name, a guild
/// of a name in the list is the one that a page lists under that name, with its
/// rank, honor and mark.
pub proof fn listed_name_is_the_guild(
    run: RunModel,
    hall: spec_fn(int) -> Seq<HofEntry>,
    page: int,
    i: int,
)
    requires
        run.wf(),
        lists(run, hall),
        !run.listing(),
        rated_from(run, hall, page, i, rated(run.standing(), hall(page)[i])),
        has_name(run.guilds, hall(page)[i].name@),
        forall|p: int, j: int, g: HofGuild| #[trigger]
            rated_from(run, hall, p, j, g) && g.name@ == hall(page)[i].name@ ==> p == page && j
                == i,
    ensures
        run.guilds.contains(rated(run.standing(), hall(page)[i])),
{
    let k = choose|k: int|
        0 <= k < run.guilds.len() && (#[trigger] run.guilds[k]).name@ == hall(page)[i].name@;
    listed_guilds_come_from_pages(run, hall, k);
    let (p, j) = choose|p: int, j: int| #[trigger] rated_from(run, hall, p, j, run.guilds[k]);
    assert(run.guilds[k] == rated(run.standing(), hall(page)[i]));
}

/// Whether an entry of one of these pages is the source of a guild.
pub open spec fn listed_on(
    run: RunModel,
    hall: spec_fn(int) -> Seq<HofEntry>,
    pages: Set<int>,
    g: HofGuild,
) -> bool {
    exists|page: int, i: int|
        pages.contains(page) && 0 <= i < hall(page).len() && g == rated(
            run.standing(),
            #[trigger] hall(page)[i],
        )
}

/// Whether every guild of a run comes from one of these pages.
pub open spec fn comes_from(
    run: RunModel,
    hall: spec_fn(int) -> Seq<HofEntry>,
    pages: Set<int>,
) -> bool {
    forall|k: int| 0 <= k < run.guilds.len() ==> listed_on(run, hall, pages, #[trigger] run.guilds[k])
}

/// A guild of a page comes from the pages read so far and that one.
proof fn page_adds_its_guilds(
    run: RunModel,
    hall: spec_fn(int) -> Seq<HofEntry>,
    pages: Set<int>,
    page: u32,
)
    requires
        run.wf(),
        run.awaits_page(),
        run.page_due() == Some(page),
        comes_from(run, hall, pages),
    ensures
        comes_from(run.with_page(hall(page as int)), hall, pages.insert(page as int)),
{
    let own = run.standing();
    let entries = hall(page as int);
    let next = run.with_page(entries);
    let in_window = |e: HofEntry| window_page_keeps(own, run.window, run.above(), e);
    let above = |e: HofEntry| upward_keeps(own, run.settings.full_up_scan, e);
    window_page_misses_nothing(own, run.window, run.above(), run.guilds, entries);
    upward_page_only_adds(own, run.settings.full_up_scan, run.guilds, entries);
    assert(next.standing() == own);
    assert forall|k: int| 0 <= k < next.guilds.len() implies listed_on(
        next,
        hall,
        pages.insert(page as int),
        #[trigger] next.guilds[k],
    ) by {
        if k < run.guilds.len() {
            assert(next.guilds.take(run.guilds.len() as int)[k] == next.guilds[k]);
            assert(listed_on(run, hall, pages, run.guilds[k]));
            let (p, i) = choose|p: int, i: int|
                pages.contains(p) && 0 <= i < hall(p).len() && run.guilds[k] == rated(
                    own,
                    #[trigger] hall(p)[i],
                );
            assert(pages.insert(page as int).contains(p));
            assert(next.guilds[k] == rated(own, hall(p)[i]));
        } else {
            let keep = if run.stage is Window {
                in_window
            } else {
                above
            };
            assert(from_page(own, keep, entries, next.guilds[k]));
            let i = choose|i: int|
                0 <= i < entries.len() && keep(#[trigger] entries[i]) && next.guilds[k] == rated(
                    own,
                    entries[i],
                );
            assert(next.guilds[k] == rated(own, hall(page as int)[i]));
        }
    }
}

/// At every moment, whether a scan is stopped or not, its list holds only guilds
/// that the pages read so far list, with their marks: a new scan holds none, and
/// asking what is due, reading a page and reading a guild keep it so.
pub proof fn scan_lists_only_what_was_read(
    run: RunModel,
    hall: spec_fn(int) -> Seq<HofEntry>,
    pages: Set<int>,
    cancelled: bool,
    next: RunModel,
    view: Option<GuildView>,
)
    requires
        run.wf(),
    ensures
        run.guilds.len() == 0 ==> comes_from(run, hall, Set::empty()),
        comes_from(run, hall, pages) && run.steps_to(cancelled, next) ==> comes_from(
            next,
            hall,
            pages,
        ),
        comes_from(run, hall, pages) && run.awaits_page() ==> (run.page_due() matches Some(page)
            && comes_from(
            run.with_page(hall(page as int)),
            hall,
            pages.insert(page as int),
        )),
        comes_from(run, hall, pages) ==> comes_from(run.with_guild(view), hall, pages),
{
    if comes_from(run, hall, pages) {
        if run.awaits_page() {
            page_adds_its_guilds(run, hall, pages, run.page_due()->0);
        }
        let seen = run.with_guild(view);
        assert forall|k: int| 0 <= k < seen.guilds.len() implies listed_on(
            seen,
            hall,
            pages,
            #[trigger] seen.guilds[k],
        ) by {
            same_source(run, seen, hall, pages, run.guilds[k]);
        }
        if run.steps_to(cancelled, next) {
            assert forall|k: int| 0 <= k < next.guilds.len() implies listed_on(
                next,
                hall,
                pages,
                #[trigger] next.guilds[k],
            ) by {
                if run.due(cancelled) is Continue {
                    sorting_adds_nothing(run.guilds, next.guilds, k);
                    let j = choose|j: int|
                        0 <= j < run.guilds.len() && run.guilds[j] == next.guilds[k];
                    same_source(run, next, hall, pages, run.guilds[j]);
                } else {
                    same_source(run, next, hall, pages, run.guilds[k]);
                }
            }
        }
    }
}

/// The source of a guild depends on our guild only.
proof fn same_source(
    a: RunModel,
    b: RunModel,
    hall: spec_fn(int) -> Seq<HofEntry>,
    pages: Set<int>,
    g: HofGuild,
)
    requires
        a.own == b.own,
        listed_on(a, hall, pages, g),
    ensures
        listed_on(b, hall, pages, g),
{
    assert(a.standing() == b.standing());
    let (p, i) = choose|p: int, i: int|
        pages.contains(p) && 0 <= i < hall(p).len() && g == rated(
            a.standing(),
            #[trigger] hall(p)[i],
        );
    assert(g == rated(b.standing(), hall(p)[i]));
}

// What a whole scan reads of the targets. `lookup` gives the guild of each
// name, if there is one.

/// What the first `n` targets bring.
pub open spec fn read_details(
    run: RunModel,
    lookup: spec_fn(Seq<char>) -> Option<GuildView>,
    n: int,
) -> Seq<DetailedGuildModel>
    decreases n,
{
    if n <= 0 {
        Seq::empty()
    } else {
        match lookup(run.targets[n - 1].name@) {
            Some(v) => read_details(run, lookup, n - 1).push(
                scanned(run.targets[n - 1], v, run.settings, run.own_levels),
            ),
            None => read_details(run, lookup, n - 1),
        }
    }
}

/// Whether the details of a run are what the targets so far bring.
pub open spec fn has_read(run: RunModel, lookup: spec_fn(Seq<char>) -> Option<GuildView>) -> bool {
    match run.stage {
        ScanStage::Details { next } => run.details == read_details(run, lookup, next as int),
        ScanStage::Finished => run.details == read_details(
            run,
            lookup,
            run.targets.len() as int,
        ),
        _ => run.details.len() == 0,
    }
}

/// A scan starts out with what no page and no target brings.
pub proof fn new_scan_has_read_nothing(
    run: RunModel,
    hall: spec_fn(int) -> Seq<HofEntry>,
    lookup: spec_fn(Seq<char>) -> Option<GuildView>,
)
    requires
        run.wf(),
        run.stage == (ScanStage::Window { page: run.window.page_low }),
        run.guilds.len() == 0,
    ensures
        lists(run, hall),
        has_read(run, lookup),
{
    assert(run.guilds =~= Seq::empty());
}

/// What the targets bring depends on them, the settings and our levels only.
proof fn read_details_ignore_progress(
    a: RunModel,
    b: RunModel,
    lookup: spec_fn(Seq<char>) -> Option<GuildView>,
    n: int,
)
    requires
        a.targets == b.targets,
        a.settings == b.settings,
        a.own_levels == b.own_levels,
    ensures
        read_details(a, lookup, n) == read_details(b, lookup, n),
    decreases n,
{
    if n > 0 {
        read_details_ignore_progress(a, b, lookup, n - 1);
    }
}

/// A scan that is not stopped reads the members of every target, in order, and
/// ends only once it has.
pub proof fn scan_reads_every_target(
    run: RunModel,
    lookup: spec_fn(Seq<char>) -> Option<GuildView>,
    next: RunModel,
)
    requires
        run.wf(),
        has_read(run, lookup),
        run.steps_to(false, next),
    ensures
        has_read(next, lookup),
        run.due(false) matches ScanAction::FetchGuild { name } ==> has_read(
            next.with_guild(lookup(name@)),
            lookup,
        ),
{
    match run.due(false) {
        ScanAction::FetchGuild { name } => {
            let after = next.with_guild(lookup(name@));
            let n = run.stage->next as int;
            read_details_ignore_progress(run, after, lookup, n + 1);
            read_details_ignore_progress(run, next, lookup, n);
        },
        ScanAction::Finish => {
            read_details_ignore_progress(run, next, lookup, run.targets.len() as int);
        },
        _ => {
            assert(run.details =~= Seq::empty());
        },
    }
}

// ── Laws in numbers ──────────────────────────────────────────────────────────

/// A scan that goes above the window finds every guild above us by its honor
/// alone: once all wanted pages were read, every guild with another name on a
/// higher place and at most 3000 honor above ours is in the list, however far up
/// it stands, if its page lies within the limit of extra pages. The scan of the
/// whole hall of fame finds them on all pages, whatever their honor.
pub proof fn honor_rule_finds_every_guild_above(
    run: RunModel,
    hall: spec_fn(int) -> Seq<HofEntry>,
    page: int,
    i: int,
)
    requires
        run.wf(),
        lists(run, hall),
        !run.listing(),
        run.settings.honor_up_scan || run.settings.full_up_scan,
        0 <= page,
        51 * page < run.own.rank + run.settings.down_limit,
        51 * page < u32::MAX,
        run.settings.full_up_scan || run.own.rank - 21 < 51 * (page
            + run.settings.max_extra_up_pages + 1),
        0 <= i < hall(page).len(),
        hall(page)[i].name@ != run.own.name,
        hall(page)[i].rank < run.own.rank,
        run.settings.full_up_scan || hall(page)[i].honor <= run.own.honor + 3000,
    ensures
        exists|k: int|
            0 <= k < run.guilds.len() && (#[trigger] run.guilds[k]).name@ == hall(page)[i].name@,
{
    scan_finds_every_guild_above(run, hall, page, i);
}

/// A scan finds every guild around us: once all wanted pages were read, every
/// guild with another name, from 20 ranks above ours to as many below as the
/// settings say, is in the list as the hall of fame has it, and it is a target.
pub proof fn scan_finds_every_guild_around_us(
    run: RunModel,
    hall: spec_fn(int) -> Seq<HofEntry>,
    page: int,
    i: int,
)
    requires
        run.wf(),
        lists(run, hall),
        !run.listing(),
        0 <= page,
        0 <= i < hall(page).len(),
        51 * page + 1 <= hall(page)[i].rank <= 51 * page + 51,
        hall(page)[i].name@ != run.own.name,
        hall(page)[i].rank != run.own.rank,
        run.own.rank - 20 <= hall(page)[i].rank <= run.own.rank + run.settings.down_limit,
    ensures
        exists|k: int|
            0 <= k < run.guilds.len() && {
                let g = #[trigger] run.guilds[k];
                let e = hall(page)[i];
                &&& g.name@ == e.name@
                &&& g.rank == e.rank
                &&& g.leader@ == e.leader@
                &&& g.member_count == e.member_count
                &&& g.honor == e.honor
                &&& g.is_attacked == e.is_attacked
                &&& g.attackable
            },
        exists|k: int|
            0 <= k < run.targets.len() && (#[trigger] run.targets[k]).name@ == hall(page)[i].name@
                && run.targets[k].rank == hall(page)[i].rank,
{
    let e = hall(page)[i];
    let g = rated(run.standing(), e);
    page_lists_its_ranks(e.rank as int, page);
    scan_finds_every_guild_of_the_window(run, hall, page, i);
    window_guilds_are_attackable(run.standing(), run.window.rank_down_end, e);
    let k = choose|k: int| 0 <= k < run.guilds.len() && run.guilds[k] == g;
    let t = choose|t: int| 0 <= t < run.targets.len() && run.targets[t] == g;
    assert(run.guilds[k].name@ == e.name@);
    assert(run.targets[t].name@ == e.name@);
}

/// A scan lists no guild that was not wanted: none has our name or our rank, none
/// lies further below us than the settings say, and one that stands more than 20
/// ranks above us is there by its honor, at most 3000 above ours, or because the
/// whole hall of fame was wanted. Each is marked by the attack rule.
pub proof fn listed_guilds_were_wanted(run: RunModel, k: int)
    requires
        run.wf(),
        0 <= k < run.guilds.len(),
    ensures
        run.guilds[k].name@ != run.own.name,
        run.guilds[k].rank != run.own.rank,
        run.guilds[k].rank <= run.own.rank + run.settings.down_limit,
        run.guilds[k].rank < run.own.rank - 20 ==> run.settings.full_up_scan || (
        run.settings.honor_up_scan && run.guilds[k].honor <= run.own.honor + 3000),
        run.guilds[k].attackable <==> run.guilds[k].rank > run.own.rank || run.own.rank
            - run.guilds[k].rank <= 20 || run.guilds[k].honor <= run.own.honor + 3000,
{
    assert(run.keeps(run.guilds[k]));
}

/// Once the hall of fame is done with, the list is sorted by rank, and the targets
/// are the attackable guilds of it, in the same order: all of them and no other.
pub proof fn targets_are_the_attackable_guilds(run: RunModel)
    requires
        run.wf(),
        !run.listing(),
    ensures
        forall|i: int, j: int|
            0 <= i < j < run.guilds.len() ==> (#[trigger] run.guilds[i]).rank <= (
            #[trigger] run.guilds[j]).rank,
        run.targets == run.guilds.filter(|g: HofGuild| g.attackable),
        forall|i: int|
            0 <= i < run.guilds.len() && (#[trigger] run.guilds[i]).attackable
                ==> run.targets.contains(run.guilds[i]),
        forall|t: int|
            0 <= t < run.targets.len() ==> (#[trigger] run.targets[t]).attackable
                && run.guilds.contains(run.targets[t]),
{
    broadcast use group_filter_ensures;

    let pred = |g: HofGuild| g.attackable;
    assert forall|i: int, j: int| 0 <= i < j < run.guilds.len() implies (
    #[trigger] run.guilds[i]).rank <= (#[trigger] run.guilds[j]).rank by {
        assert(HofGuild::leq(run.guilds[i], run.guilds[j]));
    }
    assert forall|i: int|
        0 <= i < run.guilds.len() && (
        #[trigger] run.guilds[i]).attackable implies run.targets.contains(run.guilds[i]) by {
        assert(run.guilds.contains(run.guilds[i]));
        assert(pred(run.guilds[i]));
        assert(run.guilds.filter(pred).contains(run.guilds[i]));
    }
    assert forall|t: int| 0 <= t < run.targets.len() implies (
    #[trigger] run.targets[t]).attackable && run.guilds.contains(run.targets[t]) by {
        filtered_is_contained(run.guilds, pred, t);
        assert(pred(run.guilds.filter(pred)[t]));
    }
}

/// Sorting by rank loses no guild and adds none.
pub proof fn sorting_by_rank_keeps_the_guilds(run: RunModel, cancelled: bool, next: RunModel)
    requires
        run.wf(),
        run.steps_to(cancelled, next),
    ensures
        next.guilds.to_multiset() == run.guilds.to_multiset(),
        next.own == run.own,
        next.settings == run.settings,
        next.details == run.details,
        next.server == run.server,
{
}

/// What the first `n` targets bring holds every one of them that was found.
proof fn read_details_hold(
    run: RunModel,
    lookup: spec_fn(Seq<char>) -> Option<GuildView>,
    n: int,
    t: int,
) -> (d: int)
    requires
        0 <= t < n <= run.targets.len(),
        lookup(run.targets[t].name@) is Some,
    ensures
        0 <= d < read_details(run, lookup, n).len(),
        read_details(run, lookup, n)[d] == scanned(
            run.targets[t],
            lookup(run.targets[t].name@)->0,
            run.settings,
            run.own_levels,
        ),
    decreases n,
{
    if t == n - 1 {
        read_details(run, lookup, n - 1).len() as int
    } else {
        read_details_hold(run, lookup, n - 1, t)
    }
}

/// A scan that was not stopped has read the members of every target that the
/// server knows: the target is among the guilds read, with the rank and honor of
/// the hall of fame, as attackable, and with the members that the server lists.
pub proof fn every_known_target_is_read(
    run: RunModel,
    lookup: spec_fn(Seq<char>) -> Option<GuildView>,
    t: int,
)
    requires
        run.wf(),
        run.stage is Finished,
        has_read(run, lookup),
        0 <= t < run.targets.len(),
        lookup(run.targets[t].name@) is Some,
    ensures
        exists|d: int|
            0 <= d < run.details.len() && {
                let g = #[trigger] run.details[d];
                let v = lookup(run.targets[t].name@)->0;
                &&& g.name == run.targets[t].name@
                &&& g.rank == run.targets[t].rank
                &&& g.honor == run.targets[t].honor
                &&& g.is_attacked == run.targets[t].is_attacked
                &&& g.attackable
                &&& g.members.len() == v.members@.len()
                &&& forall|m: int|
                    0 <= m < v.members@.len() ==> (#[trigger] g.members[m]).level
                        == v.members@[m].level && g.members[m].name@ == v.members@[m].name@
                &&& g.strict == strict_outcome(
                    run.settings,
                    run.own_levels,
                    levels_of(g.members),
                )
            },
{
    let d = read_details_hold(run, lookup, run.targets.len() as int, t);
    let v = lookup(run.targets[t].name@)->0;
    let g = run.details[d];
    assert(g == scanned(run.targets[t], v, run.settings, run.own_levels));
    assert forall|m: int| 0 <= m < v.members@.len() implies (#[trigger] g.members[m]).level
        == v.members@[m].level && g.members[m].name@ == v.members@[m].name@ by {}
}

/// The levels that guilds are judged by are those of our active members, in
/// ascending order.
pub proof fn own_levels_are_those_of_active_members(run: RunModel)
    requires
        run.wf(),
    ensures
        run.own_levels.to_multiset() == Seq::new(
            run.own.active_members.len(),
            |i: int| run.own.active_members[i].level,
        ).to_multiset(),
        forall|i: int, j: int|
            0 <= i <= j < run.own_levels.len() ==> run.own_levels[i] <= run.own_levels[j],
{
    let levels = levels_of(run.own.active_members);
    sorted_levels_ascend(levels);
    assert(levels =~= Seq::new(
        run.own.active_members.len(),
        |i: int| run.own.active_members[i].level,
    ));
}

/// A scan reads no page that it does not want: one around us, or one above it,
/// and by the honor rule alone only as many of those as the settings allow.
pub proof fn only_wanted_pages_are_read(run: RunModel, cancelled: bool)
    requires
        run.wf(),
    ensures
        run.due(cancelled) matches ScanAction::FetchPage { page } ==> {
            &&& !cancelled
            &&& page == 0 || 51 * page < run.own.rank + run.settings.down_limit
            &&& run.own.rank - 21 >= 51 * (page + 1) ==> run.settings.honor_up_scan
                || run.settings.full_up_scan
            &&& run.own.rank - 21 >= 51 * (page + run.settings.max_extra_up_pages + 1)
                ==> run.settings.full_up_scan
        },
{
}

/// A scan reads page after page: after a page of the window the one below it,
/// after a page above the window the one above it.
pub proof fn pages_follow_one_another(run: RunModel, page: Seq<HofEntry>)
    requires
        run.wf(),
        run.awaits_page(),
    ensures
        run.page_due() is Some,
        run.with_page(page).page_due() matches Some(next) ==> {
            let p = run.page_due()->0;
            ||| run.stage is Window && next == p + 1
            ||| run.stage is Window && p == run.window.page_high && next == run.window.page_low - 1
            ||| run.stage is Upward && next == p - 1
        },
{
}

/// The reported progress counts pages from 1 within the window and guilds from 1
/// among the targets, never beyond their number, and keeps a scan running.
pub proof fn progress_counts_pages_and_guilds(
    run: RunModel,
    cancelled: bool,
    next: RunModel,
    before: TaskModel<ScanPhase>,
)
    requires
        run.wf(),
        next.wf(),
        run.steps_to(cancelled, next),
    ensures
        ({
            let action = run.due(cancelled);
            let after = next.reported(action, before);
            &&& after.running == before.running
            &&& action matches ScanAction::FetchPage { page } ==> {
                &&& after.phase == before.phase && after.total == before.total
                &&& page >= run.window.page_low ==> after.current == page - run.window.page_low + 1
                &&& page < run.window.page_low ==> after.current == before.current
            }
            &&& action is Continue ==> after.phase is Details && after.current == 0 && after.total
                == next.targets.len()
            &&& action is FetchGuild ==> {
                &&& run.stage matches ScanStage::Details { next: n }
                &&& after.current == n + 1
                &&& after.phase == before.phase && after.total == before.total
            }
            &&& action is Finish ==> after == before
        }),
{
    run.guilds.lemma_filter_len(|g: HofGuild| g.attackable);
    next.guilds.lemma_filter_len(|g: HofGuild| g.attackable);
}

} // verus!
