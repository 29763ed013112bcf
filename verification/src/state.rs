//! What is loaded, and what may be done with it.
use vstd::prelude::*;

use crate::battle::{Combatant, Contender};
use crate::clock::Timestamp;
use crate::detail::{live_detail, looked_up, total, GuildView};
use crate::fighters::{
    fresh, is_oldest, others, without_name, EnemyCacheModel, EnemyCaches, EnemyFightersCache,
    OwnCacheModel, OwnFightersCache,
};
use crate::guild::{
    find_guild, first_named, first_named_is_first, models, DetailedGuild, DetailedGuildModel, OwnGuild, OwnGuildModel,
    ScanData, ScanModel,
};
use crate::progress::{scan_unstarted, sim_unstarted, ProgressModel, ProgressState};
use crate::roster::{collect_names, known_at, names_of, read_own_guild, LoadedGuild};
use crate::scan::{ScanRun, ScanStage};
use crate::settings::{ScanRequest, ScanSettings};
use crate::simulation::{iterations_for, mushrooms_for, SimRun, SimRunModel, SimulateRequest};
use crate::sorting::{sort_names, sorted_names, sorted_names_hold_the_names, texts};
use crate::text::{decimal, push_decimal};

verus! {

/// A character of the account.
#[derive(Debug)]
pub struct Character {
    pub name: String,
    pub server: String,
}

/// A character and its number.
#[derive(Debug)]
pub struct CharacterInfo {
    pub index: usize,
    pub name: String,
    pub server: String,
}

/// What is loaded.
#[derive(Debug)]
pub struct AppState {
    /// The characters of the account; none before the login.
    pub characters: Vec<Character>,
    /// The number of the chosen character.
    pub selected: Option<usize>,
    /// The guild of the chosen character.
    pub own_guild: Option<OwnGuild>,
    pub scan_data: Option<ScanData>,
    /// The settings of the next scan.
    pub scan_settings: ScanSettings,
    /// The fighters of our active members.
    pub own_fighters_cache: Option<OwnFightersCache>,
    /// The fighters of enemy guilds.
    pub enemy_fighters_cache: EnemyCaches,
}

/// What an `AppState` says.
pub struct AppModel {
    pub characters: Seq<Character>,
    pub selected: Option<usize>,
    pub own_guild: Option<OwnGuildModel>,
    pub scan_data: Option<ScanModel>,
    pub scan_settings: ScanSettings,
    pub own_fighters_cache: Option<OwnCacheModel>,
    pub enemy_fighters_cache: Map<Seq<char>, EnemyCacheModel>,
}

/// The view of an optional value.
pub open spec fn opt_view<T: View>(o: Option<T>) -> Option<T::V> {
    match o {
        Some(x) => Some(x@),
        None => None,
    }
}

impl View for AppState {
    type V = AppModel;

    open spec fn view(&self) -> AppModel {
        AppModel {
            characters: self.characters@,
            selected: self.selected,
            own_guild: opt_view(self.own_guild),
            scan_data: opt_view(self.scan_data),
            scan_settings: self.scan_settings,
            own_fighters_cache: opt_view(self.own_fighters_cache),
            enemy_fighters_cache: self.enemy_fighters_cache@,
        }
    }
}

impl AppModel {
    /// The state with nothing loaded for a character.
    pub open spec fn forgotten(self) -> AppModel {
        AppModel {
            selected: None,
            own_guild: None,
            scan_data: None,
            own_fighters_cache: None,
            enemy_fighters_cache: Map::empty(),
            ..self
        }
    }
}

/// The number, name and server of each character.
pub open spec fn infos(characters: Seq<Character>) -> Seq<CharacterInfo> {
    characters.map(
        |i: int, c: Character|
            CharacterInfo { index: i as usize, name: c.name, server: c.server },
    )
}

/// What is loaded, at a glance.
#[derive(Debug)]
pub struct StatusInfo {
    pub logged_in: bool,
    pub character_selected: bool,
    pub guild_loaded: bool,
    pub guild_name: Option<String>,
    pub has_scan_data: bool,
    pub scan_date: Option<String>,
}

/// How to get the details of a guild.
#[derive(Debug)]
pub enum DetailsPlan {
    /// They are known.
    Known(DetailedGuild),
    /// The guild is to be looked up, for our guild of this rank and honor.
    LookUp(Option<(u32, u32)>),
}

/// How to get our fighters.
#[derive(Debug)]
pub enum OwnPlan {
    /// They are loaded.
    Loaded(Vec<Contender>),
    /// They are to be loaded, for this guild and these active members, sorted;
    /// all but ourselves are to be looked up.
    Load { guild_name: String, active_names: Vec<String>, ask: Vec<String> },
}

/// How to get the fighters of an enemy guild.
#[derive(Debug)]
pub enum EnemyPlan {
    /// They are loaded.
    Loaded(Vec<Combatant>),
    /// They are to be loaded: these members, sorted, are to be looked up.
    Load { member_names: Vec<String> },
}

/// The rank and honor of a guild.
pub open spec fn rank_and_honor(own: Option<OwnGuildModel>) -> Option<(u32, u32)> {
    match own {
        Some(g) => Some((g.rank, g.honor)),
        None => None,
    }
}

/// The details of a guild that the scan has, if any.
pub open spec fn known_details(scan: Option<ScanModel>, name: Seq<char>) -> Option<
    DetailedGuildModel,
> {
    match scan {
        Some(s) => match first_named(s.detailed_guilds, name) {
            Some(i) => Some(s.detailed_guilds[i]),
            None => None,
        },
        None => None,
    }
}

// ── Logging in and choosing a character ──────────────────────────────────────

/// The number, name and server of each character.
fn list(characters: &Vec<Character>) -> (r: Vec<CharacterInfo>)
    ensures
        r@ == infos(characters@),
{
    let mut r: Vec<CharacterInfo> = Vec::new();
    let mut i: usize = 0;
    while i < characters.len()
        invariant
            i <= characters@.len(),
            r@ =~= infos(characters@).take(i as int),
        decreases characters@.len() - i,
    {
        r.push(
            CharacterInfo {
                index: i,
                name: characters[i].name.clone(),
                server: characters[i].server.clone(),
            },
        );
        i = i + 1;
    }
    assert(infos(characters@).take(i as int) =~= infos(characters@));
    r
}

impl AppState {
    /// What holds of the state at all times.
    pub open spec fn wf(&self) -> bool {
        &&& self.selected matches Some(i) ==> i < self.characters@.len()
        &&& self.enemy_fighters_cache.wf()
    }

    /// Nothing is loaded.
    pub fn new() -> (r: AppState)
        ensures
            r.wf(),
            r@ == (AppModel {
                characters: Seq::empty(),
                selected: None,
                own_guild: None,
                scan_data: None,
                scan_settings: ScanSettings {
                    down_limit: 300,
                    honor_up_scan: true,
                    max_extra_up_pages: 10,
                    strict_mode: true,
                    strict_topn: true,
                    full_up_scan: false,
                },
                own_fighters_cache: None,
                enemy_fighters_cache: Map::empty(),
            }),
    {
        AppState {
            characters: Vec::new(),
            selected: None,
            own_guild: None,
            scan_data: None,
            scan_settings: ScanSettings::default(),
            own_fighters_cache: None,
            enemy_fighters_cache: EnemyCaches::new(),
        }
    }

    /// Forgets what is loaded for the chosen character.
    fn forget(&mut self)
        ensures
            final(self).wf(),
            final(self)@ == old(self)@.forgotten(),
    {
        self.selected = None;
        self.own_guild = None;
        self.scan_data = None;
        self.own_fighters_cache = None;
        self.enemy_fighters_cache.clear();
    }

    /// Takes over the characters of an account, and lists them. What was loaded
    /// before is forgotten.
    pub fn login(&mut self, characters: Vec<Character>, progress: &mut ProgressState) -> (r: Vec<
        CharacterInfo,
    >)
        ensures
            final(self).wf(),
            final(self)@ == (AppModel { characters: characters@, ..old(self)@.forgotten() }),
            final(progress)@ == (ProgressModel {
                scan: scan_unstarted(),
                sim: sim_unstarted(),
                ..old(progress)@
            }),
            r@ == infos(characters@),
    {
        let r: Vec<CharacterInfo> = list(&characters);
        self.forget();
        self.characters = characters;
        progress.reset();
        r
    }

    /// Forgets the account and all that was loaded.
    pub fn logout(&mut self, progress: &mut ProgressState) -> (answer: String)
        ensures
            final(self).wf(),
            final(self)@ == (AppModel { characters: Seq::empty(), ..old(self)@.forgotten() }),
            final(progress)@ == (ProgressModel {
                scan: scan_unstarted(),
                sim: sim_unstarted(),
                ..old(progress)@
            }),
            answer@ == "Ausgeloggt"@,
    {
        self.forget();
        self.characters = Vec::new();
        progress.reset();
        "Ausgeloggt".to_owned()
    }

    /// Lists the characters of the account.
    pub fn list_characters(&self) -> (r: Result<Vec<CharacterInfo>, String>)
        ensures
            match r {
                Ok(list) => self.characters@.len() > 0 && list@ == infos(self.characters@),
                Err(e) => self.characters@.len() == 0 && e@ == "Nicht eingeloggt"@,
            },
    {
        if self.characters.len() == 0 {
            return Err("Nicht eingeloggt".to_owned());
        }
        Ok(list(&self.characters))
    }

    /// Chooses a character, and gives its server. What was loaded before is
    /// forgotten, and requests to stop with it.
    pub fn select_character(&mut self, index: usize, progress: &mut ProgressState) -> (r: Result<
        String,
        String,
    >)
        requires
            old(self).wf(),
        ensures
            final(self).wf(),
            r is Ok <==> index < old(self).characters@.len(),
            match r {
                Ok(server) => {
                    &&& server@ == old(self).characters@[index as int].server@
                    &&& final(self)@ == (AppModel {
                        selected: Some(index),
                        ..old(self)@.forgotten()
                    })
                    &&& final(progress)@ == (ProgressModel {
                        scan: scan_unstarted(),
                        sim: sim_unstarted(),
                        cancel_scan: false,
                        cancel_sim: false,
                    })
                },
                Err(e) => {
                    &&& e@ == "Ungültiger Charakter-Index"@
                    &&& final(self)@ == old(self)@
                    &&& final(progress)@ == old(progress)@
                },
            },
    {
        if index >= self.characters.len() {
            return Err("Ungültiger Charakter-Index".to_owned());
        }
        self.forget();
        self.selected = Some(index);
        *progress = ProgressState::new();
        Ok(self.characters[index].server.clone())
    }

    /// Takes over the guild of the chosen character, as it is known at a point
    /// in time, if the character is in one.
    pub fn guild_loaded(&mut self, guild: Option<LoadedGuild>, at: Timestamp) -> (r: Result<
        OwnGuild,
        String,
    >)
        requires
            old(self).wf(),
        ensures
            final(self).wf(),
            match guild {
                Some(g) => {
                    &&& r matches Ok(own)
                    &&& exists|known: OwnGuild| #[trigger]
                        known_at(g, at, known) && own@ == known@
                    &&& final(self)@ == (AppModel { own_guild: Some(own@), ..old(self)@ })
                },
                None => {
                    &&& r matches Err(e)
                    &&& e@ == "Dieser Charakter ist in keiner Gilde!"@
                    &&& final(self)@ == old(self)@
                },
            },
    {
        match guild {
            Some(guild) => {
                let own: OwnGuild = read_own_guild(guild, at);
                let answer: OwnGuild = own.clone();
                self.own_guild = Some(own);
                assert(known_at(guild, at, own));
                Ok(answer)
            },
            None => Err("Dieser Charakter ist in keiner Gilde!".to_owned()),
        }
    }

    /// Takes over a stored scan, if there is one.
    pub fn scan_found(&mut self, scan: Option<ScanData>)
        requires
            old(self).wf(),
        ensures
            final(self).wf(),
            final(self)@ == (AppModel {
                scan_data: if scan is Some {
                    opt_view(scan)
                } else {
                    old(self)@.scan_data
                },
                ..old(self)@
            }),
    {
        if scan.is_some() {
            self.scan_data = scan;
        }
    }

    /// What is loaded, at a glance.
    pub fn status(&self) -> (r: StatusInfo)
        ensures
            r.logged_in == (self.characters@.len() > 0),
            r.character_selected == self.selected is Some,
            r.guild_loaded == self.own_guild is Some,
            opt_view(r.guild_name) == match self@.own_guild {
                Some(g) => Some(g.name),
                None => None,
            },
            r.has_scan_data == self.scan_data is Some,
            opt_view(r.scan_date) == match self@.scan_data {
                Some(s) => Some(s.scanned_at),
                None => None,
            },
    {
        let guild_name: Option<String> = match &self.own_guild {
            Some(g) => Some(g.name.clone()),
            None => None,
        };
        let scan_date: Option<String> = match &self.scan_data {
            Some(s) => Some(s.scanned_at.clone()),
            None => None,
        };
        StatusInfo {
            logged_in: self.characters.len() > 0,
            character_selected: self.selected.is_some(),
            guild_loaded: self.own_guild.is_some(),
            guild_name,
            has_scan_data: self.scan_data.is_some(),
            scan_date,
        }
    }
}

// ── Scanning ─────────────────────────────────────────────────────────────────

/// Why a scan may not start, if so.
pub open spec fn scan_refusal(app: AppModel, p: ProgressModel) -> Option<Seq<char>> {
    if app.selected is None || app.own_guild is None {
        Some("Kein Charakter/Gilde geladen"@)
    } else if p.scan.running {
        Some("Scan läuft bereits"@)
    } else if p.sim.running {
        Some("Bitte warten, bis die laufende Simulation fertig ist"@)
    } else {
        None
    }
}

impl AppState {
    /// Prepares a scan with changed settings, unless it may not start.
    pub fn start_scan(&mut self, progress: &mut ProgressState, req: ScanRequest) -> (r: Result<
        String,
        String,
    >)
        requires
            old(self).wf(),
        ensures
            final(self).wf(),
            match scan_refusal(old(self)@, old(progress)@) {
                Some(reason) => {
                    &&& r matches Err(e)
                    &&& e@ == reason
                    &&& final(self)@ == old(self)@
                    &&& final(progress)@ == old(progress)@
                },
                None => {
                    &&& r matches Ok(answer)
                    &&& answer@ == "Scan gestartet"@
                    &&& final(self)@ == (AppModel {
                        scan_settings: old(self)@.scan_settings.updated(req),
                        ..old(self)@
                    })
                    &&& final(progress)@ == (ProgressModel {
                        cancel_scan: false,
                        ..old(progress)@
                    })
                },
            },
    {
        if self.selected.is_none() || self.own_guild.is_none() {
            return Err("Kein Charakter/Gilde geladen".to_owned());
        }
        if progress.scan.running {
            return Err("Scan läuft bereits".to_owned());
        }
        if progress.sim.running {
            return Err("Bitte warten, bis die laufende Simulation fertig ist".to_owned());
        }
        self.scan_settings = self.scan_settings.apply(req);
        progress.cancel_scan = false;
        Ok("Scan gestartet".to_owned())
    }

    /// A new run of the scan for the chosen character and its guild, if both
    /// are there.
    pub fn new_run(&self) -> (r: Option<ScanRun>)
        requires
            self.wf(),
        ensures
            r is Some <==> self.selected is Some && self.own_guild is Some,
            r matches Some(run) ==> {
                &&& run.wf()
                &&& Some(run@.own) == self@.own_guild
                &&& run@.server == self.characters@[self.selected->0 as int].server@
                &&& run@.settings == self.scan_settings
                &&& run@.stage == (ScanStage::Window { page: run.window.page_low })
                &&& run@.guilds.len() == 0
            },
    {
        match (&self.own_guild, self.selected) {
            (Some(own), Some(i)) => Some(
                ScanRun::new(own.clone(), self.characters[i].server.clone(), self.scan_settings),
            ),
            _ => None,
        }
    }

    /// Takes over the data of a scan.
    pub fn scan_finished(&mut self, scan: ScanData)
        requires
            old(self).wf(),
        ensures
            final(self).wf(),
            final(self)@ == (AppModel { scan_data: Some(scan@), ..old(self)@ }),
    {
        self.scan_data = Some(scan);
    }
}

// ── Details of a guild ───────────────────────────────────────────────────────

/// The message for a guild that the server does not know.
pub open spec fn unknown_guild_text(name: Seq<char>) -> Seq<char> {
    "Gilde '"@ + name + "' nicht gefunden"@
}

/// The message for a guild that the scan does not have.
pub open spec fn unlisted_guild_text(name: Seq<char>) -> Seq<char> {
    "Gilde '"@ + name + "' nicht in Scan-Daten gefunden"@
}

/// The message for a guild that could not be looked up.
pub open spec fn lookup_failure_text(name: Seq<char>, reason: Seq<char>) -> Seq<char> {
    "ViewGuild für '"@ + name + "' fehlgeschlagen: "@ + reason
}

/// Writes the message for a guild that could not be looked up.
pub fn lookup_failure(name: &str, reason: &str) -> (r: String)
    ensures
        r@ == lookup_failure_text(name@, reason@),
{
    "ViewGuild für '".to_owned().concat(name).concat("' fehlgeschlagen: ").concat(reason)
}

/// The details of a guild that was looked up, if it was found.
pub fn details_found(name: String, view: Option<GuildView>, own: Option<(u32, u32)>) -> (r: Result<
    DetailedGuild,
    String,
>)
    requires
        view matches Some(v) ==> total(v.levels()) <= u32::MAX,
    ensures
        match view {
            Some(v) => r matches Ok(d) && d@ == looked_up(name@, v, own),
            None => r matches Err(e) && e@ == "Gilde nicht gefunden"@,
        },
{
    match view {
        Some(view) => Ok(live_detail(name, view, own)),
        None => Err("Gilde nicht gefunden".to_owned()),
    }
}

/// How a guild comes into the data of a scan.
#[derive(Clone, Copy, Debug)]
pub enum EnsurePlan {
    /// It is there.
    Present,
    /// It is to be looked up, for our guild of this rank and honor.
    LookUp(Option<(u32, u32)>),
}

impl AppState {
    /// The rank and honor of our guild.
    fn own_rank_honor(&self) -> (r: Option<(u32, u32)>)
        ensures
            r == rank_and_honor(self@.own_guild),
    {
        match &self.own_guild {
            Some(g) => Some((g.rank, g.honor)),
            None => None,
        }
    }

    /// How to get the details of a guild.
    pub fn guild_details(&self, name: &String) -> (r: Result<DetailsPlan, String>)
        ensures
            match known_details(self@.scan_data, name@) {
                Some(d) => r matches Ok(DetailsPlan::Known(known)) && known@ == d,
                None => if self.selected is Some {
                    r matches Ok(DetailsPlan::LookUp(own)) && own == rank_and_honor(self@.own_guild)
                } else {
                    r matches Err(e) && e@ == "Kein Charakter ausgewählt"@
                },
            },
    {
        if let Some(scan) = &self.scan_data {
            if let Some(i) = find_guild(&scan.detailed_guilds, name) {
                return Ok(DetailsPlan::Known(scan.detailed_guilds[i].clone()));
            }
        }
        if self.selected.is_none() {
            return Err("Kein Charakter ausgewählt".to_owned());
        }
        Ok(DetailsPlan::LookUp(self.own_rank_honor()))
    }

    /// How to see to it that a guild is in the data of the scan.
    pub fn ensure_detailed_guild(&self, name: &String) -> (r: Result<EnsurePlan, String>)
        ensures
            if self.scan_data is None {
                r matches Err(e) && e@ == "Keine Scan-Daten vorhanden"@
            } else if known_details(self@.scan_data, name@) is Some {
                r matches Ok(plan) && plan == EnsurePlan::Present
            } else if self.selected is None {
                r matches Err(e) && e@ == "Kein Charakter ausgewählt"@
            } else {
                r matches Ok(plan) && plan == EnsurePlan::LookUp(rank_and_honor(self@.own_guild))
            },
    {
        match &self.scan_data {
            None => {
                return Err("Keine Scan-Daten vorhanden".to_owned());
            },
            Some(scan) => {
                if find_guild(&scan.detailed_guilds, name).is_some() {
                    return Ok(EnsurePlan::Present);
                }
            },
        }
        if self.selected.is_none() {
            return Err("Kein Charakter ausgewählt".to_owned());
        }
        Ok(EnsurePlan::LookUp(self.own_rank_honor()))
    }

    /// Adds a guild that was looked up to the data of the scan, if it was found
    /// and there are any.
    pub fn guild_looked_up(
        &mut self,
        name: String,
        view: Option<GuildView>,
        own: Option<(u32, u32)>,
    ) -> (r: Result<(), String>)
        requires
            old(self).wf(),
            view matches Some(v) ==> total(v.levels()) <= u32::MAX,
        ensures
            final(self).wf(),
            match view {
                Some(v) => r is Ok && final(self)@ == (AppModel {
                    scan_data: match old(self)@.scan_data {
                        Some(s) => Some(
                            ScanModel {
                                detailed_guilds: s.detailed_guilds.push(looked_up(name@, v, own)),
                                ..s
                            },
                        ),
                        None => None,
                    },
                    ..old(self)@
                }),
                None => r matches Err(e) && e@ == unknown_guild_text(name@) && final(self)@ == old(
                    self)@,
            },
    {
        match view {
            Some(view) => {
                let ghost before = self@;
                let mut scan: Option<ScanData> = None;
                std::mem::swap(&mut scan, &mut self.scan_data);
                self.scan_data =
                match scan {
                    Some(mut data) => {
                        let ghost guilds = data.detailed_guilds@;
                        let detail: DetailedGuild = live_detail(name, view, own);
                        data.detailed_guilds.push(detail);
                        assert(models(data.detailed_guilds@) =~= models(guilds).push(detail@));
                        Some(data)
                    },
                    None => None,
                };
                Ok(())
            },
            None => Err("Gilde '".to_owned().concat(name.as_str()).concat("' nicht gefunden")),
        }
    }
}

// ── Fighters ─────────────────────────────────────────────────────────────────

/// The names of our active members, sorted.
pub open spec fn active_names(own: OwnGuildModel) -> Seq<Seq<char>> {
    sorted_names(names_of(own.active_members))
}

/// Whether our fighters are loaded at a point in time.
pub open spec fn own_fighters_loaded(app: AppModel, at: Timestamp) -> bool {
    match (app.own_fighters_cache, app.own_guild) {
        (Some(cache), Some(own)) => cache.serves(own.name, active_names(own), at),
        _ => false,
    }
}

/// Whether the fighters of an enemy guild with these members are loaded at a
/// point in time.
pub open spec fn enemy_fighters_loaded(
    app: AppModel,
    name: Seq<char>,
    member_names: Seq<Seq<char>>,
    at: Timestamp,
) -> bool {
    &&& app.enemy_fighters_cache.contains_key(name)
    &&& app.enemy_fighters_cache[name].serves(sorted_names(member_names), at)
}

impl AppState {
    /// How to get our fighters at a point in time.
    pub fn own_fighters(&self, at: Timestamp) -> (r: Result<OwnPlan, String>)
        requires
            self.wf(),
        ensures
            match (self.selected, self@.own_guild) {
                (None, _) => r matches Err(e) && e@ == "Kein Charakter ausgewählt"@,
                (Some(_), None) => r matches Err(e) && e@ == "Keine Gilde geladen"@,
                (Some(i), Some(own)) => if own_fighters_loaded(self@, at) {
                    r matches Ok(OwnPlan::Loaded(fighters)) && fighters@
                        == self.own_fighters_cache->0.fighters@
                } else {
                    r matches Ok(OwnPlan::Load { guild_name, active_names: names, ask })
                        && guild_name@ == own.name && texts(names@) == active_names(own) && texts(
                        ask@,
                    ) == others(active_names(own), self.characters@[i as int].name@)
                },
            },
    {
        let index: usize = match self.selected {
            Some(i) => i,
            None => {
                return Err("Kein Charakter ausgewählt".to_owned());
            },
        };
        match &self.own_guild {
            Some(own) => {
                let names: Vec<String> = sort_names(collect_names(&own.active_members));
                if let Some(cache) = &self.own_fighters_cache {
                    if cache.is_hit(&own.name, &names, at) {
                        let fighters: Vec<Contender> = cache.fighters.clone();
                        assert(fighters@ =~= cache.fighters@);
                        return Ok(OwnPlan::Loaded(fighters));
                    }
                }
                let ask: Vec<String> = without_name(&names, &self.characters[index].name);
                Ok(
                    OwnPlan::Load { guild_name: own.name.clone(), active_names: names, ask },
                )
            },
            None => Err("Keine Gilde geladen".to_owned()),
        }
    }

    /// Keeps our fighters, as they were loaded at a point in time.
    pub fn own_fighters_fetched(
        &mut self,
        guild_name: String,
        active_names: Vec<String>,
        fighters: Vec<Contender>,
        at: Timestamp,
    )
        requires
            old(self).wf(),
        ensures
            final(self).wf(),
            final(self)@ == (AppModel {
                own_fighters_cache: Some(
                    OwnCacheModel {
                        fetched_at: at,
                        guild_name: guild_name@,
                        active_names: texts(active_names@),
                        fighters: fighters@,
                    },
                ),
                ..old(self)@
            }),
    {
        self.own_fighters_cache =
        Some(OwnFightersCache { fetched_at: at, guild_name, active_names, fighters });
    }

    /// Drops our fighters, so that they are loaded again.
    pub fn refresh_own_fighters(&mut self) -> (r: Result<(), String>)
        requires
            old(self).wf(),
        ensures
            final(self).wf(),
            match r {
                Ok(_) => old(self).selected is Some && final(self)@ == (AppModel {
                    own_fighters_cache: None,
                    ..old(self)@
                }),
                Err(e) => old(self).selected is None && e@ == "Kein Charakter ausgewählt"@
                    && final(self)@ == old(self)@,
            },
    {
        if self.selected.is_none() {
            return Err("Kein Charakter ausgewählt".to_owned());
        }
        self.own_fighters_cache = None;
        Ok(())
    }

    /// How to get the fighters of an enemy guild at a point in time.
    pub fn enemy_fighters(&self, name: &String, at: Timestamp) -> (r: Result<EnemyPlan, String>)
        requires
            self.wf(),
        ensures
            if self.selected is None {
                r matches Err(e) && e@ == "Kein Charakter ausgewählt"@
            } else if self.scan_data is None {
                r matches Err(e) && e@ == "Keine Scan-Daten vorhanden"@
            } else {
                match known_details(self@.scan_data, name@) {
                    None => r matches Err(e) && e@ == unlisted_guild_text(name@),
                    Some(d) => if enemy_fighters_loaded(self@, name@, names_of(d.members), at) {
                        r matches Ok(EnemyPlan::Loaded(fighters)) && fighters@
                            == self@.enemy_fighters_cache[name@].fighters
                    } else {
                        r matches Ok(EnemyPlan::Load { member_names }) && texts(member_names@)
                            == sorted_names(names_of(d.members))
                    },
                }
            },
    {
        if self.selected.is_none() {
            return Err("Kein Charakter ausgewählt".to_owned());
        }
        match &self.scan_data {
            None => Err("Keine Scan-Daten vorhanden".to_owned()),
            Some(scan) => {
                match find_guild(&scan.detailed_guilds, name) {
                    None => Err(
                        "Gilde '".to_owned().concat(name.as_str()).concat(
                            "' nicht in Scan-Daten gefunden",
                        ),
                    ),
                    Some(i) => {
                        let names: Vec<String> = sort_names(
                            collect_names(&scan.detailed_guilds[i].members),
                        );
                        if let Some(cache) = self.enemy_fighters_cache.get(name) {
                            if cache.is_hit(&names, at) {
                                let fighters: Vec<Combatant> = cache.fighters.clone();
                                assert(fighters@ =~= cache.fighters@);
                                return Ok(EnemyPlan::Loaded(fighters));
                            }
                        }
                        Ok(EnemyPlan::Load { member_names: names })
                    },
                }
            },
        }
    }

    /// Keeps the fighters of an enemy guild, as they were loaded at a point in
    /// time.
    pub fn enemy_fighters_fetched(
        &mut self,
        name: String,
        member_names: Vec<String>,
        fighters: Vec<Combatant>,
        at: Timestamp,
    )
        requires
            old(self).wf(),
        ensures
            final(self).wf(),
            stored(
                old(self)@.enemy_fighters_cache,
                name@,
                EnemyCacheModel {
                    fetched_at: at,
                    member_names: texts(member_names@),
                    fighters: fighters@,
                },
                final(self)@.enemy_fighters_cache,
            ),
            final(self)@ == (AppModel {
                enemy_fighters_cache: final(self)@.enemy_fighters_cache,
                ..old(self)@
            }),
    {
        self.enemy_fighters_cache.insert(
            name,
            EnemyFightersCache { fetched_at: at, member_names, fighters },
        );
    }
}

/// Whether `after` keeps a cache for a guild: in place of one for the same
/// guild, in free room, or else in place of one that was loaded first.
pub open spec fn stored(
    before: Map<Seq<char>, EnemyCacheModel>,
    name: Seq<char>,
    cache: EnemyCacheModel,
    after: Map<Seq<char>, EnemyCacheModel>,
) -> bool {
    if before.contains_key(name) || before.dom().len() < 100 {
        after == before.insert(name, cache)
    } else {
        exists|oldest: Seq<char>|
            is_oldest(before, oldest) && after == #[trigger] before.remove(oldest).insert(
                name,
                cache,
            )
    }
}

/// The answer once our fighters were loaded again.
pub open spec fn refreshed_text(fighters: nat) -> Seq<char> {
    decimal(fighters) + " eigene Kampfwerte aktualisiert"@
}

/// Writes the answer once our fighters were loaded again.
pub fn refreshed_message(fighters: usize) -> (r: String)
    ensures
        r@ == refreshed_text(fighters as nat),
{
    let mut r: String = String::new();
    push_decimal(&mut r, fighters as u64);
    r.append(" eigene Kampfwerte aktualisiert");
    r
}

// ── Simulating ───────────────────────────────────────────────────────────────

/// Why a simulation may not start, if so.
pub open spec fn sim_refusal(app: AppModel, p: ProgressModel, guilds: nat) -> Option<Seq<char>> {
    if guilds == 0 {
        Some("Keine Gilden ausgewählt"@)
    } else if app.selected is None || app.scan_data is None {
        Some("Kein Charakter/Scan geladen"@)
    } else if p.sim.running {
        Some("Simulation läuft bereits"@)
    } else if p.scan.running {
        Some("Bitte warten, bis der laufende Scan fertig ist"@)
    } else {
        None
    }
}

impl AppState {
    /// Prepares a simulation, unless it may not start.
    pub fn start_simulate(&self, progress: &mut ProgressState, req: SimulateRequest) -> (r: Result<
        SimRun,
        String,
    >)
        requires
            req.guild_names@.len() <= u32::MAX,
        ensures
            match sim_refusal(self@, old(progress)@, req.guild_names@.len()) {
                Some(reason) => {
                    &&& r matches Err(e)
                    &&& e@ == reason
                    &&& final(progress)@ == old(progress)@
                },
                None => {
                    &&& r matches Ok(run)
                    &&& run.wf()
                    &&& run@ == (SimRunModel {
                        guild_names: texts(req.guild_names@),
                        mushrooms: mushrooms_for(req.mushrooms),
                        iterations: iterations_for(req.iterations),
                        next: 0,
                        results: Seq::empty(),
                    })
                    &&& final(progress)@ == (ProgressModel {
                        cancel_sim: false,
                        ..old(progress)@
                    })
                },
            },
    {
        if req.guild_names.len() == 0 {
            return Err("Keine Gilden ausgewählt".to_owned());
        }
        if self.selected.is_none() || self.scan_data.is_none() {
            return Err("Kein Charakter/Scan geladen".to_owned());
        }
        if progress.sim.running {
            return Err("Simulation läuft bereits".to_owned());
        }
        if progress.scan.running {
            return Err("Bitte warten, bis der laufende Scan fertig ist".to_owned());
        }
        progress.cancel_sim = false;
        Ok(SimRun::new(req))
    }
}

// ── Laws ─────────────────────────────────────────────────────────────────────

/// While a scan or a simulation runs, neither can be started.
pub proof fn one_task_at_a_time(app: AppModel, p: ProgressModel, guilds: nat)
    requires
        p.scan.running || p.sim.running,
    ensures
        scan_refusal(app, p) is Some,
        sim_refusal(app, p, guilds) is Some,
{
}

/// A guild that was looked up for the data of a scan is there afterwards, and
/// no guild that was there has changed.
pub proof fn looked_up_guild_is_present(
    guilds: Seq<DetailedGuildModel>,
    name: Seq<char>,
    view: GuildView,
    own: Option<(u32, u32)>,
    other: Seq<char>,
)
    requires
        first_named(guilds, name) is None,
    ensures
        first_named(guilds.push(looked_up(name, view, own)), name) == Some(guilds.len() as int),
        other != name ==> first_named(guilds.push(looked_up(name, view, own)), other)
            == first_named(guilds, other),
{
    assert(guilds.push(looked_up(name, view, own)).drop_last() =~= guilds);
}

/// Our fighters are not loaded again for six hours, as long as our guild and
/// its active members stay the same.
pub proof fn own_fighters_are_reused(
    app: AppModel,
    own: OwnGuildModel,
    fighters: Seq<Contender>,
    at: Timestamp,
    later: Timestamp,
)
    requires
        app.own_guild == Some(own),
        fresh(at, later),
    ensures
        own_fighters_loaded(
            AppModel {
                own_fighters_cache: Some(
                    OwnCacheModel {
                        fetched_at: at,
                        guild_name: own.name,
                        active_names: active_names(own),
                        fighters,
                    },
                ),
                ..app
            },
            later,
        ),
{
}

/// The fighters of an enemy guild are not loaded again for six hours, as long
/// as its members stay the same.
pub proof fn enemy_fighters_are_reused(
    app: AppModel,
    name: Seq<char>,
    members: Seq<Seq<char>>,
    cache: EnemyCacheModel,
    after: Map<Seq<char>, EnemyCacheModel>,
    later: Timestamp,
)
    requires
        stored(app.enemy_fighters_cache, name, cache, after),
        cache.member_names == sorted_names(members),
        fresh(cache.fetched_at, later),
    ensures
        enemy_fighters_loaded(
            AppModel { enemy_fighters_cache: after, ..app },
            name,
            members,
            later,
        ),
        after[name] == cache,
{
}

/// Storing the fighters of one guild drops those of at most one other guild,
/// and only where there is no room.
pub proof fn storing_drops_at_most_one(
    before: Map<Seq<char>, EnemyCacheModel>,
    name: Seq<char>,
    cache: EnemyCacheModel,
    after: Map<Seq<char>, EnemyCacheModel>,
    a: Seq<char>,
    b: Seq<char>,
)
    requires
        stored(before, name, cache, after),
        before.contains_key(a),
        before.contains_key(b),
        a != b,
    ensures
        after.contains_key(a) || after.contains_key(b),
        before.contains_key(name) || before.dom().len() < 100 ==> after.contains_key(a),
{
}

/// A scan may start exactly if a character is chosen, its guild is loaded, and
/// neither a scan nor a simulation runs; a simulation exactly if guilds are named,
/// a character is chosen, a scan is loaded, and neither runs.
pub proof fn tasks_start_exactly_when_ready(app: AppModel, p: ProgressModel, guilds: nat)
    ensures
        scan_refusal(app, p) is None <==> app.selected is Some && app.own_guild is Some
            && !p.scan.running && !p.sim.running,
        sim_refusal(app, p, guilds) is None <==> guilds > 0 && app.selected is Some
            && app.scan_data is Some && !p.scan.running && !p.sim.running,
{
}

/// Characters are listed in their order, numbered from 0, with name and server.
pub proof fn characters_are_numbered(characters: Seq<Character>, i: int)
    requires
        0 <= i < characters.len() <= usize::MAX,
    ensures
        infos(characters).len() == characters.len(),
        infos(characters)[i].index == i,
        infos(characters)[i].name@ == characters[i].name@,
        infos(characters)[i].server@ == characters[i].server@,
{
}

/// What belongs to a character is forgotten as a whole; the account and the
/// settings stay.
pub proof fn nothing_of_a_character_is_left(app: AppModel, name: Seq<char>)
    ensures
        app.forgotten().selected is None,
        app.forgotten().own_guild is None,
        app.forgotten().scan_data is None,
        app.forgotten().own_fighters_cache is None,
        !app.forgotten().enemy_fighters_cache.contains_key(name),
        app.forgotten().characters == app.characters,
        app.forgotten().scan_settings == app.scan_settings,
{
}

/// The names of our active members, sorted, are the names of our active members.
pub proof fn active_names_are_those_of_members(own: OwnGuildModel)
    ensures
        active_names(own).to_multiset() == Seq::new(
            own.active_members.len(),
            |i: int| own.active_members[i].name@,
        ).to_multiset(),
{
    let names = names_of(own.active_members);
    assert(names =~= Seq::new(own.active_members.len(), |i: int| own.active_members[i].name@));
    sorted_names_hold_the_names(names);
}

/// Our fighters count as loaded exactly if there are some that are not older than
/// six hours, for our guild and for the active members that it has.
pub proof fn own_fighters_are_loaded_exactly(
    app: AppModel,
    own: OwnGuildModel,
    cache: OwnCacheModel,
    at: Timestamp,
)
    ensures
        app.own_fighters_cache is None ==> !own_fighters_loaded(app, at),
        app.own_guild == Some(own) && app.own_fighters_cache == Some(cache) ==> (
        own_fighters_loaded(app, at) <==> at.instant() - cache.fetched_at.instant()
            <= 21_600_000_000_000 && cache.guild_name == own.name && cache.active_names
            == sorted_names(names_of(own.active_members))),
{
}

/// The fighters of an enemy guild count as loaded exactly if there are some under
/// its name that are not older than six hours, for the members that it has.
pub proof fn enemy_fighters_are_loaded_exactly(
    app: AppModel,
    name: Seq<char>,
    members: Seq<Seq<char>>,
    at: Timestamp,
)
    ensures
        !app.enemy_fighters_cache.contains_key(name) ==> !enemy_fighters_loaded(
            app,
            name,
            members,
            at,
        ),
        app.enemy_fighters_cache.contains_key(name) ==> (enemy_fighters_loaded(
            app,
            name,
            members,
            at,
        ) <==> at.instant() - app.enemy_fighters_cache[name].fetched_at.instant()
            <= 21_600_000_000_000 && app.enemy_fighters_cache[name].member_names == sorted_names(
            members,
        )),
{
}

/// Storing fighters puts them under the name of their guild and leaves those of
/// every other guild as they are, but for one that makes room; and that one was
/// loaded no later than any other.
pub proof fn storing_leaves_the_others(
    before: Map<Seq<char>, EnemyCacheModel>,
    name: Seq<char>,
    cache: EnemyCacheModel,
    after: Map<Seq<char>, EnemyCacheModel>,
    a: Seq<char>,
    b: Seq<char>,
)
    requires
        stored(before, name, cache, after),
        before.contains_key(a),
        before.contains_key(b),
        a != name,
    ensures
        after.contains_key(name) && after[name] == cache,
        after.contains_key(a) ==> after[a] == before[a],
        !after.contains_key(a) ==> before.dom().len() >= 100 && !before.contains_key(name)
            && before[a].fetched_at.instant() <= before[b].fetched_at.instant(),
        forall|other: Seq<char>| #[trigger]
            after.contains_key(other) ==> other == name || before.contains_key(other),
{
}

/// The details that are known of a guild are those of the first guild in the scan
/// that has its name; without a scan, or where none has it, there are none.
pub proof fn known_details_are_of_the_first_guild(scan: ScanModel, name: Seq<char>, k: int)
    ensures
        known_details(None, name) is None,
        0 <= k < scan.detailed_guilds.len() && scan.detailed_guilds[k].name == name && (forall|
            j: int,
        |
            0 <= j < k ==> (#[trigger] scan.detailed_guilds[j]).name != name) ==> known_details(
            Some(scan),
            name,
        ) == Some(scan.detailed_guilds[k]),
        (forall|j: int|
            0 <= j < scan.detailed_guilds.len() ==> (#[trigger] scan.detailed_guilds[j]).name
                != name) ==> known_details(Some(scan), name) is None,
{
    first_named_is_first(scan.detailed_guilds, name);
    match first_named(scan.detailed_guilds, name) {
        Some(f) => {
            if f < k {
                assert(scan.detailed_guilds[f].name == name);
            } else if 0 <= k < f {
                assert(scan.detailed_guilds[k].name != name);
            }
        },
        None => {},
    }
}

/// A guild that is looked up is rated for the rank and the honor of our guild.
pub proof fn own_rank_and_honor_are_passed_on(own: OwnGuildModel)
    ensures
        rank_and_honor(Some(own)) == Some((own.rank, own.honor)),
        rank_and_honor(None) is None,
{
}

} // verus!
