use guildscan::battle::Contender;
use guildscan::clock::{
    at_most_hours_ago, less_than_hours_ago, now, seconds_since, show_date_time, show_file_stamp, Timestamp,
};
use guildscan::detail::{GuildView, ViewedMember};
use guildscan::guild::{MemberInfo, OfflineDays, OwnGuild, ScanData};
use guildscan::paths::{history_file_path, scan_file_path};
use guildscan::progress::{ProgressState, ScanPhase, SimPhase};
use guildscan::response::{
    err_response, failure_message, login_failure, ok_response, update_failure,
};
use guildscan::roster::{
    offline_seconds, read_own_guild, LastSeen, LoadedGuild, RosterMember,
};
use guildscan::settings::ScanRequest;
use guildscan::simulation::SimulateRequest;
use guildscan::sorting::{same_names, sort, sort_levels, sort_names};
use guildscan::state::{
    details_found, lookup_failure, refreshed_message, AppState, Character, DetailsPlan,
    EnemyPlan, EnsurePlan, OwnPlan,
};
use guildscan::text::{chars_of, push_decimal};
use sf_api::gamestate::character::Class;
use sf_api::simulate::{Fighter, Monster};

fn at(secs: i64) -> Timestamp {
    Timestamp::new(secs, 0, 0).unwrap()
}

fn strings(names: &[&str]) -> Vec<String> {
    names.iter().map(|n| n.to_string()).collect()
}

// ── Text, names, time ────────────────────────────────────────────────────────

#[test]
fn decimal_numbers() {
    let mut out = "n=".to_string();
    push_decimal(&mut out, 0);
    push_decimal(&mut out, 2_500);
    push_decimal(&mut out, u64::MAX);
    assert_eq!(out, "n=0250018446744073709551615");
    assert_eq!(chars_of("aß€"), vec!['a', 'ß', '€']);
}

#[test]
fn sorting_is_ascending() {
    assert_eq!(sort_levels(vec![3, 1, 2, 1]), vec![1, 1, 2, 3]);
    assert_eq!(
        sort_names(strings(&["b", "ä", "a", "", "ab", "B", "𝄞", "ｚ"])),
        {
            let mut v = strings(&["b", "ä", "a", "", "ab", "B", "𝄞", "ｚ"]);
            v.sort();
            v
        }
    );
    assert_eq!(sort(vec![9u16]), vec![9]);
}

#[test]
fn rosters_are_the_same_in_any_order() {
    let a = sort_names(strings(&["x", "z", "y"]));
    let b = sort_names(strings(&["z", "y", "x"]));
    assert!(same_names(&a, &b));
    assert!(!same_names(&a, &strings(&["x", "y"])));
    assert!(!same_names(&a, &strings(&["x", "y", "Z"])));
}

#[test]
fn points_in_time_are_checked() {
    assert!(Timestamp::new(0, 999_999_999, -86_399).is_some());
    assert!(Timestamp::new(0, 1_000_000_000, 0).is_none());
    assert!(Timestamp::new(0, 0, 86_400).is_none());
    assert!(Timestamp::new(i64::MAX, 0, 0).is_none());
    assert!(Timestamp::new(i64::MIN, 0, 0).is_none());
    assert!(at(1).before(&at(2)));
    assert!(!at(2).before(&at(2)));
    assert!(at(1).before(&Timestamp::new(1, 1, 0).unwrap()));
}

#[test]
fn points_in_time_are_written() {
    let t = Timestamp::new(1_700_000_000, 5, 3_600).unwrap();
    assert_eq!(show_date_time(t), "2023-11-14 23:13:20");
    assert_eq!(show_file_stamp(t), "20231114_231320");
    assert_eq!(show_date_time(at(0)), "1970-01-01 00:00:00");
}

#[test]
fn earliest_and_latest_points_in_time_are_written() {
    for (secs, offset) in [
        (-8_334_601_228_800, -86_399),
        (-8_334_601_228_800, 86_399),
        (8_210_266_876_799, 86_399),
        (8_210_266_876_799, -86_399),
    ] {
        let t = Timestamp::new(secs, 999_999_999, offset).unwrap();
        assert!(show_date_time(t).len() > 19);
        assert_eq!(seconds_since(t, t), 0);
    }
    let first = at(-8_334_601_228_800);
    let last = at(8_210_266_876_799);
    assert_eq!(seconds_since(last, first), 16_544_868_105_599);
    assert_eq!(seconds_since(first, last), -16_544_868_105_599);
}

#[test]
fn seconds_are_counted_without_fraction() {
    let early = Timestamp::new(10, 500_000_000, 0).unwrap();
    let late = Timestamp::new(17, 400_000_000, 7_200).unwrap();
    assert_eq!(seconds_since(late, early), 6);
    assert_eq!(seconds_since(early, late), -6);
    assert_eq!(seconds_since(at(17), at(10)), 7);
}

#[test]
fn hours_pass() {
    assert!(less_than_hours_ago(at(3_599), at(0), 1));
    assert!(!less_than_hours_ago(at(3_600), at(0), 1));
    assert!(less_than_hours_ago(at(0), at(1_000_000), 1));
    let late = Timestamp::new(3_599, 999_999_999, 0).unwrap();
    assert!(less_than_hours_ago(late, at(0), 1));
    assert!(at_most_hours_ago(at(3_600), at(0), 1));
    assert!(!at_most_hours_ago(Timestamp::new(3_600, 1, 0).unwrap(), at(0), 1));
    assert!(!at_most_hours_ago(at(3_601), at(0), 1));
    assert!(at_most_hours_ago(at(0), at(1_000_000), 1));
}

#[test]
fn clock_goes_forward() {
    let first = now();
    let second = now();
    assert!(!second.before(&first));
    assert!(at(1_600_000_000).before(&first));
}

// ── Files ────────────────────────────────────────────────────────────────────

#[test]
fn scans_have_stable_file_names() {
    assert_eq!(
        scan_file_path("https://s1.sfgame.net/", "Die \\ Ritter/Nord"),
        "/app/data/scan_s1.sfgame.net__Die___Ritter_Nord.json"
    );
    assert_eq!(
        scan_file_path("http://localhost:8080", "x"),
        "/app/data/scan_localhost_8080_x.json"
    );
    assert_eq!(scan_file_path("s1", "x"), "/app/data/scan_s1_x.json");
    assert_eq!(scan_file_path("hhttps://ttp://s", "x"), "/app/data/scan_s_x.json");
}

#[test]
fn history_has_a_file_per_scan() {
    assert_eq!(
        history_file_path("https://s1", "a b", "20231114_231320"),
        "/app/data/history/scan_s1_a_b_20231114_231320.json"
    );
}

fn own_guild(name: &str, active: &[&str]) -> OwnGuild {
    let members: Vec<MemberInfo> = active
        .iter()
        .map(|n| MemberInfo {
            name: n.to_string(),
            level: 1,
            last_online: None,
            offline_days: None,
            is_active_24h: Some(true),
        })
        .collect();
    OwnGuild {
        name: name.to_string(),
        rank: 100,
        honor: 2_000,
        member_count: members.len(),
        active_member_count: members.len(),
        members: members.clone(),
        active_members: members,
    }
}

fn scan_data() -> ScanData {
    ScanData {
        scanned_at: "heute".to_string(),
        server: "https://s1".to_string(),
        own_guild: own_guild("Wir", &["b", "a"]),
        hof_guilds: Vec::new(),
        detailed_guilds: Vec::new(),
    }
}

#[test]
fn scan_knows_its_files() {
    let data = scan_data();
    assert_eq!(data.latest_path(), scan_file_path("https://s1", "Wir"));
    assert_eq!(
        data.archive_path(at(0)),
        "/app/data/history/scan_s1_Wir_19700101_000000.json"
    );
}

// ── Our guild ────────────────────────────────────────────────────────────────

#[test]
fn members_are_active_for_a_day() {
    let now = at(1_000_000);
    let seen = |secs: i64| {
        Some(LastSeen { at: at(secs), offline_days: OfflineDays { bits: 1.5f32.to_bits() } })
    };
    let guild = LoadedGuild {
        name: "Wir".to_string(),
        rank: 7,
        honor: 8,
        roster: vec![
            RosterMember { name: "a".to_string(), level: 1, last_seen: seen(1_000_000) },
            RosterMember { name: "b".to_string(), level: 2, last_seen: seen(913_601) },
            RosterMember { name: "c".to_string(), level: 3, last_seen: seen(913_600) },
            RosterMember { name: "d".to_string(), level: 4, last_seen: None },
            RosterMember { name: "e".to_string(), level: 5, last_seen: seen(2_000_000) },
        ],
    };
    let own = read_own_guild(guild, now);
    assert_eq!(own.name, "Wir");
    assert_eq!((own.rank, own.honor), (7, 8));
    assert_eq!(own.member_count, 5);
    assert_eq!(own.active_member_count, 3);
    let active: Vec<&str> = own.active_members.iter().map(|m| m.name.as_str()).collect();
    assert_eq!(active, vec!["a", "b", "e"]);
    assert_eq!(own.members[2].is_active_24h, Some(false));
    assert_eq!(own.members[3].is_active_24h, Some(false));
    assert_eq!(own.members[3].last_online, None);
    assert_eq!(own.members[3].offline_days, None);
    assert_eq!(own.members[0].last_online.as_deref(), Some("1970-01-12 13:46:40"));
    assert_eq!(own.members[0].offline_days, Some(OfflineDays { bits: 1.5f32.to_bits() }));
}

#[test]
fn offline_time_is_not_negative() {
    assert_eq!(offline_seconds(at(100), at(40)), 60);
    assert_eq!(offline_seconds(at(40), at(100)), 0);
}

// ── State ────────────────────────────────────────────────────────────────────

fn characters() -> Vec<Character> {
    vec![
        Character { name: "a".to_string(), server: "https://s1".to_string() },
        Character { name: "z".to_string(), server: "https://s2".to_string() },
    ]
}

fn loaded() -> (AppState, ProgressState) {
    let mut app = AppState::new();
    let mut p = ProgressState::new();
    app.login(characters(), &mut p);
    app.select_character(0, &mut p).unwrap();
    app.own_guild = Some(own_guild("Wir", &["b", "a"]));
    app.scan_data = Some(scan_data());
    (app, p)
}

fn no_change() -> ScanRequest {
    ScanRequest {
        down_limit: None,
        honor_up_scan: None,
        max_extra_up_pages: None,
        strict_mode: None,
        strict_topn: None,
        full_up_scan: None,
    }
}

fn simulate(names: &[&str]) -> SimulateRequest {
    SimulateRequest { guild_names: strings(names), mushrooms: 1, iterations: None }
}

fn view() -> GuildView {
    GuildView {
        rank: 90,
        honor: 9,
        finished_raids: 1,
        members: vec![
            ViewedMember { name: "y".to_string(), level: 5 },
            ViewedMember { name: "x".to_string(), level: 6 },
        ],
    }
}

fn contender() -> Contender {
    let fighter = Fighter::from(&Monster {
        name: "Monster",
        level: 1,
        class: Class::Warrior,
        attributes: Default::default(),
        hp: 10,
        min_dmg: 1,
        max_dmg: 1,
        armor: 0,
        runes: None,
    });
    Contender::new(fighter).unwrap()
}

#[test]
fn characters_are_listed_after_login() {
    let mut app = AppState::new();
    let mut p = ProgressState::new();
    assert_eq!(app.list_characters().unwrap_err(), "Nicht eingeloggt");
    p.begin_scan();
    p.cancel_scan = true;
    let list = app.login(characters(), &mut p);
    assert_eq!(list.len(), 2);
    assert_eq!(list[1].index, 1);
    assert_eq!(list[1].name, "z");
    assert_eq!(list[1].server, "https://s2");
    assert_eq!(app.list_characters().unwrap().len(), 2);
    assert!(!p.scan.running);
    assert_eq!(p.scan.phase.label(), "");
    assert!(p.cancel_scan);
}

#[test]
fn choosing_a_character_forgets_the_last_one() {
    let (mut app, mut p) = loaded();
    app.own_fighters_fetched("Wir".to_string(), strings(&["a"]), Vec::new(), at(0));
    app.enemy_fighters_fetched("x".to_string(), strings(&["a"]), Vec::new(), at(0));
    p.begin_sim(3);
    p.cancel_sim = true;
    assert_eq!(
        app.select_character(2, &mut p).unwrap_err(),
        "Ungültiger Charakter-Index"
    );
    assert!(app.scan_data.is_some());
    assert_eq!(app.select_character(1, &mut p).unwrap(), "https://s2");
    assert_eq!(app.selected, Some(1));
    assert!(app.own_guild.is_none());
    assert!(app.scan_data.is_none());
    assert!(app.own_fighters_cache.is_none());
    assert!(app.enemy_fighters_cache.get(&"x".to_string()).is_none());
    assert!(!p.sim.running);
    assert!(!p.cancel_sim);
}

#[test]
fn guild_of_the_character_is_taken_over() {
    let (mut app, mut p) = loaded();
    app.select_character(0, &mut p).unwrap();
    assert_eq!(
        app.guild_loaded(None, at(0)).unwrap_err(),
        "Dieser Charakter ist in keiner Gilde!"
    );
    assert!(app.own_guild.is_none());
    let guild = LoadedGuild { name: "G".to_string(), rank: 3, honor: 4, roster: Vec::new() };
    assert_eq!(app.guild_loaded(Some(guild), at(0)).unwrap().name, "G");
    assert_eq!(app.own_guild.as_ref().unwrap().rank, 3);
    app.scan_found(None);
    assert!(app.scan_data.is_none());
    app.scan_found(Some(scan_data()));
    app.scan_found(None);
    assert!(app.scan_data.is_some());
}

#[test]
fn status_tells_what_is_loaded() {
    let (mut app, mut p) = loaded();
    let s = app.status();
    assert!(s.logged_in && s.character_selected && s.guild_loaded && s.has_scan_data);
    assert_eq!(s.guild_name.as_deref(), Some("Wir"));
    assert_eq!(s.scan_date.as_deref(), Some("heute"));
    assert_eq!(app.logout(&mut p), "Ausgeloggt");
    let s = app.status();
    assert!(!s.logged_in && !s.character_selected && !s.guild_loaded && !s.has_scan_data);
    assert_eq!(s.guild_name, None);
    assert_eq!(s.scan_date, None);
}

#[test]
fn scan_starts_only_when_ready() {
    let mut p = ProgressState::new();
    let mut app = AppState::new();
    assert_eq!(
        app.start_scan(&mut p, no_change()).unwrap_err(),
        "Kein Charakter/Gilde geladen"
    );
    let (mut app, mut p) = loaded();
    p.scan.running = true;
    p.sim.running = true;
    assert_eq!(app.start_scan(&mut p, no_change()).unwrap_err(), "Scan läuft bereits");
    p.scan.running = false;
    assert_eq!(
        app.start_scan(&mut p, no_change()).unwrap_err(),
        "Bitte warten, bis die laufende Simulation fertig ist"
    );
    p.sim.running = false;
    p.cancel_scan = true;
    let mut req = no_change();
    req.down_limit = Some(5);
    assert_eq!(app.start_scan(&mut p, req).unwrap(), "Scan gestartet");
    assert_eq!(app.scan_settings.down_limit, 5);
    assert!(!p.cancel_scan);
    let run = app.new_run().unwrap();
    assert_eq!(run.server, "https://s1");
    assert_eq!(run.own.name, "Wir");
    assert_eq!(run.settings.down_limit, 5);
    app.logout(&mut p);
    assert!(app.new_run().is_none());
}

#[test]
fn simulation_starts_only_when_ready() {
    let mut p = ProgressState::new();
    let app = AppState::new();
    assert_eq!(
        app.start_simulate(&mut p, simulate(&[])).unwrap_err(),
        "Keine Gilden ausgewählt"
    );
    assert_eq!(
        app.start_simulate(&mut p, simulate(&["x"])).unwrap_err(),
        "Kein Charakter/Scan geladen"
    );
    let (app, mut p) = loaded();
    p.scan.running = true;
    p.sim.running = true;
    assert_eq!(
        app.start_simulate(&mut p, simulate(&["x"])).unwrap_err(),
        "Simulation läuft bereits"
    );
    p.sim.running = false;
    assert_eq!(
        app.start_simulate(&mut p, simulate(&["x"])).unwrap_err(),
        "Bitte warten, bis der laufende Scan fertig ist"
    );
    p.scan.running = false;
    p.cancel_sim = true;
    let run = app.start_simulate(&mut p, simulate(&["x", "y"])).unwrap();
    assert_eq!(run.guild_names, strings(&["x", "y"]));
    assert!(!p.cancel_sim);
}

#[test]
fn guilds_are_looked_up_where_needed() {
    let (mut app, _) = loaded();
    let name = "Neu".to_string();
    assert!(matches!(
        app.guild_details(&name).unwrap(),
        DetailsPlan::LookUp(Some((100, 2_000)))
    ));
    assert!(matches!(
        app.ensure_detailed_guild(&name).unwrap(),
        EnsurePlan::LookUp(Some((100, 2_000)))
    ));
    assert_eq!(
        app.guild_looked_up(name.clone(), None, None).unwrap_err(),
        "Gilde 'Neu' nicht gefunden"
    );
    app.guild_looked_up(name.clone(), Some(view()), Some((100, 2_000))).unwrap();
    assert!(matches!(app.ensure_detailed_guild(&name).unwrap(), EnsurePlan::Present));
    match app.guild_details(&name).unwrap() {
        DetailsPlan::Known(d) => {
            assert_eq!(d.rank, 90);
            assert!(d.attackable);
        }
        other => panic!("{:?}", other),
    }
    app.selected = None;
    let other = "Andere".to_string();
    assert_eq!(app.guild_details(&other).unwrap_err(), "Kein Charakter ausgewählt");
    assert_eq!(
        app.ensure_detailed_guild(&other).unwrap_err(),
        "Kein Charakter ausgewählt"
    );
    app.scan_data = None;
    assert_eq!(
        app.ensure_detailed_guild(&other).unwrap_err(),
        "Keine Scan-Daten vorhanden"
    );
    app.guild_looked_up(name, Some(view()), None).unwrap();
    assert!(app.scan_data.is_none());
}

#[test]
fn details_answer_the_request() {
    let d = details_found("X".to_string(), Some(view()), None).unwrap();
    assert_eq!(d.name, "X");
    assert!(!d.attackable);
    assert_eq!(
        details_found("X".to_string(), None, None).unwrap_err(),
        "Gilde nicht gefunden"
    );
    assert_eq!(lookup_failure("X", "weg"), "ViewGuild für 'X' fehlgeschlagen: weg");
}

#[test]
fn own_fighters_are_loaded_once() {
    let (mut app, _) = loaded();
    match app.own_fighters(at(0)).unwrap() {
        OwnPlan::Load { guild_name, active_names, ask } => {
            assert_eq!(guild_name, "Wir");
            assert_eq!(active_names, strings(&["a", "b"]));
            assert_eq!(ask, strings(&["b"]));
            app.own_fighters_fetched(guild_name, active_names, vec![contender()], at(0));
        }
        other => panic!("{:?}", other),
    }
    match app.own_fighters(at(21_600)).unwrap() {
        OwnPlan::Loaded(fighters) => assert_eq!(fighters.len(), 1),
        other => panic!("{:?}", other),
    }
    assert!(matches!(app.own_fighters(at(21_601)).unwrap(), OwnPlan::Load { .. }));
    app.refresh_own_fighters().unwrap();
    assert!(matches!(app.own_fighters(at(0)).unwrap(), OwnPlan::Load { .. }));
    app.own_guild = None;
    assert_eq!(app.own_fighters(at(0)).unwrap_err(), "Keine Gilde geladen");
    app.selected = None;
    assert_eq!(app.own_fighters(at(0)).unwrap_err(), "Kein Charakter ausgewählt");
    assert_eq!(app.refresh_own_fighters().unwrap_err(), "Kein Charakter ausgewählt");
    assert_eq!(refreshed_message(12), "12 eigene Kampfwerte aktualisiert");
}

#[test]
fn enemy_fighters_are_loaded_once() {
    let (mut app, _) = loaded();
    let name = "Neu".to_string();
    assert_eq!(
        app.enemy_fighters(&name, at(0)).unwrap_err(),
        "Gilde 'Neu' nicht in Scan-Daten gefunden"
    );
    app.guild_looked_up(name.clone(), Some(view()), None).unwrap();
    match app.enemy_fighters(&name, at(0)).unwrap() {
        EnemyPlan::Load { member_names } => {
            assert_eq!(member_names, strings(&["x", "y"]));
            app.enemy_fighters_fetched(name.clone(), member_names, Vec::new(), at(0));
        }
        other => panic!("{:?}", other),
    }
    assert!(matches!(
        app.enemy_fighters(&name, at(21_600)).unwrap(),
        EnemyPlan::Loaded(_)
    ));
    assert!(matches!(
        app.enemy_fighters(&name, at(21_601)).unwrap(),
        EnemyPlan::Load { .. }
    ));
    app.scan_data = None;
    assert_eq!(
        app.enemy_fighters(&name, at(0)).unwrap_err(),
        "Keine Scan-Daten vorhanden"
    );
    app.selected = None;
    assert_eq!(
        app.enemy_fighters(&name, at(0)).unwrap_err(),
        "Kein Charakter ausgewählt"
    );
}

#[test]
fn finished_scan_is_kept() {
    let mut app = AppState::new();
    app.scan_finished(scan_data());
    assert_eq!(app.status().scan_date.as_deref(), Some("heute"));
}

// ── Progress and answers ─────────────────────────────────────────────────────

#[test]
fn failed_tasks_say_why() {
    let mut p = ProgressState::new();
    p.begin_scan();
    assert_eq!(p.scan.message, "Starte HoF-Scan...");
    assert_eq!(p.scan.phase.label(), "hof");
    p.fail_scan("weg");
    assert_eq!(p.scan.message, "Scan fehlgeschlagen: weg");
    assert_eq!(p.scan.phase.label(), "error");
    assert!(!p.scan.running);
    p.begin_sim(4);
    assert_eq!(p.sim.message, "Aktualisiere eigene Kampfwerte...");
    assert_eq!(p.sim.phase.label(), "own-roster");
    p.fail_sim("fort");
    assert_eq!(p.sim.message, "Fehler beim Laden eigener Kampfwerte: fort");
    assert_eq!(p.sim.phase.label(), "error");
    assert_eq!(p.sim.total, 0);
}

#[test]
fn only_running_tasks_can_be_stopped() {
    let mut p = ProgressState::new();
    assert_eq!(p.abort_scan(), "Kein laufender Scan");
    assert_eq!(p.abort_simulate(), "Keine laufende Simulation");
    assert!(!p.cancel_scan && !p.cancel_sim);
    p.begin_scan();
    p.begin_sim(1);
    assert_eq!(p.abort_scan(), "Abbruch angefordert");
    assert_eq!(p.abort_simulate(), "Abbruch angefordert");
    assert!(p.cancel_scan && p.cancel_sim);
}

#[test]
fn phases_have_names() {
    assert_eq!(ScanPhase::Unstarted.label(), "");
    assert_eq!(ScanPhase::Details.label(), "details");
    assert_eq!(ScanPhase::Done.label(), "done");
    assert_eq!(ScanPhase::Aborted.label(), "aborted");
    assert_eq!(SimPhase::Unstarted.label(), "");
    assert_eq!(SimPhase::Guilds.label(), "guilds");
    assert_eq!(SimPhase::Done.label(), "done");
    assert_eq!(SimPhase::Aborted.label(), "aborted");
}

#[test]
fn answers_hold_data_or_a_reason() {
    let ok = ok_response(5);
    assert!(ok.success);
    assert_eq!(ok.data, Some(5));
    assert_eq!(ok.error, None);
    let (status, err) = err_response::<u8>("nein");
    assert_eq!(status, 400);
    assert!(!err.success);
    assert_eq!(err.data, None);
    assert_eq!(err.error.as_deref(), Some("nein"));
    assert_eq!(failure_message("x"), "Fehler: x");
    assert_eq!(login_failure("x"), "Login fehlgeschlagen: x");
    assert_eq!(update_failure("x"), "Update fehlgeschlagen: x");
}
