use guildscan::clock::Timestamp;
use guildscan::detail::{GuildView, ViewedMember};
use guildscan::guild::{
    DetailedGuild, HofEntry, HofGuild, MemberInfo, OwnGuild, ScanData, SimRecord, StrictOutcome,
    WinRatio,
};
use guildscan::progress::{ProgressState, ScanPhase};
use guildscan::results::{get_results, FilterRequest};
use guildscan::scan::{ScanAction, ScanRun};
use guildscan::settings::ScanSettings;

fn own(rank: u32, honor: u32) -> OwnGuild {
    let levels = [200, 100];
    let members: Vec<MemberInfo> = levels
        .iter()
        .map(|l| MemberInfo {
            name: format!("own{}", l),
            level: *l,
            last_online: None,
            offline_days: None,
            is_active_24h: Some(true),
        })
        .collect();
    OwnGuild {
        name: "Wir".to_string(),
        rank,
        honor,
        member_count: 2,
        active_member_count: 2,
        members: members.clone(),
        active_members: members,
    }
}

fn entry(name: &str, rank: u32, honor: u32) -> HofEntry {
    HofEntry {
        name: name.to_string(),
        rank,
        leader: "L".to_string(),
        member_count: 1,
        honor,
        is_attacked: false,
    }
}

fn settings() -> ScanSettings {
    ScanSettings { down_limit: 20, ..ScanSettings::default() }
}

fn view(level: u16) -> GuildView {
    GuildView {
        rank: 1,
        honor: 1,
        finished_raids: 0,
        members: vec![ViewedMember { name: "e".to_string(), level }],
    }
}

fn page_of(action: ScanAction) -> u32 {
    match action {
        ScanAction::FetchPage { page } => page,
        other => panic!("{:?}", other),
    }
}

fn guild_of(action: ScanAction) -> String {
    match action {
        ScanAction::FetchGuild { name } => name,
        other => panic!("{:?}", other),
    }
}

#[test]
fn scan_reads_window_then_targets() {
    let mut p = ProgressState::new();
    p.begin_scan();
    let mut run = ScanRun::new(own(30, 1_000), "s1".to_string(), settings());
    run.announce(&mut p);
    assert_eq!(p.scan.total, 1);
    assert_eq!(p.scan.message, "Scanne Rangbereich #10..#50 (1 Seiten)...");

    assert_eq!(page_of(run.next_action(&mut p)), 0);
    assert_eq!(p.scan.current, 1);
    assert_eq!(p.scan.message, "HoF Seite 1 wird gescannt... (0 Gilden gesammelt)");
    let pause = run.page_loaded(vec![
        entry("C", 40, 10),
        entry("Wir", 30, 1_000),
        entry("A", 12, 99_999),
        entry("Weit oben", 9, 4_001),
        entry("Gleich", 30, 0),
        entry("B", 50, 10),
        entry("Weit unten", 51, 10),
    ]);
    assert_eq!(pause, 250);

    assert!(matches!(run.next_action(&mut p), ScanAction::Continue));
    assert_eq!(p.scan.phase.label(), "details");
    assert_eq!(p.scan.total, 3);
    assert_eq!(p.scan.current, 0);
    assert_eq!(p.scan.message, "Phase 2: Lade Details für 3 angreifbare Gilden...");

    assert_eq!(guild_of(run.next_action(&mut p)), "A");
    assert_eq!(p.scan.message, "Lade Gilde 1/3: A");
    assert_eq!(run.guild_loaded(Some(view(200))), 400);
    assert_eq!(guild_of(run.next_action(&mut p)), "C");
    run.guild_loaded(None);
    assert_eq!(guild_of(run.next_action(&mut p)), "B");
    assert_eq!(p.scan.current, 3);
    run.guild_loaded(Some(view(201)));
    assert!(matches!(run.next_action(&mut p), ScanAction::Finish));
    assert!(matches!(run.next_action(&mut p), ScanAction::Finish));

    let data = run.into_data(Timestamp::new(0, 0, 0).unwrap());
    assert_eq!(data.scanned_at, "1970-01-01 00:00:00");
    assert_eq!(data.server, "s1");
    let listed: Vec<&str> = data.hof_guilds.iter().map(|g| g.name.as_str()).collect();
    assert_eq!(listed, vec!["A", "C", "B"]);
    let read: Vec<&str> = data.detailed_guilds.iter().map(|g| g.name.as_str()).collect();
    assert_eq!(read, vec!["A", "B"]);
    assert!(data.detailed_guilds[0].strict.beatable);
    assert!(!data.detailed_guilds[1].strict.beatable);
    assert!(data.detailed_guilds.iter().all(|g| g.attackable));

    p.finish_scan(false);
    assert_eq!(p.scan.phase.label(), "done");
    assert_eq!(p.scan.message, "Scan abgeschlossen.");
    assert_eq!(p.scan.current, 3);
}

#[test]
fn honor_rule_reads_above_the_window() {
    let mut p = ProgressState::new();
    let own = own(200, 1_000);
    let settings = ScanSettings { down_limit: 0, max_extra_up_pages: 2, ..settings() };
    let mut run = ScanRun::new(own, "s".to_string(), settings);
    assert_eq!(page_of(run.next_action(&mut p)), 3);
    run.page_loaded(vec![entry("D", 190, 50_000)]);
    assert_eq!(page_of(run.next_action(&mut p)), 2);
    assert_eq!(p.scan.message, "HoF (Ehre-Regel): Seite 3 wird geprüft...");
    assert_eq!(
        run.page_loaded(vec![
            entry("Reich", 110, 4_001),
            entry("Passt", 111, 4_000),
            entry("D", 112, 10),
            entry("Wir", 113, 10),
            entry("Unten", 201, 10),
        ]),
        250
    );
    assert_eq!(page_of(run.next_action(&mut p)), 1);
    run.page_loaded(Vec::new());
    assert!(matches!(run.next_action(&mut p), ScanAction::Continue));
    let listed: Vec<&str> = run.guilds.iter().map(|g| g.name.as_str()).collect();
    assert_eq!(listed, vec!["Passt", "D"]);
    assert!(run.guilds.iter().all(|g| g.attackable));
}

#[test]
fn full_scan_reads_up_to_rank_one() {
    let mut p = ProgressState::new();
    let settings = ScanSettings {
        down_limit: 0,
        max_extra_up_pages: 0,
        honor_up_scan: false,
        full_up_scan: true,
        ..settings()
    };
    let mut run = ScanRun::new(own(200, 1_000), "s".to_string(), settings);
    assert_eq!(page_of(run.next_action(&mut p)), 3);
    run.page_loaded(Vec::new());
    assert_eq!(page_of(run.next_action(&mut p)), 2);
    assert_eq!(p.scan.message, "Vollständige Ehrenhalle: Seite 3 wird geladen...");
    run.page_loaded(Vec::new());
    assert_eq!(page_of(run.next_action(&mut p)), 1);
    assert_eq!(run.page_loaded(Vec::new()), 250);
    assert_eq!(page_of(run.next_action(&mut p)), 0);
    assert_eq!(run.page_loaded(vec![entry("Erste", 1, 99_999), entry("Arm", 2, 5)]), 0);
    assert!(matches!(run.next_action(&mut p), ScanAction::Continue));
    assert_eq!(run.guilds.len(), 2);
    assert!(!run.guilds[0].attackable);
    assert!(run.guilds[1].attackable);
    assert_eq!(run.targets.len(), 1);
}

#[test]
fn guilds_above_the_window_on_its_page_are_found() {
    let mut p = ProgressState::new();
    let us = own(40, 5_000);
    let mut run = ScanRun::new(us, "s".to_string(), ScanSettings::default());
    assert_eq!(page_of(run.next_action(&mut p)), 0);
    run.page_loaded(vec![
        entry("Wir", 40, 5_000),
        entry("Top", 10, 6_000),
        entry("Zu reich", 11, 8_001),
        entry("Top", 12, 0),
    ]);
    for page in 1..=6 {
        assert_eq!(page_of(run.next_action(&mut p)), page);
        run.page_loaded(Vec::new());
    }
    assert!(matches!(run.next_action(&mut p), ScanAction::Continue));
    assert_eq!(guild_of(run.next_action(&mut p)), "Top");
    run.guild_loaded(Some(view(1)));
    assert!(matches!(run.next_action(&mut p), ScanAction::Finish));
    let data = run.finish();
    assert_eq!(data.hof_guilds.len(), 1);
    assert_eq!(data.hof_guilds[0].name, "Top");
    assert_eq!(data.hof_guilds[0].rank, 10);
    assert!(data.hof_guilds[0].attackable);
    assert_eq!(data.detailed_guilds.len(), 1);
    assert_eq!(data.detailed_guilds[0].name, "Top");
}

#[test]
fn full_scan_lists_every_rank() {
    for rank in [1u32, 5, 40, 51, 52, 71, 72, 73, 130] {
        let mut p = ProgressState::new();
        let settings = ScanSettings {
            down_limit: 5,
            max_extra_up_pages: 0,
            full_up_scan: true,
            ..ScanSettings::default()
        };
        let mut run = ScanRun::new(own(rank, 0), "s".to_string(), settings);
        while let ScanAction::FetchPage { page } = run.next_action(&mut p) {
            let first = 51 * page + 1;
            run.page_loaded(
                (first..first + 51)
                    .map(|r| {
                        let name = if r == rank { "Wir".to_string() } else { format!("g{}", r) };
                        entry(&name, r, 99_999)
                    })
                    .collect(),
            );
        }
        let ranks: Vec<u32> = run.guilds.iter().map(|g| g.rank).collect();
        let expected: Vec<u32> = (1..=rank + 5).filter(|r| *r != rank).collect();
        assert_eq!(ranks, expected);
    }
}

#[test]
fn window_alone_lists_nothing_above_it() {
    let mut p = ProgressState::new();
    let settings = ScanSettings { honor_up_scan: false, ..settings() };
    let mut run = ScanRun::new(own(40, 5_000), "s".to_string(), settings);
    run.next_action(&mut p);
    run.page_loaded(vec![entry("Top", 10, 1), entry("Nah", 20, 1)]);
    assert_eq!(run.guilds.len(), 1);
    assert_eq!(run.guilds[0].name, "Nah");
}

#[test]
fn without_extra_pages_only_the_window_is_read() {
    for settings in [
        ScanSettings { honor_up_scan: false, ..settings() },
        ScanSettings { max_extra_up_pages: 0, ..settings() },
    ] {
        let mut p = ProgressState::new();
        let mut run = ScanRun::new(own(200, 1_000), "s".to_string(), settings);
        assert_eq!(page_of(run.next_action(&mut p)), 3);
        run.page_loaded(Vec::new());
        assert_eq!(page_of(run.next_action(&mut p)), 4);
        run.page_loaded(Vec::new());
        assert!(matches!(run.next_action(&mut p), ScanAction::Continue));
    }
}

#[test]
fn stopped_scan_keeps_what_it_has() {
    let mut p = ProgressState::new();
    p.begin_scan();
    let mut run = ScanRun::new(own(200, 1_000), "s".to_string(), settings());
    assert_eq!(page_of(run.next_action(&mut p)), 3);
    run.page_loaded(vec![entry("B", 205, 1), entry("A", 190, 1)]);
    assert_eq!(p.abort_scan(), "Abbruch angefordert");
    assert!(matches!(run.next_action(&mut p), ScanAction::Continue));
    assert_eq!(p.scan.phase, ScanPhase::Details);
    assert!(matches!(run.next_action(&mut p), ScanAction::Finish));
    let data = run.finish();
    assert_eq!(data.hof_guilds[0].name, "A");
    assert_eq!(data.hof_guilds.len(), 2);
    assert!(data.detailed_guilds.is_empty());
    assert_eq!(data.scanned_at.len(), 19);
    p.finish_scan(true);
    assert_eq!(p.scan.phase.label(), "aborted");
    assert_eq!(p.scan.message, "Scan abgebrochen – Teilergebnis gespeichert.");
    assert!(!p.cancel_scan);
}

#[test]
fn guilds_on_one_rank_keep_their_order() {
    let mut p = ProgressState::new();
    let mut run = ScanRun::new(own(30, 0), "s".to_string(), settings());
    run.next_action(&mut p);
    run.page_loaded(vec![
        entry("Z", 31, 0),
        entry("Y", 29, 0),
        entry("X", 31, 0),
        entry("W", 29, 0),
    ]);
    run.next_action(&mut p);
    let listed: Vec<&str> = run.guilds.iter().map(|g| g.name.as_str()).collect();
    assert_eq!(listed, vec!["Y", "W", "Z", "X"]);
}

fn detailed(name: &str, members: usize, max_level: u16) -> DetailedGuild {
    DetailedGuild {
        name: name.to_string(),
        rank: 5,
        honor: 6,
        member_count: members,
        members: Vec::new(),
        max_level,
        min_level: 1,
        total_level: 2,
        finished_raids: 3,
        is_attacked: false,
        attackable: true,
        strict: StrictOutcome {
            evaluated: false,
            beatable: false,
            own_active_members: 0,
            topn: false,
            topn_n: 0,
            fail_index: None,
            fail_enemy_level: None,
            fail_own_level: None,
            fail_reason: None,
        },
        sim: SimRecord::none(),
    }
}

fn scan(guilds: Vec<DetailedGuild>) -> ScanData {
    ScanData {
        scanned_at: "heute".to_string(),
        server: "s".to_string(),
        own_guild: own(30, 1),
        hof_guilds: Vec::new(),
        detailed_guilds: guilds,
    }
}

fn no_filter() -> FilterRequest {
    FilterRequest {
        max_members: None,
        max_highest_level: None,
        hide_attacked: None,
        strict_only: None,
    }
}

fn names(scan: &ScanData, filter: FilterRequest) -> Vec<String> {
    let r = get_results(Some(scan), &filter).unwrap();
    assert_eq!(r.filtered_count, r.guilds.len());
    assert!(r.filtered_count <= r.total_attackable);
    r.guilds.iter().map(|g| g.name.clone()).collect()
}

#[test]
fn results_need_a_scan() {
    assert_eq!(
        get_results(None, &no_filter()).unwrap_err(),
        "Keine Scan-Daten vorhanden"
    );
}

#[test]
fn results_show_attackable_guilds() {
    let mut out_of_reach = detailed("fern", 1, 1);
    out_of_reach.attackable = false;
    let scan = scan(vec![detailed("a", 10, 100), out_of_reach, detailed("b", 20, 200)]);
    assert_eq!(names(&scan, no_filter()), vec!["a", "b"]);
    let r = get_results(Some(&scan), &no_filter()).unwrap();
    assert_eq!(r.total_attackable, 2);
    assert_eq!(r.scanned_at, "heute");
    assert_eq!(r.own_guild.name, "Wir");
}

#[test]
fn results_are_limited_by_the_filter() {
    let mut attacked = detailed("c", 5, 50);
    attacked.is_attacked = true;
    let scan = scan(vec![detailed("a", 10, 100), detailed("b", 20, 200), attacked]);
    let mut f = no_filter();
    f.max_members = Some(10);
    assert_eq!(names(&scan, f), vec!["a", "c"]);
    f.max_highest_level = Some(99);
    assert_eq!(names(&scan, f), vec!["c"]);
    f.hide_attacked = Some(true);
    assert!(names(&scan, f).is_empty());
    let mut f = no_filter();
    f.hide_attacked = Some(true);
    assert_eq!(names(&scan, f), vec!["a", "b"]);
    f.max_highest_level = Some(200);
    f.max_members = Some(20);
    assert_eq!(names(&scan, f), vec!["a", "b"]);
}

#[test]
fn huge_guilds_pass_no_limit() {
    let scan = scan(vec![detailed("a", 4_294_967_296, 1), detailed("b", 5, 1)]);
    let mut f = no_filter();
    f.max_members = Some(5);
    assert_eq!(names(&scan, f), vec!["b"]);
    f.max_members = Some(u32::MAX);
    assert_eq!(names(&scan, f), vec!["b"]);
}

#[test]
fn strict_results_by_default() {
    let mut won = detailed("won", 1, 1);
    won.strict.evaluated = true;
    won.strict.beatable = true;
    let mut lost = detailed("lost", 1, 1);
    lost.strict.evaluated = true;
    let scan_data = scan(vec![won, lost, detailed("unknown", 1, 1)]);
    assert_eq!(names(&scan_data, no_filter()), vec!["won"]);
    let mut f = no_filter();
    f.strict_only = Some(true);
    assert_eq!(names(&scan_data, f), vec!["won"]);
    f.strict_only = Some(false);
    assert_eq!(names(&scan_data, f), vec!["won", "lost", "unknown"]);

    let mut beyond = detailed("beyond", 1, 1);
    beyond.strict.evaluated = true;
    beyond.attackable = false;
    let scan_data = scan(vec![beyond, detailed("unknown", 1, 1)]);
    assert_eq!(names(&scan_data, no_filter()), vec!["unknown"]);
}

#[test]
fn hall_of_fame_shows_battles() {
    let mut first = detailed("x", 1, 1);
    first.sim = SimRecord {
        win_ratio: Some(WinRatio { bits: 0.25f64.to_bits() }),
        mushrooms: Some(2),
        iterations: Some(100),
        evaluated_at: Some("gestern".to_string()),
    };
    let mut data = scan(vec![first, detailed("x", 2, 2)]);
    for name in ["x", "y"] {
        data.hof_guilds.push(HofGuild {
            name: name.to_string(),
            rank: 9,
            leader: "L".to_string(),
            member_count: 3,
            honor: 4,
            is_attacked: true,
            attackable: false,
        });
    }
    let r = get_results(Some(&data), &no_filter()).unwrap();
    assert_eq!(r.hof_guilds.len(), 2);
    assert_eq!(r.hof_guilds[0].guild.name, "x");
    assert_eq!(r.hof_guilds[0].sim.mushrooms, Some(2));
    assert_eq!(r.hof_guilds[0].sim.evaluated_at.as_deref(), Some("gestern"));
    assert_eq!(r.hof_guilds[1].sim.win_ratio, None);
    assert_eq!(r.hof_guilds[1].sim.evaluated_at, None);
}
