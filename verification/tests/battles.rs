use guildscan::battle::{
    apply_mushrooms, simulate_guild, strike, tally, Combatant, Contender,
};
use guildscan::clock::Timestamp;
use guildscan::fighters::{
    without_name, EnemyCaches, EnemyFightersCache, OwnFightersCache, RosterRun,
};
use guildscan::guild::{
    DetailedGuild, OwnGuild, ScanData, SimRecord, StrictOutcome, WinRatio,
};
use guildscan::progress::{ProgressState, SimPhase};
use guildscan::simulation::{SimRun, SimulateRequest};
use sf_api::gamestate::character::Class;
use sf_api::simulate::{Fighter, Monster};

fn fighter(hp: u64, damage: u32) -> Fighter {
    Fighter::from(&Monster {
        name: "Monster",
        level: 100,
        class: Class::Mage,
        attributes: Default::default(),
        hp,
        min_dmg: damage,
        max_dmg: damage,
        armor: 0,
        runes: None,
    })
}

fn contender(hp: u64, damage: u32) -> Contender {
    Contender::new(fighter(hp, damage)).unwrap()
}

fn weakened(full: &Fighter, share: f64) -> Fighter {
    let mut weak = full.clone();
    weak.max_health *= share;
    weak
}

fn combatant(hp: u64, damage: u32) -> Combatant {
    let full = contender(hp, damage);
    let halved = weakened(full.fighter(), 0.5);
    let felled = weakened(full.fighter(), 0.0);
    Combatant::new(full, &halved, &felled).unwrap()
}

fn full_health(c: &Combatant) -> f64 {
    strike(&vec![c.clone()], &vec![])[0].max_health
}

fn health(fighters: &[Fighter]) -> Vec<f64> {
    fighters.iter().map(|f| f.max_health).collect()
}

fn strings(names: &[&str]) -> Vec<String> {
    names.iter().map(|n| n.to_string()).collect()
}

fn at(secs: i64) -> Timestamp {
    Timestamp::new(secs, 0, 0).unwrap()
}

#[test]
fn mushrooms_take_half_each() {
    let base = vec![combatant(100, 1), combatant(200, 1), combatant(400, 1)];
    assert_eq!(health(&strike(&base, &vec![])), vec![100.0, 200.0, 400.0]);
    assert_eq!(health(&strike(&base, &vec![1])), vec![100.0, 100.0, 400.0]);
    assert_eq!(health(&strike(&base, &vec![2, 0, 2])), vec![50.0, 200.0, 0.0]);
    assert_eq!(health(&strike(&base, &vec![0, 0, 0])), vec![0.0, 200.0, 400.0]);
}

#[test]
fn mushrooms_hit_somebody() {
    let one = vec![combatant(100, 1)];
    assert_eq!(health(&apply_mushrooms(&one, 0)), vec![100.0]);
    assert_eq!(health(&apply_mushrooms(&one, 1)), vec![50.0]);
    assert_eq!(health(&apply_mushrooms(&one, 2)), vec![0.0]);
    assert_eq!(health(&apply_mushrooms(&one, 3)), vec![0.0]);
    assert!(apply_mushrooms(&Vec::new(), 3).is_empty());
    let many = vec![combatant(100, 1), combatant(100, 1)];
    for _ in 0..50 {
        let left: f64 = health(&apply_mushrooms(&many, 1)).iter().sum();
        assert_eq!(left, 150.0);
    }
    assert_eq!(full_health(&many[0]), 100.0);
}

#[test]
fn unsound_fighters_are_refused() {
    assert!(Contender::new(fighter(0, 0)).is_some());
    assert!(Contender::new(fighter(u64::MAX, u32::MAX)).is_some());
    let spoil = |change: fn(&mut Fighter)| {
        let mut f = fighter(10, 1);
        change(&mut f);
        Contender::new(f).is_none()
    };
    assert!(spoil(|f| f.portal_dmg_bonus = -200.0));
    assert!(spoil(|f| f.max_health = -1.0));
    assert!(spoil(|f| f.max_health = f64::NAN));
    assert!(spoil(|f| f.crit_dmg_multi = f64::INFINITY));
    assert!(spoil(|f| f.first_weapon.as_mut().unwrap().damage.min = -1e9));
    assert!(spoil(|f| f.first_weapon.as_mut().unwrap().damage.max = 1e40));
    assert!(spoil(|f| f.first_weapon.as_mut().unwrap().rune_value = -1));
    assert!(spoil(|f| {
        f.second_weapon = f.first_weapon.clone();
        f.second_weapon.as_mut().unwrap().damage.max = -1.0;
    }));
    assert!(!spoil(|f| f.second_weapon = f.first_weapon.clone()));
    assert!(!spoil(|f| f.first_weapon = None));
}

#[test]
fn combatant_needs_half_and_no_health() {
    let full = contender(101, 7);
    let half = weakened(full.fighter(), 0.5);
    let none = weakened(full.fighter(), 0.0);
    let make = |h: &Fighter, z: &Fighter| Combatant::new(full.clone(), h, z).is_some();
    assert!(make(&half, &none));
    assert!(!make(&none, &half));
    assert!(!make(&weakened(full.fighter(), 0.4), &none));
    assert!(!make(&half, &half));
    assert!(!make(full.fighter(), &none));
    let zero = contender(0, 7);
    assert!(Combatant::new(zero.clone(), zero.fighter(), zero.fighter()).is_some());
}

#[test]
fn hit_fighters_lose_nothing_but_health() {
    let mut strong = fighter(100, 7);
    strong.level = 321;
    strong.class = Class::Paladin;
    strong.armor = 55;
    strong.has_reaction_enchant = true;
    strong.gladiator_lvl = 9;
    strong.portal_dmg_bonus = 12.0;
    let full = Contender::new(strong.clone()).unwrap();
    // Only the health of the other fighters counts.
    let base = vec![Combatant::new(full, &fighter(50, 1), &fighter(0, 1)).unwrap()];
    for (targets, health) in [(vec![], 100.0), (vec![0], 50.0), (vec![0, 0], 0.0)] {
        let hit = &strike(&base, &targets)[0];
        let mut expected = strong.clone();
        expected.max_health = health;
        assert_eq!(format!("{:?}", hit), format!("{:?}", expected));
    }
}

#[test]
fn strong_side_wins_every_fight() {
    let strong = vec![contender(1_000_000_000, 1_000_000)];
    let weak = vec![combatant(1, 1)];
    assert_eq!(simulate_guild(&strong, &weak, 0, 100).unwrap(), 100);
    let weak = vec![contender(1, 1)];
    let strong = vec![combatant(1_000_000_000, 1_000_000)];
    assert_eq!(simulate_guild(&weak, &strong, 0, 100).unwrap(), 0);
}

#[test]
fn mushrooms_decide_a_fight() {
    let own = vec![contender(1_000_000, 100)];
    let enemy = vec![combatant(1_000_000_000, 1_000_000)];
    assert_eq!(simulate_guild(&own, &enemy, 0, 100).unwrap(), 0);
    assert!(simulate_guild(&own, &enemy, 2, 100).unwrap() > 0);
}

#[test]
fn battle_needs_two_sides() {
    let message = "Keine Kämpfer auf einer Seite, Simulation nicht möglich";
    let none: Vec<Contender> = Vec::new();
    let some = vec![contender(1, 1)];
    assert_eq!(simulate_guild(&none, &vec![combatant(1, 1)], 1, 100).unwrap_err(), message);
    assert_eq!(simulate_guild(&some, &Vec::new(), 1, 100).unwrap_err(), message);
}

#[test]
fn won_fights_add_up() {
    assert_eq!(tally(&vec![1, 0, 1, 1]), 3);
    assert_eq!(tally(&vec![]), 0);
}

#[test]
fn roster_is_looked_up_in_order() {
    let mut run: RosterRun<u8> = RosterRun::new(strings(&["a", "b", "c"]), vec![9]);
    let first = run.next_request().unwrap();
    assert_eq!(first.name, "a");
    assert_eq!(first.pause, 0);
    run.loaded(Some(1));
    let second = run.next_request().unwrap();
    assert_eq!(second.name, "b");
    assert_eq!(second.pause, 700);
    run.loaded(None);
    assert_eq!(run.next_request().unwrap().name, "c");
    run.loaded(Some(3));
    assert!(run.next_request().is_none());
    assert_eq!(run.found, vec![9, 1, 3]);
}

#[test]
fn own_name_is_left_out() {
    let names = strings(&["a", "b", "a", "c"]);
    assert_eq!(without_name(&names, &"a".to_string()), strings(&["b", "c"]));
    assert_eq!(without_name(&names, &"x".to_string()), names);
}

#[test]
fn own_fighters_serve_for_six_hours() {
    let cache = OwnFightersCache {
        fetched_at: at(1_000),
        guild_name: "Wir".to_string(),
        active_names: strings(&["a", "b"]),
        fighters: Vec::new(),
    };
    let wir = "Wir".to_string();
    let names = strings(&["a", "b"]);
    assert!(cache.is_hit(&wir, &names, at(1_000)));
    assert!(cache.is_hit(&wir, &names, at(0)));
    assert!(cache.is_hit(&wir, &names, at(22_600)));
    assert!(!cache.is_hit(&wir, &names, Timestamp::new(22_600, 1, 0).unwrap()));
    assert!(!cache.is_hit(&wir, &names, at(22_601)));
    assert!(!cache.is_hit(&"Ihr".to_string(), &names, at(1_000)));
    assert!(!cache.is_hit(&wir, &strings(&["a"]), at(1_000)));
    assert!(!cache.is_hit(&wir, &strings(&["a", "c"]), at(1_000)));
}

fn enemy_cache(secs: i64) -> EnemyFightersCache {
    EnemyFightersCache {
        fetched_at: at(secs),
        member_names: strings(&["a", "b"]),
        fighters: vec![combatant(secs as u64, 1)],
    }
}

#[test]
fn enemy_fighters_serve_for_six_hours() {
    let cache = enemy_cache(0);
    assert!(cache.is_hit(&strings(&["a", "b"]), at(21_600)));
    assert!(!cache.is_hit(&strings(&["a", "b"]), at(21_601)));
    assert!(!cache.is_hit(&strings(&["b", "a"]), at(0)));
}

#[test]
fn enemy_fighters_are_found_by_name() {
    let mut caches = EnemyCaches::new();
    assert!(caches.get(&"x".to_string()).is_none());
    caches.insert("x".to_string(), enemy_cache(1));
    caches.insert("y".to_string(), enemy_cache(2));
    caches.insert("x".to_string(), enemy_cache(3));
    assert_eq!(caches.entries.len(), 2);
    let x = caches.get(&"x".to_string()).unwrap();
    assert_eq!(full_health(&x.fighters[0]), 3.0);
    let y = caches.get(&"y".to_string()).unwrap();
    assert_eq!(full_health(&y.fighters[0]), 2.0);
    caches.clear();
    assert!(caches.get(&"y".to_string()).is_none());
}

#[test]
fn oldest_enemy_fighters_make_room() {
    let mut caches = EnemyCaches::new();
    for i in 0..100 {
        let secs = if i == 42 { 1 } else { 1_000 + i };
        caches.insert(format!("g{}", i), enemy_cache(secs));
    }
    caches.insert("g7".to_string(), enemy_cache(5_000));
    assert_eq!(caches.entries.len(), 100);
    assert!(caches.get(&"g42".to_string()).is_some());
    caches.insert("neu".to_string(), enemy_cache(6_000));
    assert_eq!(caches.entries.len(), 100);
    assert!(caches.get(&"g42".to_string()).is_none());
    assert!(caches.get(&"neu".to_string()).is_some());
    assert!(caches.get(&"g0".to_string()).is_some());
    caches.insert("neuer".to_string(), enemy_cache(7_000));
    assert!(caches.get(&"g0".to_string()).is_none());
}

fn request(mushrooms: u8, iterations: Option<u32>) -> SimulateRequest {
    SimulateRequest { guild_names: strings(&["x", "y", "x"]), mushrooms, iterations }
}

#[test]
fn simulation_is_kept_in_bounds() {
    let run = SimRun::new(request(9, None));
    assert_eq!(run.mushrooms, 3);
    assert_eq!(run.iterations, 2_500);
    let run = SimRun::new(request(2, Some(99)));
    assert_eq!(run.mushrooms, 2);
    assert_eq!(run.iterations, 100);
    assert_eq!(SimRun::new(request(0, Some(20_001))).iterations, 20_000);
    assert_eq!(SimRun::new(request(0, Some(777))).iterations, 777);
}

fn ratio(x: f64) -> WinRatio {
    WinRatio { bits: x.to_bits() }
}

#[test]
fn simulation_goes_guild_by_guild() {
    let mut p = ProgressState::new();
    let mut run = SimRun::new(request(1, None));
    p.begin_sim(run.guild_names.len());
    assert_eq!(p.sim.phase, SimPhase::OwnRoster);
    assert_eq!(p.sim.total, 3);
    p.begin_guilds();
    assert_eq!(p.sim.message, "Simuliere Gilden...");
    assert_eq!(run.next_guild(&mut p).unwrap(), "x");
    assert_eq!(p.sim.message, "Simuliere 1/3: x");
    run.simulated(Some(ratio(0.5)));
    assert_eq!(run.next_guild(&mut p).unwrap(), "y");
    assert_eq!(p.sim.current, 2);
    run.simulated(None);
    assert_eq!(run.results.len(), 1);
    assert_eq!(p.abort_simulate(), "Abbruch angefordert");
    assert!(run.next_guild(&mut p).is_none());
    assert_eq!(p.sim.current, 2);
    p.finish_sim(true, run.results.len());
    assert_eq!(p.sim.phase.label(), "aborted");
    assert_eq!(p.sim.message, "Simulation abgebrochen.");
    assert!(!p.cancel_sim);
    assert_eq!(run.next_guild(&mut p).unwrap(), "x");
    run.simulated(Some(ratio(1.0)));
    assert!(run.next_guild(&mut p).is_none());
    p.finish_sim(false, run.results.len());
    assert_eq!(p.sim.phase.label(), "done");
    assert_eq!(p.sim.message, "Simulation abgeschlossen (2 Gilde(n)).");
}

fn guild(name: &str) -> DetailedGuild {
    DetailedGuild {
        name: name.to_string(),
        rank: 1,
        honor: 2,
        member_count: 0,
        members: Vec::new(),
        max_level: 0,
        min_level: 0,
        total_level: 0,
        finished_raids: 0,
        is_attacked: false,
        attackable: true,
        strict: StrictOutcome {
            evaluated: false,
            beatable: false,
            own_active_members: 0,
            topn: false,
            topn_n: 0,
            fail_index: None,
            fail_enemy_level: None,
            fail_own_level: None,
            fail_reason: None,
        },
        sim: SimRecord::none(),
    }
}

fn scan_of(names: &[&str]) -> ScanData {
    ScanData {
        scanned_at: "heute".to_string(),
        server: "s".to_string(),
        own_guild: OwnGuild {
            name: "Wir".to_string(),
            rank: 1,
            honor: 1,
            member_count: 0,
            active_member_count: 0,
            members: Vec::new(),
            active_members: Vec::new(),
        },
        hof_guilds: Vec::new(),
        detailed_guilds: names.iter().map(|n| guild(n)).collect(),
    }
}

#[test]
fn results_go_to_the_first_guild_of_the_name() {
    let mut p = ProgressState::new();
    let mut run = SimRun::new(request(2, Some(500)));
    for r in [Some(ratio(0.25)), Some(ratio(0.5)), Some(ratio(0.75))] {
        run.next_guild(&mut p).unwrap();
        run.simulated(r);
    }
    let mut scan = scan_of(&["z", "x", "x"]);
    run.record(&mut scan, Timestamp::new(86_400, 0, 7_200).unwrap());
    assert_eq!(scan.detailed_guilds[0].sim.win_ratio, None);
    assert_eq!(scan.detailed_guilds[1].sim.win_ratio, Some(ratio(0.75)));
    assert_eq!(scan.detailed_guilds[1].sim.mushrooms, Some(2));
    assert_eq!(scan.detailed_guilds[1].sim.iterations, Some(500));
    assert_eq!(
        scan.detailed_guilds[1].sim.evaluated_at.as_deref(),
        Some("1970-01-02 02:00:00")
    );
    assert_eq!(scan.detailed_guilds[2].sim.win_ratio, None);
    assert_eq!(scan.detailed_guilds[1].name, "x");
    run.record_now(&mut scan);
    assert_ne!(
        scan.detailed_guilds[1].sim.evaluated_at.as_deref(),
        Some("1970-01-02 02:00:00")
    );
}
