use guildscan::attack::{default_true, is_attackable};
use guildscan::detail::{live_detail, scan_detail, GuildView, ViewedMember};
use guildscan::guild::{HofGuild, MemberInfo};
use guildscan::hof::{rank_window, RankWindow};
use guildscan::settings::{ScanRequest, ScanSettings};
use guildscan::strict::{ascending_levels, evaluate_strict};

fn member(level: u16) -> MemberInfo {
    MemberInfo {
        name: format!("m{}", level),
        level,
        last_online: None,
        offline_days: None,
        is_active_24h: None,
    }
}

fn members(levels: &[u16]) -> Vec<MemberInfo> {
    levels.iter().map(|l| member(*l)).collect()
}

fn view(levels: &[u16]) -> GuildView {
    GuildView {
        rank: 90,
        honor: 5_000,
        finished_raids: 7,
        members: levels
            .iter()
            .map(|l| ViewedMember { name: format!("v{}", l), level: *l })
            .collect(),
    }
}

fn no_request() -> ScanRequest {
    ScanRequest {
        down_limit: None,
        honor_up_scan: None,
        max_extra_up_pages: None,
        strict_mode: None,
        strict_topn: None,
        full_up_scan: None,
    }
}

#[test]
fn guilds_below_can_be_attacked() {
    assert!(is_attackable(100, 4_000, 101, 0));
    assert!(is_attackable(100, 4_000, 50_000, 1_000_000));
}

#[test]
fn own_rank_cannot_be_attacked() {
    assert!(!is_attackable(100, 4_000, 100, 4_000));
    assert!(!is_attackable(100, 4_000, 100, 0));
}

#[test]
fn guilds_above_need_rank_or_honor() {
    assert!(is_attackable(100, 4_000, 80, 1_000_000));
    assert!(!is_attackable(100, 4_000, 79, 7_001));
    assert!(is_attackable(100, 4_000, 79, 7_000));
    assert!(is_attackable(100, 4_000, 1, 10));
    assert!(is_attackable(100, u32::MAX, 1, u32::MAX));
}

#[test]
fn moving_down_stays_attackable() {
    assert!(is_attackable(100, 4_000, 85, 9_000));
    assert!(is_attackable(100, 4_000, 95, 9_000));
    assert!(is_attackable(100, 4_000, 105, 9_000));
}

#[test]
fn stored_guilds_count_as_attackable() {
    assert!(default_true());
}

#[test]
fn settings_start_with_defaults() {
    let s = ScanSettings::default();
    assert_eq!(s.down_limit, 300);
    assert!(s.honor_up_scan);
    assert_eq!(s.max_extra_up_pages, 10);
    assert!(s.strict_mode);
    assert!(s.strict_topn);
    assert!(!s.full_up_scan);
}

#[test]
fn settings_take_what_is_asked_for() {
    let req = ScanRequest {
        down_limit: Some(10),
        honor_up_scan: Some(false),
        max_extra_up_pages: Some(3),
        strict_mode: Some(false),
        strict_topn: Some(false),
        full_up_scan: Some(true),
    };
    let s = ScanSettings::default().apply(req);
    assert_eq!(s.down_limit, 10);
    assert!(!s.honor_up_scan);
    assert_eq!(s.max_extra_up_pages, 3);
    assert!(!s.strict_mode);
    assert!(!s.strict_topn);
    assert!(s.full_up_scan);
    assert_eq!(s.apply(no_request()), s);
    assert_eq!(s.apply(req), s);
}

#[test]
fn settings_are_capped() {
    let mut req = no_request();
    req.down_limit = Some(70_000);
    req.max_extra_up_pages = Some(u32::MAX);
    let s = ScanSettings::default().apply(req);
    assert_eq!(s.down_limit, 50_000);
    assert_eq!(s.max_extra_up_pages, 50);
    req.down_limit = Some(50_000);
    req.max_extra_up_pages = Some(50);
    assert_eq!(ScanSettings::default().apply(req), s);
    req.down_limit = Some(0);
    assert_eq!(s.apply(req).down_limit, 0);
}

#[test]
fn window_lies_around_own_rank() {
    assert_eq!(
        rank_window(100, 300),
        RankWindow { rank_up_start: 80, rank_down_end: 400, page_low: 1, page_high: 7 }
    );
    assert_eq!(rank_window(100, 300).page_count(), 7);
}

#[test]
fn window_ends_at_rank_one() {
    assert_eq!(
        rank_window(5, 0),
        RankWindow { rank_up_start: 1, rank_down_end: 5, page_low: 0, page_high: 0 }
    );
    assert_eq!(rank_window(21, 0).rank_up_start, 1);
    assert_eq!(rank_window(22, 0).rank_up_start, 2);
}

#[test]
fn window_ends_with_the_ranks() {
    let w = rank_window(u32::MAX, 1);
    assert_eq!(w.rank_down_end, u32::MAX);
    assert_eq!(w.page_high, (u32::MAX - 1) / 51);
    assert_eq!(rank_window(51, 0).page_high, 0);
    assert_eq!(rank_window(52, 0).page_high, 1);
}

#[test]
fn window_pages_cover_the_window() {
    let w = rank_window(1_000, 300);
    for rank in w.rank_up_start..=w.rank_down_end {
        let page = (rank - 1) / 51;
        assert!(w.page_low <= page && page <= w.page_high);
    }
}

fn strict(mode: bool, topn: bool) -> ScanSettings {
    ScanSettings { strict_mode: mode, strict_topn: topn, ..ScanSettings::default() }
}

#[test]
fn strict_mode_can_be_off() {
    let r = evaluate_strict(&strict(false, true), &vec![100, 200], &members(&[1]));
    assert!(!r.evaluated);
    assert!(!r.beatable);
    assert_eq!(r.own_active_members, 2);
    assert!(!r.topn);
    assert_eq!(r.topn_n, 0);
    assert_eq!(r.fail_index, None);
    assert_eq!(r.fail_reason, None);
}

#[test]
fn too_many_enemies_cannot_be_beaten() {
    let r = evaluate_strict(&strict(true, true), &vec![100, 200], &members(&[1, 2, 3]));
    assert!(r.evaluated);
    assert!(!r.beatable);
    assert!(r.topn);
    assert_eq!(r.topn_n, 3);
    assert_eq!(
        r.fail_reason.as_deref(),
        Some("Zu viele Mitglieder: Gegner 3 > eigene aktiv 2")
    );
    assert_eq!(r.fail_index, None);
}

#[test]
fn nobody_active_beats_nobody() {
    let r = evaluate_strict(&strict(true, false), &Vec::new(), &Vec::new());
    assert!(r.evaluated);
    assert!(!r.beatable);
    assert_eq!(
        r.fail_reason.as_deref(),
        Some("Keine aktiven eigenen Mitglieder (>= 1 Tag offline wird ausgeklammert).")
    );
}

#[test]
fn top_n_compares_with_the_best() {
    let own = vec![10, 20, 300, 400];
    let r = evaluate_strict(&strict(true, true), &own, &members(&[390, 300]));
    assert!(r.beatable);
    assert_eq!(r.topn_n, 2);
    assert_eq!(r.fail_reason, None);
    let r = evaluate_strict(&strict(true, true), &own, &members(&[401, 300]));
    assert!(!r.beatable);
    assert_eq!(r.fail_index, Some(1));
    assert_eq!(r.fail_enemy_level, Some(401));
    assert_eq!(r.fail_own_level, Some(400));
    assert_eq!(
        r.fail_reason.as_deref(),
        Some("Slot 2: Gegner 401 > eigene 400 (Top-N, aufsteigend sortiert)")
    );
}

#[test]
fn full_comparison_meets_the_lowest() {
    let own = vec![10, 20, 300, 400];
    let r = evaluate_strict(&strict(true, false), &own, &members(&[390, 300]));
    assert!(!r.beatable);
    assert!(!r.topn);
    assert_eq!(r.topn_n, 2);
    assert_eq!(r.fail_index, Some(0));
    assert_eq!(
        r.fail_reason.as_deref(),
        Some("Slot 1: Gegner 300 > eigene 10 (aufsteigend sortiert)")
    );
    let r = evaluate_strict(&strict(true, false), &own, &members(&[20, 10]));
    assert!(r.beatable);
}

#[test]
fn what_passes_in_full_passes_in_top_n() {
    let own = vec![10, 20, 300, 400];
    let enemy = members(&[9, 20, 299]);
    assert!(evaluate_strict(&strict(true, false), &own, &enemy).beatable);
    assert!(evaluate_strict(&strict(true, true), &own, &enemy).beatable);
}

#[test]
fn verdict_does_not_depend_on_order() {
    let own = ascending_levels(&members(&[300, 10, 400, 20]));
    assert_eq!(own, vec![10, 20, 300, 400]);
    let a = evaluate_strict(&strict(true, true), &own, &members(&[401, 300, 5]));
    let b = evaluate_strict(&strict(true, true), &own, &members(&[5, 401, 300]));
    assert_eq!(a.fail_reason, b.fail_reason);
    assert_eq!(a.fail_index, b.fail_index);
}

fn target() -> HofGuild {
    HofGuild {
        name: "Ziel".to_string(),
        rank: 120,
        leader: "Chef".to_string(),
        member_count: 3,
        honor: 4_321,
        is_attacked: true,
        attackable: true,
    }
}

#[test]
fn scanned_guild_keeps_what_the_hall_of_fame_said() {
    let d = scan_detail(&target(), view(&[30, 10, 20]), &strict(true, true), &vec![10, 20, 30]);
    assert_eq!(d.name, "Ziel");
    assert_eq!(d.rank, 120);
    assert_eq!(d.honor, 4_321);
    assert!(d.is_attacked);
    assert!(d.attackable);
    assert_eq!(d.member_count, 3);
    assert_eq!(d.members[1].name, "v10");
    assert_eq!(d.members[1].last_online, None);
    assert_eq!(d.max_level, 30);
    assert_eq!(d.min_level, 10);
    assert_eq!(d.total_level, 60);
    assert_eq!(d.finished_raids, 7);
    assert!(d.strict.evaluated);
    assert!(d.strict.beatable);
    assert_eq!(d.sim.win_ratio, None);
}

#[test]
fn empty_guild_has_level_zero() {
    let d = scan_detail(&target(), view(&[]), &strict(true, true), &vec![10]);
    assert_eq!(d.max_level, 0);
    assert_eq!(d.min_level, 0);
    assert_eq!(d.total_level, 0);
    assert!(d.strict.beatable);
}

#[test]
fn looked_up_guild_is_rated_for_our_guild() {
    let d = live_detail("X".to_string(), view(&[30, 10]), Some((100, 2_000)));
    assert_eq!(d.name, "X");
    assert_eq!(d.rank, 90);
    assert_eq!(d.honor, 5_000);
    assert!(d.attackable);
    assert!(!d.is_attacked);
    assert!(!d.strict.evaluated);
    assert_eq!(d.strict.own_active_members, 0);
    assert!(!live_detail("X".to_string(), view(&[30]), Some((111, 1_999))).attackable);
    assert!(!live_detail("X".to_string(), view(&[30]), None).attackable);
}

#[test]
fn sum_of_levels_is_checked() {
    assert!(view(&[65_535; 10]).total_fits());
    let mut many = view(&[]);
    for _ in 0..65_537 {
        many.members.push(ViewedMember { name: String::new(), level: 65_535 });
    }
    assert!(many.total_fits());
    many.members.push(ViewedMember { name: String::new(), level: 1 });
    assert!(!many.total_fits());
}
