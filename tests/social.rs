use population::clock::{Timestamp, SECS_PER_HOUR};
use population::config::Config;
use population::error::PipelineError;
use population::ratio::{ratio_count, Percent};
use population::social::{
    generate_admins, generate_bans, generate_blocks, generate_chat_flow, generate_messages_for_convos,
    generate_reports, ReportMeta, MAX_CONVERSATION_LENGTH,
};

fn config() -> Config {
    let p = |bp: u32| Percent { basis_points: bp };
    Config {
        database_name: "db".to_string(),
        username: "u".to_string(),
        users_number: 10,
        admins_number: 2,
        enable_locale: false,
        migration_ratio: p(0),
        domestic_migration_ratio: p(0),
        international_migration_ratio: p(0),
        oldest_current_photo: 0,
        oldest_unverified_photo: 0,
        subscription_ratio: p(2000),
        auto_renewal_ratio: p(0),
        max_admin_hiring_difference: 0,
        user_report_ratio: p(5000),
        report_ban_ratio: p(10000),
        max_report_ban_difference: 0,
        min_ban_length: 3,
        max_ban_length: 30,
        max_user_swipes: 3,
        right_swipe_ratio: p(5000),
        match_probability: p(0),
        match_block_ratio: p(10000),
        max_match_block_difference: 0,
        user_block_ratio: p(3000),
        min_block_length: 1,
        max_block_length: 2,
        max_conversation_length: 6,
        reply_ratio: p(0),
    }
}

#[test]
fn ratio_count_is_exact_floor() {
    assert_eq!(ratio_count(1000, Percent { basis_points: 2000 }), 200);
    assert_eq!(ratio_count(7, Percent { basis_points: 5000 }), 3);
    assert_eq!(ratio_count(3, Percent { basis_points: 3333 }), 0);
    assert_eq!(ratio_count(0, Percent { basis_points: 10000 }), 0);
    assert_eq!(ratio_count(usize::MAX, Percent { basis_points: 10000 }), usize::MAX);
}

#[test]
fn percent_above_whole_is_configuration_error() {
    assert_eq!(Percent::from_basis_points(10001), Err(PipelineError::Configuration));
    assert_eq!(Percent::from_basis_points(10000), Ok(Percent { basis_points: 10000 }));
}

#[test]
fn full_ban_ratio_bans_every_report() {
    let cfg = config();
    let reports: Vec<ReportMeta> = (0..5)
        .map(|i| ReportMeta { id: 100 + i, reported_user_id: 10 + i, report_date: Timestamp { secs: 1_000_000 * i as i64 } })
        .collect();
    let bans = generate_bans(&reports, &cfg).unwrap();
    assert_eq!(bans.len(), 5);
    for (b, r) in bans.iter().zip(&reports) {
        assert_eq!(b.fk_report_id, r.id);
        assert_eq!(b.fk_user_details_id, r.reported_user_id);
        assert!(b.start_date.secs >= r.report_date.secs + SECS_PER_HOUR);
        assert!(b.start_date.secs < r.report_date.secs + 48 * SECS_PER_HOUR);
        assert!(3 <= b.period_days && b.period_days <= 30);
        assert!(b.is_active);
    }
}

#[test]
fn zero_ban_ratio_bans_nothing() {
    let mut cfg = config();
    cfg.report_ban_ratio = Percent { basis_points: 0 };
    let reports = vec![ReportMeta { id: 1, reported_user_id: 2, report_date: Timestamp { secs: 0 } }];
    assert!(generate_bans(&reports, &cfg).unwrap().is_empty());
}

#[test]
fn inverted_ban_range_is_configuration_error() {
    let mut cfg = config();
    cfg.min_ban_length = 10;
    cfg.max_ban_length = 5;
    assert_eq!(generate_bans(&vec![], &cfg), Err(PipelineError::Configuration));
}

#[test]
fn reports_follow_the_ratio_and_pools() {
    let cfg = config();
    let users: Vec<i32> = (1..=10).collect();
    let admins = vec![500, 501];
    let reports = generate_reports(&users, &admins, &cfg).unwrap();
    assert_eq!(reports.len(), 5);
    for r in &reports {
        assert_ne!(r.fk_reporting_user_details_id, r.fk_reported_user_details_id);
        assert!(users.contains(&r.fk_reporting_user_details_id));
        assert!(users.contains(&r.fk_reported_user_details_id));
        assert!(admins.contains(&r.fk_administrator_id.unwrap()));
        assert!(r.reason.ends_with('.'));
    }
    let unhandled = generate_reports(&users, &vec![], &cfg).unwrap();
    assert!(unhandled.iter().all(|r| r.fk_administrator_id.is_none()));
}

#[test]
fn reports_without_a_pair_are_dependency_error() {
    let mut cfg = config();
    cfg.user_report_ratio = Percent { basis_points: 10000 };
    assert_eq!(generate_reports(&vec![7], &vec![], &cfg), Err(PipelineError::DependencyUnavailable));
    assert_eq!(generate_reports(&vec![], &vec![], &cfg), Ok(vec![]));
}

#[test]
fn blocks_cover_pairs_and_random_users() {
    let cfg = config();
    let users: Vec<i32> = (1..=10).collect();
    let pairs = vec![(1, 2), (3, 4), (5, 5)];
    let blocks = generate_blocks(&users, &pairs, &cfg).unwrap();
    // Both real pairs block at 100%; the one-person pair cannot; three random blocks.
    assert_eq!(blocks.len(), 2 + 3);
    for b in &blocks {
        assert_ne!(b.fk_blocking_user_details_id, b.fk_blocked_user_details_id);
        assert!(b.end_date.is_none());
        assert!(b.is_active);
    }
    let first = (blocks[0].fk_blocking_user_details_id, blocks[0].fk_blocked_user_details_id);
    assert!(first == (1, 2) || first == (2, 1));
}

#[test]
fn random_blocks_need_two_users() {
    let mut cfg = config();
    cfg.user_block_ratio = Percent { basis_points: 10000 };
    assert_eq!(generate_blocks(&vec![1], &vec![], &cfg), Err(PipelineError::DependencyUnavailable));
}

#[test]
fn admins_keep_user_order() {
    let admins = generate_admins(&vec![9, 8, 7]);
    assert_eq!(admins.iter().map(|a| a.fk_user_id).collect::<Vec<_>>(), vec![9, 8, 7]);
    assert!(admins.iter().all(|a| (0..500).contains(&a.reports_handled)));
}

#[test]
fn conversations_come_from_matches() {
    let matches: Vec<(i32, i32, i32)> = (0..50).map(|i| (i, 2 * i, 2 * i + 1)).collect();
    let (convos, messages) = generate_chat_flow(&matches, &config());
    assert!(convos.len() <= 50);
    assert!(messages.is_empty());
    for c in &convos {
        assert!((0..50).contains(&c.fk_match_id));
        assert_eq!(c.chat_theme, "General");
        assert_eq!(c.chat_reaction, 0);
    }
}

#[test]
fn messages_alternate_between_the_pair() {
    let convos = vec![(1, 10, 20), (2, 30, 40)];
    let messages = generate_messages_for_convos(&convos, &config()).unwrap();
    assert!(messages.len() >= 2 && messages.len() <= 10);
    let mut expected_first = true;
    let mut prev: Option<(i32, i64)> = None;
    for m in &messages {
        let (cid, p1, p2) = convos.iter().copied().find(|c| c.0 == m.fk_conversation_id).unwrap();
        if prev.map(|p| p.0) != Some(cid) {
            expected_first = true;
        } else {
            assert!(m.send_time.secs > prev.unwrap().1);
        }
        assert_eq!(m.fk_sender_id, Some(if expected_first { p1 } else { p2 }));
        expected_first = !expected_first;
        prev = Some((cid, m.send_time.secs));
    }
}

#[test]
fn short_conversation_length_is_configuration_error() {
    let mut cfg = config();
    cfg.max_conversation_length = 1;
    assert_eq!(generate_messages_for_convos(&vec![(1, 2, 3)], &cfg), Err(PipelineError::Configuration));
    assert_eq!(generate_messages_for_convos(&vec![], &cfg), Ok(vec![]));
}

#[test]
fn bans_follow_reports_at_most_one_each() {
    let mut cfg = config();
    cfg.report_ban_ratio = Percent { basis_points: 5000 };
    let reports: Vec<ReportMeta> = (0..40)
        .map(|i| ReportMeta { id: 200 + i, reported_user_id: i, report_date: Timestamp { secs: 0 } })
        .collect();
    let bans = generate_bans(&reports, &cfg).unwrap();
    assert!(bans.len() <= 40);
    let ids: Vec<i32> = bans.iter().map(|b| b.fk_report_id).collect();
    assert!(ids.windows(2).all(|w| w[0] < w[1]));
}

#[test]
fn full_match_block_ratio_blocks_every_pair_once() {
    let mut cfg = config();
    cfg.user_block_ratio = Percent { basis_points: 0 };
    let users: Vec<i32> = (1..=6).collect();
    let pairs = vec![(1, 2), (3, 4), (5, 6)];
    let blocks = generate_blocks(&users, &pairs, &cfg).unwrap();
    assert_eq!(blocks.len(), 3);
    for (b, p) in blocks.iter().zip(&pairs) {
        let got = (b.fk_blocking_user_details_id, b.fk_blocked_user_details_id);
        assert!(got == *p || got == (p.1, p.0));
    }
}

#[test]
fn conversations_use_each_match_once() {
    let matches: Vec<(i32, i32, i32)> = (0..100).map(|i| (i, 2 * i, 2 * i + 1)).collect();
    let (convos, _) = generate_chat_flow(&matches, &config());
    let ids: Vec<i32> = convos.iter().map(|c| c.fk_match_id).collect();
    assert!(ids.windows(2).all(|w| w[0] < w[1]));
}

#[test]
fn conversation_limit_keeps_times_in_range() {
    let mut cfg = config();
    cfg.max_conversation_length = MAX_CONVERSATION_LENGTH as usize + 1;
    assert_eq!(generate_messages_for_convos(&vec![(1, 2, 3)], &cfg), Err(PipelineError::Configuration));
    cfg.max_conversation_length = usize::MAX;
    assert_eq!(generate_messages_for_convos(&vec![(1, 2, 3)], &cfg), Err(PipelineError::Configuration));
}
