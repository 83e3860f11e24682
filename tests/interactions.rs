use population::clock::Timestamp;
use population::interactions::{derive_matches, generate_interactions, generate_swipes, simulate_interactions};
use population::models::{DbMatch, DbSwipe};
use population::ratio::Percent;
use population::config::Config;

fn swipe(a: i32, b: i32, result: bool) -> DbSwipe {
    DbSwipe {
        result,
        fk_swiping_user_details_id: a,
        fk_swiped_user_details_id: b,
        swipe_time: Timestamp { secs: 1_700_000_000 },
    }
}

fn pairs(ms: &[DbMatch]) -> Vec<(i32, i32)> {
    let mut v: Vec<(i32, i32)> = ms.iter().map(|m| (m.fk_person1_id, m.fk_person2_id)).collect();
    v.sort();
    v
}

fn config(max_swipes: usize, right_bp: u32) -> Config {
    let p = |bp: u32| Percent { basis_points: bp };
    Config {
        database_name: "db".to_string(),
        username: "u".to_string(),
        users_number: 4,
        admins_number: 0,
        enable_locale: false,
        migration_ratio: p(0),
        domestic_migration_ratio: p(0),
        international_migration_ratio: p(0),
        oldest_current_photo: 0,
        oldest_unverified_photo: 0,
        subscription_ratio: p(0),
        auto_renewal_ratio: p(0),
        max_admin_hiring_difference: 0,
        user_report_ratio: p(0),
        report_ban_ratio: p(0),
        max_report_ban_difference: 0,
        min_ban_length: 1,
        max_ban_length: 2,
        max_user_swipes: max_swipes,
        right_swipe_ratio: p(right_bp),
        match_probability: p(0),
        match_block_ratio: p(0),
        max_match_block_difference: 0,
        user_block_ratio: p(0),
        min_block_length: 1,
        max_block_length: 2,
        max_conversation_length: 5,
        reply_ratio: p(0),
    }
}

#[test]
fn all_ordered_right_swipes_give_every_pair() {
    let ids = [1, 2, 3, 4];
    let mut swipes = Vec::new();
    for &a in &ids {
        for &b in &ids {
            if a != b {
                swipes.push(swipe(a, b, true));
            }
        }
    }
    let ms = derive_matches(&swipes, Timestamp { secs: 5 });
    assert_eq!(ms.len(), 6);
    assert_eq!(pairs(&ms), vec![(1, 2), (1, 3), (1, 4), (2, 3), (2, 4), (3, 4)]);
    for m in &ms {
        assert_eq!(m.status, "active");
        assert_eq!(m.date_formed, Timestamp { secs: 5 });
    }
}

#[test]
fn full_right_ratio_makes_only_right_swipes() {
    let ids = vec![1, 2, 3, 4];
    let data = generate_interactions(&ids, &config(3, 10000));
    assert!(data.swipes.len() <= 12);
    for s in &data.swipes {
        assert!(s.result);
        assert_ne!(s.fk_swiping_user_details_id, s.fk_swiped_user_details_id);
        assert!(ids.contains(&s.fk_swiping_user_details_id));
        assert!(ids.contains(&s.fk_swiped_user_details_id));
    }
    for m in &data.matches {
        assert!(m.fk_person1_id < m.fk_person2_id);
        let has = |a: i32, b: i32| data.swipes.iter().any(|s| s.result && s.fk_swiping_user_details_id == a && s.fk_swiped_user_details_id == b);
        assert!(has(m.fk_person1_id, m.fk_person2_id));
        assert!(has(m.fk_person2_id, m.fk_person1_id));
    }
}

#[test]
fn zero_right_ratio_gives_no_matches() {
    let ids = vec![1, 2];
    let data = simulate_interactions(&ids, 10, Percent { basis_points: 0 }, Timestamp { secs: 0 });
    assert!(data.swipes.iter().all(|s| !s.result));
    assert!(data.matches.is_empty());
}

#[test]
fn one_sided_like_gives_no_match() {
    let swipes = vec![swipe(1, 2, true), swipe(2, 1, false)];
    assert!(derive_matches(&swipes, Timestamp { secs: 0 }).is_empty());
}

#[test]
fn repeated_and_reordered_swipes_give_the_same_matches() {
    let a = vec![swipe(1, 2, true), swipe(2, 1, true), swipe(3, 1, true), swipe(1, 3, true), swipe(4, 2, true)];
    let b = vec![swipe(1, 3, true), swipe(4, 2, true), swipe(2, 1, true), swipe(1, 2, true), swipe(2, 1, true), swipe(3, 1, true)];
    let ma = derive_matches(&a, Timestamp { secs: 0 });
    let mb = derive_matches(&b, Timestamp { secs: 0 });
    assert_eq!(pairs(&ma), vec![(1, 2), (1, 3)]);
    assert_eq!(pairs(&ma), pairs(&mb));
    assert_eq!(pairs(&ma), pairs(&derive_matches(&a, Timestamp { secs: 0 })));
}

#[test]
fn negative_ids_pair_canonically() {
    let swipes = vec![swipe(-7, 3, true), swipe(3, -7, true), swipe(i32::MIN, i32::MAX, true), swipe(i32::MAX, i32::MIN, true)];
    let ms = derive_matches(&swipes, Timestamp { secs: 0 });
    assert_eq!(pairs(&ms), vec![(i32::MIN, i32::MAX), (-7, 3)]);
}

#[test]
fn swipes_never_target_the_actor() {
    let ids: Vec<i32> = (1..=20).collect();
    let swipes = generate_swipes(&ids, 30, Percent { basis_points: 5000 }, Timestamp { secs: 9 });
    assert!(swipes.len() <= 20 * 30);
    for s in &swipes {
        assert_ne!(s.fk_swiping_user_details_id, s.fk_swiped_user_details_id);
        assert_eq!(s.swipe_time, Timestamp { secs: 9 });
    }
}

#[test]
fn single_user_cannot_swipe() {
    let swipes = generate_swipes(&vec![42], 10, Percent { basis_points: 10000 }, Timestamp { secs: 0 });
    assert!(swipes.is_empty());
}

#[test]
fn each_profile_swipes_at_most_the_cap() {
    let ids: Vec<i32> = (1..=10).collect();
    let swipes = generate_swipes(&ids, 4, Percent { basis_points: 5000 }, Timestamp { secs: 0 });
    for id in &ids {
        assert!(swipes.iter().filter(|s| s.fk_swiping_user_details_id == *id).count() <= 4);
    }
    let actors: Vec<i32> = swipes.iter().map(|s| s.fk_swiping_user_details_id).collect();
    assert!(actors.windows(2).all(|w| w[0] <= w[1]));
}
