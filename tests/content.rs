use population::config::Config;
use population::content::{
    generate_images, generate_payment_data, generate_search_pref_interests, generate_search_pref_sex,
    generate_search_preferences, generate_subscription_chain, generate_subscriptions, generate_user_interests,
    SUBSCRIPTION_DAYS,
};
use population::clock::SECS_PER_DAY;
use population::error::PipelineError;
use population::ratio::Percent;

fn config() -> Config {
    let p = |bp: u32| Percent { basis_points: bp };
    Config {
        database_name: "db".to_string(),
        username: "u".to_string(),
        users_number: 10,
        admins_number: 2,
        enable_locale: false,
        migration_ratio: p(0),
        domestic_migration_ratio: p(0),
        international_migration_ratio: p(0),
        oldest_current_photo: 0,
        oldest_unverified_photo: 0,
        subscription_ratio: p(2000),
        auto_renewal_ratio: p(0),
        max_admin_hiring_difference: 0,
        user_report_ratio: p(0),
        report_ban_ratio: p(0),
        max_report_ban_difference: 0,
        min_ban_length: 1,
        max_ban_length: 2,
        max_user_swipes: 3,
        right_swipe_ratio: p(0),
        match_probability: p(0),
        match_block_ratio: p(0),
        max_match_block_difference: 0,
        user_block_ratio: p(0),
        min_block_length: 1,
        max_block_length: 2,
        max_conversation_length: 6,
        reply_ratio: p(0),
    }
}

#[test]
fn search_preferences_have_descriptions() {
    let prefs = generate_search_preferences(4);
    assert_eq!(prefs.len(), 4);
    for p in &prefs {
        assert!(p.search_description.ends_with('.'));
        assert_eq!(p.created_at, p.updated_at);
    }
}

#[test]
fn preference_sexes_are_distinct_per_preference() {
    let prefs = vec![1, 2, 3];
    let sexes = vec![10, 20];
    let rows = generate_search_pref_sex(&prefs, &sexes).unwrap();
    assert!(rows.len() >= 3 && rows.len() <= 6);
    for pid in &prefs {
        let mine: Vec<i32> = rows.iter().filter(|r| r.fk_search_preference_id == *pid).map(|r| r.fk_sex_id).collect();
        assert!(mine.len() == 1 || (mine.len() == 2 && mine[0] != mine[1]));
    }
    assert!(rows.iter().all(|r| (1..5).contains(&r.priorty) && sexes.contains(&r.fk_sex_id)));
    assert_eq!(generate_search_pref_sex(&prefs, &vec![]), Err(PipelineError::DependencyUnavailable));
    assert_eq!(generate_search_pref_sex(&vec![], &vec![]), Ok(vec![]));
}

#[test]
fn preference_interests_need_interests() {
    let rows = generate_search_pref_interests(&vec![1, 2], &vec![7, 8, 9]).unwrap();
    assert!(rows.len() >= 2 && rows.len() <= 8);
    assert!(rows.iter().all(|r| (1..10).contains(&r.level_of_interest) && [7, 8, 9].contains(&r.fk_interest_id)));
    assert_eq!(generate_search_pref_interests(&vec![1], &vec![]), Err(PipelineError::DependencyUnavailable));
}

#[test]
fn images_have_one_current_per_profile() {
    let ids = vec![5, -6];
    let images = generate_images(&ids, &config());
    assert!(images.len() >= 2 && images.len() <= 10);
    for id in &ids {
        let mine: Vec<_> = images.iter().filter(|i| i.fk_user_details_id == *id).collect();
        assert!(!mine.is_empty());
        assert!(mine[0].is_current);
        assert!(mine[1..].iter().all(|i| !i.is_current));
        for i in &mine {
            assert!(i.file_path.starts_with(&format!("s3://bucket/user_{}/", id)));
            assert!(i.file_path.ends_with(".jpg"));
            assert!((50_000..5_000_000).contains(&i.file_size_bytes));
        }
    }
}

#[test]
fn user_interests_need_interests() {
    let rows = generate_user_interests(&vec![1, 2, 3], &vec![4]).unwrap();
    assert!(rows.len() >= 6 && rows.len() <= 18);
    assert!(rows.iter().all(|r| r.fk_interest_id == 4 && (1..=10).contains(&r.level_of_interest)));
    assert_eq!(generate_user_interests(&vec![1], &vec![]), Err(PipelineError::DependencyUnavailable));
    assert_eq!(generate_user_interests(&vec![], &vec![]), Ok(vec![]));
}

#[test]
fn subscription_chain_links_in_order() {
    let addresses = generate_subscription_chain(3, &vec![11, 12]).unwrap();
    assert_eq!(addresses.len(), 3);
    assert!(addresses.iter().all(|a| a.fk_city_id == 11 || a.fk_city_id == 12));
    assert_eq!(generate_subscription_chain(1, &vec![]), Err(PipelineError::DependencyUnavailable));

    let payments = generate_payment_data(&vec![40, 41]);
    assert_eq!(payments.iter().map(|p| p.fk_billing_address_id).collect::<Vec<_>>(), vec![40, 41]);
    for p in &payments {
        assert!(p.token.starts_with("tok_"));
        assert!(p.token[4..].parse::<u64>().is_ok());
    }

    let subs = generate_subscriptions(&vec![70, 71], &vec![1]).unwrap();
    assert_eq!(subs.len(), 2);
    for (s, pid) in subs.iter().zip([70, 71]) {
        assert_eq!(s.fk_payment_data_id, Some(pid));
        assert_eq!(s.fk_subscription_plan_id, 1);
        assert_eq!(s.expiration_date.secs, s.created_at.secs + SUBSCRIPTION_DAYS * SECS_PER_DAY);
        assert!(s.is_active && s.auto_renewal && s.last_renewal.is_none());
    }
    assert_eq!(generate_subscriptions(&vec![70], &vec![]), Err(PipelineError::DependencyUnavailable));
}
