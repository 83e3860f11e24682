use population::clock::Timestamp;
use population::config::Config;
use population::decimal::{signed_text, unsigned_text};
use population::error::PipelineError;
use population::pools::is_key_pool;
use population::ratio::Percent;
use population::catalog::synthetic_cities;
use population::clock::now;
use population::random::{chance, pick, uniform, uniform_inclusive, uniform_index};
use population::users::{
    build_user, generate_details_batch, generate_user, generate_user_batch, sanitize_name, user_batches, DEFAULT_PASSWORD,
};

fn config() -> Config {
    let p = |bp: u32| Percent { basis_points: bp };
    Config {
        database_name: "db".to_string(),
        username: "u".to_string(),
        users_number: 10,
        admins_number: 2,
        enable_locale: false,
        migration_ratio: p(0),
        domestic_migration_ratio: p(0),
        international_migration_ratio: p(0),
        oldest_current_photo: 0,
        oldest_unverified_photo: 0,
        subscription_ratio: p(0),
        auto_renewal_ratio: p(0),
        max_admin_hiring_difference: 0,
        user_report_ratio: p(0),
        report_ban_ratio: p(0),
        max_report_ban_difference: 0,
        min_ban_length: 1,
        max_ban_length: 2,
        max_user_swipes: 3,
        right_swipe_ratio: p(0),
        match_probability: p(0),
        match_block_ratio: p(0),
        max_match_block_difference: 0,
        user_block_ratio: p(0),
        min_block_length: 1,
        max_block_length: 2,
        max_conversation_length: 6,
        reply_ratio: p(0),
    }
}

#[test]
fn decimal_text_is_exact() {
    assert_eq!(unsigned_text(0), "0");
    assert_eq!(unsigned_text(120), "120");
    assert_eq!(unsigned_text(u64::MAX), "18446744073709551615");
    assert_eq!(signed_text(-45), "-45");
    assert_eq!(signed_text(i64::MIN), "-9223372036854775808");
}

#[test]
fn names_keep_only_alphanumerics() {
    assert_eq!(sanitize_name("jo.hn_doe-42"), "johndoe42");
    assert_eq!(sanitize_name("Zoë Ørsted"), "ZoëØrsted");
    assert_eq!(sanitize_name("..."), "");
}

#[test]
fn built_user_is_named_and_addressed() {
    let u = build_user("mary.ann", 123456, "h".to_string(), Timestamp { secs: 3 });
    assert_eq!(u.username, "maryann123456");
    assert_eq!(u.email, "maryann123456@example.com");
    assert_eq!(u.id, None);
    assert_eq!(u.created_at, Timestamp { secs: 3 });
}

#[test]
fn generated_user_has_a_checkable_hash() {
    let u = generate_user().unwrap();
    assert_eq!(u.password_hash.len(), 60);
    assert!(bcrypt::verify(DEFAULT_PASSWORD, &u.password_hash).unwrap());
    assert!(u.email.ends_with("@example.com"));
    assert!(u.username.chars().all(|c| c.is_alphanumeric()));
    let suffix: String = u.username.chars().rev().take(6).collect();
    assert!(suffix.chars().all(|c| c.is_ascii_digit()));
}

#[test]
fn user_batch_has_requested_size() {
    let users = generate_user_batch(3).unwrap();
    assert_eq!(users.len(), 3);
}

#[test]
fn details_draw_keys_from_pools() {
    let uids = vec![1, 2, 3, 4, 5];
    let details = generate_details_batch(uids.clone(), &config(), &vec![], &vec![90], &vec![1, 2], &vec![30, 31]).unwrap();
    assert_eq!(details.iter().map(|d| d.fk_user_id).collect::<Vec<_>>(), uids);
    for d in &details {
        assert!(d.fk_sex_id == 1 || d.fk_sex_id == 2);
        assert_eq!(d.fk_subscription_id, None);
        assert_eq!(d.fk_search_preference_id, Some(90));
        assert!(d.fk_city_id.map_or(true, |c| c == 30 || c == 31));
    }
    let no_pref = generate_details_batch(vec![1], &config(), &vec![], &vec![], &vec![1], &vec![]).unwrap();
    assert_eq!(no_pref[0].fk_search_preference_id, None);
    assert_eq!(no_pref[0].fk_city_id, None);
}

#[test]
fn details_need_a_sex() {
    assert_eq!(
        generate_details_batch(vec![1], &config(), &vec![], &vec![], &vec![], &vec![]),
        Err(PipelineError::DependencyUnavailable)
    );
}

#[test]
fn key_pools_have_no_repeats() {
    assert!(is_key_pool(&vec![3, 1, 2]));
    assert!(is_key_pool(&vec![]));
    assert!(!is_key_pool(&vec![3, 1, 3]));
}

#[test]
fn batches_add_up_to_the_population() {
    assert_eq!(user_batches(1001, 500), vec![500, 500, 1]);
    assert_eq!(user_batches(1000, 500), vec![500, 500]);
    assert_eq!(user_batches(0, 500), Vec::<usize>::new());
    assert_eq!(user_batches(3, 500), vec![3]);
}

#[test]
fn cities_come_two_per_country() {
    let cities = synthetic_cities(&vec![("France".to_string(), 1), ("Peru".to_string(), 2)]);
    let got: Vec<(&str, i32)> = cities.iter().map(|c| (c.name.as_str(), c.fk_country_id)).collect();
    assert_eq!(got, vec![("Capital of France", 1), ("Port France", 1), ("Capital of Peru", 2), ("Port Peru", 2)]);
}

#[test]
fn clock_and_draws_stay_in_range() {
    let t = now();
    assert!(t.secs > 1_600_000_000);
    for _ in 0..200 {
        let v = uniform(-3, 4);
        assert!((-3..4).contains(&v));
        let w = uniform_inclusive(7, 9);
        assert!((7..=9).contains(&w));
        assert!(uniform_index(3) < 3);
        assert!(chance(Percent { basis_points: 10000 }));
        assert!(!chance(Percent { basis_points: 0 }));
        assert_eq!(pick(&vec![13]), 13);
    }
    let draws: Vec<i64> = (0..200).map(|_| uniform(0, 1_000_000)).collect();
    assert!(draws.iter().any(|&d| d != draws[0]));
}

#[test]
fn empty_batch_succeeds() {
    assert_eq!(generate_user_batch(0), Ok(vec![]));
}

#[test]
fn batch_names_and_emails_are_unique() {
    let users = generate_user_batch(20).unwrap();
    let mut names: Vec<&str> = users.iter().map(|u| u.username.as_str()).collect();
    let mut emails: Vec<&str> = users.iter().map(|u| u.email.as_str()).collect();
    names.sort();
    names.dedup();
    emails.sort();
    emails.dedup();
    assert_eq!(names.len(), 20);
    assert_eq!(emails.len(), 20);
}
