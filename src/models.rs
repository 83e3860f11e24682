use vstd::prelude::*;
use crate::clock::Timestamp;

verus! {

/// A row of the countries catalogue file.
#[derive(Debug, PartialEq, Eq)]
pub struct CountryRecord {
    pub name: String,
    pub iso_code: String,
    pub population: Option<i64>,
    pub locale: Option<String>,
}

/// A row of the sexes catalogue file.
#[derive(Debug, PartialEq, Eq)]
pub struct SexRecord {
    pub name: String,
}

/// A row of the interests catalogue file.
#[derive(Debug, PartialEq, Eq)]
pub struct InterestRecord {
    pub name: String,
}

/// A login identity; `id` is set once the store has assigned it.
#[derive(Debug, PartialEq, Eq)]
pub struct DbUser {
    pub id: Option<i32>,
    pub username: String,
    pub email: String,
    pub password_hash: String,
    pub created_at: Timestamp,
}

/// A profile, owned by exactly one user.
#[derive(Debug, PartialEq, Eq)]
pub struct DbUserDetails {
    pub name: String,
    pub surname: String,
    pub fk_sex_id: i32,
    pub fk_city_id: Option<i32>,
    pub fk_subscription_id: Option<i32>,
    pub fk_search_preference_id: Option<i32>,
    pub fk_user_id: i32,
    pub created_at: Timestamp,
}

/// A directed swipe of one profile on another.
#[derive(Clone, Copy, Debug, PartialEq, Eq, Structural)]
pub struct DbSwipe {
    pub result: bool,
    pub fk_swiping_user_details_id: i32,
    pub fk_swiped_user_details_id: i32,
    pub swipe_time: Timestamp,
}

/// A mutual like, stored with `fk_person1_id < fk_person2_id`.
#[derive(Debug, PartialEq, Eq)]
pub struct DbMatch {
    pub fk_person1_id: i32,
    pub fk_person2_id: i32,
    pub date_formed: Timestamp,
    pub status: String,
}

#[derive(Clone, Copy, Debug, PartialEq, Eq, Structural)]
pub struct DbAdministrator {
    pub fk_user_id: i32,
    pub hiring_date: Timestamp,
    pub reports_handled: i32,
}

#[derive(Debug, PartialEq, Eq)]
pub struct DbBillingAddress {
    pub street: String,
    pub postal_code: String,
    pub fk_city_id: i32,
}

#[derive(Debug, PartialEq, Eq)]
pub struct DbPaymentData {
    pub token: String,
    pub fk_billing_address_id: i32,
}

#[derive(Clone, Copy, Debug, PartialEq, Eq, Structural)]
pub struct DbSubscription {
    pub expiration_date: Timestamp,
    pub last_renewal: Option<Timestamp>,
    pub created_at: Timestamp,
    pub uploaded_at: Timestamp,
    pub is_active: bool,
    pub auto_renewal: bool,
    pub fk_subscription_plan_id: i32,
    pub fk_payment_data_id: Option<i32>,
}

#[derive(Debug, PartialEq, Eq)]
pub struct DbSearchPreference {
    pub search_description: String,
    pub created_at: Timestamp,
    pub updated_at: Timestamp,
}

#[derive(Clone, Copy, Debug, PartialEq, Eq, Structural)]
pub struct DbSearchPreferenceSex {
    pub fk_search_preference_id: i32,
    pub fk_sex_id: i32,
    pub priorty: i32,
}

#[derive(Clone, Copy, Debug, PartialEq, Eq, Structural)]
pub struct DbSearchPreferenceInterest {
    pub fk_search_preference_id: i32,
    pub fk_interest_id: i32,
    pub level_of_interest: i32,
    pub is_positive: bool,
}

#[derive(Clone, Copy, Debug, PartialEq, Eq, Structural)]
pub struct DbUserInterest {
    pub level_of_interest: i32,
    pub is_positive: bool,
    pub fk_user_details_id: i32,
    pub fk_interest_id: i32,
}

#[derive(Debug, PartialEq, Eq)]
pub struct DbImage {
    pub file_path: String,
    pub uploaded_at: Timestamp,
    pub is_current: bool,
    pub file_size_bytes: i32,
    pub is_verified: bool,
    pub fk_user_details_id: i32,
}

#[derive(Debug, PartialEq, Eq)]
pub struct DbConversation {
    pub fk_match_id: i32,
    pub chat_theme: String,
    pub chat_reaction: i16,
    pub created_at: Timestamp,
    pub updated_at: Timestamp,
}

#[derive(Debug, PartialEq, Eq)]
pub struct DbMessage {
    pub send_time: Timestamp,
    pub contents: String,
    pub reaction: Option<i16>,
    pub fk_sender_id: Option<i32>,
    pub fk_conversation_id: i32,
    pub fk_replying_to_message_id: Option<i32>,
}

#[derive(Debug, PartialEq, Eq)]
pub struct DbReport {
    pub reason: String,
    pub report_date: Timestamp,
    pub fk_reporting_user_details_id: i32,
    pub fk_reported_user_details_id: i32,
    pub fk_administrator_id: Option<i32>,
}

#[derive(Clone, Copy, Debug, PartialEq, Eq, Structural)]
pub struct DbBan {
    pub fk_user_details_id: i32,
    pub fk_report_id: i32,
    pub start_date: Timestamp,
    pub period_days: i32,
    pub is_active: bool,
}

#[derive(Clone, Copy, Debug, PartialEq, Eq, Structural)]
pub struct DbBlock {
    pub fk_blocking_user_details_id: i32,
    pub fk_blocked_user_details_id: i32,
    pub start_date: Timestamp,
    pub end_date: Option<Timestamp>,
    pub is_active: bool,
}

} // verus!
