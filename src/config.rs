use vstd::prelude::*;
use crate::ratio::Percent;

verus! {

/// The run's named ratios, counts and ranges. Ratios are exact
/// percentages; lengths of bans and blocks are in days, differences in days.
#[derive(Clone, Debug)]
pub struct Config {
    pub database_name: String,
    pub username: String,
    pub users_number: usize,
    pub admins_number: usize,
    pub enable_locale: bool,
    pub migration_ratio: Percent,
    pub domestic_migration_ratio: Percent,
    pub international_migration_ratio: Percent,
    pub oldest_current_photo: i64,
    pub oldest_unverified_photo: i64,
    pub subscription_ratio: Percent,
    pub auto_renewal_ratio: Percent,
    pub max_admin_hiring_difference: i64,
    pub user_report_ratio: Percent,
    pub report_ban_ratio: Percent,
    pub max_report_ban_difference: i64,
    pub min_ban_length: i64,
    pub max_ban_length: i64,
    pub max_user_swipes: usize,
    pub right_swipe_ratio: Percent,
    pub match_probability: Percent,
    pub match_block_ratio: Percent,
    pub max_match_block_difference: i64,
    pub user_block_ratio: Percent,
    pub min_block_length: i64,
    pub max_block_length: i64,
    pub max_conversation_length: usize,
    pub reply_ratio: Percent,
}

impl Config {
    /// Every ratio is at most 100%.
    pub open spec fn wf(&self) -> bool {
        &&& self.migration_ratio.wf()
        &&& self.domestic_migration_ratio.wf()
        &&& self.international_migration_ratio.wf()
        &&& self.subscription_ratio.wf()
        &&& self.auto_renewal_ratio.wf()
        &&& self.user_report_ratio.wf()
        &&& self.report_ban_ratio.wf()
        &&& self.right_swipe_ratio.wf()
        &&& self.match_probability.wf()
        &&& self.match_block_ratio.wf()
        &&& self.user_block_ratio.wf()
        &&& self.reply_ratio.wf()
    }
}

} // verus!
