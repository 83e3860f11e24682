use vstd::prelude::*;
use crate::clock::{now, Timestamp, CLOCK_LIMIT, SECS_PER_DAY, SECS_PER_HOUR, SECS_PER_MINUTE};
use crate::config::Config;
use crate::runs::{lemma_runs_bounds, runs};
use crate::error::PipelineError;
use crate::models::{DbAdministrator, DbBan, DbBlock, DbConversation, DbMessage, DbReport};
use crate::random::{chance, pick, uniform, uniform_inclusive, uniform_index};
use crate::ratio::{ratio_count, ratio_count_spec, Percent, WHOLE};
use crate::text::sentence;

verus! {

/// The share of matches that start a conversation, in basis points.
pub const CONVERSATION_RATIO: u32 = 6000;

/// The longest conversation that a configuration may ask for: the most
/// messages, at most an hour apart, whose send times after any clock
/// reading still fit a timestamp, ⌊(i64::MAX - CLOCK_LIMIT) / SECS_PER_HOUR⌋.
pub const MAX_CONVERSATION_LENGTH: i64 = 2_562_045_010_237_437;

/// What a ban needs of a committed report.
#[derive(Clone, Copy, Debug, PartialEq, Eq, Structural)]
pub struct ReportMeta {
    pub id: i32,
    pub reported_user_id: i32,
    pub report_date: Timestamp,
}

/// Two different members of a pool without repeats, each uniformly drawn.
fn distinct_pair(pool: &Vec<i32>) -> (r: (i32, i32))
    requires
        pool@.len() >= 2,
        pool@.no_duplicates(),
    ensures
        r.0 != r.1,
        pool@.contains(r.0),
        pool@.contains(r.1),
{
    let n = pool.len();
    let i = uniform_index(n);
    let mut j = uniform_index(n - 1);
    if j >= i {
        j = j + 1;
    }
    assert(pool@[i as int] != pool@[j as int]);
    (pool[i], pool[j])
}

/// One administrator per user id, in order: hired 100 to 1999 days ago,
/// with 0 to 499 reports handled.
pub fn generate_admins(user_ids: &Vec<i32>) -> (r: Vec<DbAdministrator>)
    ensures
        r@.len() == user_ids@.len(),
        forall|k: int| 0 <= k < r@.len() ==> {
            &&& (#[trigger] r@[k]).fk_user_id == user_ids@[k]
            &&& 0 <= r@[k].reports_handled < 500
            &&& -1999 * SECS_PER_DAY <= r@[k].hiring_date.secs <= CLOCK_LIMIT - 100 * SECS_PER_DAY
        },
{
    let at = now();
    let mut out: Vec<DbAdministrator> = Vec::new();
    for i in 0..user_ids.len()
        invariant
            0 <= at.secs <= CLOCK_LIMIT,
            out@.len() == i,
            forall|k: int| 0 <= k < out@.len() ==> {
                &&& (#[trigger] out@[k]).fk_user_id == user_ids@[k]
                &&& 0 <= out@[k].reports_handled < 500
                &&& -1999 * SECS_PER_DAY <= out@[k].hiring_date.secs <= CLOCK_LIMIT - 100 * SECS_PER_DAY
            },
    {
        let days = uniform(100, 2000);
        let handled = uniform(0, 500);
        out.push(DbAdministrator {
            fk_user_id: user_ids[i],
            hiring_date: at.shifted(-(days * SECS_PER_DAY)),
            reports_handled: handled as i32,
        });
    }
    out
}

/// The conversations of `cs[lo..hi]` belong to match `match_id`.
pub open spec fn match_conversation_run(cs: Seq<DbConversation>, match_id: i32, lo: int, hi: int) -> bool {
    forall|k: int| lo <= k < hi ==> (#[trigger] cs[k]).fk_match_id == match_id
}

/// `cs` holds, match after match, at most one conversation of each match
/// `(id, person1, person2)` of `match_data`, as `starts` cuts it.
pub open spec fn conversations_by_match(cs: Seq<DbConversation>, match_data: Seq<(i32, i32, i32)>, starts: Seq<int>) -> bool {
    &&& runs(starts, match_data.len() as int, cs.len() as int, 0, 1)
    &&& forall|i: int| 0 <= i < match_data.len() ==> #[trigger] match_conversation_run(cs, match_data[i].0, starts[i], starts[i + 1])
}

/// Conversations for a share (`CONVERSATION_RATIO`) of the matches `(id,
/// person1, person2)`: at most one per match, in match order, themed
/// "General". Messages come later, once the conversations have ids; the
/// second list is empty.
pub fn generate_chat_flow(match_data: &Vec<(i32, i32, i32)>, _config: &Config) -> (r: (Vec<DbConversation>, Vec<DbMessage>))
    ensures
        exists|starts: Seq<int>| #[trigger] conversations_by_match(r.0@, match_data@, starts),
        r.0@.len() <= match_data@.len(),
        r.1@.len() == 0,
        forall|k: int| 0 <= k < r.0@.len() ==> {
            &&& (#[trigger] r.0@[k]).chat_theme@ == "General"@
            &&& r.0@[k].chat_reaction == 0
            &&& r.0@[k].created_at == r.0@[k].updated_at
        },
{
    let mut conversations: Vec<DbConversation> = Vec::new();
    let messages: Vec<DbMessage> = Vec::new();
    let ghost mut starts: Seq<int> = seq![0];
    for i in 0..match_data.len()
        invariant
            conversations@.len() <= i,
            runs(starts, i as int, conversations@.len() as int, 0, 1),
            forall|j: int| 0 <= j < i ==> #[trigger] match_conversation_run(conversations@, match_data@[j].0, starts[j], starts[j + 1]),
            forall|k: int| 0 <= k < conversations@.len() ==> {
                &&& (#[trigger] conversations@[k]).chat_theme@ == "General"@
                &&& conversations@[k].chat_reaction == 0
                &&& conversations@[k].created_at == conversations@[k].updated_at
            },
    {
        let ghost before = conversations@;
        if chance(Percent { basis_points: CONVERSATION_RATIO }) {
            let at = now();
            let (match_id, _p1, _p2) = match_data[i];
            assert(match_data@[i as int].0 == match_id);
            conversations.push(DbConversation {
                fk_match_id: match_id,
                chat_theme: String::from_str("General"),
                chat_reaction: 0,
                created_at: at,
                updated_at: at,
            });
        }
        proof {
            let base = before.len() as int;
            assert forall|k: int| 0 <= k < base implies conversations@[k] == before[k] by {}
            assert forall|j: int| 0 <= j < i implies #[trigger] match_conversation_run(conversations@, match_data@[j].0, starts[j], starts[j + 1]) by {
                lemma_runs_bounds(starts, i as int, base, 0, 1, j);
                assert(match_conversation_run(before, match_data@[j].0, starts[j], starts[j + 1]));
            }
            let next = starts.push(conversations@.len() as int);
            assert forall|j: int| 0 <= j < i + 1 implies #[trigger] match_conversation_run(conversations@, match_data@[j].0, next[j], next[j + 1]) by {
                if j < i {
                    assert(next[j] == starts[j] && next[j + 1] == starts[j + 1]);
                } else {
                    assert(next[j] == base);
                }
            }
            assert(runs(next, i + 1, conversations@.len() as int, 0, 1)) by {
                assert forall|ii: int| 0 <= ii < i + 1 implies next[ii] + 0 <= #[trigger] next[ii + 1] <= next[ii] + 1 by {
                    if ii < i {
                        assert(next[ii] == starts[ii] && next[ii + 1] == starts[ii + 1]);
                    } else {
                        assert(next[ii] == base);
                    }
                }
            }
            starts = next;
        }
    }
    let r = (conversations, messages);
    proof {
        assert(r.0 == conversations);
        assert(conversations_by_match(r.0@, match_data@, starts));
    }
    r
}

/// `ms[lo..hi]` is conversation `c = (id, person1, person2)`: person1
/// and person2 take turns, person1 first, each message a minute to 59
/// minutes after the one before it.
pub open spec fn conversation_run(ms: Seq<DbMessage>, c: (i32, i32, i32), lo: int, hi: int) -> bool {
    forall|k: int| lo <= k < hi ==> {
        &&& (#[trigger] ms[k]).fk_conversation_id == c.0
        &&& ms[k].fk_sender_id == Some(if (k - lo) % 2 == 0 { c.1 } else { c.2 })
        &&& ms[k].reaction is None
        &&& ms[k].fk_replying_to_message_id is None
        &&& k > lo ==> ms[k - 1].send_time.secs + SECS_PER_MINUTE <= ms[k].send_time.secs
            <= ms[k - 1].send_time.secs + 59 * SECS_PER_MINUTE
    }
}

/// `ms` holds, conversation after conversation, a run of `1..max_len`
/// messages for each conversation of `convo_data`, as `starts` cuts it.
pub open spec fn messages_by_conversation(ms: Seq<DbMessage>, convo_data: Seq<(i32, i32, i32)>, max_len: usize, starts: Seq<int>) -> bool {
    &&& runs(starts, convo_data.len() as int, ms.len() as int, 1, max_len - 1)
    &&& forall|i: int| 0 <= i < convo_data.len() ==> #[trigger] conversation_run(ms, convo_data[i], starts[i], starts[i + 1])
}

/// Send times of a conversation of fewer than `MAX_CONVERSATION_LENGTH`
/// messages stay within a timestamp's range.
proof fn lemma_message_time_fits(i: int, max_len: int)
    requires
        0 <= i,
        i + 1 < max_len <= MAX_CONVERSATION_LENGTH,
    ensures
        CLOCK_LIMIT + (i + 1) * SECS_PER_HOUR <= i64::MAX,
{
    assert((i + 1) * SECS_PER_HOUR <= MAX_CONVERSATION_LENGTH * SECS_PER_HOUR) by (nonlinear_arith)
        requires 0 <= i + 1 <= MAX_CONVERSATION_LENGTH;
}

/// For each conversation `(id, person1, person2)`, in order, between 1 and
/// `max_conversation_length - 1` messages, sent alternately by person1 and
/// person2, a minute to 59 minutes apart, starting ten days ago.
/// A configured length below 2 or above `MAX_CONVERSATION_LENGTH` is a
/// configuration error when there is a conversation to fill.
pub fn generate_messages_for_convos(convo_data: &Vec<(i32, i32, i32)>, config: &Config) -> (r: Result<Vec<DbMessage>, PipelineError>)
    ensures
        r is Err <==> convo_data@.len() > 0 && (config.max_conversation_length < 2
            || config.max_conversation_length > MAX_CONVERSATION_LENGTH as nat),
        r is Err ==> r == Err::<Vec<DbMessage>, PipelineError>(PipelineError::Configuration),
        r is Ok ==> exists|starts: Seq<int>|
            #[trigger] messages_by_conversation(r->Ok_0@, convo_data@, config.max_conversation_length, starts),
{
    let mut messages: Vec<DbMessage> = Vec::new();
    if convo_data.len() == 0 {
        let r: Result<Vec<DbMessage>, PipelineError> = Ok(messages);
        proof {
            let none: Seq<int> = seq![0];
            assert(r->Ok_0 == messages);
            assert(none[0] == 0);
            assert(messages_by_conversation(r->Ok_0@, convo_data@, config.max_conversation_length, none));
        }
        return r;
    }
    let max_len = config.max_conversation_length;
    if max_len < 2 || max_len as u64 > MAX_CONVERSATION_LENGTH as u64 {
        return Err(PipelineError::Configuration);
    }
    let start = now();
    let ghost mut starts: Seq<int> = seq![0];
    for c in 0..convo_data.len()
        invariant
            2 <= max_len <= MAX_CONVERSATION_LENGTH as nat,
            max_len == config.max_conversation_length,
            0 <= start.secs <= CLOCK_LIMIT,
            runs(starts, c as int, messages@.len() as int, 1, max_len - 1),
            forall|j: int| 0 <= j < c ==> #[trigger] conversation_run(messages@, convo_data@[j], starts[j], starts[j + 1]),
    {
        let (cid, p1, p2) = convo_data[c];
        let count = uniform(1, max_len as i64) as usize;
        let mut time = start.shifted(-10 * SECS_PER_DAY);
        let ghost base = messages@.len() as int;
        for i in 0..count
            invariant
                1 <= count < max_len,
                2 <= max_len <= MAX_CONVERSATION_LENGTH as nat,
                c < convo_data@.len(),
                convo_data@[c as int] == (cid, p1, p2),
                -10 * SECS_PER_DAY <= time.secs <= CLOCK_LIMIT + i * SECS_PER_HOUR,
                0 <= base,
                messages@.len() == base + i,
                i > 0 ==> time == messages@[messages@.len() - 1].send_time,
                runs(starts, c as int, base, 1, max_len - 1),
                forall|j: int| 0 <= j < c ==> #[trigger] conversation_run(messages@, convo_data@[j], starts[j], starts[j + 1]),
                conversation_run(messages@, (cid, p1, p2), base, base + i),
        {
            let sender = if i % 2 == 0 { p1 } else { p2 };
            let gap = uniform(1, 60);
            let previous = time;
            proof {
                lemma_message_time_fits(i as int, max_len as int);
            }
            time = time.shifted(gap * SECS_PER_MINUTE);
            let contents = sentence(1, 10);
            let ghost before = messages@;
            messages.push(DbMessage {
                send_time: time,
                contents,
                reaction: None,
                fk_sender_id: Some(sender),
                fk_conversation_id: cid,
                fk_replying_to_message_id: None,
            });
            proof {
                assert forall|k: int| 0 <= k < base + i implies messages@[k] == before[k] by {}
                assert forall|j: int| 0 <= j < c implies #[trigger] conversation_run(messages@, convo_data@[j], starts[j], starts[j + 1]) by {
                    lemma_runs_bounds(starts, c as int, base, 1, max_len - 1, j);
                    assert(conversation_run(before, convo_data@[j], starts[j], starts[j + 1]));
                }
                assert forall|k: int| base <= k < base + i + 1 implies {
                    &&& (#[trigger] messages@[k]).fk_conversation_id == cid
                    &&& messages@[k].fk_sender_id == Some(if (k - base) % 2 == 0 { p1 } else { p2 })
                    &&& messages@[k].reaction is None
                    &&& messages@[k].fk_replying_to_message_id is None
                    &&& k > base ==> messages@[k - 1].send_time.secs + SECS_PER_MINUTE <= messages@[k].send_time.secs
                        <= messages@[k - 1].send_time.secs + 59 * SECS_PER_MINUTE
                } by {
                    if k < base + i {
                        assert(messages@[k] == before[k]);
                        if k > base {
                            assert(messages@[k - 1] == before[k - 1]);
                        }
                    } else if k > base {
                        assert(messages@[k - 1] == before[k - 1]);
                        assert(previous == before[k - 1].send_time);
                    }
                }
            }
        }
        proof {
            let next = starts.push(messages@.len() as int);
            assert forall|j: int| 0 <= j < c + 1 implies #[trigger] conversation_run(messages@, convo_data@[j], next[j], next[j + 1]) by {
                if j < c {
                    assert(next[j] == starts[j] && next[j + 1] == starts[j + 1]);
                } else {
                    assert(next[j] == base);
                }
            }
            starts = next;
        }
    }
    let r: Result<Vec<DbMessage>, PipelineError> = Ok(messages);
    assert(r->Ok_0 == messages);
    assert(messages_by_conversation(r->Ok_0@, convo_data@, config.max_conversation_length, starts));
    r
}

/// `r` reports one member of `user_ids` on another.
pub open spec fn report_fits(r: DbReport, user_ids: Seq<i32>, admin_ids: Seq<i32>) -> bool {
    &&& r.fk_reporting_user_details_id != r.fk_reported_user_details_id
    &&& user_ids.contains(r.fk_reporting_user_details_id)
    &&& user_ids.contains(r.fk_reported_user_details_id)
    &&& admin_ids.len() == 0 ==> r.fk_administrator_id is None
    &&& admin_ids.len() > 0 ==> (r.fk_administrator_id is Some && admin_ids.contains(r.fk_administrator_id->0))
    &&& -29 * SECS_PER_DAY <= r.report_date.secs <= CLOCK_LIMIT
}

/// ⌊|user_ids| · user_report_ratio / 100%⌋ reports, each of one member of
/// the pool on another, handled by a random administrator when there is
/// one, dated within the last 30 days. With reports to make and fewer than
/// two users, no pair can be drawn: the stage's dependency is missing.
pub fn generate_reports(user_ids: &Vec<i32>, admin_ids: &Vec<i32>, config: &Config) -> (r: Result<Vec<DbReport>, PipelineError>)
    requires
        config.wf(),
        user_ids@.no_duplicates(),
    ensures
        ({
            let count = ratio_count_spec(user_ids@.len(), config.user_report_ratio);
            &&& r is Err <==> count > 0 && user_ids@.len() < 2
            &&& r is Err ==> r == Err::<Vec<DbReport>, PipelineError>(PipelineError::DependencyUnavailable)
            &&& r matches Ok(rs) ==> {
                &&& rs@.len() == count
                &&& forall|k: int| 0 <= k < rs@.len() ==> report_fits(#[trigger] rs@[k], user_ids@, admin_ids@)
            }
        }),
{
    let count = ratio_count(user_ids.len(), config.user_report_ratio);
    let mut reports: Vec<DbReport> = Vec::new();
    if count == 0 {
        return Ok(reports);
    }
    if user_ids.len() < 2 {
        return Err(PipelineError::DependencyUnavailable);
    }
    let at = now();
    for _i in 0..count
        invariant
            user_ids@.len() >= 2,
            user_ids@.no_duplicates(),
            0 <= at.secs <= CLOCK_LIMIT,
            reports@.len() == _i,
            forall|k: int| 0 <= k < reports@.len() ==> report_fits(#[trigger] reports@[k], user_ids@, admin_ids@),
    {
        let (reporter, reported) = distinct_pair(user_ids);
        let admin = if admin_ids.len() > 0 {
            Some(pick(admin_ids))
        } else {
            None
        };
        let days = uniform(0, 30);
        reports.push(DbReport {
            reason: sentence(3, 10),
            report_date: at.shifted(-(days * SECS_PER_DAY)),
            fk_reporting_user_details_id: reporter,
            fk_reported_user_details_id: reported,
            fk_administrator_id: admin,
        });
        assert(report_fits(reports@[reports@.len() - 1], user_ids@, admin_ids@));
    }
    Ok(reports)
}

/// `b` bans the user of report `r`: starting 1 to 47 hours after the
/// report, for `min_ban_length..=max_ban_length` days.
pub open spec fn ban_fits(b: DbBan, r: ReportMeta, config: Config) -> bool {
    &&& b.fk_user_details_id == r.reported_user_id
    &&& b.fk_report_id == r.id
    &&& r.report_date.secs + SECS_PER_HOUR <= b.start_date.secs < r.report_date.secs + 48 * SECS_PER_HOUR
    &&& config.min_ban_length <= b.period_days <= config.max_ban_length
    &&& b.is_active
}

/// The ban lengths fit a period of days.
pub open spec fn ban_lengths_valid(config: Config) -> bool {
    i32::MIN <= config.min_ban_length <= config.max_ban_length <= i32::MAX
}

/// A report date early enough that any ban start after it can be stored.
pub open spec fn report_date_storable(r: ReportMeta) -> bool {
    r.report_date.secs <= i64::MAX - 48 * SECS_PER_HOUR
}

/// Every ban of `bs[lo..hi]` bans the user of report `r`.
pub open spec fn ban_run(bs: Seq<DbBan>, r: ReportMeta, config: Config, lo: int, hi: int) -> bool {
    forall|k: int| lo <= k < hi ==> ban_fits(#[trigger] bs[k], r, config)
}

/// The fewest bans a report gets: one at a 100% ratio, else none.
pub open spec fn bans_per_report_min(config: Config) -> int {
    if config.report_ban_ratio.basis_points == WHOLE { 1 } else { 0 }
}

/// The most bans a report gets: none at a 0% ratio, else one.
pub open spec fn bans_per_report_max(config: Config) -> int {
    if config.report_ban_ratio.basis_points == 0 { 0 } else { 1 }
}

/// `bs` holds, report after report, at most one ban of each report of
/// `reports`, as `starts` cuts it.
pub open spec fn bans_by_report(bs: Seq<DbBan>, reports: Seq<ReportMeta>, config: Config, starts: Seq<int>) -> bool {
    &&& runs(starts, reports.len() as int, bs.len() as int, bans_per_report_min(config), bans_per_report_max(config))
    &&& forall|i: int| 0 <= i < reports.len() ==> #[trigger] ban_run(bs, reports[i], config, starts[i], starts[i + 1])
}

/// Bans for a share (`report_ban_ratio`) of the reports: at most one per
/// report, in report order; every report at 100%, none at 0%. A range of
/// ban lengths that is empty or does not fit a number of days is a
/// configuration error.
pub fn generate_bans(reports: &Vec<ReportMeta>, config: &Config) -> (r: Result<Vec<DbBan>, PipelineError>)
    requires
        config.wf(),
        forall|j: int| 0 <= j < reports@.len() ==> report_date_storable(#[trigger] reports@[j]),
    ensures
        r is Err <==> !ban_lengths_valid(*config),
        r is Err ==> r == Err::<Vec<DbBan>, PipelineError>(PipelineError::Configuration),
        r is Ok ==> exists|starts: Seq<int>| #[trigger] bans_by_report(r->Ok_0@, reports@, *config, starts),
        r matches Ok(bs) ==> {
            &&& bs@.len() <= reports@.len()
            &&& config.report_ban_ratio.basis_points == WHOLE ==> {
                &&& bs@.len() == reports@.len()
                &&& forall|k: int| 0 <= k < bs@.len() ==> ban_fits(#[trigger] bs@[k], reports@[k], *config)
            }
            &&& config.report_ban_ratio.basis_points == 0 ==> bs@.len() == 0
        },
{
    if !(i32::MIN as i64 <= config.min_ban_length && config.min_ban_length <= config.max_ban_length
        && config.max_ban_length <= i32::MAX as i64) {
        return Err(PipelineError::Configuration);
    }
    let mut bans: Vec<DbBan> = Vec::new();
    let ghost mut starts: Seq<int> = seq![0];
    let ghost lo = bans_per_report_min(*config);
    let ghost hi = bans_per_report_max(*config);
    for i in 0..reports.len()
        invariant
            config.wf(),
            ban_lengths_valid(*config),
            lo == bans_per_report_min(*config),
            hi == bans_per_report_max(*config),
            forall|j: int| 0 <= j < reports@.len() ==> report_date_storable(#[trigger] reports@[j]),
            bans@.len() <= i,
            runs(starts, i as int, bans@.len() as int, lo, hi),
            forall|j: int| 0 <= j < i ==> #[trigger] ban_run(bans@, reports@[j], *config, starts[j], starts[j + 1]),
            config.report_ban_ratio.basis_points == WHOLE ==> {
                &&& bans@.len() == i
                &&& forall|k: int| 0 <= k < bans@.len() ==> ban_fits(#[trigger] bans@[k], reports@[k], *config)
            },
            config.report_ban_ratio.basis_points == 0 ==> bans@.len() == 0,
    {
        let report = reports[i];
        let ghost before = bans@;
        if chance(config.report_ban_ratio) {
            assert(report_date_storable(reports@[i as int]));
            let length = uniform_inclusive(config.min_ban_length, config.max_ban_length);
            let hours = uniform(1, 48);
            bans.push(DbBan {
                fk_user_details_id: report.reported_user_id,
                fk_report_id: report.id,
                start_date: report.report_date.shifted(hours * SECS_PER_HOUR),
                period_days: length as i32,
                is_active: true,
            });
            assert(ban_fits(bans@[bans@.len() - 1], reports@[i as int], *config));
        }
        proof {
            let base = before.len() as int;
            assert forall|k: int| 0 <= k < base implies bans@[k] == before[k] by {}
            assert forall|j: int| 0 <= j < i implies #[trigger] ban_run(bans@, reports@[j], *config, starts[j], starts[j + 1]) by {
                lemma_runs_bounds(starts, i as int, base, lo, hi, j);
                assert(ban_run(before, reports@[j], *config, starts[j], starts[j + 1]));
            }
            let next = starts.push(bans@.len() as int);
            assert forall|j: int| 0 <= j < i + 1 implies #[trigger] ban_run(bans@, reports@[j], *config, next[j], next[j + 1]) by {
                if j < i {
                    assert(next[j] == starts[j] && next[j + 1] == starts[j + 1]);
                } else {
                    assert(next[j] == base);
                }
            }
            assert(runs(next, i + 1, bans@.len() as int, lo, hi)) by {
                assert forall|ii: int| 0 <= ii < i + 1 implies next[ii] + lo <= #[trigger] next[ii + 1] <= next[ii] + hi by {
                    if ii < i {
                        assert(next[ii] == starts[ii] && next[ii + 1] == starts[ii + 1]);
                    } else {
                        assert(next[ii] == base);
                    }
                }
            }
            starts = next;
        }
    }
    let r: Result<Vec<DbBan>, PipelineError> = Ok(bans);
    proof {
        assert(r->Ok_0 == bans);
        assert(bans_by_report(r->Ok_0@, reports@, *config, starts));
    }
    r
}

/// `b` blocks one person of `p` on the other.
pub open spec fn pair_blocks(p: (i32, i32), b: DbBlock) -> bool {
    (b.fk_blocking_user_details_id == p.0 && b.fk_blocked_user_details_id == p.1)
        || (b.fk_blocking_user_details_id == p.1 && b.fk_blocked_user_details_id == p.0)
}

/// `b` is open-ended, active, and not a self-block.
pub open spec fn block_open(b: DbBlock) -> bool {
    &&& b.fk_blocking_user_details_id != b.fk_blocked_user_details_id
    &&& b.end_date is None
    &&& b.is_active
}

/// `bs[lo..hi]` are the blocks of matched pair `p`: none for a pair of one
/// person or at a 0% ratio, exactly one for a pair of two at 100%, and at
/// most one otherwise.
pub open spec fn pair_block_run(bs: Seq<DbBlock>, p: (i32, i32), ratio: Percent, lo: int, hi: int) -> bool {
    &&& forall|k: int| lo <= k < hi ==> pair_blocks(p, #[trigger] bs[k])
    &&& (p.0 == p.1 || ratio.basis_points == 0) ==> hi == lo
    &&& (p.0 != p.1 && ratio.basis_points == WHOLE) ==> hi == lo + 1
}

/// `bs` holds, pair after pair, the blocks of each of `match_pairs` as
/// `starts` cuts them, then `count` blocks between two members of
/// `user_ids`.
pub open spec fn blocks_by_source(
    bs: Seq<DbBlock>,
    user_ids: Seq<i32>,
    match_pairs: Seq<(i32, i32)>,
    ratio: Percent,
    count: int,
    starts: Seq<int>,
) -> bool {
    &&& runs(starts, match_pairs.len() as int, bs.len() - count, 0, 1)
    &&& forall|i: int| 0 <= i < match_pairs.len() ==> #[trigger] pair_block_run(bs, match_pairs[i], ratio, starts[i], starts[i + 1])
    &&& forall|k: int| bs.len() - count <= k < bs.len() ==> {
        &&& user_ids.contains((#[trigger] bs[k]).fk_blocking_user_details_id)
        &&& user_ids.contains(bs[k].fk_blocked_user_details_id)
    }
}

/// Blocks: for each matched pair of two people, in order, with the chance
/// `match_block_ratio`, one blocks the other (who blocks whom is a fair
/// coin); then ⌊|user_ids| · user_block_ratio / 100%⌋ blocks between two
/// different members of the pool. With random blocks to make and fewer than
/// two users, the stage's dependency is missing.
pub fn generate_blocks(user_ids: &Vec<i32>, match_pairs: &Vec<(i32, i32)>, config: &Config) -> (r: Result<Vec<DbBlock>, PipelineError>)
    requires
        config.wf(),
        user_ids@.no_duplicates(),
    ensures
        ({
            let count = ratio_count_spec(user_ids@.len(), config.user_block_ratio);
            &&& r is Err <==> count > 0 && user_ids@.len() < 2
            &&& r is Err ==> r == Err::<Vec<DbBlock>, PipelineError>(PipelineError::DependencyUnavailable)
            &&& r is Ok ==> exists|starts: Seq<int>| #[trigger] blocks_by_source(r->Ok_0@, user_ids@, match_pairs@,
                config.match_block_ratio, count as int, starts)
            &&& r matches Ok(bs) ==> {
                &&& count <= bs@.len() <= match_pairs@.len() + count
                &&& forall|k: int| 0 <= k < bs@.len() ==> block_open(#[trigger] bs@[k])
            }
        }),
{
    let count = ratio_count(user_ids.len(), config.user_block_ratio);
    if count > 0 && user_ids.len() < 2 {
        return Err(PipelineError::DependencyUnavailable);
    }
    let at = now();
    let ratio = config.match_block_ratio;
    let mut blocks: Vec<DbBlock> = Vec::new();
    let ghost mut starts: Seq<int> = seq![0];
    for i in 0..match_pairs.len()
        invariant
            ratio.wf(),
            blocks@.len() <= i,
            runs(starts, i as int, blocks@.len() as int, 0, 1),
            forall|j: int| 0 <= j < i ==> #[trigger] pair_block_run(blocks@, match_pairs@[j], ratio, starts[j], starts[j + 1]),
            forall|k: int| 0 <= k < blocks@.len() ==> block_open(#[trigger] blocks@[k]),
    {
        let (p1, p2) = match_pairs[i];
        let ghost before = blocks@;
        // A pair of one person cannot block itself.
        if p1 != p2 && chance(ratio) {
            let (blocker, blocked) = if chance(Percent { basis_points: WHOLE / 2 }) {
                (p1, p2)
            } else {
                (p2, p1)
            };
            blocks.push(DbBlock {
                fk_blocking_user_details_id: blocker,
                fk_blocked_user_details_id: blocked,
                start_date: at,
                end_date: None,
                is_active: true,
            });
            assert(pair_blocks(match_pairs@[i as int], blocks@[blocks@.len() - 1]));
        }
        proof {
            let base = before.len() as int;
            assert forall|k: int| 0 <= k < base implies blocks@[k] == before[k] by {}
            assert forall|j: int| 0 <= j < i implies #[trigger] pair_block_run(blocks@, match_pairs@[j], ratio, starts[j], starts[j + 1]) by {
                lemma_runs_bounds(starts, i as int, base, 0, 1, j);
                assert(pair_block_run(before, match_pairs@[j], ratio, starts[j], starts[j + 1]));
            }
            let next = starts.push(blocks@.len() as int);
            assert forall|j: int| 0 <= j < i + 1 implies #[trigger] pair_block_run(blocks@, match_pairs@[j], ratio, next[j], next[j + 1]) by {
                if j < i {
                    assert(next[j] == starts[j] && next[j + 1] == starts[j + 1]);
                } else {
                    assert(next[j] == base);
                }
            }
            assert(runs(next, i + 1, blocks@.len() as int, 0, 1)) by {
                assert forall|ii: int| 0 <= ii < i + 1 implies next[ii] + 0 <= #[trigger] next[ii + 1] <= next[ii] + 1 by {
                    if ii < i {
                        assert(next[ii] == starts[ii] && next[ii + 1] == starts[ii + 1]);
                    } else {
                        assert(next[ii] == base);
                    }
                }
            }
            starts = next;
        }
    }
    let ghost from_matches = blocks@.len() as int;
    for t in 0..count
        invariant
            count > 0 ==> user_ids@.len() >= 2,
            user_ids@.no_duplicates(),
            ratio.wf(),
            0 <= from_matches <= match_pairs@.len(),
            blocks@.len() == from_matches + t,
            runs(starts, match_pairs@.len() as int, from_matches, 0, 1),
            forall|j: int| 0 <= j < match_pairs@.len() ==> #[trigger] pair_block_run(blocks@, match_pairs@[j], ratio, starts[j], starts[j + 1]),
            forall|k: int| from_matches <= k < blocks@.len() ==> {
                &&& user_ids@.contains((#[trigger] blocks@[k]).fk_blocking_user_details_id)
                &&& user_ids@.contains(blocks@[k].fk_blocked_user_details_id)
            },
            forall|k: int| 0 <= k < blocks@.len() ==> block_open(#[trigger] blocks@[k]),
    {
        let (blocker, blocked) = distinct_pair(user_ids);
        let ghost before = blocks@;
        blocks.push(DbBlock {
            fk_blocking_user_details_id: blocker,
            fk_blocked_user_details_id: blocked,
            start_date: at,
            end_date: None,
            is_active: true,
        });
        proof {
            assert forall|k: int| 0 <= k < before.len() implies blocks@[k] == before[k] by {}
            assert(blocks@[before.len() as int].fk_blocking_user_details_id == blocker);
            assert forall|j: int| 0 <= j < match_pairs@.len() implies #[trigger] pair_block_run(blocks@, match_pairs@[j], ratio, starts[j], starts[j + 1]) by {
                lemma_runs_bounds(starts, match_pairs@.len() as int, from_matches, 0, 1, j);
                assert(pair_block_run(before, match_pairs@[j], ratio, starts[j], starts[j + 1]));
            }
        }
    }
    let r: Result<Vec<DbBlock>, PipelineError> = Ok(blocks);
    proof {
        assert(r->Ok_0 == blocks);
        assert(blocks_by_source(r->Ok_0@, user_ids@, match_pairs@, config.match_block_ratio, count as int, starts));
    }
    r
}

} // verus!
