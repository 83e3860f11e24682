use vstd::prelude::*;
use crate::clock::{now, CLOCK_LIMIT, SECS_PER_DAY};
use crate::decimal::{decimal, signed_decimal, signed_text, unsigned_text};
use crate::config::Config;
use crate::runs::{lemma_runs_bounds, runs};
use crate::error::PipelineError;
use crate::models::{
    DbBillingAddress, DbImage, DbPaymentData, DbSearchPreference, DbSearchPreferenceInterest,
    DbSearchPreferenceSex, DbSubscription, DbUserInterest,
};
use crate::random::{chance, pick, uniform, uniform_index, uniform_inclusive, uniform_u64};
use crate::ratio::Percent;
use crate::text::{sentence, street_name, zip_code};

verus! {

/// How long a new subscription runs, in days.
pub const SUBSCRIPTION_DAYS: i64 = 365;

/// `count` search preferences with a short random description, created now.
pub fn generate_search_preferences(count: usize) -> (r: Vec<DbSearchPreference>)
    ensures
        r@.len() == count,
        forall|k: int| 0 <= k < r@.len() ==> {
            &&& (#[trigger] r@[k]).created_at == r@[k].updated_at
            &&& r@[k].search_description@.len() >= 1
        },
{
    let mut out: Vec<DbSearchPreference> = Vec::new();
    for _i in 0..count
        invariant
            out@.len() == _i,
            forall|k: int| 0 <= k < out@.len() ==> {
                &&& (#[trigger] out@[k]).created_at == out@[k].updated_at
                &&& out@[k].search_description@.len() >= 1
            },
    {
        let at = now();
        out.push(DbSearchPreference { search_description: sentence(3, 8), created_at: at, updated_at: at });
    }
    out
}

/// `rows[lo..hi]` belong to preference `pid`; a run of two names two
/// different sexes.
pub open spec fn sex_run(rows: Seq<DbSearchPreferenceSex>, pid: i32, lo: int, hi: int) -> bool {
    &&& forall|k: int| lo <= k < hi ==> (#[trigger] rows[k]).fk_search_preference_id == pid
    &&& hi == lo + 2 ==> rows[lo].fk_sex_id != rows[lo + 1].fk_sex_id
}

/// `rows` holds, preference after preference, one or two rows for each
/// preference of `pref_ids`, as `starts` cuts it.
pub open spec fn sexes_by_preference(rows: Seq<DbSearchPreferenceSex>, pref_ids: Seq<i32>, starts: Seq<int>) -> bool {
    &&& runs(starts, pref_ids.len() as int, rows.len() as int, 1, 2)
    &&& forall|i: int| 0 <= i < pref_ids.len() ==> #[trigger] sex_run(rows, pref_ids[i], starts[i], starts[i + 1])
}

/// For each search preference, in order, one or two different sexes (never
/// more than the pool has), each with a priority in 1..5. With preferences
/// to link and no sexes, the stage's dependency is missing.
pub fn generate_search_pref_sex(pref_ids: &Vec<i32>, sex_ids: &Vec<i32>) -> (r: Result<Vec<DbSearchPreferenceSex>, PipelineError>)
    requires
        sex_ids@.no_duplicates(),
    ensures
        r is Err <==> pref_ids@.len() > 0 && sex_ids@.len() == 0,
        r is Err ==> r == Err::<Vec<DbSearchPreferenceSex>, PipelineError>(PipelineError::DependencyUnavailable),
        r is Ok ==> exists|starts: Seq<int>| #[trigger] sexes_by_preference(r->Ok_0@, pref_ids@, starts),
        r matches Ok(rows) ==> forall|k: int| 0 <= k < rows@.len() ==> {
            &&& sex_ids@.contains((#[trigger] rows@[k]).fk_sex_id)
            &&& 1 <= rows@[k].priorty < 5
        },
{
    let mut rows: Vec<DbSearchPreferenceSex> = Vec::new();
    let n = sex_ids.len();
    if pref_ids.len() > 0 && n == 0 {
        return Err(PipelineError::DependencyUnavailable);
    }
    let ghost mut starts: Seq<int> = seq![0];
    for i in 0..pref_ids.len()
        invariant
            n == sex_ids@.len(),
            pref_ids@.len() > 0 ==> n > 0,
            sex_ids@.no_duplicates(),
            runs(starts, i as int, rows@.len() as int, 1, 2),
            forall|j: int| 0 <= j < i ==> #[trigger] sex_run(rows@, pref_ids@[j], starts[j], starts[j + 1]),
            forall|k: int| 0 <= k < rows@.len() ==> {
                &&& sex_ids@.contains((#[trigger] rows@[k]).fk_sex_id)
                &&& 1 <= rows@[k].priorty < 5
            },
    {
        let pid = pref_ids[i];
        let wanted = uniform_inclusive(1, 2);
        let first = uniform_index(n);
        let p1 = uniform(1, 5);
        let ghost before = rows@;
        rows.push(DbSearchPreferenceSex { fk_search_preference_id: pid, fk_sex_id: sex_ids[first], priorty: p1 as i32 });
        if wanted == 2 && n >= 2 {
            // A uniform position among the others.
            let mut second = uniform_index(n - 1);
            if second >= first {
                second = second + 1;
            }
            assert(sex_ids@[first as int] != sex_ids@[second as int]);
            let p2 = uniform(1, 5);
            rows.push(DbSearchPreferenceSex { fk_search_preference_id: pid, fk_sex_id: sex_ids[second], priorty: p2 as i32 });
        }
        proof {
            let base = before.len() as int;
            assert forall|k: int| 0 <= k < base implies rows@[k] == before[k] by {}
            assert forall|j: int| 0 <= j < i implies #[trigger] sex_run(rows@, pref_ids@[j], starts[j], starts[j + 1]) by {
                lemma_runs_bounds(starts, i as int, base, 1, 2, j);
                assert(sex_run(before, pref_ids@[j], starts[j], starts[j + 1]));
            }
            assert(sex_run(rows@, pid, base, rows@.len() as int));
            let next = starts.push(rows@.len() as int);
            assert forall|j: int| 0 <= j < i + 1 implies #[trigger] sex_run(rows@, pref_ids@[j], next[j], next[j + 1]) by {
                if j < i {
                    assert(next[j] == starts[j] && next[j + 1] == starts[j + 1]);
                } else {
                    assert(next[j] == base);
                }
            }
            starts = next;
        }
    }
    let r: Result<Vec<DbSearchPreferenceSex>, PipelineError> = Ok(rows);
    proof {
        assert(r->Ok_0 == rows);
        assert(starts[0] == 0);
        assert(sexes_by_preference(r->Ok_0@, pref_ids@, starts));
    }
    r
}

/// `row` links a preference of `pref_ids` to an interest of `interest_ids`.
pub open spec fn pref_interest_fits(row: DbSearchPreferenceInterest, pref_ids: Seq<i32>, interest_ids: Seq<i32>) -> bool {
    &&& pref_ids.contains(row.fk_search_preference_id)
    &&& interest_ids.contains(row.fk_interest_id)
    &&& 1 <= row.level_of_interest < 10
}

/// `rows[lo..hi]` belong to preference `pid`.
pub open spec fn pref_interest_run(rows: Seq<DbSearchPreferenceInterest>, pid: i32, lo: int, hi: int) -> bool {
    forall|k: int| lo <= k < hi ==> (#[trigger] rows[k]).fk_search_preference_id == pid
}

/// `rows` holds, preference after preference, one to four rows for each
/// preference of `pref_ids`, as `starts` cuts it.
pub open spec fn interests_by_preference(rows: Seq<DbSearchPreferenceInterest>, pref_ids: Seq<i32>, starts: Seq<int>) -> bool {
    &&& runs(starts, pref_ids.len() as int, rows.len() as int, 1, 4)
    &&& forall|i: int| 0 <= i < pref_ids.len() ==> #[trigger] pref_interest_run(rows, pref_ids[i], starts[i], starts[i + 1])
}

/// For each search preference, in order, one to four random interests with
/// a level in 1..10, positive four times in five. With preferences to fill
/// and no interests, the stage's dependency is missing.
pub fn generate_search_pref_interests(pref_ids: &Vec<i32>, interest_ids: &Vec<i32>) -> (r: Result<Vec<DbSearchPreferenceInterest>, PipelineError>)
    ensures
        r is Err <==> pref_ids@.len() > 0 && interest_ids@.len() == 0,
        r is Err ==> r == Err::<Vec<DbSearchPreferenceInterest>, PipelineError>(PipelineError::DependencyUnavailable),
        r is Ok ==> exists|starts: Seq<int>| #[trigger] interests_by_preference(r->Ok_0@, pref_ids@, starts),
        r matches Ok(rows) ==> forall|k: int| 0 <= k < rows@.len() ==> pref_interest_fits(#[trigger] rows@[k], pref_ids@, interest_ids@),
{
    let mut rows: Vec<DbSearchPreferenceInterest> = Vec::new();
    let ghost mut starts: Seq<int> = seq![0];
    if pref_ids.len() > 0 && interest_ids.len() == 0 {
        return Err(PipelineError::DependencyUnavailable);
    }
    for i in 0..pref_ids.len()
        invariant
            pref_ids@.len() > 0 ==> interest_ids@.len() > 0,
            runs(starts, i as int, rows@.len() as int, 1, 4),
            forall|j: int| 0 <= j < i ==> #[trigger] pref_interest_run(rows@, pref_ids@[j], starts[j], starts[j + 1]),
            forall|k: int| 0 <= k < rows@.len() ==> pref_interest_fits(#[trigger] rows@[k], pref_ids@, interest_ids@),
    {
        let pid = pref_ids[i];
        let count = uniform(1, 5);
        let ghost base = rows@.len() as int;
        for t in 0..count as usize
            invariant
                interest_ids@.len() > 0,
                i < pref_ids@.len(),
                pid == pref_ids@[i as int],
                1 <= count < 5,
                0 <= base,
                rows@.len() == base + t,
                runs(starts, i as int, base, 1, 4),
                forall|j: int| 0 <= j < i ==> #[trigger] pref_interest_run(rows@, pref_ids@[j], starts[j], starts[j + 1]),
                pref_interest_run(rows@, pid, base, base + t),
                forall|k: int| 0 <= k < rows@.len() ==> pref_interest_fits(#[trigger] rows@[k], pref_ids@, interest_ids@),
        {
            let level = uniform(1, 10);
            let ghost before = rows@;
            rows.push(DbSearchPreferenceInterest {
                fk_search_preference_id: pid,
                fk_interest_id: pick(interest_ids),
                level_of_interest: level as i32,
                is_positive: chance(Percent { basis_points: 8000 }),
            });
            proof {
                assert forall|k: int| 0 <= k < base + t implies rows@[k] == before[k] by {}
                assert forall|j: int| 0 <= j < i implies #[trigger] pref_interest_run(rows@, pref_ids@[j], starts[j], starts[j + 1]) by {
                    lemma_runs_bounds(starts, i as int, base, 1, 4, j);
                    assert(pref_interest_run(before, pref_ids@[j], starts[j], starts[j + 1]));
                }
            }
        }
        proof {
            let next = starts.push(rows@.len() as int);
            assert forall|j: int| 0 <= j < i + 1 implies #[trigger] pref_interest_run(rows@, pref_ids@[j], next[j], next[j + 1]) by {
                if j < i {
                    assert(next[j] == starts[j] && next[j + 1] == starts[j + 1]);
                } else {
                    assert(next[j] == base);
                }
            }
            starts = next;
        }
    }
    let r: Result<Vec<DbSearchPreferenceInterest>, PipelineError> = Ok(rows);
    proof {
        assert(r->Ok_0 == rows);
        assert(starts[0] == 0);
        assert(interests_by_preference(r->Ok_0@, pref_ids@, starts));
    }
    r
}

/// The storage path of an image of profile `uid` under random key `key`.
pub open spec fn image_path(uid: i32, key: u32) -> Seq<char> {
    "s3://bucket/user_"@ + signed_decimal(uid as int) + "/"@ + signed_decimal(key as int) + ".jpg"@
}

/// `img` is stored under its profile's path, with some key.
pub open spec fn has_image_path(img: DbImage) -> bool {
    exists|key: u32| img.file_path@ == #[trigger] image_path(img.fk_user_details_id, key)
}

fn image_path_text(uid: i32, key: u32) -> (r: String)
    ensures
        r@ == image_path(uid, key),
{
    let mut s = String::from_str("s3://bucket/user_");
    let a = signed_text(uid as i64);
    s.append(a.as_str());
    s.append("/");
    let b = signed_text(key as i64);
    s.append(b.as_str());
    s.append(".jpg");
    s
}

/// `imgs[lo..hi]` are images of profile `uid`, the first one current.
pub open spec fn image_run(imgs: Seq<DbImage>, uid: i32, lo: int, hi: int) -> bool {
    forall|k: int| lo <= k < hi ==> {
        &&& (#[trigger] imgs[k]).fk_user_details_id == uid
        &&& imgs[k].is_current == (k == lo)
    }
}

/// `imgs` holds, profile after profile, a run of one to five images of each
/// profile of `uids`, as `starts` cuts it.
pub open spec fn images_by_profile(imgs: Seq<DbImage>, uids: Seq<i32>, starts: Seq<int>) -> bool {
    &&& runs(starts, uids.len() as int, imgs.len() as int, 1, 5)
    &&& forall|i: int| 0 <= i < uids.len() ==> #[trigger] image_run(imgs, uids[i], starts[i], starts[i + 1])
}

/// One to five images per profile, in profile order; the first of each
/// profile is its current one. Sizes lie in 50,000..5,000,000 bytes, upload
/// dates within the past year, and seven in ten images are verified.
pub fn generate_images(user_detail_ids: &Vec<i32>, _config: &Config) -> (r: Vec<DbImage>)
    ensures
        exists|starts: Seq<int>| #[trigger] images_by_profile(r@, user_detail_ids@, starts),
        forall|k: int| 0 <= k < r@.len() ==> {
            &&& 50_000 <= (#[trigger] r@[k]).file_size_bytes < 5_000_000
            &&& has_image_path(r@[k])
        },
{
    let mut images: Vec<DbImage> = Vec::new();
    let ghost mut starts: Seq<int> = seq![0];
    for i in 0..user_detail_ids.len()
        invariant
            runs(starts, i as int, images@.len() as int, 1, 5),
            forall|j: int| 0 <= j < i ==> #[trigger] image_run(images@, user_detail_ids@[j], starts[j], starts[j + 1]),
            forall|k: int| 0 <= k < images@.len() ==> {
                &&& 50_000 <= (#[trigger] images@[k]).file_size_bytes < 5_000_000
                &&& has_image_path(images@[k])
            },
    {
        let uid = user_detail_ids[i];
        let count = uniform(1, 6);
        let at = now();
        let ghost base = images@.len() as int;
        for t in 0..count as usize
            invariant
                i < user_detail_ids@.len(),
                uid == user_detail_ids@[i as int],
                1 <= count < 6,
                0 <= at.secs <= CLOCK_LIMIT,
                images@.len() == base + t,
                0 <= base,
                runs(starts, i as int, base, 1, 5),
                forall|j: int| 0 <= j < i ==> #[trigger] image_run(images@, user_detail_ids@[j], starts[j], starts[j + 1]),
                image_run(images@, uid, base, base + t),
                forall|k: int| 0 <= k < images@.len() ==> {
                    &&& 50_000 <= (#[trigger] images@[k]).file_size_bytes < 5_000_000
                    &&& has_image_path(images@[k])
                },
        {
            let size = uniform(50_000, 5_000_000);
            let key = (uniform_u64() % 0x1_0000_0000) as u32;
            let days = uniform(0, 365);
            let path = image_path_text(uid, key);
            let ghost before = images@;
            images.push(DbImage {
                file_path: path,
                uploaded_at: at.shifted(-(days * SECS_PER_DAY)),
                is_current: t == 0,
                file_size_bytes: size as i32,
                is_verified: chance(Percent { basis_points: 7000 }),
                fk_user_details_id: uid,
            });
            proof {
                assert(images@[images@.len() - 1].fk_user_details_id == uid);
                assert(images@[images@.len() - 1].file_path@ == image_path(images@[images@.len() - 1].fk_user_details_id, key));
                assert(has_image_path(images@[images@.len() - 1]));
                assert forall|j: int| 0 <= j < i implies #[trigger] image_run(images@, user_detail_ids@[j], starts[j], starts[j + 1]) by {
                    assert(image_run(before, user_detail_ids@[j], starts[j], starts[j + 1]));
                    lemma_runs_bounds(starts, i as int, base, 1, 5, j);
                    assert forall|k: int| starts[j] <= k < starts[j + 1] implies {
                        &&& (#[trigger] images@[k]).fk_user_details_id == user_detail_ids@[j]
                        &&& images@[k].is_current == (k == starts[j])
                    } by {
                        assert(images@[k] == before[k]);
                    }
                }
                assert forall|k: int| base <= k < base + t + 1 implies {
                    &&& (#[trigger] images@[k]).fk_user_details_id == uid
                    &&& images@[k].is_current == (k == base)
                } by {
                    if k < base + t {
                        assert(images@[k] == before[k]);
                    }
                }
            }
        }
        proof {
            let next = starts.push(images@.len() as int);
            assert(next[i + 1] == images@.len());
            assert forall|j: int| 0 <= j < i + 1 implies #[trigger] image_run(images@, user_detail_ids@[j], next[j], next[j + 1]) by {
                assert(next[j] == if j < i + 1 { starts[j] } else { 0 });
                if j < i {
                    assert(next[j + 1] == starts[j + 1]);
                    assert(image_run(images@, user_detail_ids@[j], starts[j], starts[j + 1]));
                } else {
                    assert(starts[j] == base);
                }
            }
            starts = next;
        }
    }
    assert(images_by_profile(images@, user_detail_ids@, starts));
    images
}

/// `row` gives a profile of `user_ids` an interest of `interest_ids`.
pub open spec fn user_interest_fits(row: DbUserInterest, user_ids: Seq<i32>, interest_ids: Seq<i32>) -> bool {
    &&& user_ids.contains(row.fk_user_details_id)
    &&& interest_ids.contains(row.fk_interest_id)
    &&& 1 <= row.level_of_interest <= 10
}

/// `rows[lo..hi]` belong to profile `uid`.
pub open spec fn user_interest_run(rows: Seq<DbUserInterest>, uid: i32, lo: int, hi: int) -> bool {
    forall|k: int| lo <= k < hi ==> (#[trigger] rows[k]).fk_user_details_id == uid
}

/// `rows` holds, profile after profile, two to six rows for each profile of
/// `user_ids`, as `starts` cuts it.
pub open spec fn interests_by_profile(rows: Seq<DbUserInterest>, user_ids: Seq<i32>, starts: Seq<int>) -> bool {
    &&& runs(starts, user_ids.len() as int, rows.len() as int, 2, 6)
    &&& forall|i: int| 0 <= i < user_ids.len() ==> #[trigger] user_interest_run(rows, user_ids[i], starts[i], starts[i + 1])
}

/// For each profile, in order, two to six random interests, each with a
/// level in 1..=10, positive nine times in ten. With profiles to fill and no
/// interests, the stage's dependency is missing.
pub fn generate_user_interests(user_detail_ids: &Vec<i32>, interest_ids: &Vec<i32>) -> (r: Result<Vec<DbUserInterest>, PipelineError>)
    ensures
        r is Err <==> user_detail_ids@.len() > 0 && interest_ids@.len() == 0,
        r is Err ==> r == Err::<Vec<DbUserInterest>, PipelineError>(PipelineError::DependencyUnavailable),
        r is Ok ==> exists|starts: Seq<int>| #[trigger] interests_by_profile(r->Ok_0@, user_detail_ids@, starts),
        r matches Ok(rows) ==> forall|k: int| 0 <= k < rows@.len() ==> user_interest_fits(#[trigger] rows@[k], user_detail_ids@, interest_ids@),
{
    let mut rows: Vec<DbUserInterest> = Vec::new();
    let ghost mut starts: Seq<int> = seq![0];
    if user_detail_ids.len() > 0 && interest_ids.len() == 0 {
        return Err(PipelineError::DependencyUnavailable);
    }
    for i in 0..user_detail_ids.len()
        invariant
            user_detail_ids@.len() > 0 ==> interest_ids@.len() > 0,
            runs(starts, i as int, rows@.len() as int, 2, 6),
            forall|j: int| 0 <= j < i ==> #[trigger] user_interest_run(rows@, user_detail_ids@[j], starts[j], starts[j + 1]),
            forall|k: int| 0 <= k < rows@.len() ==> user_interest_fits(#[trigger] rows@[k], user_detail_ids@, interest_ids@),
    {
        let uid = user_detail_ids[i];
        let count = uniform(2, 7);
        let ghost base = rows@.len() as int;
        for t in 0..count as usize
            invariant
                interest_ids@.len() > 0,
                i < user_detail_ids@.len(),
                uid == user_detail_ids@[i as int],
                2 <= count < 7,
                0 <= base,
                rows@.len() == base + t,
                runs(starts, i as int, base, 2, 6),
                forall|j: int| 0 <= j < i ==> #[trigger] user_interest_run(rows@, user_detail_ids@[j], starts[j], starts[j + 1]),
                user_interest_run(rows@, uid, base, base + t),
                forall|k: int| 0 <= k < rows@.len() ==> user_interest_fits(#[trigger] rows@[k], user_detail_ids@, interest_ids@),
        {
            let iid = pick(interest_ids);
            let level = uniform_inclusive(1, 10);
            let ghost before = rows@;
            rows.push(DbUserInterest {
                level_of_interest: level as i32,
                is_positive: chance(Percent { basis_points: 9000 }),
                fk_user_details_id: uid,
                fk_interest_id: iid,
            });
            proof {
                assert forall|k: int| 0 <= k < base + t implies rows@[k] == before[k] by {}
                assert forall|j: int| 0 <= j < i implies #[trigger] user_interest_run(rows@, user_detail_ids@[j], starts[j], starts[j + 1]) by {
                    lemma_runs_bounds(starts, i as int, base, 2, 6, j);
                    assert(user_interest_run(before, user_detail_ids@[j], starts[j], starts[j + 1]));
                }
            }
        }
        proof {
            let next = starts.push(rows@.len() as int);
            assert forall|j: int| 0 <= j < i + 1 implies #[trigger] user_interest_run(rows@, user_detail_ids@[j], next[j], next[j + 1]) by {
                if j < i {
                    assert(next[j] == starts[j] && next[j + 1] == starts[j + 1]);
                } else {
                    assert(next[j] == base);
                }
            }
            starts = next;
        }
    }
    let r: Result<Vec<DbUserInterest>, PipelineError> = Ok(rows);
    proof {
        assert(r->Ok_0 == rows);
        assert(starts[0] == 0);
        assert(interests_by_profile(r->Ok_0@, user_detail_ids@, starts));
    }
    r
}

/// The head of the subscription chain: `count` billing addresses with a
/// random street and postal code in a random city. Payment data and
/// subscriptions follow once the addresses have ids
/// (`generate_payment_data`, `generate_subscriptions`). With addresses to
/// make and no cities, the stage's dependency is missing.
pub fn generate_subscription_chain(count: usize, city_ids: &Vec<i32>) -> (r: Result<Vec<DbBillingAddress>, PipelineError>)
    ensures
        r is Err <==> count > 0 && city_ids@.len() == 0,
        r is Err ==> r == Err::<Vec<DbBillingAddress>, PipelineError>(PipelineError::DependencyUnavailable),
        r matches Ok(rows) ==> {
            &&& rows@.len() == count
            &&& forall|k: int| 0 <= k < rows@.len() ==> city_ids@.contains((#[trigger] rows@[k]).fk_city_id)
        },
{
    let mut rows: Vec<DbBillingAddress> = Vec::new();
    if count == 0 {
        return Ok(rows);
    }
    if city_ids.len() == 0 {
        return Err(PipelineError::DependencyUnavailable);
    }
    for _i in 0..count
        invariant
            city_ids@.len() > 0,
            rows@.len() == _i,
            forall|k: int| 0 <= k < rows@.len() ==> city_ids@.contains((#[trigger] rows@[k]).fk_city_id),
    {
        rows.push(DbBillingAddress { street: street_name(), postal_code: zip_code(), fk_city_id: pick(city_ids) });
    }
    Ok(rows)
}

/// The payment token text for random value `v`.
pub open spec fn payment_token(v: u64) -> Seq<char> {
    "tok_"@ + decimal(v as nat)
}

/// `t` is the token of some random value.
pub open spec fn is_payment_token(t: Seq<char>) -> bool {
    exists|v: u64| t == #[trigger] payment_token(v)
}

/// One payment record per billing address, in order, with a random token.
pub fn generate_payment_data(bill_ids: &Vec<i32>) -> (r: Vec<DbPaymentData>)
    ensures
        r@.len() == bill_ids@.len(),
        forall|k: int| 0 <= k < r@.len() ==> {
            &&& (#[trigger] r@[k]).fk_billing_address_id == bill_ids@[k]
            &&& is_payment_token(r@[k].token@)
        },
{
    let mut rows: Vec<DbPaymentData> = Vec::new();
    for i in 0..bill_ids.len()
        invariant
            rows@.len() == i,
            forall|k: int| 0 <= k < rows@.len() ==> {
                &&& (#[trigger] rows@[k]).fk_billing_address_id == bill_ids@[k]
                &&& is_payment_token(rows@[k].token@)
            },
    {
        let v = uniform_u64();
        let mut token = String::from_str("tok_");
        let digits = unsigned_text(v);
        token.append(digits.as_str());
        rows.push(DbPaymentData { token, fk_billing_address_id: bill_ids[i] });
        assert(rows@[rows@.len() - 1].token@ == payment_token(v));
        assert(is_payment_token(rows@[rows@.len() - 1].token@));
    }
    rows
}

/// `s` is a fresh subscription paid by `pid` on a plan of `plan_ids`.
pub open spec fn subscription_fits(s: DbSubscription, pid: i32, plan_ids: Seq<i32>) -> bool {
    &&& s.fk_payment_data_id == Some(pid)
    &&& plan_ids.contains(s.fk_subscription_plan_id)
    &&& s.expiration_date.secs == s.created_at.secs + SUBSCRIPTION_DAYS * SECS_PER_DAY
    &&& s.created_at == s.uploaded_at
    &&& s.last_renewal is None
    &&& s.is_active
    &&& s.auto_renewal
}

/// One active, auto-renewing subscription per payment record, in order,
/// on a random plan, running `SUBSCRIPTION_DAYS` from now. With payments to
/// cover and no plans, the stage's dependency is missing.
pub fn generate_subscriptions(pay_ids: &Vec<i32>, plan_ids: &Vec<i32>) -> (r: Result<Vec<DbSubscription>, PipelineError>)
    ensures
        r is Err <==> pay_ids@.len() > 0 && plan_ids@.len() == 0,
        r is Err ==> r == Err::<Vec<DbSubscription>, PipelineError>(PipelineError::DependencyUnavailable),
        r matches Ok(rows) ==> {
            &&& rows@.len() == pay_ids@.len()
            &&& forall|k: int| 0 <= k < rows@.len() ==> subscription_fits(#[trigger] rows@[k], pay_ids@[k], plan_ids@)
        },
{
    let mut rows: Vec<DbSubscription> = Vec::new();
    if pay_ids.len() == 0 {
        return Ok(rows);
    }
    if plan_ids.len() == 0 {
        return Err(PipelineError::DependencyUnavailable);
    }
    for i in 0..pay_ids.len()
        invariant
            plan_ids@.len() > 0,
            rows@.len() == i,
            forall|k: int| 0 <= k < rows@.len() ==> subscription_fits(#[trigger] rows@[k], pay_ids@[k], plan_ids@),
    {
        let at = now();
        rows.push(DbSubscription {
            expiration_date: at.shifted(SUBSCRIPTION_DAYS * SECS_PER_DAY),
            last_renewal: None,
            created_at: at,
            uploaded_at: at,
            is_active: true,
            auto_renewal: true,
            fk_subscription_plan_id: pick(plan_ids),
            fk_payment_data_id: Some(pay_ids[i]),
        });
    }
    Ok(rows)
}

} // verus!
