use vstd::prelude::*;
use crate::clock::{now, Timestamp, CLOCK_LIMIT, SECS_PER_DAY};
use crate::config::Config;
use crate::decimal::{decimal, unsigned_text};
use crate::error::PipelineError;
use crate::models::{DbUser, DbUserDetails};
use crate::random::{chance, pick, uniform};
use crate::ratio::Percent;
use crate::text::{first_name, last_name, username};

verus! {

#[verifier::external_type_specification]
#[verifier::external_body]
pub struct ExBcryptError(bcrypt::BcryptError);

/// The password that every generated account gets.
pub const DEFAULT_PASSWORD: &'static str = "password123";

/// The bcrypt work factor for generated accounts: the cheapest allowed.
pub const HASH_COST: u32 = 4;

/// The domain of generated e-mail addresses.
pub const EMAIL_DOMAIN: &'static str = "@example.com";

/// The share of profiles that get a subscription, in basis points.
pub const SUBSCRIBED_SHARE: u32 = 1000;

/// The share of profiles left without a city, in basis points.
pub const CITYLESS_SHARE: u32 = 1000;

/// Relies on bcrypt::hash: a salted bcrypt hash of `password` with a fresh
/// random salt. A cost outside 4..=31 is refused; a successful result is
/// "$2b$", two cost digits, "$", 22 salt and 31 hash characters.
#[verifier::external_body]
fn bcrypt_hash(password: &str, cost: u32) -> (r: Result<String, bcrypt::BcryptError>)
    ensures
        !(4 <= cost <= 31) ==> r is Err,
        r matches Ok(h) ==> h@.len() == 60,
{
    bcrypt::hash(password, cost)
}

/// Whether `c` is alphabetic or numeric in Unicode's sense.
pub uninterp spec fn alphanumeric(c: char) -> bool;

/// Relies on char::is_alphanumeric: Unicode Alphabetic or Numeric.
#[verifier::external_body]
fn is_alphanumeric(c: char) -> (r: bool)
    ensures
        r == alphanumeric(c),
{
    c.is_alphanumeric()
}

/// The alphanumeric characters of `s`, in order.
pub open spec fn alphanumeric_only(s: Seq<char>) -> Seq<char> {
    s.filter(|c: char| alphanumeric(c))
}

/// `s` without the characters that are not alphanumeric.
pub fn sanitize_name(s: &str) -> (r: String)
    ensures
        r@ == alphanumeric_only(s@),
{
    let n = s.unicode_len();
    let mut out = String::new();
    for i in 0..n
        invariant
            n == s@.len(),
            out@ == alphanumeric_only(s@.subrange(0, i as int)),
    {
        let c = s.get_char(i);
        proof {
            assert(s@.subrange(0, i + 1) == s@.subrange(0, i as int).push(c));
            s@.subrange(0, i as int).lemma_filter_push(c, |c: char| alphanumeric(c));
        }
        if is_alphanumeric(c) {
            out.append(s.substring_char(i, i + 1));
            assert(s@.subrange(i as int, i + 1) == seq![c]);
        }
    }
    assert(s@.subrange(0, n as int) == s@);
    out
}

/// A user named after `base_name` with `suffix` appended, reached at
/// that name under `EMAIL_DOMAIN`, not yet stored.
pub fn build_user(base_name: &str, suffix: u32, password_hash: String, created_at: Timestamp) -> (r: DbUser)
    ensures
        r.id is None,
        r.username@ == alphanumeric_only(base_name@) + decimal(suffix as nat),
        r.email@ == r.username@ + EMAIL_DOMAIN@,
        r.password_hash@ == password_hash@,
        r.created_at == created_at,
{
    let mut name = sanitize_name(base_name);
    let digits = unsigned_text(suffix as u64);
    name.append(digits.as_str());
    let mut email = name.clone();
    email.append(EMAIL_DOMAIN);
    DbUser { id: None, username: name, email, password_hash, created_at }
}

/// One account: a random user name made unique with a six-digit suffix,
/// created up to 999 days ago, with a bcrypt hash of `DEFAULT_PASSWORD`.
/// Hashing fails only when the system's randomness does.
pub fn generate_user() -> (r: Result<DbUser, PipelineError>)
    ensures
        r matches Ok(u) ==> {
            &&& u.id is None
            &&& u.email@ == u.username@ + EMAIL_DOMAIN@
            &&& u.username@.len() >= 6
            &&& u.password_hash@.len() == 60
            &&& -999 * SECS_PER_DAY <= u.created_at.secs <= CLOCK_LIMIT
        },
        r is Err ==> r == Err::<DbUser, PipelineError>(PipelineError::InvariantViolation),
{
    let at = now();
    let days = uniform(0, 1000);
    let created_at = at.shifted(-(days * SECS_PER_DAY));
    let hash = match bcrypt_hash(DEFAULT_PASSWORD, HASH_COST) {
        Ok(h) => h,
        Err(_) => return Err(PipelineError::InvariantViolation),
    };
    let base = username();
    let suffix = uniform(100_000, 999_999) as u32;
    let user = build_user(base.as_str(), suffix, hash, created_at);
    proof { lemma_decimal_length(suffix as nat); }
    Ok(user)
}

proof fn lemma_decimal_length(n: nat)
    requires
        n >= 100_000,
    ensures
        decimal(n).len() >= 6,
    decreases n,
{
    if n >= 1_000_000 {
        lemma_decimal_length(n / 10);
    } else {
        assert(decimal(n).len() == 6) by {
            reveal_with_fuel(decimal, 6);
        }
    }
}

/// How many user names a batch draws for one account before it gives up
/// on finding one that the batch does not hold yet.
pub const NAME_ATTEMPTS: usize = 16;

/// Whether some account of `users` is named `name`.
fn name_taken(users: &Vec<DbUser>, name: &String) -> (r: bool)
    ensures
        r == exists|k: int| 0 <= k < users@.len() && (#[trigger] users@[k]).username@ == name@,
{
    for k in 0..users.len()
        invariant
            forall|j: int| 0 <= j < k ==> (#[trigger] users@[j]).username@ != name@,
    {
        if users[k].username == *name {
            return true;
        }
    }
    false
}

/// Names that differ give addresses that differ.
proof fn lemma_distinct_emails(a: Seq<char>, b: Seq<char>)
    requires
        a != b,
    ensures
        a + EMAIL_DOMAIN@ != b + EMAIL_DOMAIN@,
{
    let x = a + EMAIL_DOMAIN@;
    let y = b + EMAIL_DOMAIN@;
    if x == y {
        assert(x.len() == a.len() + EMAIL_DOMAIN@.len());
        assert(y.len() == b.len() + EMAIL_DOMAIN@.len());
        assert(a.len() == b.len());
        assert((a + EMAIL_DOMAIN@).subrange(0, a.len() as int) == a);
        assert((b + EMAIL_DOMAIN@).subrange(0, b.len() as int) == b);
    }
}

/// An account as `generate_user` makes it.
pub open spec fn account_fits(u: DbUser) -> bool {
    &&& u.id is None
    &&& u.email@ == u.username@ + EMAIL_DOMAIN@
    &&& u.password_hash@.len() == 60
}

/// No two accounts share a user name or an e-mail address.
pub open spec fn accounts_unique(us: Seq<DbUser>) -> bool {
    forall|j: int, k: int| 0 <= j < us.len() && 0 <= k < us.len() && j != k ==> {
        &&& (#[trigger] us[j]).username@ != (#[trigger] us[k]).username@
        &&& us[j].email@ != us[k].email@
    }
}

/// `size` accounts, as `generate_user` makes them, with user names (and so
/// e-mail addresses) that differ within the batch: a name already taken is
/// drawn again, up to `NAME_ATTEMPTS` times. An empty batch always
/// succeeds; otherwise the batch fails only when hashing fails or no free
/// name turns up.
pub fn generate_user_batch(size: usize) -> (r: Result<Vec<DbUser>, PipelineError>)
    ensures
        size == 0 ==> r is Ok && r->Ok_0@.len() == 0,
        r matches Ok(us) ==> {
            &&& us@.len() == size
            &&& forall|k: int| 0 <= k < us@.len() ==> account_fits(#[trigger] us@[k])
            &&& accounts_unique(us@)
        },
        r is Err ==> r == Err::<Vec<DbUser>, PipelineError>(PipelineError::InvariantViolation),
{
    let mut users: Vec<DbUser> = Vec::new();
    for _i in 0..size
        invariant
            users@.len() == _i,
            forall|k: int| 0 <= k < users@.len() ==> account_fits(#[trigger] users@[k]),
            accounts_unique(users@),
    {
        let mut user = generate_user()?;
        let mut attempt: usize = 1;
        loop
            invariant
                size > 0,
                1 <= attempt <= NAME_ATTEMPTS,
                account_fits(user),
            ensures
                account_fits(user),
                forall|k: int| 0 <= k < users@.len() ==> (#[trigger] users@[k]).username@ != user.username@,
            decreases NAME_ATTEMPTS - attempt,
        {
            if !name_taken(&users, &user.username) {
                break;
            }
            if attempt >= NAME_ATTEMPTS {
                return Err(PipelineError::InvariantViolation);
            }
            let base = username();
            let suffix = uniform(100_000, 999_999) as u32;
            user = build_user(base.as_str(), suffix, user.password_hash.clone(), user.created_at);
            attempt = attempt + 1;
        }
        let ghost before = users@;
        users.push(user);
        proof {
            assert forall|j: int, k: int| 0 <= j < users@.len() && 0 <= k < users@.len() && j != k implies {
                &&& (#[trigger] users@[j]).username@ != (#[trigger] users@[k]).username@
                &&& users@[j].email@ != users@[k].email@
            } by {
                if j < before.len() && k < before.len() {
                    assert(users@[j] == before[j] && users@[k] == before[k]);
                } else if j < before.len() {
                    assert(users@[j] == before[j]);
                    assert(before[j].username@ != user.username@);
                    lemma_distinct_emails(users@[j].username@, users@[k].username@);
                } else {
                    assert(users@[k] == before[k]);
                    assert(before[k].username@ != user.username@);
                    lemma_distinct_emails(users@[j].username@, users@[k].username@);
                }
            }
        }
    }
    Ok(users)
}

/// The sum of `sizes`.
pub open spec fn total(sizes: Seq<usize>) -> int
    decreases sizes.len(),
{
    if sizes.len() == 0 {
        0
    } else {
        total(sizes.drop_last()) + sizes.last()
    }
}

/// Splits a population of `count` users into batches of `batch_size`, the
/// last one smaller when `count` is not a multiple: the batches add up to
/// `count` exactly, and none is empty.
pub fn user_batches(count: usize, batch_size: usize) -> (r: Vec<usize>)
    requires
        batch_size > 0,
    ensures
        total(r@) == count,
        forall|k: int| 0 <= k < r@.len() ==> 0 < #[trigger] r@[k] <= batch_size,
        forall|k: int| 0 <= k < r@.len() - 1 ==> #[trigger] r@[k] == batch_size,
{
    let mut batches: Vec<usize> = Vec::new();
    let mut left = count;
    while left > 0
        invariant
            batch_size > 0,
            total(batches@) + left == count,
            forall|k: int| 0 <= k < batches@.len() ==> 0 < #[trigger] batches@[k] <= batch_size,
            forall|k: int| 0 <= k < batches@.len() ==> #[trigger] batches@[k] == batch_size,
        decreases left,
    {
        let size = if left < batch_size { left } else { batch_size };
        let ghost before = batches@;
        batches.push(size);
        assert(batches@.drop_last() == before);
        left = left - size;
        if left > 0 {
            assert(size == batch_size);
        } else {
            // The last batch may be short; it ends the loop.
            assert(total(batches@) == count);
            return batches;
        }
    }
    batches
}

/// `d` is a profile of user `uid` whose foreign keys come from the pools:
/// the sex always; the city, when there is one; a subscription only when
/// that pool is not empty; a search preference exactly when that pool is
/// not empty.
pub open spec fn details_fit(
    d: DbUserDetails,
    uid: i32,
    sub_ids: Seq<i32>,
    pref_ids: Seq<i32>,
    sex_ids: Seq<i32>,
    city_ids: Seq<i32>,
) -> bool {
    &&& d.fk_user_id == uid
    &&& sex_ids.contains(d.fk_sex_id)
    &&& (d.fk_city_id matches Some(c) ==> city_ids.contains(c))
    &&& (d.fk_subscription_id matches Some(s) ==> sub_ids.contains(s))
    &&& (pref_ids.len() == 0 <==> d.fk_search_preference_id is None)
    &&& (d.fk_search_preference_id matches Some(p) ==> pref_ids.contains(p))
}

/// One profile per user id, in order, with a random name. A tenth of the
/// profiles (`SUBSCRIBED_SHARE`) take a subscription and a tenth
/// (`CITYLESS_SHARE`) no city. Profiles need a sex: with users to describe
/// and no sexes, the stage's dependency is missing.
pub fn generate_details_batch(
    user_ids: Vec<i32>,
    _config: &Config,
    available_sub_ids: &Vec<i32>,
    available_pref_ids: &Vec<i32>,
    sex_ids: &Vec<i32>,
    city_ids: &Vec<i32>,
) -> (r: Result<Vec<DbUserDetails>, PipelineError>)
    ensures
        r is Err <==> user_ids@.len() > 0 && sex_ids@.len() == 0,
        r is Err ==> r == Err::<Vec<DbUserDetails>, PipelineError>(PipelineError::DependencyUnavailable),
        r matches Ok(ds) ==> {
            &&& ds@.len() == user_ids@.len()
            &&& forall|k: int| 0 <= k < ds@.len() ==> details_fit(#[trigger] ds@[k], user_ids@[k],
                available_sub_ids@, available_pref_ids@, sex_ids@, city_ids@)
        },
{
    let mut results: Vec<DbUserDetails> = Vec::new();
    if user_ids.len() == 0 {
        return Ok(results);
    }
    if sex_ids.len() == 0 {
        return Err(PipelineError::DependencyUnavailable);
    }
    let at = now();
    for i in 0..user_ids.len()
        invariant
            sex_ids@.len() > 0,
            results@.len() == i,
            forall|k: int| 0 <= k < results@.len() ==> details_fit(#[trigger] results@[k], user_ids@[k],
                available_sub_ids@, available_pref_ids@, sex_ids@, city_ids@),
    {
        let sub_id = if available_sub_ids.len() > 0 && chance(Percent { basis_points: SUBSCRIBED_SHARE }) {
            Some(pick(available_sub_ids))
        } else {
            None
        };
        let pref_id = if available_pref_ids.len() > 0 {
            Some(pick(available_pref_ids))
        } else {
            None
        };
        let sex_id = pick(sex_ids);
        let city_id = if city_ids.len() == 0 || chance(Percent { basis_points: CITYLESS_SHARE }) {
            None
        } else {
            Some(pick(city_ids))
        };
        results.push(DbUserDetails {
            name: first_name(),
            surname: last_name(),
            fk_sex_id: sex_id,
            fk_city_id: city_id,
            fk_subscription_id: sub_id,
            fk_search_preference_id: pref_id,
            fk_user_id: user_ids[i],
            created_at: at,
        });
    }
    Ok(results)
}

} // verus!
