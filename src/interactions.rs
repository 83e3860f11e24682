use vstd::prelude::*;
use std::collections::HashSet;
use vstd::arithmetic::div_mod::lemma_fundamental_div_mod_converse;
use crate::clock::{now, Timestamp};
use crate::config::Config;
use crate::models::{DbMatch, DbSwipe};
use crate::random::{chance, uniform_inclusive, uniform_index};
use crate::ratio::{Percent, WHOLE};
use crate::runs::{lemma_runs_bounds, runs};

verus! {

broadcast use vstd::std_specs::hash::group_hash_axioms;

/// The swipes and the matches reduced from them.
pub struct InteractionData {
    pub swipes: Vec<DbSwipe>,
    pub matches: Vec<DbMatch>,
}

/// Some swipe among the first `n` of `swipes` is a right swipe of `a` on `b`.
pub open spec fn likes_within(swipes: Seq<DbSwipe>, n: int, a: i32, b: i32) -> bool {
    exists|j: int|
        0 <= j < n && #[trigger] is_like(swipes[j], a, b)
}

pub open spec fn is_like(s: DbSwipe, a: i32, b: i32) -> bool {
    s.result && s.fk_swiping_user_details_id == a && s.fk_swiped_user_details_id == b
}

/// `swipes` holds a right swipe of `a` on `b`.
pub open spec fn likes(swipes: Seq<DbSwipe>, a: i32, b: i32) -> bool {
    likes_within(swipes, swipes.len() as int, a, b)
}

/// `(x, y)` is a canonical mutual like: `x < y` and each liked the other.
pub open spec fn mutual(swipes: Seq<DbSwipe>, x: i32, y: i32) -> bool {
    x < y && likes(swipes, x, y) && likes(swipes, y, x)
}

/// The pairs that a swipe set makes into matches.
pub open spec fn match_pair_set(swipes: Seq<DbSwipe>) -> Set<(i32, i32)> {
    Set::new(|p: (i32, i32)| mutual(swipes, p.0, p.1))
}

/// The ordered pair of a match.
pub open spec fn pair_of(m: DbMatch) -> (i32, i32) {
    (m.fk_person1_id, m.fk_person2_id)
}

/// The pairs that a sequence of matches holds.
pub open spec fn match_pairs(ms: Seq<DbMatch>) -> Set<(i32, i32)> {
    Set::new(|p: (i32, i32)| exists|k: int| 0 <= k < ms.len() && #[trigger] pair_of(ms[k]) == p)
}

/// No two matches share an unordered pair.
pub open spec fn pairs_unique(ms: Seq<DbMatch>) -> bool {
    forall|k1: int, k2: int|
        0 <= k1 < ms.len() && 0 <= k2 < ms.len() && k1 != k2 ==> {
            let a = #[trigger] pair_of(ms[k1]);
            let b = #[trigger] pair_of(ms[k2]);
            a != b && a != (b.1, b.0)
        }
}

/// `ms` is exactly the match relation of `swipes`, formed at `formed`.
pub open spec fn derived_from(ms: Seq<DbMatch>, swipes: Seq<DbSwipe>, formed: Timestamp) -> bool {
    &&& match_pairs(ms) == match_pair_set(swipes)
    &&& pairs_unique(ms)
    &&& forall|k: int| 0 <= k < ms.len() ==> {
        &&& (#[trigger] ms[k]).date_formed == formed
        &&& ms[k].status@ == "active"@
    }
}

/// The key under which the like of `a` on `b` is recorded.
pub open spec fn pair_key(a: i32, b: i32) -> u64 {
    ((a as int + 0x8000_0000) * 0x1_0000_0000 + (b as int + 0x8000_0000)) as u64
}

proof fn lemma_pair_key_value(a: i32, b: i32)
    ensures
        pair_key(a, b) as int == (a as int + 0x8000_0000) * 0x1_0000_0000 + (b as int + 0x8000_0000),
{
    let x = a as int + 0x8000_0000;
    let y = b as int + 0x8000_0000;
    assert(0 <= x * 0x1_0000_0000 + y <= u64::MAX) by (nonlinear_arith)
        requires 0 <= x < 0x1_0000_0000, 0 <= y < 0x1_0000_0000;
}

proof fn lemma_pair_key_injective(a1: i32, b1: i32, a2: i32, b2: i32)
    requires
        pair_key(a1, b1) == pair_key(a2, b2),
    ensures
        a1 == a2 && b1 == b2,
{
    lemma_pair_key_value(a1, b1);
    lemma_pair_key_value(a2, b2);
    let v = pair_key(a1, b1) as int;
    lemma_fundamental_div_mod_converse(v, 0x1_0000_0000, a1 as int + 0x8000_0000, b1 as int + 0x8000_0000);
    lemma_fundamental_div_mod_converse(v, 0x1_0000_0000, a2 as int + 0x8000_0000, b2 as int + 0x8000_0000);
}

fn key_of(a: i32, b: i32) -> (k: u64)
    ensures
        k == pair_key(a, b),
{
    proof { lemma_pair_key_value(a, b); }
    let hi: u64 = (a as i64 + 0x8000_0000) as u64;
    let lo: u64 = (b as i64 + 0x8000_0000) as u64;
    assert(hi * 0x1_0000_0000 + lo <= u64::MAX) by (nonlinear_arith)
        requires hi < 0x1_0000_0000, lo < 0x1_0000_0000;
    hi * 0x1_0000_0000 + lo
}

/// Reduces a swipe set to its matches: one match, formed at `formed` with
/// status "active", for each unordered pair of profiles that swiped right on
/// each other, stored in canonical order.
pub fn derive_matches(swipes: &Vec<DbSwipe>, formed: Timestamp) -> (r: Vec<DbMatch>)
    ensures
        derived_from(r@, swipes@, formed),
{
    let n = swipes.len();
    // Every right swipe, keyed by (actor, target).
    let mut liked: HashSet<u64> = HashSet::new();
    for i in 0..n
        invariant
            n == swipes@.len(),
            forall|a: i32, b: i32|
                #[trigger] liked@.contains(pair_key(a, b)) <==> likes_within(swipes@, i as int, a, b),
    {
        let s = swipes[i];
        if s.result {
            let k = key_of(s.fk_swiping_user_details_id, s.fk_swiped_user_details_id);
            liked.insert(k);
        }
        proof {
            assert forall|a: i32, b: i32|
                #[trigger] liked@.contains(pair_key(a, b)) <==> likes_within(swipes@, i + 1, a, b) by {
                if likes_within(swipes@, i + 1, a, b) && !likes_within(swipes@, i as int, a, b) {
                    assert(is_like(swipes@[i as int], a, b));
                }
                if liked@.contains(pair_key(a, b)) && !likes_within(swipes@, i as int, a, b) {
                    lemma_pair_key_injective(a, b, s.fk_swiping_user_details_id, s.fk_swiped_user_details_id);
                    assert(is_like(swipes@[i as int], a, b));
                }
            }
        }
    }
    let ghost all_liked = liked@;
    // Pairs already emitted, keyed by (person1, person2).
    let mut emitted: HashSet<u64> = HashSet::new();
    let mut out: Vec<DbMatch> = Vec::new();
    for i in 0..n
        invariant
            n == swipes@.len(),
            liked@ == all_liked,
            forall|a: i32, b: i32|
                #[trigger] liked@.contains(pair_key(a, b)) <==> likes(swipes@, a, b),
            forall|a: i32, b: i32|
                #[trigger] emitted@.contains(pair_key(a, b)) <==> match_pairs(out@).contains((a, b)),
            forall|a: i32, b: i32|
                mutual(swipes@, a, b) && likes_within(swipes@, i as int, a, b)
                    ==> #[trigger] match_pairs(out@).contains((a, b)),
            forall|k: int| 0 <= k < out@.len() ==> mutual(swipes@, (#[trigger] out@[k]).fk_person1_id, out@[k].fk_person2_id),
            pairs_unique(out@),
            forall|k: int| 0 <= k < out@.len() ==> {
                &&& (#[trigger] out@[k]).date_formed == formed
                &&& out@[k].status@ == "active"@
            },
    {
        let s = swipes[i];
        let a = s.fk_swiping_user_details_id;
        let b = s.fk_swiped_user_details_id;
        let ghost before = out@;
        if s.result && a < b {
            let back = key_of(b, a);
            let here = key_of(a, b);
            if liked.contains(&back) && !emitted.contains(&here) {
                emitted.insert(here);
                out.push(DbMatch {
                    fk_person1_id: a,
                    fk_person2_id: b,
                    date_formed: formed,
                    status: String::from_str("active"),
                });
                proof {
                    assert(is_like(swipes@[i as int], a, b));
                    assert(pair_of(out@[before.len() as int]) == (a, b));
                    assert forall|x: i32, y: i32|
                        #[trigger] match_pairs(out@).contains((x, y)) <==> match_pairs(before).contains((x, y)) || (x == a && y == b) by {
                        if match_pairs(out@).contains((x, y)) && !(x == a && y == b) {
                            let k = choose|k: int| 0 <= k < out@.len() && #[trigger] pair_of(out@[k]) == (x, y);
                            assert(k < before.len());
                            assert(out@[k] == before[k]);
                        }
                        if match_pairs(before).contains((x, y)) {
                            let k = choose|k: int| 0 <= k < before.len() && #[trigger] pair_of(before[k]) == (x, y);
                            assert(out@[k] == before[k]);
                        }
                    }
                    assert forall|x: i32, y: i32|
                        #[trigger] emitted@.contains(pair_key(x, y)) <==> match_pairs(out@).contains((x, y)) by {
                        if emitted@.contains(pair_key(x, y)) && pair_key(x, y) == here {
                            lemma_pair_key_injective(x, y, a, b);
                        }
                    }
                    assert forall|k1: int, k2: int|
                        0 <= k1 < out@.len() && 0 <= k2 < out@.len() && k1 != k2 implies {
                            let p = #[trigger] pair_of(out@[k1]);
                            let q = #[trigger] pair_of(out@[k2]);
                            p != q && p != (q.1, q.0)
                        } by {
                        if k1 < before.len() && k2 < before.len() {
                            assert(out@[k1] == before[k1]);
                            assert(out@[k2] == before[k2]);
                        } else if k1 < before.len() {
                            assert(out@[k1] == before[k1]);
                            assert(match_pairs(before).contains(pair_of(before[k1])));
                            assert(mutual(swipes@, before[k1].fk_person1_id, before[k1].fk_person2_id));
                        } else if k2 < before.len() {
                            assert(out@[k2] == before[k2]);
                            assert(match_pairs(before).contains(pair_of(before[k2])));
                            assert(mutual(swipes@, before[k2].fk_person1_id, before[k2].fk_person2_id));
                        }
                    }
                    assert forall|k: int| 0 <= k < out@.len() implies
                        mutual(swipes@, (#[trigger] out@[k]).fk_person1_id, out@[k].fk_person2_id) by {
                        if k < before.len() {
                            assert(out@[k] == before[k]);
                        }
                    }
                }
            }
        }
        proof {
            assert forall|x: i32, y: i32|
                mutual(swipes@, x, y) && likes_within(swipes@, i + 1, x, y)
                    implies #[trigger] match_pairs(out@).contains((x, y)) by {
                if !likes_within(swipes@, i as int, x, y) {
                    let j = choose|j: int| 0 <= j < i + 1 && #[trigger] is_like(swipes@[j], x, y);
                    assert(j == i);
                    assert(liked@.contains(pair_key(y, x)));
                    if !match_pairs(before).contains((x, y)) {
                        assert(!emitted@.contains(pair_key(x, y)) || out@.len() > before.len());
                    }
                }
            }
        }
    }
    proof {
        assert(match_pairs(out@) =~= match_pair_set(swipes@)) by {
            assert forall|p: (i32, i32)| match_pairs(out@).contains(p) implies match_pair_set(swipes@).contains(p) by {
                let k = choose|k: int| 0 <= k < out@.len() && #[trigger] pair_of(out@[k]) == p;
                assert(mutual(swipes@, out@[k].fk_person1_id, out@[k].fk_person2_id));
            }
        }
    }
    out
}

/// A swipe that the simulator may emit for `user_ids` at `at`: between two
/// different members of the pool, and always left at 0%, always right at 100%.
pub open spec fn swipe_allowed(s: DbSwipe, user_ids: Seq<i32>, right_swipe_ratio: Percent, at: Timestamp) -> bool {
    &&& s.fk_swiping_user_details_id != s.fk_swiped_user_details_id
    &&& user_ids.contains(s.fk_swiping_user_details_id)
    &&& user_ids.contains(s.fk_swiped_user_details_id)
    &&& s.swipe_time == at
    &&& right_swipe_ratio.basis_points == 0 ==> !s.result
    &&& right_swipe_ratio.basis_points == WHOLE ==> s.result
}

/// `swipes[lo..hi]` are swipes by `actor`.
pub open spec fn actor_run(swipes: Seq<DbSwipe>, actor: i32, lo: int, hi: int) -> bool {
    forall|k: int| lo <= k < hi ==> (#[trigger] swipes[k]).fk_swiping_user_details_id == actor
}

/// `swipes` holds, profile after profile, a run of at most `max_swipes`
/// swipes by each profile of `user_ids`, as `starts` cuts it.
pub open spec fn swipes_by_actor(swipes: Seq<DbSwipe>, user_ids: Seq<i32>, max_swipes: usize, starts: Seq<int>) -> bool {
    &&& runs(starts, user_ids.len() as int, swipes.len() as int, 0, max_swipes as int)
    &&& forall|i: int| 0 <= i < user_ids.len() ==> #[trigger] actor_run(swipes, user_ids[i], starts[i], starts[i + 1])
}

/// The largest number of swipes that one profile draws.
pub const SWIPE_DRAW_LIMIT: i64 = 0x7fff_ffff_ffff_fffe;

/// Each profile, in pool order, draws a number of swipes uniformly from
/// `0..=max_swipes` (a cap beyond `SWIPE_DRAW_LIMIT` draws from
/// `0..=SWIPE_DRAW_LIMIT`); each picks a uniformly random other profile and
/// swipes right with chance `right_swipe_ratio`. A pool with fewer than two
/// profiles gives no swipes.
pub fn generate_swipes(user_ids: &Vec<i32>, max_swipes: usize, right_swipe_ratio: Percent, at: Timestamp) -> (r: Vec<DbSwipe>)
    requires
        right_swipe_ratio.wf(),
    ensures
        forall|k: int| 0 <= k < r@.len() ==> swipe_allowed(#[trigger] r@[k], user_ids@, right_swipe_ratio, at),
        exists|starts: Seq<int>| #[trigger] swipes_by_actor(r@, user_ids@, max_swipes, starts),
        r@.len() <= user_ids@.len() * max_swipes,
        user_ids@.len() < 2 ==> r@.len() == 0,
{
    let n = user_ids.len();
    let mut out: Vec<DbSwipe> = Vec::new();
    if n < 2 {
        proof {
            let none = Seq::new((n + 1) as nat, |i: int| 0int);
            assert(swipes_by_actor(out@, user_ids@, max_swipes, none));
        }
        return out;
    }
    let cap: i64 = if max_swipes as u64 <= SWIPE_DRAW_LIMIT as u64 {
        max_swipes as i64
    } else {
        SWIPE_DRAW_LIMIT
    };
    let ghost mut starts: Seq<int> = seq![0];
    for i in 0..n
        invariant
            n == user_ids@.len(),
            n >= 2,
            right_swipe_ratio.wf(),
            0 <= cap <= max_swipes,
            cap <= SWIPE_DRAW_LIMIT,
            out@.len() <= i * max_swipes,
            runs(starts, i as int, out@.len() as int, 0, max_swipes as int),
            forall|j: int| 0 <= j < i ==> #[trigger] actor_run(out@, user_ids@[j], starts[j], starts[j + 1]),
            forall|k: int| 0 <= k < out@.len() ==> swipe_allowed(#[trigger] out@[k], user_ids@, right_swipe_ratio, at),
    {
        let actor = user_ids[i];
        let count = uniform_inclusive(0, cap) as usize;
        let ghost base = out@.len() as int;
        for _t in 0..count
            invariant
                count <= max_swipes,
                0 <= base,
                base <= out@.len() <= base + _t,
                base <= i * max_swipes,
                n == user_ids@.len(),
                n >= 2,
                i < n,
                actor == user_ids@[i as int],
                right_swipe_ratio.wf(),
                runs(starts, i as int, base, 0, max_swipes as int),
                forall|j: int| 0 <= j < i ==> #[trigger] actor_run(out@, user_ids@[j], starts[j], starts[j + 1]),
                actor_run(out@, actor, base, out@.len() as int),
                forall|k: int| 0 <= k < out@.len() ==> swipe_allowed(#[trigger] out@[k], user_ids@, right_swipe_ratio, at),
        {
            // A uniform position among the other n - 1.
            let mut j = uniform_index(n - 1);
            if j >= i {
                j = j + 1;
            }
            let target = user_ids[j];
            // Only a pool that repeats an id can land on the actor again.
            if target != actor {
                let result = chance(right_swipe_ratio);
                let ghost before = out@;
                out.push(DbSwipe {
                    result,
                    fk_swiping_user_details_id: actor,
                    fk_swiped_user_details_id: target,
                    swipe_time: at,
                });
                proof {
                    assert(user_ids@[j as int] == target);
                    assert forall|k: int| 0 <= k < before.len() implies out@[k] == before[k] by {}
                    assert forall|k: int| 0 <= k < out@.len() implies
                        swipe_allowed(#[trigger] out@[k], user_ids@, right_swipe_ratio, at) by {
                        if k == out@.len() - 1 {
                            assert(user_ids@.contains(actor));
                            assert(user_ids@.contains(target));
                        }
                    }
                    assert forall|jj: int| 0 <= jj < i implies #[trigger] actor_run(out@, user_ids@[jj], starts[jj], starts[jj + 1]) by {
                        lemma_runs_bounds(starts, i as int, base, 0, max_swipes as int, jj);
                        assert(actor_run(before, user_ids@[jj], starts[jj], starts[jj + 1]));
                    }
                }
            }
        }
        assert(out@.len() <= (i + 1) * max_swipes) by (nonlinear_arith)
            requires out@.len() <= i * max_swipes + count, count <= max_swipes;
        proof {
            let next = starts.push(out@.len() as int);
            assert forall|jj: int| 0 <= jj < i + 1 implies #[trigger] actor_run(out@, user_ids@[jj], next[jj], next[jj + 1]) by {
                if jj < i {
                    assert(next[jj] == starts[jj] && next[jj + 1] == starts[jj + 1]);
                } else {
                    assert(next[jj] == base);
                }
            }
            assert(runs(next, i + 1, out@.len() as int, 0, max_swipes as int)) by {
                assert forall|ii: int| 0 <= ii < i + 1 implies next[ii] + 0 <= #[trigger] next[ii + 1] <= next[ii] + max_swipes as int by {
                    if ii < i {
                        assert(next[ii] == starts[ii] && next[ii + 1] == starts[ii + 1]);
                    } else {
                        assert(next[ii] == base);
                    }
                }
            }
            starts = next;
        }
    }
    assert(swipes_by_actor(out@, user_ids@, max_swipes, starts));
    out
}

impl InteractionData {
    /// The matches are exactly the match relation of the swipes, one per
    /// unordered pair.
    pub open spec fn consistent(&self) -> bool {
        &&& match_pairs(self.matches@) == match_pair_set(self.swipes@)
        &&& pairs_unique(self.matches@)
    }
}

/// Swipes for every profile of `user_ids` at `at`, and the matches they make.
pub fn simulate_interactions(user_ids: &Vec<i32>, max_swipes: usize, right_swipe_ratio: Percent, at: Timestamp) -> (r: InteractionData)
    requires
        right_swipe_ratio.wf(),
    ensures
        forall|k: int| 0 <= k < r.swipes@.len() ==> swipe_allowed(#[trigger] r.swipes@[k], user_ids@, right_swipe_ratio, at),
        exists|starts: Seq<int>| #[trigger] swipes_by_actor(r.swipes@, user_ids@, max_swipes, starts),
        r.swipes@.len() <= user_ids@.len() * max_swipes,
        derived_from(r.matches@, r.swipes@, at),
        r.consistent(),
{
    let swipes = generate_swipes(user_ids, max_swipes, right_swipe_ratio, at);
    let matches = derive_matches(&swipes, at);
    let ghost sw = swipes@;
    let ghost starts = choose|starts: Seq<int>| swipes_by_actor(sw, user_ids@, max_swipes, starts);
    let r = InteractionData { swipes, matches };
    assert(r.swipes@ == sw);
    assert(swipes_by_actor(r.swipes@, user_ids@, max_swipes, starts));
    r
}

/// The interaction stage: swipes drawn for every profile of `user_ids` with
/// the configured cap and right-swipe ratio, stamped now, and their matches.
pub fn generate_interactions(user_ids: &Vec<i32>, config: &Config) -> (r: InteractionData)
    requires
        config.wf(),
    ensures
        forall|k: int| 0 <= k < r.swipes@.len() ==> {
            let s = #[trigger] r.swipes@[k];
            &&& s.fk_swiping_user_details_id != s.fk_swiped_user_details_id
            &&& user_ids@.contains(s.fk_swiping_user_details_id)
            &&& user_ids@.contains(s.fk_swiped_user_details_id)
            &&& config.right_swipe_ratio.basis_points == 0 ==> !s.result
            &&& config.right_swipe_ratio.basis_points == WHOLE ==> s.result
        },
        exists|starts: Seq<int>| #[trigger] swipes_by_actor(r.swipes@, user_ids@, config.max_user_swipes, starts),
        r.swipes@.len() <= user_ids@.len() * config.max_user_swipes,
        r.consistent(),
{
    let at = now();
    simulate_interactions(user_ids, config.max_user_swipes, config.right_swipe_ratio, at)
}

/// No swipe is a self-swipe: in a swipe set that the simulator may emit,
/// actor and target differ.
pub proof fn lemma_no_self_swipe(swipes: Seq<DbSwipe>, user_ids: Seq<i32>, right_swipe_ratio: Percent, at: Timestamp, k: int)
    requires
        forall|i: int| 0 <= i < swipes.len() ==> swipe_allowed(#[trigger] swipes[i], user_ids, right_swipe_ratio, at),
        0 <= k < swipes.len(),
    ensures
        swipes[k].fk_swiping_user_details_id != swipes[k].fk_swiped_user_details_id,
{
    assert(swipe_allowed(swipes[k], user_ids, right_swipe_ratio, at));
}

/// Every match `(x, y)` of a consistent interaction set has `x < y`, rests
/// on a right swipe of `x` on `y` and one of `y` on `x`, and shares its
/// unordered pair with no other match.
pub proof fn lemma_match_is_mutual(data: InteractionData, k: int)
    requires
        data.consistent(),
        0 <= k < data.matches@.len(),
    ensures
        ({
            let m = data.matches@[k];
            &&& m.fk_person1_id < m.fk_person2_id
            &&& likes(data.swipes@, m.fk_person1_id, m.fk_person2_id)
            &&& likes(data.swipes@, m.fk_person2_id, m.fk_person1_id)
            &&& forall|k2: int| 0 <= k2 < data.matches@.len() && k2 != k ==> {
                let o = #[trigger] data.matches@[k2];
                !(o.fk_person1_id == m.fk_person1_id && o.fk_person2_id == m.fk_person2_id)
                    && !(o.fk_person1_id == m.fk_person2_id && o.fk_person2_id == m.fk_person1_id)
            }
        }),
{
    let m = data.matches@[k];
    assert(match_pairs(data.matches@).contains(pair_of(m)));
    assert(match_pair_set(data.swipes@).contains(pair_of(m)));
    assert forall|k2: int| 0 <= k2 < data.matches@.len() && k2 != k implies {
        let o = #[trigger] data.matches@[k2];
        !(o.fk_person1_id == m.fk_person1_id && o.fk_person2_id == m.fk_person2_id)
            && !(o.fk_person1_id == m.fk_person2_id && o.fk_person2_id == m.fk_person1_id)
    } by {
        assert(pair_of(data.matches@[k2]) != pair_of(data.matches@[k]));
    }
}

/// The match relation depends on the set of right swipes alone: two swipe
/// sequences with the same right swipes, in any order and with any repeats,
/// give the same matches.
pub proof fn lemma_matches_depend_on_likes_only(s1: Seq<DbSwipe>, s2: Seq<DbSwipe>)
    requires
        forall|a: i32, b: i32| #[trigger] likes(s1, a, b) <==> likes(s2, a, b),
    ensures
        match_pair_set(s1) == match_pair_set(s2),
{
    assert(match_pair_set(s1) =~= match_pair_set(s2));
}

/// Matches that share no pair are as many as their pairs.
pub proof fn lemma_unique_match_count(ms: Seq<DbMatch>)
    requires
        pairs_unique(ms),
    ensures
        ms.len() == match_pairs(ms).len(),
{
    let ps = ms.map_values(|m: DbMatch| pair_of(m));
    assert(ps.no_duplicates()) by {
        assert forall|i: int, j: int| 0 <= i < ps.len() && 0 <= j < ps.len() && i != j implies ps[i] != ps[j] by {
            assert(pair_of(ms[i]) != pair_of(ms[j]));
        }
    }
    assert(ps.to_set() =~= match_pairs(ms)) by {
        assert forall|p: (i32, i32)| ps.to_set().contains(p) <==> match_pairs(ms).contains(p) by {
            if ps.to_set().contains(p) {
                let k = choose|k: int| 0 <= k < ps.len() && ps[k] == p;
                assert(pair_of(ms[k]) == p);
            }
            if match_pairs(ms).contains(p) {
                let k = choose|k: int| 0 <= k < ms.len() && #[trigger] pair_of(ms[k]) == p;
                assert(ps[k] == p);
            }
        }
    }
    ps.unique_seq_to_set();
}

/// Deriving matches again from the same swipe set yields the same matches,
/// as many as before.
pub proof fn lemma_rederivation_identical(swipes: Seq<DbSwipe>, m1: Seq<DbMatch>, m2: Seq<DbMatch>, t1: Timestamp, t2: Timestamp)
    requires
        derived_from(m1, swipes, t1),
        derived_from(m2, swipes, t2),
    ensures
        match_pairs(m1) == match_pairs(m2),
        m1.len() == m2.len(),
{
    lemma_unique_match_count(m1);
    lemma_unique_match_count(m2);
}

/// Two interaction sets whose right swipes agree have the same matches, as
/// many of them: the match relation depends on the set of right swipes
/// alone, whatever order or repeats the swipes come in.
pub proof fn lemma_same_likes_same_matches(d1: InteractionData, d2: InteractionData)
    requires
        d1.consistent(),
        d2.consistent(),
        forall|a: i32, b: i32| #[trigger] likes(d1.swipes@, a, b) <==> likes(d2.swipes@, a, b),
    ensures
        match_pairs(d1.matches@) == match_pairs(d2.matches@),
        d1.matches@.len() == d2.matches@.len(),
{
    lemma_matches_depend_on_likes_only(d1.swipes@, d2.swipes@);
    lemma_unique_match_count(d1.matches@);
    lemma_unique_match_count(d2.matches@);
}

} // verus!
