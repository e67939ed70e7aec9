use rand::seq::SliceRandom;
use rand::rngs::OsRng;
use rand::RngCore;
use rand::SeedableRng;
use rand_chacha::ChaCha20Rng;
use vstd::hash_set::StringHashSet;
use vstd::prelude::*;
use vstd::string::*;

use crate::error::AppError;
use crate::text::{decimal, decimal_string};

verus! {

/// A draw: the names that take part (repeats allowed), how many win, and an optional seed
/// that makes the draw reproducible.
#[derive(Debug, Clone)]
pub struct DrawRequest {
    pub participants: Vec<String>,
    pub count: usize,
    pub seed: Option<u64>,
}

/// The outcome of a draw.
#[derive(Debug)]
pub struct DrawResponse {
    pub winners: Vec<String>,
    pub total_participants: usize,
    pub unique_participants: usize,
    pub winner_count: usize,
}

/// A seed given apart from the request body.
#[derive(Debug, Clone, Copy)]
pub struct DrawQuery {
    pub seed: Option<u64>,
}

// ---------------------------------------------------------------------------
// The model
// ---------------------------------------------------------------------------

/// The names of `s`, each once, in the order of their first occurrence.
pub open spec fn distinct_in_order(s: Seq<Seq<char>>) -> Seq<Seq<char>>
    decreases s.len(),
{
    if s.len() == 0 {
        Seq::empty()
    } else {
        let prev = distinct_in_order(s.drop_last());
        if s.drop_last().contains(s.last()) {
            prev
        } else {
            prev.push(s.last())
        }
    }
}

pub open spec fn empty_participants_message() -> Seq<char> {
    "参与者列表不能为空"@
}

pub open spec fn zero_count_message() -> Seq<char> {
    "中奖数量必须大于 0"@
}

pub open spec fn random_source_failure_message() -> Seq<char> {
    "随机数生成失败"@
}

pub open spec fn count_exceeds_message(count: nat, unique: nat) -> Seq<char> {
    "中奖数量 ("@ + decimal(count) + ") 不能大于去重后参与者数量 ("@ + decimal(unique) + ")"@
}

/// Why a draw is refused, if it is: the message of the rejection.
pub open spec fn draw_rejection(names: Seq<Seq<char>>, count: usize) -> Option<Seq<char>> {
    if names.len() == 0 {
        Some(empty_participants_message())
    } else if count == 0 {
        Some(zero_count_message())
    } else if count > distinct_in_order(names).len() {
        Some(count_exceeds_message(count as nat, distinct_in_order(names).len()))
    } else {
        None
    }
}

/// `winners` are the first `count` names of some ordering of `pool`.
pub open spec fn is_draw_from(pool: Seq<Seq<char>>, count: nat, winners: Seq<Seq<char>>) -> bool {
    exists|order: Seq<Seq<char>>|
        #[trigger] order.to_multiset() == pool.to_multiset() && winners == order.take(
            count as int,
        )
}

/// What a successful draw answers for `req`.
pub open spec fn draw_outcome(req: DrawRequest, r: DrawResponse) -> bool {
    let names = req.participants.deep_view();
    let pool = distinct_in_order(names);
    let winners = r.winners.deep_view();
    &&& r.total_participants == names.len()
    &&& r.unique_participants == pool.len()
    &&& r.winner_count == req.count
    &&& winners.len() == req.count
    &&& winners.no_duplicates()
    &&& forall|i: int| 0 <= i < winners.len() ==> names.contains(#[trigger] winners[i])
    &&& is_draw_from(pool, req.count as nat, winners)
    &&& (req.seed matches Some(s) ==> winners == seeded_shuffle(pool, s).take(req.count as int))
    &&& (req.seed is None ==> exists|s: u64|
        winners == #[trigger] seeded_shuffle(pool, s).take(req.count as int))
}

/// What `draw` answers for `req`: the rejection when there is one, else a successful draw.
/// Only a draw without a seed can fail otherwise: when the operating system gives no random
/// bytes, it is a server error naming the cause.
pub open spec fn draw_result(req: DrawRequest, res: Result<DrawResponse, AppError>) -> bool {
    match draw_rejection(req.participants.deep_view(), req.count) {
        Some(msg) => res matches Err(e) && e.is_bad_request_with(msg),
        None => match res {
            Ok(r) => draw_outcome(req, r),
            Err(e) => req.seed is None && exists|cause: Seq<char>|
                e.is_internal_with(random_source_failure_message() + ": "@ + cause),
        },
    }
}

// ---------------------------------------------------------------------------
// Lemmas on the model
// ---------------------------------------------------------------------------

/// Dedup keeps exactly the names of its input, each once.
pub proof fn lemma_distinct_in_order(s: Seq<Seq<char>>)
    ensures
        distinct_in_order(s).no_duplicates(),
        distinct_in_order(s).len() <= s.len(),
        forall|x: Seq<char>| distinct_in_order(s).contains(x) <==> s.contains(x),
    decreases s.len(),
{
    if s.len() > 0 {
        let init = s.drop_last();
        lemma_distinct_in_order(init);
        assert forall|x: Seq<char>| s.contains(x) <==> init.contains(x) || x == s.last() by {
            if s.contains(x) {
                let k = choose|k: int| 0 <= k < s.len() && s[k] == x;
                if k < s.len() - 1 {
                    assert(init[k] == x);
                }
            }
            if init.contains(x) {
                let k = choose|k: int| 0 <= k < init.len() && init[k] == x;
                assert(s[k] == x);
            }
            if x == s.last() {
                assert(s[s.len() - 1] == x);
            }
        }
        let prev = distinct_in_order(init);
        if !init.contains(s.last()) {
            let next = prev.push(s.last());
            assert forall|x: Seq<char>| next.contains(x) <==> prev.contains(x) || x == s.last() by {
                if next.contains(x) {
                    let k = choose|k: int| 0 <= k < next.len() && next[k] == x;
                    if k < prev.len() {
                        assert(prev[k] == x);
                    }
                }
                if prev.contains(x) {
                    let k = choose|k: int| 0 <= k < prev.len() && prev[k] == x;
                    assert(next[k] == x);
                }
                if x == s.last() {
                    assert(next[next.len() - 1] == x);
                }
            }
        }
    }
}

/// An ordering of a sequence without repeats has no repeats either.
pub proof fn lemma_permutation_keeps_distinct(pool: Seq<Seq<char>>, order: Seq<Seq<char>>)
    requires
        pool.no_duplicates(),
        order.to_multiset() == pool.to_multiset(),
    ensures
        order.no_duplicates(),
        forall|x: Seq<char>| order.contains(x) <==> pool.contains(x),
{
    broadcast use vstd::seq_lib::group_to_multiset_ensures;

    pool.lemma_multiset_has_no_duplicates();
    order.lemma_multiset_has_no_duplicates_conv();
    assert forall|x: Seq<char>| order.contains(x) <==> pool.contains(x) by {
        assert(order.contains(x) <==> order.to_multiset().count(x) > 0);
        assert(pool.contains(x) <==> pool.to_multiset().count(x) > 0);
    }
}

// ---------------------------------------------------------------------------
// Calls into rand
// ---------------------------------------------------------------------------

/// The order in which `SliceRandom::shuffle` leaves `items` when it draws from a
/// `ChaCha20Rng` made by `SeedableRng::seed_from_u64(seed)`.
pub uninterp spec fn seeded_shuffle(items: Seq<Seq<char>>, seed: u64) -> Seq<Seq<char>>;

/// Makes a `ChaCha20Rng` with `rand_core::SeedableRng::seed_from_u64` and shuffles `items`
/// with `rand::seq::SliceRandom::shuffle`. Both are deterministic, so the result is named by
/// `seeded_shuffle`; the shuffle only swaps elements, so the items stay the same.
#[verifier::external_body]
fn shuffle_seeded(items: &mut Vec<String>, seed: u64)
    ensures
        final(items).deep_view() == seeded_shuffle(old(items).deep_view(), seed),
        final(items).deep_view().to_multiset() == old(items).deep_view().to_multiset(),
{
    let mut rng = ChaCha20Rng::seed_from_u64(seed);
    items.shuffle(&mut rng);
}

/// Reads eight bytes from the operating system with `rand::rngs::OsRng::try_fill_bytes` as a
/// little-endian `u64` seed, makes a `ChaCha20Rng` of it with `SeedableRng::seed_from_u64`,
/// and shuffles `items` with `rand::seq::SliceRandom::shuffle`. The seed is random and is
/// returned; the order is then the one `seeded_shuffle` names for that seed, and the shuffle
/// only swaps elements. When the operating system gives no random bytes, the error's text is
/// returned and `items` is left as it was.
#[verifier::external_body]
fn shuffle_from_entropy(items: &mut Vec<String>) -> (res: Result<u64, String>)
    ensures
        match res {
            Ok(seed) => {
                &&& final(items).deep_view() == seeded_shuffle(old(items).deep_view(), seed)
                &&& final(items).deep_view().to_multiset() == old(items).deep_view().to_multiset()
            },
            Err(_) => final(items)@ == old(items)@,
        },
{
    let mut bytes = [0u8; 8];
    match OsRng.try_fill_bytes(&mut bytes) {
        Ok(()) => {
            let seed = u64::from_le_bytes(bytes);
            let mut rng = ChaCha20Rng::seed_from_u64(seed);
            items.shuffle(&mut rng);
            Ok(seed)
        },
        Err(e) => Err(e.to_string()),
    }
}

// ---------------------------------------------------------------------------
// The draw
// ---------------------------------------------------------------------------

/// The participants, each name once, in the order of first occurrence.
pub fn distinct_participants(participants: &Vec<String>) -> (unique: Vec<String>)
    ensures
        unique.deep_view() == distinct_in_order(participants.deep_view()),
{
    let ghost names = participants.deep_view();
    let mut seen = StringHashSet::new();
    let mut unique: Vec<String> = Vec::new();
    let n = participants.len();
    let mut i: usize = 0;
    while i < n
        invariant
            n == participants.len(),
            names == participants.deep_view(),
            0 <= i <= n,
            unique.deep_view() == distinct_in_order(names.take(i as int)),
            forall|x: Seq<char>| seen@.contains(x) <==> names.take(i as int).contains(x),
        decreases n - i,
    {
        let name = &participants[i];
        proof {
            assert(names.take(i + 1).drop_last() =~= names.take(i as int));
            assert(names.take(i + 1).last() == name@);
        }
        if !seen.contains(name.as_str()) {
            seen.insert(name.clone());
            unique.push(name.clone());
            proof {
                assert(unique.deep_view() =~= distinct_in_order(names.take(i as int)).push(name@));
            }
        }
        proof {
            let t = names.take(i + 1);
            assert forall|x: Seq<char>| t.contains(x) <==> names.take(i as int).contains(x) || x == name@ by {
                if t.contains(x) {
                    let k = choose|k: int| 0 <= k < t.len() && t[k] == x;
                    if k < i {
                        assert(names.take(i as int)[k] == x);
                    }
                }
                if names.take(i as int).contains(x) {
                    let k = choose|k: int| 0 <= k < i && names.take(i as int)[k] == x;
                    assert(t[k] == x);
                }
                if x == name@ {
                    assert(t[i as int] == x);
                }
            }
        }
        i = i + 1;
    }
    proof {
        assert(names.take(n as int) =~= names);
    }
    unique
}

/// The error of a draw that asks for more winners than there are distinct participants.
pub fn count_exceeds_error(count: usize, unique: usize) -> (e: AppError)
    ensures
        e.is_bad_request_with(count_exceeds_message(count as nat, unique as nat)),
{
    let mut m = String::from_str("中奖数量 (");
    let c = decimal_string(count);
    m.append(c.as_str());
    m.append(") 不能大于去重后参与者数量 (");
    let u = decimal_string(unique);
    m.append(u.as_str());
    m.append(")");
    AppError::BadRequest(m)
}

/// Takes the first `count` names of `order` as the winners of a draw among
/// `total_participants` names, of which `order` holds the distinct ones.
pub fn select_winners(order: Vec<String>, count: usize, total_participants: usize) -> (r: DrawResponse)
    requires
        count <= order.len(),
    ensures
        r.winners.deep_view() == order.deep_view().take(count as int),
        r.total_participants == total_participants,
        r.unique_participants == order.len(),
        r.winner_count == count,
{
    let unique_participants = order.len();
    let mut winners = order;
    winners.truncate(count);
    proof {
        assert(winners.deep_view() =~= order.deep_view().take(count as int));
    }
    let winner_count = winners.len();
    DrawResponse { winners, total_participants, unique_participants, winner_count }
}

/// Draws `req.count` distinct winners among the participants of `req`.
pub fn draw(req: DrawRequest) -> (res: Result<DrawResponse, AppError>)
    ensures
        draw_result(req, res),
{
    let ghost names = req.participants.deep_view();
    let total_participants = req.participants.len();
    if total_participants == 0 {
        return Err(AppError::bad_request("参与者列表不能为空"));
    }
    if req.count == 0 {
        return Err(AppError::bad_request("中奖数量必须大于 0"));
    }
    let unique = distinct_participants(&req.participants);
    let unique_count = unique.len();
    if req.count > unique_count {
        return Err(count_exceeds_error(req.count, unique_count));
    }
    let ghost pool = unique.deep_view();
    let mut order = unique;
    match req.seed {
        Some(seed) => shuffle_seeded(&mut order, seed),
        None => {
            if let Err(cause) = shuffle_from_entropy(&mut order) {
                let e = AppError::internal("随机数生成失败", cause.as_str());
                proof {
                    assert(e.is_internal_with(random_source_failure_message() + ": "@ + cause@));
                }
                return Err(e);
            }
        },
    }
    proof {
        vstd::seq_lib::to_multiset_len(order.deep_view());
        vstd::seq_lib::to_multiset_len(pool);
        assert(order.deep_view().len() == pool.len());
    }
    let r = select_winners(order, req.count, total_participants);
    proof {
        let ord = order.deep_view();
        let winners = r.winners.deep_view();
        lemma_distinct_in_order(names);
        lemma_permutation_keeps_distinct(pool, ord);
        assert forall|i: int, j: int|
            0 <= i < winners.len() && 0 <= j < winners.len() && i != j implies winners[i]
            != winners[j] by {
            assert(ord[i] == winners[i] && ord[j] == winners[j]);
        }
        assert forall|i: int| 0 <= i < winners.len() implies names.contains(#[trigger] winners[i]) by {
            assert(ord[i] == winners[i]);
            assert(ord.contains(winners[i]));
        }
        assert(ord.to_multiset() == pool.to_multiset());
        assert(is_draw_from(pool, req.count as nat, winners));
    }
    Ok(r)
}

// ---------------------------------------------------------------------------
// Laws
// ---------------------------------------------------------------------------

/// Two draws with the same participants, the same number of winners and the same seed give
/// the same answer: both are refused with the same message, or both pick the same winners
/// in the same order and report the same counts.
pub proof fn lemma_seeded_draw_is_reproducible(
    a: DrawRequest,
    b: DrawRequest,
    ra: Result<DrawResponse, AppError>,
    rb: Result<DrawResponse, AppError>,
)
    requires
        draw_result(a, ra),
        draw_result(b, rb),
        a.participants.deep_view() == b.participants.deep_view(),
        a.count == b.count,
        a.seed == b.seed,
        a.seed is Some,
    ensures
        ra is Ok <==> rb is Ok,
        ra matches Ok(x) ==> rb matches Ok(y) && x.winners.deep_view() == y.winners.deep_view()
            && x.total_participants == y.total_participants && x.unique_participants
            == y.unique_participants && x.winner_count == y.winner_count,
        ra matches Err(x) ==> rb matches Err(y) && exists|m: Seq<char>|
            x.is_bad_request_with(m) && y.is_bad_request_with(m),
{
}

/// When as many winners are asked for as there are distinct participants, the draw is not
/// refused, and when it succeeds every distinct participant wins exactly once. (It can fail
/// only without a seed, when the operating system gives no random bytes.)
pub proof fn lemma_full_draw_picks_everyone(req: DrawRequest, res: Result<DrawResponse, AppError>)
    requires
        draw_result(req, res),
        req.participants.len() > 0,
        req.count == distinct_in_order(req.participants.deep_view()).len(),
    ensures
        res matches Err(e) ==> req.seed is None && e is InternalServerError,
        res matches Ok(r) ==> r.winners.deep_view().to_multiset() == distinct_in_order(
            req.participants.deep_view(),
        ).to_multiset(),
        res matches Ok(r) ==> forall|x: Seq<char>|
            r.winners.deep_view().contains(x) <==> req.participants.deep_view().contains(x),
{
    let names = req.participants.deep_view();
    let pool = distinct_in_order(names);
    lemma_distinct_in_order(names);
    assert(names.contains(names[0]));
    assert(pool.contains(names[0]));
    assert(draw_rejection(names, req.count) is None);
    if res is Err {
        return;
    }
    let r = res->Ok_0;
    let winners = r.winners.deep_view();
    let order = choose|order: Seq<Seq<char>>|
        #[trigger] order.to_multiset() == pool.to_multiset() && winners == order.take(
            req.count as int,
        );
    vstd::seq_lib::to_multiset_len(order);
    vstd::seq_lib::to_multiset_len(pool);
    assert(winners =~= order);
    lemma_permutation_keeps_distinct(pool, order);
}

/// The winners of a successful draw are the first `count` names of the distinct participants
/// as the seeded shuffle leaves them: shuffled with the request's seed when it has one, else
/// with a seed read from the operating system.
pub proof fn lemma_draw_takes_the_front_of_a_shuffle(req: DrawRequest, res: Result<DrawResponse, AppError>)
    requires
        draw_result(req, res),
        res is Ok,
    ensures
        exists|s: u64|
            (req.seed is Some ==> req.seed == Some(s)) && res->Ok_0.winners.deep_view()
                == #[trigger] seeded_shuffle(distinct_in_order(req.participants.deep_view()), s).take(
                req.count as int,
            ),
{
    let pool = distinct_in_order(req.participants.deep_view());
    let winners = res->Ok_0.winners.deep_view();
    if let Some(t) = req.seed {
        assert(winners == seeded_shuffle(pool, t).take(req.count as int));
    }
}

} // verus!
