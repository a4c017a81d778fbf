//! Properties that relate several operations of the engine.
use vstd::prelude::*;
use vstd::arithmetic::div_mod::lemma_fundamental_div_mod;
use crate::error::{ERROR_MARKET_ALREADY_RESOLVED, ERROR_ALREADY_CLAIMED, ERROR_NO_WINNING_POSITION};
use crate::market::{
    MarketData, spec_place_bet, spec_sell_shares, spec_sell_details, spec_swap,
    spec_payout, spec_resolve_market, liquidity_in_range,
};
use crate::math_safe::{fee_of, MIN_LIQUIDITY, MAX_BET_AMOUNT};
use crate::command::{
    spec_claim, claim_effect, spec_resolve, resolve_effect, spec_activity, bump_nonce, Activity,
};
use crate::state::market_at;
use crate::world::WorldView;

verus! {

/// Resolving a resolved market fails with `ERROR_MARKET_ALREADY_RESOLVED`,
/// and the first resolution's outcome stays.
pub proof fn lemma_resolve_once(m: MarketData, first: bool, second: bool)
    requires
        spec_resolve_market(m, first) is Ok,
    ensures
        spec_resolve_market(m, first)->Ok_0.outcome == Some(first),
        spec_resolve_market(spec_resolve_market(m, first)->Ok_0, second) == Err::<MarketData, u32>(
            ERROR_MARKET_ALREADY_RESOLVED,
        ),
{
}

/// The same through the command handler: once market `market_id` is resolved,
/// resolving it again fails and its outcome stays.
pub proof fn lemma_resolve_command_once(
    a: WorldView,
    b: WorldView,
    i: int,
    market_id: u64,
    first: u64,
    second: u64,
)
    requires
        0 <= i < a.players.len(),
        spec_resolve(a, market_id, first) is Ok,
        resolve_effect(a, b, i, market_id, first),
    ensures
        market_at(b.markets, market_id)->Some_0.outcome == Some(first != 0),
        spec_resolve(b, market_id, second) == Err::<MarketData, u32>(ERROR_MARKET_ALREADY_RESOLVED),
{
}

/// A claim that succeeded latches the position: the next claim of the same
/// player in the same market fails with `ERROR_ALREADY_CLAIMED`.
pub proof fn lemma_claim_once(a: WorldView, b: WorldView, i: int, market_id: u64)
    requires
        0 <= i < a.players.len(),
        spec_claim(a, i, market_id) is Ok,
        claim_effect(a, b, i, market_id),
    ensures
        spec_claim(b, i, market_id) == Err::<u64, u32>(ERROR_ALREADY_CLAIMED),
{
    let p = a.players[i];
    let q = b.players[i];
    assert(q.player_id == p.player_id);
    assert(b.markets == a.markets);
}

/// A first claim with no share on the winning side fails with
/// `ERROR_NO_WINNING_POSITION`, as a claim and as an activity; the world the
/// failed activity leaves (its nonce spent) keeps every balance and position.
pub proof fn lemma_claim_without_winning_shares(w: WorldView, i: int, market_id: u64)
    requires
        0 <= i < w.players.len(),
        market_at(w.markets, market_id) is Some,
        market_at(w.markets, market_id)->Some_0.resolved,
        !w.players[i].data.positions.position(w.players[i].player_id, market_id).claimed,
        ({
            let m = market_at(w.markets, market_id)->Some_0;
            let pos = w.players[i].data.positions.position(w.players[i].player_id, market_id);
            &&& m.outcome == Some(true) ==> pos.yes_shares == 0
            &&& m.outcome == Some(false) ==> pos.no_shares == 0
        }),
    ensures
        spec_claim(w, i, market_id) == Err::<u64, u32>(ERROR_NO_WINNING_POSITION),
        spec_activity(w, i, Activity::Claim(market_id)) == Err::<(), u32>(ERROR_NO_WINNING_POSITION),
        bump_nonce(w, i).players.len() == w.players.len(),
        forall|j: int|
            0 <= j < w.players.len() ==> (#[trigger] bump_nonce(w, i).players[j]).data
                == w.players[j].data,
{
    let m = market_at(w.markets, market_id)->Some_0;
    assert(0 * (m.prize_pool as int) == 0);
    assert(m.total_yes_shares > 0 ==> (0 * (m.prize_pool as int)) / (m.total_yes_shares as int) == 0);
    assert(m.total_no_shares > 0 ==> (0 * (m.prize_pool as int)) / (m.total_no_shares as int) == 0);
}

/// The winning-side shares of the positions `holders` (YES, NO) of `m`.
pub open spec fn winning_shares(m: MarketData, holders: Seq<(u64, u64)>) -> int
    decreases holders.len(),
{
    if holders.len() == 0 {
        0
    } else {
        winning_shares(m, holders.drop_last()) + if m.outcome == Some(true) {
            holders.last().0 as int
        } else {
            holders.last().1 as int
        }
    }
}

/// The payouts of the positions `holders`, added up.
pub open spec fn total_payout(m: MarketData, holders: Seq<(u64, u64)>) -> int
    decreases holders.len(),
{
    if holders.len() == 0 {
        0
    } else {
        total_payout(m, holders.drop_last()) + spec_payout(m, holders.last().0, holders.last().1)->Ok_0
    }
}

/// `m`'s winning side has `total` shares outstanding.
pub open spec fn winning_total(m: MarketData) -> int {
    if m.outcome == Some(true) {
        m.total_yes_shares as int
    } else {
        m.total_no_shares as int
    }
}

proof fn lemma_payout_bound(m: MarketData, holders: Seq<(u64, u64)>)
    requires
        m.resolved,
        m.outcome is Some,
        m.prize_pool > 0,
        winning_total(m) > 0,
        winning_shares(m, holders) <= winning_total(m),
    ensures
        forall|k: int| 0 <= k < holders.len() ==> #[trigger] spec_payout(m, holders[k].0, holders[k].1) is Ok,
        total_payout(m, holders) * winning_total(m) <= winning_shares(m, holders) * m.prize_pool,
        winning_shares(m, holders) >= 0,
    decreases holders.len(),
{
    let t = winning_total(m);
    let p = m.prize_pool as int;
    if holders.len() > 0 {
        let front = holders.drop_last();
        let h = holders.last();
        let s: int = if m.outcome == Some(true) { h.0 as int } else { h.1 as int };
        lemma_payout_bound(m, front);
        assert(s <= t);
        let x = s * p;
        assert(0 <= x <= t * p) by (nonlinear_arith)
            requires 0 <= s <= t, p > 0, x == s * p;
        lemma_fundamental_div_mod(x, t);
        assert(x / t <= p) by (nonlinear_arith)
            requires 0 <= x <= t * p, t > 0;
        assert(x / t >= 0) by (nonlinear_arith)
            requires 0 <= x, t > 0;
        assert((x / t) * t <= x) by (nonlinear_arith)
            requires t > 0, x >= 0, x == t * (x / t) + x % t, x % t >= 0;
        assert(spec_payout(m, h.0, h.1) == Ok::<u64, u32>((x / t) as u64));
        assert forall|k: int| 0 <= k < holders.len() implies #[trigger] spec_payout(m, holders[k].0, holders[k].1) is Ok by {
            if k < front.len() {
                assert(holders[k] == front[k]);
            }
        }
        let f = total_payout(m, front);
        let ws = winning_shares(m, front);
        assert((f + x / t) * t <= (ws + s) * p) by (nonlinear_arith)
            requires f * t <= ws * p, (x / t) * t <= x, x == s * p;
    }
}

/// The pro-rata payouts to holders whose winning shares add up to at most the
/// winning side's outstanding shares never exceed the prize pool: each one
/// is rounded down.
pub proof fn lemma_payouts_within_pool(m: MarketData, holders: Seq<(u64, u64)>)
    requires
        m.resolved,
        winning_shares(m, holders) <= winning_total(m),
    ensures
        forall|k: int| 0 <= k < holders.len() ==> #[trigger] spec_payout(m, holders[k].0, holders[k].1) is Ok,
        total_payout(m, holders) <= m.prize_pool,
    decreases holders.len(),
{
    if m.prize_pool == 0 || m.outcome is None || winning_total(m) == 0 {
        lemma_zero_payouts(m, holders);
    } else {
        lemma_payout_bound(m, holders);
        let t = winning_total(m);
        let p = m.prize_pool as int;
        let f = total_payout(m, holders);
        let ws = winning_shares(m, holders);
        assert(f <= p) by (nonlinear_arith)
            requires f * t <= ws * p, ws <= t, t > 0, p > 0, ws >= 0;
    }
}

proof fn lemma_zero_payouts(m: MarketData, holders: Seq<(u64, u64)>)
    requires
        m.prize_pool == 0 || m.outcome is None || winning_total(m) == 0,
    ensures
        forall|k: int| 0 <= k < holders.len() ==> #[trigger] spec_payout(m, holders[k].0, holders[k].1) == Ok::<u64, u32>(0),
        total_payout(m, holders) == 0,
    decreases holders.len(),
{
    if holders.len() > 0 {
        lemma_zero_payouts(m, holders.drop_last());
        assert forall|k: int| 0 <= k < holders.len() implies #[trigger] spec_payout(m, holders[k].0, holders[k].1) == Ok::<u64, u32>(0) by {
        }
    }
}

proof fn lemma_payout_floor_loss(m: MarketData, holders: Seq<(u64, u64)>)
    requires
        m.resolved,
        m.outcome is Some,
        m.prize_pool > 0,
        winning_total(m) > 0,
        winning_shares(m, holders) <= winning_total(m),
    ensures
        total_payout(m, holders) * winning_total(m) + holders.len() * winning_total(m)
            >= winning_shares(m, holders) * m.prize_pool + holders.len(),
    decreases holders.len(),
{
    let t = winning_total(m);
    let p = m.prize_pool as int;
    if holders.len() > 0 {
        let front = holders.drop_last();
        let h = holders.last();
        let s: int = if m.outcome == Some(true) { h.0 as int } else { h.1 as int };
        lemma_payout_bound(m, front);
        lemma_payout_bound(m, holders);
        lemma_payout_floor_loss(m, front);
        let x = s * p;
        assert(0 <= x) by (nonlinear_arith)
            requires 0 <= s, p > 0, x == s * p;
        assert(x <= t * p) by (nonlinear_arith)
            requires s <= t, p > 0, x == s * p;
        lemma_fundamental_div_mod(x, t);
        assert(spec_payout(m, h.0, h.1) == Ok::<u64, u32>((x / t) as u64)) by {
            assert(x / t <= p) by (nonlinear_arith)
                requires 0 <= x <= t * p, t > 0;
            assert(x / t >= 0) by (nonlinear_arith)
                requires 0 <= x, t > 0;
        }
        assert((x / t) * t >= x - t + 1) by (nonlinear_arith)
            requires t > 0, x == t * (x / t) + x % t, 0 <= x % t < t;
        let f = total_payout(m, front);
        let ws = winning_shares(m, front);
        let n = front.len() as int;
        assert((f + x / t) * t + (n + 1) * t >= (ws + s) * p + n + 1) by (nonlinear_arith)
            requires f * t + n * t >= ws * p + n, (x / t) * t >= x - t + 1, x == s * p;
    }
}

/// Rounding favours the house by less than one unit per holder: when the
/// positions `holders` hold every outstanding winning share, their payouts
/// add up to more than the prize pool less the number of holders.
pub proof fn lemma_payouts_lose_less_than_one_each(m: MarketData, holders: Seq<(u64, u64)>)
    requires
        m.resolved,
        m.outcome is Some,
        winning_total(m) > 0,
        winning_shares(m, holders) == winning_total(m),
    ensures
        total_payout(m, holders) + holders.len() > m.prize_pool,
{
    if holders.len() == 0 {
        assert(winning_shares(m, holders) == 0);
    } else if m.prize_pool == 0 {
        lemma_zero_payouts(m, holders);
    } else {
        lemma_payout_floor_loss(m, holders);
        let t = winning_total(m);
        let p = m.prize_pool as int;
        let f = total_payout(m, holders);
        let n = holders.len() as int;
        assert(f + n > p) by (nonlinear_arith)
            requires f * t + n * t >= t * p + n, t > 0, n > 0;
    }
}

/// Buying shares of one side and selling exactly those shares back returns
/// at most the amount paid, provided that the other side's liquidity after
/// the bet, plus the bet side's liquidity before it, less 2, is at most the
/// bet side's liquidity times the bet's fee. Rounding in the pool can
/// otherwise return more than was paid when the two sides are far apart.
pub proof fn lemma_bet_then_sell_at_most_amount(m: MarketData, side: u64, amount: u64)
    requires
        spec_place_bet(m, side, amount) is Ok,
        spec_sell_shares(
            spec_place_bet(m, side, amount)->Ok_0.0,
            side,
            spec_place_bet(m, side, amount)->Ok_0.1,
        ) is Ok,
        ({
            let m1 = spec_place_bet(m, side, amount)->Ok_0.0;
            if side == 1 {
                m1.no_liquidity + m.yes_liquidity - 2 <= m.yes_liquidity * fee_of(amount as int)
            } else {
                m1.yes_liquidity + m.no_liquidity - 2 <= m.no_liquidity * fee_of(amount as int)
            }
        }),
    ensures
        spec_sell_shares(
            spec_place_bet(m, side, amount)->Ok_0.0,
            side,
            spec_place_bet(m, side, amount)->Ok_0.1,
        )->Ok_0.1 <= amount,
{
    let m1 = spec_place_bet(m, side, amount)->Ok_0.0;
    let shares = spec_place_bet(m, side, amount)->Ok_0.1;
    let fee = fee_of(amount as int);
    let net = amount - fee;
    let (same, other) = if side == 1 {
        (m.yes_liquidity as int, m.no_liquidity as int)
    } else {
        (m.no_liquidity as int, m.yes_liquidity as int)
    };
    let other1 = other + net;
    let k = same * other;
    let same1 = k / other1;
    assert(fee >= 1 && fee <= amount) by {
        assert(amount * 100 + 9999 <= (amount + 1) * 10000 - 1) by (nonlinear_arith)
            requires amount >= 0;
        assert(amount * 100 + 9999 >= 10000) by (nonlinear_arith)
            requires amount >= 1;
    }
    assert(spec_swap(same as u64, other as u64, net) == Ok::<(u64, u64), u32>((same1 as u64, other1 as u64)));
    assert(same1 >= MIN_LIQUIDITY && other1 > 0);
    assert(same1 <= same) by (nonlinear_arith)
        requires same1 == k / other1, k == same * other, other1 >= other, other > 0, same >= 0;
    assert(shares == same - same1);
    if side == 1 {
        assert(m1.yes_liquidity == same1 && m1.no_liquidity == other1);
    } else {
        assert(m1.no_liquidity == same1 && m1.yes_liquidity == other1);
    }
    let new_other = (other1 * same1) / (same1 + shares);
    assert(same1 + shares == same);
    assert(spec_sell_details(m1, side, shares) is Ok);
    assert(liquidity_in_range(m1.yes_liquidity, m1.no_liquidity));
    assert(spec_swap(other1 as u64, same1 as u64, shares as int) is Ok);
    assert(spec_swap(other1 as u64, same1 as u64, shares as int) == Ok::<(u64, u64), u32>((new_other as u64, same as u64)));
    let gross = other1 - new_other;
    assert(new_other <= other1) by (nonlinear_arith)
        requires new_other == (other1 * same1) / same, same1 <= same, same > 0, other1 >= 0, same1 >= 0;
    if side == 1 {
        assert(m1.no_liquidity - new_other <= MAX_BET_AMOUNT);
    } else {
        assert(m1.yes_liquidity - new_other <= MAX_BET_AMOUNT);
    }
    assert(0 <= gross <= MAX_BET_AMOUNT);
    assert(0 <= fee_of(gross) <= gross) by {
        assert(gross * 100 + 9999 >= 0) by (nonlinear_arith)
            requires gross >= 0;
        assert(gross * 100 + 9999 <= (gross + 1) * 10000 - 1) by (nonlinear_arith)
            requires gross >= 0;
    }
    assert(spec_sell_details(m1, side, shares)->Ok_0.0 == gross - fee_of(gross));
    // Rounding down the bet side loses less than one unit of the product.
    lemma_fundamental_div_mod(k, other1);
    let r1 = k % other1;
    assert(same1 * other1 >= k - other1 + 1) by (nonlinear_arith)
        requires k == other1 * same1 + r1, 0 <= r1 < other1;
    // Rounding down the other side on the way back does the same.
    let x = other1 * same1;
    lemma_fundamental_div_mod(x, same);
    let r2 = x % same;
    assert(new_other * same >= x - same + 1) by (nonlinear_arith)
        requires 0 <= r2 < same, x == same * (x / same) + r2, new_other == x / same;
    assert(same * (other - new_other) <= other1 + same - 2) by (nonlinear_arith)
        requires new_other * same >= x - same + 1, x >= k - other1 + 1, k == same * other, x == other1 * same1, same1 * other1 == x;
    assert(other - new_other <= fee) by (nonlinear_arith)
        requires same * (other - new_other) <= same * fee, same > 0;
}

} // verus!
