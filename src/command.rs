//! Typed commands and their handlers. A handler either succeeds and commits
//! all of its changes, or fails and leaves the world as it was: every check
//! and every fallible computation comes before the first change. The one
//! change a failure keeps is the signer's nonce, once it was accepted.
use vstd::prelude::*;
use crate::error::{
    ERROR_INVALID_BET_AMOUNT, ERROR_MARKET_NOT_ACTIVE, ERROR_MARKET_NOT_RESOLVED,
    ERROR_NO_WINNING_POSITION, ERROR_ALREADY_CLAIMED, ERROR_UNAUTHORIZED,
    ERROR_INSUFFICIENT_BALANCE, ERROR_MARKET_ALREADY_RESOLVED, ERROR_INVALID_MARKET_TIME,
    ERROR_INVALID_BET_TYPE, ERROR_PLAYER_NOT_EXIST, ERROR_PLAYER_ALREADY_EXISTS,
    ERROR_NO_FEES_TO_WITHDRAW, ERROR_OVERFLOW, ERROR_INVALID_NONCE, ERROR_UNDERFLOW,
    ERROR_DIVISION_BY_ZERO, ERROR_BET_TOO_LARGE, ERROR_LIQUIDITY_TOO_HIGH,
    ERROR_INVALID_CALCULATION, ERROR_INVALID_MARKET_TITLE, ERROR_INVALID_COMMAND,
};
use crate::market::{MarketData, spec_place_bet, spec_sell_shares, spec_payout};
use crate::player::{PredictionMarketPlayer, PlayerMarketPosition, position_key};
use crate::state::{market_at, market_active, registry_wf};
use crate::world::{WorldState, WorldView, is_player_at, has_player, players_unique, same_pid};
use crate::event::{
    insert_event, event_record, market_object_event, emit_market_indexed_object,
    liquidity_history_event, LiquidityHistoryEntry, EVENT_BET_UPDATE,
};

verus! {

/// A withdrawal off the system: the amount is the low 32 bits of the first word.
#[derive(Clone, Copy, Debug)]
pub struct Withdraw {
    pub data: [u64; 3],
}

/// An admin credit: the two words of the player id, then the amount.
#[derive(Clone, Copy, Debug)]
pub struct Deposit {
    pub data: [u64; 3],
}

/// The market commands. Sides and outcomes are 1 for YES and 0 for NO.
#[derive(Clone, Debug)]
pub enum Activity {
    /// Market id, side, amount.
    Bet(u64, u64, u64),
    /// Market id, side, shares.
    Sell(u64, u64, u64),
    /// Market id, outcome.
    Resolve(u64, u64),
    /// Market id.
    Claim(u64),
    /// Market id.
    WithdrawFees(u64),
    /// Title words, start, end and resolution offsets from now, YES and NO liquidity.
    CreateMarket(Vec<u64>, u64, u64, u64, u64, u64),
}

#[derive(Clone, Debug)]
pub enum Command {
    Activity(Activity),
    Withdraw(Withdraw),
    Deposit(Deposit),
    InstallPlayer,
    Tick,
}

/// The accounts other than the one at `i` are unchanged.
pub open spec fn players_frame(
    a: Seq<PredictionMarketPlayer>,
    b: Seq<PredictionMarketPlayer>,
    i: int,
) -> bool {
    &&& a.len() == b.len()
    &&& forall|j: int| 0 <= j < a.len() && j != i ==> #[trigger] b[j] == a[j]
}

/// `b` is account `a` with balance `balance` and its position in `market_id`
/// replaced by `pos`; its nonce is not spoken of.
pub open spec fn account_moved(
    a: PredictionMarketPlayer,
    b: PredictionMarketPlayer,
    balance: int,
    market_id: u64,
    pos: PlayerMarketPosition,
) -> bool {
    &&& b.player_id == a.player_id
    &&& b.data.balance == balance
    &&& b.data.positions.position(a.player_id, market_id) == pos
    &&& forall|q: [u64; 2], m: u64|
        position_key(q, m) != position_key(a.player_id, market_id) ==> #[trigger] b.data.positions.position(
            q,
            m,
        ) == a.data.positions.position(q, m)
}

/// `b` is account `a` with balance `balance`; its nonce is not spoken of.
pub open spec fn account_credited(a: PredictionMarketPlayer, b: PredictionMarketPlayer, balance: int) -> bool {
    &&& b.player_id == a.player_id
    &&& b.data.balance == balance
    &&& b.data.positions == a.data.positions
}

/// The log record of a bet.
pub open spec fn bet_event(
    txid: u64,
    player_id: [u64; 2],
    market_id: u64,
    bet_type: u64,
    amount: u64,
    shares: u64,
    counter: u64,
) -> Seq<u64> {
    event_record(
        EVENT_BET_UPDATE,
        seq![txid, player_id[0], player_id[1], market_id, bet_type, amount, shares, counter],
    )
}

/// The position after adding `shares` to side `side` (1 YES, else NO).
pub open spec fn position_plus(pos: PlayerMarketPosition, side: u64, shares: int) -> PlayerMarketPosition {
    if side == 1 {
        PlayerMarketPosition { yes_shares: (pos.yes_shares + shares) as u64, ..pos }
    } else {
        PlayerMarketPosition { no_shares: (pos.no_shares + shares) as u64, ..pos }
    }
}

pub open spec fn side_shares(pos: PlayerMarketPosition, side: u64) -> u64 {
    if side == 1 {
        pos.yes_shares
    } else {
        pos.no_shares
    }
}

/// The outcome of a bet by the account at `i`: the market after it and the
/// shares minted, or the error.
pub open spec fn spec_bet(w: WorldView, i: int, market_id: u64, bet_type: u64, amount: u64) -> Result<
    (MarketData, u64),
    u32,
> {
    let p = w.players[i];
    if amount == 0 {
        Err(ERROR_INVALID_BET_AMOUNT)
    } else if bet_type > 1 {
        Err(ERROR_INVALID_BET_TYPE)
    } else if !market_active(w.markets, market_id, w.counter) {
        Err(ERROR_MARKET_NOT_ACTIVE)
    } else if p.data.balance < amount {
        Err(ERROR_INSUFFICIENT_BALANCE)
    } else {
        match spec_place_bet(w.markets[market_id - 1], bet_type, amount) {
            Err(e) => Err(e),
            Ok((m, shares)) => {
                let pos = p.data.positions.position(p.player_id, market_id);
                if side_shares(pos, bet_type) + shares > u64::MAX {
                    Err(ERROR_OVERFLOW)
                } else {
                    Ok((m, shares))
                }
            },
        }
    }
}

/// `b` is `a` after a successful bet by the account at `i`.
pub open spec fn bet_effect(
    a: WorldView,
    b: WorldView,
    i: int,
    market_id: u64,
    bet_type: u64,
    amount: u64,
) -> bool {
    let p = a.players[i];
    let (m, shares) = spec_bet(a, i, market_id, bet_type, amount)->Ok_0;
    let pos = p.data.positions.position(p.player_id, market_id);
    &&& b == WorldView {
        markets: a.markets.update(market_id - 1, m),
        players: b.players,
        events: a.events + bet_event(
            a.txcounter,
            p.player_id,
            market_id,
            bet_type,
            amount,
            shares,
            a.counter,
        ) + market_object_event(m, market_id),
        ..a
    }
    &&& players_frame(a.players, b.players, i)
    &&& account_moved(p, b.players[i], p.data.balance - amount, market_id, position_plus(pos, bet_type, shares as int))
}

/// Logs a bet.
pub fn emit_bet_event(
    events: &mut Vec<u64>,
    player_id: [u64; 2],
    market_id: u64,
    bet_type: u64,
    amount: u64,
    shares: u64,
    txid: u64,
    counter: u64,
)
    ensures
        final(events)@ == old(events)@ + bet_event(
            txid,
            player_id,
            market_id,
            bet_type,
            amount,
            shares,
            counter,
        ),
{
    let mut data = vec![txid, player_id[0], player_id[1], market_id, bet_type, amount, shares, counter];
    proof {
        assert(data@ =~= seq![txid, player_id[0], player_id[1], market_id, bet_type, amount, shares, counter]);
    }
    insert_event(events, EVENT_BET_UPDATE, &mut data);
}

proof fn lemma_players_unique_kept(a: Seq<PredictionMarketPlayer>, b: Seq<PredictionMarketPlayer>, i: int)
    requires
        players_unique(a),
        players_frame(a, b, i),
        0 <= i < a.len(),
        b[i].player_id == a[i].player_id,
    ensures
        players_unique(b),
{
    assert forall|x: int, y: int|
        0 <= x < b.len() && 0 <= y < b.len() && x != y implies !same_pid(
            #[trigger] b[x].player_id,
            #[trigger] b[y].player_id,
        ) by {
        assert(b[x].player_id == a[x].player_id);
        assert(b[y].player_id == a[y].player_id);
    }
}


/// The log record of a sale; its kind is the side plus 10.
pub open spec fn sell_event(
    txid: u64,
    player_id: [u64; 2],
    market_id: u64,
    sell_type: u64,
    shares: u64,
    payout: u64,
    counter: u64,
) -> Seq<u64> {
    event_record(
        EVENT_BET_UPDATE,
        seq![txid, player_id[0], player_id[1], market_id, (sell_type + 10) as u64, shares, payout, counter],
    )
}

/// The position after removing `shares` from side `side` (1 YES, else NO).
pub open spec fn position_minus(pos: PlayerMarketPosition, side: u64, shares: int) -> PlayerMarketPosition {
    if side == 1 {
        PlayerMarketPosition { yes_shares: (pos.yes_shares - shares) as u64, ..pos }
    } else {
        PlayerMarketPosition { no_shares: (pos.no_shares - shares) as u64, ..pos }
    }
}

/// The outcome of a sale by the account at `i`: the market after it and the
/// net payout, or the error.
pub open spec fn spec_sell(w: WorldView, i: int, market_id: u64, sell_type: u64, shares: u64) -> Result<
    (MarketData, u64),
    u32,
> {
    let p = w.players[i];
    let pos = p.data.positions.position(p.player_id, market_id);
    if shares == 0 {
        Err(ERROR_INVALID_BET_AMOUNT)
    } else if !market_active(w.markets, market_id, w.counter) {
        Err(ERROR_MARKET_NOT_ACTIVE)
    } else if side_shares(pos, sell_type) < shares {
        Err(ERROR_INSUFFICIENT_BALANCE)
    } else {
        match spec_sell_shares(w.markets[market_id - 1], sell_type, shares) {
            Err(e) => Err(e),
            Ok((m, payout)) => if p.data.balance + payout > u64::MAX {
                Err(ERROR_OVERFLOW)
            } else {
                Ok((m, payout))
            },
        }
    }
}

/// `b` is `a` after a successful sale by the account at `i`.
pub open spec fn sell_effect(
    a: WorldView,
    b: WorldView,
    i: int,
    market_id: u64,
    sell_type: u64,
    shares: u64,
) -> bool {
    let p = a.players[i];
    let (m, payout) = spec_sell(a, i, market_id, sell_type, shares)->Ok_0;
    let pos = p.data.positions.position(p.player_id, market_id);
    &&& b == WorldView {
        markets: a.markets.update(market_id - 1, m),
        players: b.players,
        events: a.events + sell_event(
            a.txcounter,
            p.player_id,
            market_id,
            sell_type,
            shares,
            payout,
            a.counter,
        ) + market_object_event(m, market_id),
        ..a
    }
    &&& players_frame(a.players, b.players, i)
    &&& account_moved(p, b.players[i], p.data.balance + payout, market_id, position_minus(pos, sell_type, shares as int))
}

/// The market after resolving market `market_id` on `outcome`, or the error.
pub open spec fn spec_resolve(w: WorldView, market_id: u64, outcome: u64) -> Result<MarketData, u32> {
    match market_at(w.markets, market_id) {
        None => Err(ERROR_MARKET_NOT_ACTIVE),
        Some(m) => if m.resolved {
            Err(ERROR_MARKET_ALREADY_RESOLVED)
        } else {
            Ok(MarketData { resolved: true, outcome: Some(outcome != 0), ..m })
        },
    }
}

/// `b` is `a` after market `market_id` was resolved by the account at `i`.
pub open spec fn resolve_effect(a: WorldView, b: WorldView, i: int, market_id: u64, outcome: u64) -> bool {
    let m = spec_resolve(a, market_id, outcome)->Ok_0;
    &&& b == WorldView {
        markets: a.markets.update(market_id - 1, m),
        players: b.players,
        events: a.events + market_object_event(m, market_id),
        ..a
    }
    &&& players_frame(a.players, b.players, i)
    &&& account_credited(a.players[i], b.players[i], a.players[i].data.balance as int)
}

/// The payout of a claim by the account at `i` in market `market_id`, or
/// the error.
pub open spec fn spec_claim(w: WorldView, i: int, market_id: u64) -> Result<u64, u32> {
    let p = w.players[i];
    let pos = p.data.positions.position(p.player_id, market_id);
    match market_at(w.markets, market_id) {
        None => Err(ERROR_MARKET_NOT_ACTIVE),
        Some(m) => if !m.resolved {
            Err(ERROR_MARKET_NOT_RESOLVED)
        } else if pos.claimed {
            Err(ERROR_ALREADY_CLAIMED)
        } else {
            match spec_payout(m, pos.yes_shares, pos.no_shares) {
                Err(e) => Err(e),
                Ok(payout) => if payout == 0 {
                    Err(ERROR_NO_WINNING_POSITION)
                } else if p.data.balance + payout > u64::MAX {
                    Err(ERROR_OVERFLOW)
                } else {
                    Ok(payout)
                },
            }
        },
    }
}

/// `b` is `a` after a successful claim by the account at `i`.
pub open spec fn claim_effect(a: WorldView, b: WorldView, i: int, market_id: u64) -> bool {
    let p = a.players[i];
    let pos = p.data.positions.position(p.player_id, market_id);
    &&& b == WorldView { players: b.players, ..a }
    &&& players_frame(a.players, b.players, i)
    &&& account_moved(
        p,
        b.players[i],
        p.data.balance + spec_claim(a, i, market_id)->Ok_0,
        market_id,
        PlayerMarketPosition { claimed: true, ..pos },
    )
}

/// The fees that the account at `i` withdraws from market `market_id`, or
/// the error.
pub open spec fn spec_withdraw_fees(w: WorldView, i: int, market_id: u64) -> Result<u64, u32> {
    match market_at(w.markets, market_id) {
        None => Err(ERROR_MARKET_NOT_ACTIVE),
        Some(m) => if m.total_fees_collected == 0 {
            Err(ERROR_NO_FEES_TO_WITHDRAW)
        } else if w.players[i].data.balance + m.total_fees_collected > u64::MAX {
            Err(ERROR_OVERFLOW)
        } else {
            Ok(m.total_fees_collected)
        },
    }
}

/// `b` is `a` after the account at `i` withdrew the fees of `market_id`.
pub open spec fn withdraw_fees_effect(a: WorldView, b: WorldView, i: int, market_id: u64) -> bool {
    let m = a.markets[market_id - 1];
    &&& b == WorldView {
        markets: a.markets.update(market_id - 1, MarketData { total_fees_collected: 0, ..m }),
        players: b.players,
        ..a
    }
    &&& players_frame(a.players, b.players, i)
    &&& account_credited(a.players[i], b.players[i], a.players[i].data.balance + m.total_fees_collected)
}

/// The error of creating a market at offsets from the current time, if any.
pub open spec fn spec_create_market(
    w: WorldView,
    title: Seq<u64>,
    start_offset: u64,
    end_offset: u64,
    resolution_offset: u64,
    yes_liquidity: u64,
    no_liquidity: u64,
) -> Result<u64, u32> {
    if w.counter + start_offset > u64::MAX || w.counter + end_offset > u64::MAX || w.counter
        + resolution_offset > u64::MAX {
        Err(ERROR_OVERFLOW)
    } else {
        match MarketData::spec_new(
            title,
            (w.counter + start_offset) as u64,
            (w.counter + end_offset) as u64,
            (w.counter + resolution_offset) as u64,
            yes_liquidity,
            no_liquidity,
        ) {
            Err(e) => Err(e),
            Ok(_) => if w.next_market_id == u64::MAX {
                Err(ERROR_OVERFLOW)
            } else {
                Ok(w.next_market_id)
            },
        }
    }
}

/// `b` is `a` after the market was created as market `id`, by the account at `i`.
pub open spec fn create_market_effect(
    a: WorldView,
    b: WorldView,
    i: int,
    title: Seq<u64>,
    start_offset: u64,
    end_offset: u64,
    resolution_offset: u64,
    yes_liquidity: u64,
    no_liquidity: u64,
) -> bool {
    let id = a.next_market_id;
    let m = b.markets.last();
    &&& b == WorldView {
        markets: b.markets,
        market_ids: a.market_ids.push(id),
        next_market_id: (id + 1) as u64,
        players: b.players,
        events: a.events + market_object_event(m, id) + liquidity_history_event(
            LiquidityHistoryEntry {
                market_id: id,
                counter: a.counter,
                yes_liquidity,
                no_liquidity,
                total_volume: 0,
                action_type: 0,
            },
        ),
        ..a
    }
    &&& b.markets.drop_last() == a.markets
    &&& b.markets.len() == a.markets.len() + 1
    &&& m.title@ == title
    &&& MarketData::spec_fresh(
        m,
        (a.counter + start_offset) as u64,
        (a.counter + end_offset) as u64,
        (a.counter + resolution_offset) as u64,
        yes_liquidity,
        no_liquidity,
    )
    &&& players_frame(a.players, b.players, i)
    &&& account_credited(a.players[i], b.players[i], a.players[i].data.balance as int)
}

/// The result of activity `act` by the account at `i`, before its nonce is counted.
pub open spec fn spec_activity(w: WorldView, i: int, act: Activity) -> Result<(), u32> {
    match act {
        Activity::Bet(market_id, bet_type, amount) => match spec_bet(w, i, market_id, bet_type, amount) {
            Ok(_) => Ok(()),
            Err(e) => Err(e),
        },
        Activity::Sell(market_id, sell_type, shares) => match spec_sell(w, i, market_id, sell_type, shares) {
            Ok(_) => Ok(()),
            Err(e) => Err(e),
        },
        Activity::Resolve(market_id, outcome) => match spec_resolve(w, market_id, outcome) {
            Ok(_) => Ok(()),
            Err(e) => Err(e),
        },
        Activity::Claim(market_id) => match spec_claim(w, i, market_id) {
            Ok(_) => Ok(()),
            Err(e) => Err(e),
        },
        Activity::WithdrawFees(market_id) => match spec_withdraw_fees(w, i, market_id) {
            Ok(_) => Ok(()),
            Err(e) => Err(e),
        },
        Activity::CreateMarket(title, s, e, r, y, n) => match spec_create_market(w, title@, s, e, r, y, n) {
            Ok(_) => Ok(()),
            Err(err) => Err(err),
        },
    }
}

/// `b` is `a` after activity `act` of the account at `i` succeeded; the
/// account's nonce is not spoken of.
pub open spec fn activity_effect(a: WorldView, b: WorldView, i: int, act: Activity) -> bool {
    match act {
        Activity::Bet(market_id, bet_type, amount) => bet_effect(a, b, i, market_id, bet_type, amount),
        Activity::Sell(market_id, sell_type, shares) => sell_effect(a, b, i, market_id, sell_type, shares),
        Activity::Resolve(market_id, outcome) => resolve_effect(a, b, i, market_id, outcome),
        Activity::Claim(market_id) => claim_effect(a, b, i, market_id),
        Activity::WithdrawFees(market_id) => withdraw_fees_effect(a, b, i, market_id),
        Activity::CreateMarket(title, s, e, r, y, n) => create_market_effect(a, b, i, title@, s, e, r, y, n),
    }
}

/// Logs a sale.
pub fn emit_sell_event(
    events: &mut Vec<u64>,
    player_id: [u64; 2],
    market_id: u64,
    sell_type: u64,
    shares: u64,
    payout: u64,
    txid: u64,
    counter: u64,
)
    requires
        sell_type <= 1,
    ensures
        final(events)@ == old(events)@ + sell_event(
            txid,
            player_id,
            market_id,
            sell_type,
            shares,
            payout,
            counter,
        ),
{
    let mut data = vec![txid, player_id[0], player_id[1], market_id, sell_type + 10, shares, payout, counter];
    proof {
        assert(data@ =~= seq![txid, player_id[0], player_id[1], market_id, (sell_type + 10) as u64, shares, payout, counter]);
    }
    insert_event(events, EVENT_BET_UPDATE, &mut data);
}

proof fn lemma_titles_kept(a: Seq<MarketData>, b: Seq<MarketData>, idx: int)
    requires
        a.len() == b.len(),
        0 <= idx < a.len(),
        b[idx].title@ == a[idx].title@,
        forall|j: int| 0 <= j < a.len() && j != idx ==> #[trigger] b[j] == a[j],
        forall|j: int| 0 <= j < a.len() ==> (#[trigger] a[j]).title@.len() <= crate::market::MAX_TITLE_WORDS,
    ensures
        forall|j: int| 0 <= j < b.len() ==> (#[trigger] b[j]).title@.len() <= crate::market::MAX_TITLE_WORDS,
{
    assert forall|j: int| 0 <= j < b.len() implies (#[trigger] b[j]).title@.len() <= crate::market::MAX_TITLE_WORDS by {
        if j != idx {
            assert(b[j] == a[j]);
        }
    }
}

impl Activity {
    fn handle_bet(world: &mut WorldState, i: usize, market_id: u64, bet_type: u64, amount: u64) -> (r:
        Result<(), u32>)
        requires
            old(world).wf(),
            i < old(world).players@.len(),
        ensures
            final(world).wf(),
            final(world).players@.len() == old(world).players@.len(),
            final(world).players@[i as int].nonce == old(world).players@[i as int].nonce,
            match spec_bet(old(world)@, i as int, market_id, bet_type, amount) {
                Ok(_) => r is Ok && bet_effect(old(world)@, final(world)@, i as int, market_id, bet_type, amount),
                Err(e) => r == Err::<(), u32>(e) && final(world)@ == old(world)@,
            },
    {
        if amount == 0 {
            return Err(ERROR_INVALID_BET_AMOUNT);
        }
        if bet_type > 1 {
            return Err(ERROR_INVALID_BET_TYPE);
        }
        let current_time = match world.state.ensure_market_active(&world.markets, market_id) {
            Ok(t) => t,
            Err(e) => return Err(e),
        };
        let txid = world.state.txcounter;
        if world.players[i].data.balance < amount {
            return Err(ERROR_INSUFFICIENT_BALANCE);
        }
        let idx = match world.markets.index_of(market_id) {
            Some(x) => x,
            None => return Err(ERROR_MARKET_NOT_ACTIVE),
        };
        let pid = world.players[i].player_id;
        let shares = match world.markets.markets[idx].calculate_shares(bet_type, amount) {
            Ok(s) => s,
            Err(e) => {
                assert(spec_place_bet(world.markets.markets@[idx as int], bet_type, amount) == Err::<(MarketData, u64), u32>(e));
                return Err(e);
            },
        };
        let held = if bet_type == 1 {
            world.players[i].data.get_yes_shares_for_market(&pid, market_id)
        } else {
            world.players[i].data.get_no_shares_for_market(&pid, market_id)
        };
        proof {
            let m = world.markets.markets@[idx as int];
            assert(spec_place_bet(m, bet_type, amount) is Err ==> spec_place_bet(m, bet_type, amount)->Err_0 == ERROR_OVERFLOW);
            assert(spec_place_bet(m, bet_type, amount) is Ok ==> spec_place_bet(m, bet_type, amount)->Ok_0.1 == shares);
        }
        if shares > u64::MAX - held {
            return Err(ERROR_OVERFLOW);
        }
        let ghost w0 = world@;
        match world.markets.markets[idx].place_bet(bet_type, amount) {
            Ok(_) => {},
            Err(e) => {
                proof {
                    assert(world.markets.markets@ =~= w0.markets);
                }
                return Err(e);
            },
        }
        let ghost w1 = world@;
        let ghost p0 = world.players@[i as int];
        let _ = world.players[i].data.spend_balance(amount);
        if bet_type == 1 {
            let _ = world.players[i].data.add_yes_shares_for_market(&pid, market_id, shares);
        } else {
            let _ = world.players[i].data.add_no_shares_for_market(&pid, market_id, shares);
        }
        emit_bet_event(&mut world.events, pid, market_id, bet_type, amount, shares, txid, current_time);
        emit_market_indexed_object(&mut world.events, &world.markets.markets[idx], market_id);
        proof {
            lemma_players_unique_kept(w0.players, world.players@, i as int);
            assert(registry_wf(world.state, world.markets)) by {
                assert forall|j: int| 0 <= j < world.markets.markets@.len() implies (
                #[trigger] world.markets.markets@[j]).title@.len() <= crate::market::MAX_TITLE_WORDS by {
                    if j != idx {
                        assert(world.markets.markets@[j] == w0.markets[j]);
                    }
                }
            }
            assert(world.players@[i as int].data.positions.position(pid, market_id) == position_plus(p0.data.positions.position(pid, market_id), bet_type, shares as int));
            assert(world.events@ =~= w0.events + bet_event(w0.txcounter, pid, market_id, bet_type, amount, shares, w0.counter) + market_object_event(world.markets.markets@[idx as int], market_id));
        }
        Ok(())
    }

    fn handle_sell(world: &mut WorldState, i: usize, market_id: u64, sell_type: u64, shares: u64) -> (r:
        Result<(), u32>)
        requires
            old(world).wf(),
            i < old(world).players@.len(),
        ensures
            final(world).wf(),
            final(world).players@.len() == old(world).players@.len(),
            final(world).players@[i as int].nonce == old(world).players@[i as int].nonce,
            match spec_sell(old(world)@, i as int, market_id, sell_type, shares) {
                Ok(_) => r is Ok && sell_effect(old(world)@, final(world)@, i as int, market_id, sell_type, shares),
                Err(e) => r == Err::<(), u32>(e) && final(world)@ == old(world)@,
            },
    {
        if shares == 0 {
            return Err(ERROR_INVALID_BET_AMOUNT);
        }
        let current_time = match world.state.ensure_market_active(&world.markets, market_id) {
            Ok(t) => t,
            Err(e) => return Err(e),
        };
        let txid = world.state.txcounter;
        let idx = match world.markets.index_of(market_id) {
            Some(x) => x,
            None => return Err(ERROR_MARKET_NOT_ACTIVE),
        };
        let pid = world.players[i].player_id;
        let held = if sell_type == 1 {
            world.players[i].data.get_yes_shares_for_market(&pid, market_id)
        } else {
            world.players[i].data.get_no_shares_for_market(&pid, market_id)
        };
        if held < shares {
            return Err(ERROR_INSUFFICIENT_BALANCE);
        }
        let (payout, _, _, _) = match world.markets.markets[idx].quote_sell(sell_type, shares) {
            Ok(q) => q,
            Err(e) => return Err(e),
        };
        if payout > u64::MAX - world.players[i].data.balance {
            return Err(ERROR_OVERFLOW);
        }
        let ghost w0 = world@;
        let ghost p0 = world.players@[i as int];
        let _ = world.markets.markets[idx].sell_shares(sell_type, shares);
        if sell_type == 1 {
            let _ = world.players[i].data.subtract_yes_shares_for_market(&pid, market_id, shares);
        } else {
            let _ = world.players[i].data.subtract_no_shares_for_market(&pid, market_id, shares);
        }
        let _ = world.players[i].data.add_balance(payout);
        emit_sell_event(&mut world.events, pid, market_id, sell_type, shares, payout, txid, current_time);
        emit_market_indexed_object(&mut world.events, &world.markets.markets[idx], market_id);
        proof {
            lemma_players_unique_kept(w0.players, world.players@, i as int);
            lemma_titles_kept(w0.markets, world.markets.markets@, idx as int);
            assert(world.players@[i as int].data.positions.position(pid, market_id) == position_minus(p0.data.positions.position(pid, market_id), sell_type, shares as int));
            assert(world.events@ =~= w0.events + sell_event(w0.txcounter, pid, market_id, sell_type, shares, payout, w0.counter) + market_object_event(world.markets.markets@[idx as int], market_id));
        }
        Ok(())
    }

    /// The admin may settle a market before its resolution time: by policy,
    /// `can_resolve` is not consulted here.
    fn handle_resolve(world: &mut WorldState, i: usize, market_id: u64, outcome: u64) -> (r: Result<(), u32>)
        requires
            old(world).wf(),
            i < old(world).players@.len(),
        ensures
            final(world).wf(),
            final(world).players@.len() == old(world).players@.len(),
            final(world).players@[i as int].nonce == old(world).players@[i as int].nonce,
            match spec_resolve(old(world)@, market_id, outcome) {
                Ok(_) => r is Ok && resolve_effect(old(world)@, final(world)@, i as int, market_id, outcome),
                Err(e) => r == Err::<(), u32>(e) && final(world)@ == old(world)@,
            },
    {
        let idx = match world.markets.index_of(market_id) {
            Some(x) => x,
            None => return Err(ERROR_MARKET_NOT_ACTIVE),
        };
        if world.markets.markets[idx].resolved {
            return Err(ERROR_MARKET_ALREADY_RESOLVED);
        }
        let ghost w0 = world@;
        let _ = world.markets.markets[idx].resolve(outcome != 0);
        emit_market_indexed_object(&mut world.events, &world.markets.markets[idx], market_id);
        proof {
            lemma_titles_kept(w0.markets, world.markets.markets@, idx as int);
            assert(world.players@ =~= w0.players);
        }
        Ok(())
    }

    fn handle_claim(world: &mut WorldState, i: usize, market_id: u64) -> (r: Result<(), u32>)
        requires
            old(world).wf(),
            i < old(world).players@.len(),
        ensures
            final(world).wf(),
            final(world).players@.len() == old(world).players@.len(),
            final(world).players@[i as int].nonce == old(world).players@[i as int].nonce,
            match spec_claim(old(world)@, i as int, market_id) {
                Ok(_) => r is Ok && claim_effect(old(world)@, final(world)@, i as int, market_id),
                Err(e) => r == Err::<(), u32>(e) && final(world)@ == old(world)@,
            },
    {
        let idx = match world.markets.index_of(market_id) {
            Some(x) => x,
            None => return Err(ERROR_MARKET_NOT_ACTIVE),
        };
        if !world.markets.markets[idx].resolved {
            return Err(ERROR_MARKET_NOT_RESOLVED);
        }
        let pid = world.players[i].player_id;
        let position = world.players[i].data.positions.get_position(&pid, market_id);
        if position.claimed {
            return Err(ERROR_ALREADY_CLAIMED);
        }
        let payout = match world.markets.markets[idx].calculate_payout(position.yes_shares, position.no_shares) {
            Ok(p) => p,
            Err(e) => return Err(e),
        };
        if payout == 0 {
            return Err(ERROR_NO_WINNING_POSITION);
        }
        if payout > u64::MAX - world.players[i].data.balance {
            return Err(ERROR_OVERFLOW);
        }
        let ghost w0 = world@;
        let _ = world.players[i].data.claim_winnings_for_market(&pid, market_id);
        let _ = world.players[i].data.add_balance(payout);
        proof {
            lemma_players_unique_kept(w0.players, world.players@, i as int);
        }
        Ok(())
    }

    fn handle_withdraw_fees(world: &mut WorldState, i: usize, market_id: u64) -> (r: Result<(), u32>)
        requires
            old(world).wf(),
            i < old(world).players@.len(),
        ensures
            final(world).wf(),
            final(world).players@.len() == old(world).players@.len(),
            final(world).players@[i as int].nonce == old(world).players@[i as int].nonce,
            match spec_withdraw_fees(old(world)@, i as int, market_id) {
                Ok(_) => r is Ok && withdraw_fees_effect(old(world)@, final(world)@, i as int, market_id),
                Err(e) => r == Err::<(), u32>(e) && final(world)@ == old(world)@,
            },
    {
        let idx = match world.markets.index_of(market_id) {
            Some(x) => x,
            None => return Err(ERROR_MARKET_NOT_ACTIVE),
        };
        let fees_collected = world.markets.markets[idx].total_fees_collected;
        if fees_collected == 0 {
            return Err(ERROR_NO_FEES_TO_WITHDRAW);
        }
        if fees_collected > u64::MAX - world.players[i].data.balance {
            return Err(ERROR_OVERFLOW);
        }
        let ghost w0 = world@;
        let _ = world.markets.markets[idx].withdraw_fees();
        let _ = world.players[i].data.add_balance(fees_collected);
        proof {
            lemma_players_unique_kept(w0.players, world.players@, i as int);
            lemma_titles_kept(w0.markets, world.markets.markets@, idx as int);
        }
        Ok(())
    }

    fn handle_create_market(
        world: &mut WorldState,
        i: usize,
        title_u64_vec: Vec<u64>,
        start_time_offset: u64,
        end_time_offset: u64,
        resolution_time_offset: u64,
        yes_liquidity: u64,
        no_liquidity: u64,
    ) -> (r: Result<(), u32>)
        requires
            old(world).wf(),
            i < old(world).players@.len(),
        ensures
            final(world).wf(),
            final(world).players@.len() == old(world).players@.len(),
            final(world).players@[i as int].nonce == old(world).players@[i as int].nonce,
            match spec_create_market(old(world)@, title_u64_vec@, start_time_offset, end_time_offset, resolution_time_offset, yes_liquidity, no_liquidity) {
                Ok(_) => r is Ok && create_market_effect(old(world)@, final(world)@, i as int, title_u64_vec@, start_time_offset, end_time_offset, resolution_time_offset, yes_liquidity, no_liquidity),
                Err(e) => r == Err::<(), u32>(e) && final(world)@ == old(world)@,
            },
    {
        let counter = world.state.counter;
        if start_time_offset > u64::MAX - counter || end_time_offset > u64::MAX - counter
            || resolution_time_offset > u64::MAX - counter {
            return Err(ERROR_OVERFLOW);
        }
        let ghost w0 = world@;
        let created = world.markets.create_market_with_title_u64_and_liquidity(
            &mut world.state,
            &mut world.events,
            title_u64_vec,
            counter + start_time_offset,
            counter + end_time_offset,
            counter + resolution_time_offset,
            yes_liquidity,
            no_liquidity,
        );
        match created {
            Ok(_) => {
                proof {
                    assert(world.players@ =~= w0.players);
                }
                Ok(())
            },
            Err(e) => Err(e),
        }
    }
}

/// A word-for-word copy of `v`.
fn copy_words(v: &Vec<u64>) -> (r: Vec<u64>)
    ensures
        r@ == v@,
{
    let mut out: Vec<u64> = Vec::new();
    let mut i: usize = 0;
    while i < v.len()
        invariant
            i <= v@.len(),
            out@ == v@.subrange(0, i as int),
        decreases v@.len() - i,
    {
        out.push(v[i]);
        assert(v@.subrange(0, i + 1) =~= v@.subrange(0, i as int).push(v@[i as int]));
        i = i + 1;
    }
    assert(v@.subrange(0, i as int) =~= v@);
    out
}

/// A command that an account issues. Without an account, or with a nonce
/// other than the account's current one, it fails and changes nothing. Once
/// the nonce is accepted it advances by one whether the command then
/// succeeds or fails, so no signed command can be replayed.
pub trait CommandHandler {
    fn handle(&self, world: &mut WorldState, pid: &[u64; 2], nonce: u64) -> (r: Result<(), u32>)
        requires
            old(world).wf(),
        ensures
            final(world).wf(),
            r is Err ==> final(world)@ == old(world)@ || exists|i: int|
                is_player_at(old(world)@.players, i, *pid) && old(world)@.players[i].nonce == nonce
                    && final(world)@ == bump_nonce(old(world)@, i),
    ;
}

/// `w` with the nonce of the account at `i` advanced by one: what a command
/// leaves behind when its nonce was accepted and its work then failed, so
/// that the same signed command cannot be replayed.
pub open spec fn bump_nonce(w: WorldView, i: int) -> WorldView {
    WorldView {
        players: w.players.update(
            i,
            PredictionMarketPlayer { nonce: (w.players[i].nonce + 1) as u64, ..w.players[i] },
        ),
        ..w
    }
}

/// The result of the nonce check of the account at `i`.
pub open spec fn spec_nonce_check(w: WorldView, i: int, nonce: u64) -> Result<(), u32> {
    if w.players[i].nonce != nonce {
        Err(ERROR_INVALID_NONCE)
    } else if nonce == u64::MAX {
        Err(ERROR_OVERFLOW)
    } else {
        Ok(())
    }
}

impl CommandHandler for Activity {
    fn handle(&self, world: &mut WorldState, pid: &[u64; 2], nonce: u64) -> (r: Result<(), u32>)
        ensures
            !has_player(old(world)@.players, *pid) ==> r == Err::<(), u32>(ERROR_PLAYER_NOT_EXIST)
                && final(world)@ == old(world)@,
            forall|i: int|
                #[trigger] is_player_at(old(world)@.players, i, *pid) ==> match spec_nonce_check(
                    old(world)@,
                    i,
                    nonce,
                ) {
                    Err(e) => r == Err::<(), u32>(e) && final(world)@ == old(world)@,
                    Ok(_) => match spec_activity(old(world)@, i, *self) {
                        Err(e) => r == Err::<(), u32>(e) && final(world)@ == bump_nonce(old(world)@, i),
                        Ok(_) => r is Ok && activity_effect(old(world)@, final(world)@, i, *self)
                            && final(world)@.players[i].nonce == nonce + 1,
                    },
                },
    {
        let i = match world.find_player(pid) {
            Some(i) => i,
            None => return Err(ERROR_PLAYER_NOT_EXIST),
        };
        proof {
            assert forall|j: int| #[trigger] is_player_at(old(world)@.players, j, *pid) implies j
                == i by {
                if j != i {
                    assert(!same_pid(old(world)@.players[j].player_id, old(world)@.players[i as int].player_id));
                }
            }
        }
        if world.players[i].nonce != nonce {
            return Err(ERROR_INVALID_NONCE);
        }
        if nonce == u64::MAX {
            return Err(ERROR_OVERFLOW);
        }
        let result = match self {
            Activity::Bet(market_id, bet_type, amount) => Self::handle_bet(
                world,
                i,
                *market_id,
                *bet_type,
                *amount,
            ),
            Activity::Sell(market_id, sell_type, shares) => Self::handle_sell(
                world,
                i,
                *market_id,
                *sell_type,
                *shares,
            ),
            Activity::Resolve(market_id, outcome) => Self::handle_resolve(world, i, *market_id, *outcome),
            Activity::Claim(market_id) => Self::handle_claim(world, i, *market_id),
            Activity::WithdrawFees(market_id) => Self::handle_withdraw_fees(world, i, *market_id),
            Activity::CreateMarket(title, start, end, resolution, yes, no) => {
                let title_words = copy_words(title);
                Self::handle_create_market(world, i, title_words, *start, *end, *resolution, *yes, *no)
            },
        };
        let ghost w1 = world@;
        world.players[i].nonce = nonce + 1;
        proof {
            lemma_players_unique_kept(w1.players, world.players@, i as int);
            assert(players_frame(w1.players, world.players@, i as int));
            if result is Err {
                assert(world@ =~= bump_nonce(old(world)@, i as int));
            }
        }
        result
    }
}

/// The result of a withdrawal by `pid`.
pub open spec fn spec_withdraw(w: WorldView, i: int, nonce: u64, data: [u64; 3]) -> Result<(), u32> {
    match spec_nonce_check(w, i, nonce) {
        Err(e) => Err(e),
        Ok(_) => if w.players[i].data.balance < data[0] % 0x1_0000_0000 {
            Err(ERROR_INSUFFICIENT_BALANCE)
        } else {
            Ok(())
        },
    }
}

/// `b` is `a` after the account at `i` withdrew: its balance is debited, its
/// nonce advanced and the withdrawal queued.
pub open spec fn withdraw_effect(a: WorldView, b: WorldView, i: int, nonce: u64, w: Withdraw) -> bool {
    &&& b == WorldView { players: b.players, withdrawals: a.withdrawals.push(w), ..a }
    &&& players_frame(a.players, b.players, i)
    &&& account_credited(a.players[i], b.players[i], a.players[i].data.balance - w.data[0] % 0x1_0000_0000)
    &&& b.players[i].nonce == nonce + 1
}

impl CommandHandler for Withdraw {
    /// Debits the amount and queues the withdrawal for settlement.
    fn handle(&self, world: &mut WorldState, pid: &[u64; 2], nonce: u64) -> (r: Result<(), u32>)
        ensures
            !has_player(old(world)@.players, *pid) ==> r == Err::<(), u32>(ERROR_PLAYER_NOT_EXIST)
                && final(world)@ == old(world)@,
            forall|i: int|
                #[trigger] is_player_at(old(world)@.players, i, *pid) ==> match spec_withdraw(
                    old(world)@,
                    i,
                    nonce,
                    self.data,
                ) {
                    Err(e) => r == Err::<(), u32>(e) && final(world)@ == if spec_nonce_check(
                        old(world)@,
                        i,
                        nonce,
                    ) is Ok {
                        bump_nonce(old(world)@, i)
                    } else {
                        old(world)@
                    },
                    Ok(_) => r is Ok && withdraw_effect(old(world)@, final(world)@, i, nonce, *self),
                },
    {
        let i = match world.find_player(pid) {
            Some(i) => i,
            None => return Err(ERROR_PLAYER_NOT_EXIST),
        };
        proof {
            assert forall|j: int| #[trigger] is_player_at(old(world)@.players, j, *pid) implies j
                == i by {
                if j != i {
                    assert(!same_pid(old(world)@.players[j].player_id, old(world)@.players[i as int].player_id));
                }
            }
        }
        if world.players[i].nonce != nonce {
            return Err(ERROR_INVALID_NONCE);
        }
        if nonce == u64::MAX {
            return Err(ERROR_OVERFLOW);
        }
        let amount = self.data[0] % 0x1_0000_0000;
        if world.players[i].data.balance < amount {
            world.players[i].nonce = nonce + 1;
            proof {
                lemma_players_unique_kept(old(world)@.players, world.players@, i as int);
                assert(world@ =~= bump_nonce(old(world)@, i as int));
            }
            return Err(ERROR_INSUFFICIENT_BALANCE);
        }
        let ghost w0 = world@;
        let _ = world.players[i].data.spend_balance(amount);
        world.players[i].nonce = nonce + 1;
        world.withdrawals.push(*self);
        proof {
            lemma_players_unique_kept(w0.players, world.players@, i as int);
        }
        Ok(())
    }
}

/// The account that a deposit credits.
pub open spec fn deposit_target(data: [u64; 3]) -> [u64; 2] {
    [data[0], data[1]]
}

/// The result of a deposit made by the admin account at `i` into the
/// account of `deposit_target(data)`.
pub open spec fn spec_deposit(w: WorldView, i: int, nonce: u64, data: [u64; 3]) -> Result<(), u32> {
    match spec_nonce_check(w, i, nonce) {
        Err(e) => Err(e),
        Ok(_) => if !has_player(w.players, deposit_target(data)) {
            Err(ERROR_PLAYER_NOT_EXIST)
        } else if (exists|j: int| is_player_at(w.players, j, deposit_target(data))
            && w.players[j].data.balance + data[2] > u64::MAX) {
            Err(ERROR_OVERFLOW)
        } else {
            Ok(())
        },
    }
}

/// `b` is `a` after the admin account at `i` credited `data[2]` to the
/// account of `deposit_target(data)` and advanced its own nonce.
pub open spec fn deposit_effect(a: WorldView, b: WorldView, i: int, nonce: u64, data: [u64; 3]) -> bool {
    forall|j: int|
        #[trigger] is_player_at(a.players, j, deposit_target(data)) ==> {
            &&& b == WorldView { players: b.players, ..a }
            &&& b.players.len() == a.players.len()
            &&& forall|k: int|
                0 <= k < a.players.len() && k != i && k != j ==> #[trigger] b.players[k] == a.players[k]
            &&& account_credited(a.players[j], b.players[j], a.players[j].data.balance + data[2])
            &&& b.players[i].nonce == nonce + 1
            &&& b.players[i].player_id == a.players[i].player_id
            &&& i != j ==> b.players[i].data == a.players[i].data && b.players[j].nonce
                == a.players[j].nonce
        }
}

impl CommandHandler for Deposit {
    /// Credits the target account; the nonce checked and advanced is the admin's.
    fn handle(&self, world: &mut WorldState, pid: &[u64; 2], nonce: u64) -> (r: Result<(), u32>)
        ensures
            !has_player(old(world)@.players, *pid) ==> r == Err::<(), u32>(ERROR_PLAYER_NOT_EXIST)
                && final(world)@ == old(world)@,
            forall|i: int|
                #[trigger] is_player_at(old(world)@.players, i, *pid) ==> match spec_deposit(
                    old(world)@,
                    i,
                    nonce,
                    self.data,
                ) {
                    Err(e) => r == Err::<(), u32>(e) && final(world)@ == if spec_nonce_check(
                        old(world)@,
                        i,
                        nonce,
                    ) is Ok {
                        bump_nonce(old(world)@, i)
                    } else {
                        old(world)@
                    },
                    Ok(_) => r is Ok && deposit_effect(old(world)@, final(world)@, i, nonce, self.data),
                },
    {
        let i = match world.find_player(pid) {
            Some(i) => i,
            None => return Err(ERROR_PLAYER_NOT_EXIST),
        };
        proof {
            assert forall|x: int| #[trigger] is_player_at(old(world)@.players, x, *pid) implies x
                == i by {
                if x != i {
                    assert(!same_pid(old(world)@.players[x].player_id, old(world)@.players[i as int].player_id));
                }
            }
        }
        if world.players[i].nonce != nonce {
            return Err(ERROR_INVALID_NONCE);
        }
        if nonce == u64::MAX {
            return Err(ERROR_OVERFLOW);
        }
        let target_id = [self.data[0], self.data[1]];
        assert(target_id == deposit_target(self.data));
        let j = match world.find_player(&target_id) {
            Some(j) => j,
            None => {
                world.players[i].nonce = nonce + 1;
                proof {
                    lemma_players_unique_kept(old(world)@.players, world.players@, i as int);
                    assert(world@ =~= bump_nonce(old(world)@, i as int));
                }
                return Err(ERROR_PLAYER_NOT_EXIST);
            },
        };
        proof {
            assert forall|x: int| #[trigger] is_player_at(old(world)@.players, x, target_id) implies x
                == j by {
                if x != j {
                    assert(!same_pid(old(world)@.players[x].player_id, old(world)@.players[j as int].player_id));
                }
            }
        }
        if self.data[2] > u64::MAX - world.players[j].data.balance {
            world.players[i].nonce = nonce + 1;
            proof {
                lemma_players_unique_kept(old(world)@.players, world.players@, i as int);
                assert(world@ =~= bump_nonce(old(world)@, i as int));
            }
            return Err(ERROR_OVERFLOW);
        }
        let ghost w0 = world@;
        let _ = world.players[j].data.add_balance(self.data[2]);
        let ghost w1 = world@;
        world.players[i].nonce = nonce + 1;
        proof {
            lemma_players_unique_kept(w0.players, w1.players, j as int);
            lemma_players_unique_kept(w1.players, world.players@, i as int);
        }
        Ok(())
    }
}

/// The name of result code `e`.
pub open spec fn error_name(e: u32) -> Seq<char> {
    if e == ERROR_INVALID_BET_AMOUNT {
        "InvalidBetAmount"@
    } else if e == ERROR_MARKET_NOT_ACTIVE {
        "MarketNotActive"@
    } else if e == ERROR_MARKET_NOT_RESOLVED {
        "MarketNotResolved"@
    } else if e == ERROR_NO_WINNING_POSITION {
        "NoWinningPosition"@
    } else if e == ERROR_ALREADY_CLAIMED {
        "AlreadyClaimed"@
    } else if e == ERROR_UNAUTHORIZED {
        "Unauthorized"@
    } else if e == ERROR_INSUFFICIENT_BALANCE {
        "InsufficientBalance"@
    } else if e == ERROR_MARKET_ALREADY_RESOLVED {
        "MarketAlreadyResolved"@
    } else if e == ERROR_INVALID_MARKET_TIME {
        "InvalidMarketTime"@
    } else if e == ERROR_INVALID_BET_TYPE {
        "InvalidBetType"@
    } else if e == ERROR_PLAYER_NOT_EXIST {
        "PlayerNotExist"@
    } else if e == ERROR_PLAYER_ALREADY_EXISTS {
        "PlayerAlreadyExists"@
    } else if e == ERROR_NO_FEES_TO_WITHDRAW {
        "NoFeesToWithdraw"@
    } else if e == ERROR_OVERFLOW {
        "Overflow"@
    } else if e == ERROR_UNDERFLOW {
        "Underflow"@
    } else if e == ERROR_DIVISION_BY_ZERO {
        "DivisionByZero"@
    } else if e == ERROR_BET_TOO_LARGE {
        "BetTooLarge"@
    } else if e == ERROR_LIQUIDITY_TOO_HIGH {
        "LiquidityTooHigh"@
    } else if e == ERROR_INVALID_CALCULATION {
        "InvalidCalculation"@
    } else if e == ERROR_INVALID_MARKET_TITLE {
        "InvalidMarketTitle"@
    } else if e == ERROR_INVALID_NONCE {
        "InvalidNonce"@
    } else if e == ERROR_INVALID_COMMAND {
        "InvalidCommand"@
    } else {
        "Unknown"@
    }
}

/// The name of a result code.
pub fn decode_error(e: u32) -> (r: &'static str)
    ensures
        r@ == error_name(e),
        e == ERROR_INVALID_BET_AMOUNT ==> r@ == "InvalidBetAmount"@,
        e == ERROR_MARKET_NOT_ACTIVE ==> r@ == "MarketNotActive"@,
        e == ERROR_MARKET_NOT_RESOLVED ==> r@ == "MarketNotResolved"@,
        e == ERROR_NO_WINNING_POSITION ==> r@ == "NoWinningPosition"@,
        e == ERROR_ALREADY_CLAIMED ==> r@ == "AlreadyClaimed"@,
        e == ERROR_UNAUTHORIZED ==> r@ == "Unauthorized"@,
        e == ERROR_INSUFFICIENT_BALANCE ==> r@ == "InsufficientBalance"@,
        e == ERROR_MARKET_ALREADY_RESOLVED ==> r@ == "MarketAlreadyResolved"@,
        e == ERROR_INVALID_MARKET_TIME ==> r@ == "InvalidMarketTime"@,
        e == ERROR_INVALID_BET_TYPE ==> r@ == "InvalidBetType"@,
        e == ERROR_PLAYER_NOT_EXIST ==> r@ == "PlayerNotExist"@,
        e == ERROR_PLAYER_ALREADY_EXISTS ==> r@ == "PlayerAlreadyExists"@,
        e == ERROR_NO_FEES_TO_WITHDRAW ==> r@ == "NoFeesToWithdraw"@,
        e == ERROR_OVERFLOW ==> r@ == "Overflow"@,
        e == ERROR_UNDERFLOW ==> r@ == "Underflow"@,
        e == ERROR_DIVISION_BY_ZERO ==> r@ == "DivisionByZero"@,
        e == ERROR_BET_TOO_LARGE ==> r@ == "BetTooLarge"@,
        e == ERROR_LIQUIDITY_TOO_HIGH ==> r@ == "LiquidityTooHigh"@,
        e == ERROR_INVALID_CALCULATION ==> r@ == "InvalidCalculation"@,
        e == ERROR_INVALID_MARKET_TITLE ==> r@ == "InvalidMarketTitle"@,
        e == ERROR_INVALID_NONCE ==> r@ == "InvalidNonce"@,
        e == ERROR_INVALID_COMMAND ==> r@ == "InvalidCommand"@,
        e == 0 || e > ERROR_INVALID_COMMAND ==> r@ == "Unknown"@,
{
    match e {
        ERROR_INVALID_BET_AMOUNT => "InvalidBetAmount",
        ERROR_MARKET_NOT_ACTIVE => "MarketNotActive",
        ERROR_MARKET_NOT_RESOLVED => "MarketNotResolved",
        ERROR_NO_WINNING_POSITION => "NoWinningPosition",
        ERROR_ALREADY_CLAIMED => "AlreadyClaimed",
        ERROR_UNAUTHORIZED => "Unauthorized",
        ERROR_INSUFFICIENT_BALANCE => "InsufficientBalance",
        ERROR_MARKET_ALREADY_RESOLVED => "MarketAlreadyResolved",
        ERROR_INVALID_MARKET_TIME => "InvalidMarketTime",
        ERROR_INVALID_BET_TYPE => "InvalidBetType",
        ERROR_PLAYER_NOT_EXIST => "PlayerNotExist",
        ERROR_PLAYER_ALREADY_EXISTS => "PlayerAlreadyExists",
        ERROR_NO_FEES_TO_WITHDRAW => "NoFeesToWithdraw",
        ERROR_OVERFLOW => "Overflow",
        ERROR_UNDERFLOW => "Underflow",
        ERROR_DIVISION_BY_ZERO => "DivisionByZero",
        ERROR_BET_TOO_LARGE => "BetTooLarge",
        ERROR_LIQUIDITY_TOO_HIGH => "LiquidityTooHigh",
        ERROR_INVALID_CALCULATION => "InvalidCalculation",
        ERROR_INVALID_MARKET_TITLE => "InvalidMarketTitle",
        ERROR_INVALID_NONCE => "InvalidNonce",
        ERROR_INVALID_COMMAND => "InvalidCommand",
        _ => "Unknown",
    }
}

} // verus!
