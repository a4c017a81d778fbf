//! The world that transactions act on: the clock and counters, the market
//! registry, the player accounts and the event log.
use vstd::prelude::*;
use crate::error::{
    ERROR_MARKET_NOT_ACTIVE, ERROR_OVERFLOW, ERROR_UNAUTHORIZED, ERROR_PLAYER_ALREADY_EXISTS,
    ERROR_PLAYER_NOT_EXIST, ERROR_INVALID_COMMAND,
};
use crate::config::NEW_PLAYER_INITIAL_BALANCE;
use crate::player::{pkey_to_pid, spec_pkey_to_pid};
use crate::world::{WorldState, WorldView, has_player, is_player_at, same_key, same_pid, players_unique};
use crate::command::{
    Command, Activity, Withdraw, Deposit, CommandHandler, spec_withdraw, spec_deposit,
    spec_nonce_check, spec_activity, activity_effect, withdraw_effect, deposit_effect, bump_nonce,
};
use crate::event::clear_events;
use crate::market::{MarketData, MAX_TITLE_WORDS};
use crate::player::PredictionMarketPlayer;
use crate::event::{
    emit_market_indexed_object, emit_liquidity_history, market_object_event,
    liquidity_history_event, LiquidityHistoryEntry,
};

verus! {

/// The summary that a state query returns.
pub struct QueryState {
    pub counter: u64,
    pub total_players: u64,
    pub total_markets: u64,
}

/// Clock, registry counters and transaction counters.
#[derive(Clone, Debug)]
pub struct GlobalState {
    /// The logical clock, advanced by ticks.
    pub counter: u64,
    /// Ids of the markets created so far, in order.
    pub market_ids: Vec<u64>,
    /// The id that the next market gets.
    pub next_market_id: u64,
    pub total_players: u64,
    /// Transactions since the last preemption point.
    pub txsize: u64,
    /// Successful transactions so far.
    pub txcounter: u64,
}

impl GlobalState {
    /// Clock at zero, no market, first market id 1.
    pub fn new() -> (r: Self)
        ensures
            r.counter == 0,
            r.market_ids@.len() == 0,
            r.next_market_id == 1,
            r.total_players == 0,
            r.txsize == 0,
            r.txcounter == 0,
    {
        GlobalState {
            counter: 0,
            market_ids: Vec::new(),
            next_market_id: 1,
            total_players: 0,
            txsize: 0,
            txcounter: 0,
        }
    }

    pub fn get_counter(&self) -> (r: u64)
        ensures
            r == self.counter,
    {
        self.counter
    }

    /// The current time if market `market_id` exists and is open for trading.
    pub fn ensure_market_active(&self, markets: &MarketManager, market_id: u64) -> (r: Result<
        u64,
        u32,
    >)
        ensures
            r == (if market_active(markets.markets@, market_id, self.counter) {
                Ok::<u64, u32>(self.counter)
            } else {
                Err(ERROR_MARKET_NOT_ACTIVE)
            }),
    {
        let current_time = self.counter;
        match markets.get_market(market_id) {
            Some(market) => {
                if !market.is_active(current_time) {
                    Err(ERROR_MARKET_NOT_ACTIVE)
                } else {
                    Ok(current_time)
                }
            },
            None => Err(ERROR_MARKET_NOT_ACTIVE),
        }
    }

    /// Whether the host should cut a batch here: every 600 ticks, after 40
    /// transactions, or with more than 40 withdrawals queued. Cutting resets
    /// the transaction count of the batch.
    pub fn preempt(&mut self, withdraw_size: u64) -> (r: bool)
        ensures
            r == (old(self).counter % 600 == 0 || old(self).txsize >= 40 || withdraw_size > 40),
            r ==> *final(self) == (GlobalState { txsize: 0, ..*old(self) }),
            !r ==> *final(self) == *old(self),
    {
        if self.counter % 600 == 0 || self.txsize >= 40 || withdraw_size > 40 {
            self.txsize = 0;
            true
        } else {
            false
        }
    }

    /// Hands the queued withdrawals over for settlement and empties the queue.
    pub fn flush_settlement(withdrawals: &mut Vec<Withdraw>) -> (r: Vec<Withdraw>)
        ensures
            r@ == old(withdrawals)@,
            final(withdrawals)@.len() == 0,
    {
        let mut out: Vec<Withdraw> = Vec::new();
        out.append(withdrawals);
        out
    }

    /// The seed of the host's randomness: none is used.
    pub fn rand_seed() -> (r: u64)
        ensures
            r == 0,
    {
        0
    }

    /// Logs a snapshot of market `market_id`, if it exists.
    pub fn emit_market_event(&self, markets: &MarketManager, events: &mut Vec<u64>, market_id: u64)
        requires
            markets.titles_bounded(),
        ensures
            final(events)@ == old(events)@ + match markets.market(market_id) {
                Some(m) => market_object_event(m, market_id),
                None => Seq::<u64>::empty(),
            },
    {
        if let Some(market) = markets.get_market(market_id) {
            emit_market_indexed_object(events, market, market_id);
        } else {
            assert(old(events)@ + Seq::<u64>::empty() =~= old(events)@);
        }
    }
}

/// Market `market_id` of the registry `markets`, if it exists.
pub open spec fn market_at(markets: Seq<MarketData>, market_id: u64) -> Option<MarketData> {
    if 1 <= market_id <= markets.len() {
        Some(markets[market_id - 1])
    } else {
        None
    }
}

/// Market `market_id` exists and is open at time `now`.
pub open spec fn market_active(markets: Seq<MarketData>, market_id: u64, now: u64) -> bool {
    match market_at(markets, market_id) {
        Some(m) => m.start_time <= now < m.end_time && !m.resolved,
        None => false,
    }
}

/// The market registry. Market `i + 1` is stored at index `i`: ids are
/// assigned in sequence from 1 and never reused.
pub struct MarketManager {
    pub markets: Vec<MarketData>,
}

impl MarketManager {
    pub open spec fn market(&self, market_id: u64) -> Option<MarketData> {
        market_at(self.markets@, market_id)
    }

    /// Every stored title fits the bound.
    pub open spec fn titles_bounded(&self) -> bool {
        forall|i: int| 0 <= i < self.markets@.len() ==> (#[trigger] self.markets@[i]).title@.len()
            <= MAX_TITLE_WORDS
    }

    /// No market yet.
    pub fn new() -> (r: Self)
        ensures
            r.markets@.len() == 0,
    {
        MarketManager { markets: Vec::new() }
    }

    pub fn get_market(&self, market_id: u64) -> (r: Option<&MarketData>)
        ensures
            match self.market(market_id) {
                Some(m) => r == Some(&m),
                None => r is None,
            },
    {
        if market_id >= 1 && market_id - 1 < self.markets.len() as u64 {
            Some(&self.markets[(market_id - 1) as usize])
        } else {
            None
        }
    }

    /// Index of market `market_id` in the registry, if it exists.
    pub fn index_of(&self, market_id: u64) -> (r: Option<usize>)
        ensures
            r is Some <==> self.market(market_id) is Some,
            r matches Some(i) ==> i == market_id - 1 && i < self.markets@.len(),
    {
        let n = self.markets.len();
        if market_id >= 1 && market_id - 1 < n as u64 {
            Some((market_id - 1) as usize)
        } else {
            None
        }
    }

    /// Replaces market `market_id`.
    pub fn update_market(&mut self, market_id: u64, market: MarketData)
        requires
            old(self).market(market_id) is Some,
        ensures
            final(self).markets@ == old(self).markets@.update(market_id - 1, market),
    {
        let i = (market_id - 1) as usize;
        self.markets.set(i, market);
    }

    /// The ids of all markets, in order of creation.
    pub fn get_active_market_ids(global: &GlobalState) -> (r: Vec<u64>)
        ensures
            r@ == global.market_ids@,
    {
        let mut ids: Vec<u64> = Vec::new();
        let mut i: usize = 0;
        while i < global.market_ids.len()
            invariant
                i <= global.market_ids@.len(),
                ids@ == global.market_ids@.subrange(0, i as int),
            decreases global.market_ids@.len() - i,
        {
            ids.push(global.market_ids[i]);
            assert(global.market_ids@.subrange(0, i + 1) =~= global.market_ids@.subrange(
                0,
                i as int,
            ).push(global.market_ids@[i as int]));
            i = i + 1;
        }
        assert(global.market_ids@.subrange(0, i as int) =~= global.market_ids@);
        ids
    }

    /// Creates a market from its title and absolute time window, gives it the
    /// next id, records the id, and logs the new market and its first
    /// liquidity point. On error nothing changes.
    pub fn create_market_with_title_u64_and_liquidity(
        &mut self,
        global: &mut GlobalState,
        events: &mut Vec<u64>,
        title_u64_vec: Vec<u64>,
        start_time: u64,
        end_time: u64,
        resolution_time: u64,
        initial_yes_liquidity: u64,
        initial_no_liquidity: u64,
    ) -> (r: Result<u64, u32>)
        requires
            registry_wf(*old(global), *old(self)),
        ensures
            registry_wf(*final(global), *final(self)),
            r is Err ==> *final(self) == *old(self) && *final(global) == *old(global) && final(
                events)@ == old(events)@,
            match MarketData::spec_new(
                title_u64_vec@,
                start_time,
                end_time,
                resolution_time,
                initial_yes_liquidity,
                initial_no_liquidity,
            ) {
                Err(e) => r == Err::<u64, u32>(e),
                Ok(_) => if old(global).next_market_id == u64::MAX {
                    r == Err::<u64, u32>(ERROR_OVERFLOW)
                } else {
                    r == Ok::<u64, u32>(old(global).next_market_id)
                },
            },
            r matches Ok(id) ==> {
                let m = final(self).markets@.last();
                &&& final(self).markets@.drop_last() == old(self).markets@
                &&& m.title@ == title_u64_vec@
                &&& MarketData::spec_fresh(
                    m,
                    start_time,
                    end_time,
                    resolution_time,
                    initial_yes_liquidity,
                    initial_no_liquidity,
                )
                &&& *final(global) == (GlobalState {
                    next_market_id: (id + 1) as u64,
                    market_ids: final(global).market_ids,
                    ..*old(global)
                })
                &&& final(global).market_ids@ == old(global).market_ids@.push(id)
                &&& final(events)@ == old(events)@ + market_object_event(m, id)
                    + liquidity_history_event(
                    LiquidityHistoryEntry {
                        market_id: id,
                        counter: old(global).counter,
                        yes_liquidity: initial_yes_liquidity,
                        no_liquidity: initial_no_liquidity,
                        total_volume: 0,
                        action_type: 0,
                    },
                )
            },
    {
        let market = MarketData::new_with_title_u64_and_liquidity(
            title_u64_vec,
            start_time,
            end_time,
            resolution_time,
            initial_yes_liquidity,
            initial_no_liquidity,
        )?;
        if global.next_market_id == u64::MAX {
            return Err(ERROR_OVERFLOW);
        }
        let market_id = global.next_market_id;
        let timestamp = global.counter;
        global.next_market_id = market_id + 1;
        global.market_ids.push(market_id);
        emit_market_indexed_object(events, &market, market_id);
        self.markets.push(market);
        emit_liquidity_history(
            events,
            market_id,
            timestamp,
            initial_yes_liquidity,
            initial_no_liquidity,
            0,
            0,
        );
        Ok(market_id)
    }
}

/// The registry and the counters agree: the markets are numbered 1, 2, ...
/// in `market_ids`, the next id follows the last, and every title fits.
pub open spec fn registry_wf(global: GlobalState, markets: MarketManager) -> bool {
    &&& global.next_market_id == markets.markets@.len() + 1
    &&& global.market_ids@.len() == markets.markets@.len()
    &&& forall|i: int|
        0 <= i < global.market_ids@.len() ==> #[trigger] global.market_ids@[i] == i + 1
    &&& markets.titles_bounded()
}

/// Opcodes of the first word of a transaction.
pub const TICK: u64 = 0;
pub const INSTALL_PLAYER: u64 = 1;
pub const WITHDRAW: u64 = 2;
pub const DEPOSIT: u64 = 3;
pub const BET: u64 = 4;
pub const SELL: u64 = 5;
pub const RESOLVE: u64 = 6;
pub const CLAIM: u64 = 7;
pub const WITHDRAW_FEES: u64 = 8;
pub const CREATE_MARKET: u64 = 9;

/// A decoded transaction: the command and the nonce it was signed with.
pub struct Transaction {
    pub command: Command,
    pub nonce: u64,
}

/// A boolean flag word: 0 or 1.
pub open spec fn is_flag(w: u64) -> bool {
    w <= 1
}

/// `p` is a well-formed transaction: a known opcode in the low byte of the
/// first word, the parameter count that opcode takes, and 0/1 flags.
pub open spec fn decodable(p: Seq<u64>) -> bool {
    p.len() > 0 && {
        let op = p[0] % 256;
        if op == TICK || op == INSTALL_PLAYER {
            true
        } else if op == WITHDRAW {
            p.len() == 5
        } else if op == DEPOSIT {
            p.len() == 5 && p[3] == 0
        } else if op == BET || op == SELL {
            p.len() == 4 && is_flag(p[2])
        } else if op == RESOLVE {
            p.len() == 3 && is_flag(p[2])
        } else if op == CLAIM || op == WITHDRAW_FEES {
            p.len() == 2
        } else if op == CREATE_MARKET {
            p.len() >= 7 && p.len() == 7 + p[1]
        } else {
            false
        }
    }
}

/// `c` is the command that the decodable words `p` hold.
pub open spec fn decodes_to(p: Seq<u64>, c: Command) -> bool {
    let op = p[0] % 256;
    if op == TICK {
        c is Tick
    } else if op == INSTALL_PLAYER {
        c is InstallPlayer
    } else if op == WITHDRAW {
        c == Command::Withdraw(Withdraw { data: [p[2], p[3], p[4]] })
    } else if op == DEPOSIT {
        c == Command::Deposit(Deposit { data: [p[1], p[2], p[4]] })
    } else if op == BET {
        c matches Command::Activity(Activity::Bet(m, s, a)) && m == p[1] && s == p[2] && a == p[3]
    } else if op == SELL {
        c matches Command::Activity(Activity::Sell(m, s, a)) && m == p[1] && s == p[2] && a == p[3]
    } else if op == RESOLVE {
        c matches Command::Activity(Activity::Resolve(m, o)) && m == p[1] && o == p[2]
    } else if op == CLAIM {
        c matches Command::Activity(Activity::Claim(m)) && m == p[1]
    } else if op == WITHDRAW_FEES {
        c matches Command::Activity(Activity::WithdrawFees(m)) && m == p[1]
    } else {
        let n = p[1] as int;
        c matches Command::Activity(Activity::CreateMarket(title, s, e, r, y, no)) && title@
            == p.subrange(2, 2 + n) && s == p[2 + n] && e == p[3 + n] && r == p[4 + n] && y == p[5
            + n] && no == p[6 + n]
    }
}

/// Commands that only the admin key may issue.
pub open spec fn admin_only(c: Command) -> bool {
    match c {
        Command::Tick | Command::Deposit(_) => true,
        Command::Activity(a) => a is Resolve || a is WithdrawFees || a is CreateMarket,
        _ => false,
    }
}

/// The result of command `c` with `nonce`, signed by `pkey`, on world `w`.
pub open spec fn spec_command_result(w: WorldView, pkey: [u64; 4], c: Command, nonce: u64) -> Result<
    (),
    u32,
> {
    let pid = spec_pkey_to_pid(pkey);
    let i = choose|i: int| is_player_at(w.players, i, pid);
    if admin_only(c) && !same_key(pkey, w.admin_pubkey) {
        Err(ERROR_UNAUTHORIZED)
    } else if c is Tick {
        if w.counter == u64::MAX {
            Err(ERROR_OVERFLOW)
        } else {
            Ok(())
        }
    } else if w.txcounter == u64::MAX || w.txsize == u64::MAX {
        Err(ERROR_OVERFLOW)
    } else {
        match c {
            Command::InstallPlayer => if has_player(w.players, pid) {
                Err(ERROR_PLAYER_ALREADY_EXISTS)
            } else {
                Ok(())
            },
            Command::Withdraw(cmd) => if !has_player(w.players, pid) {
                Err(ERROR_PLAYER_NOT_EXIST)
            } else {
                spec_withdraw(w, i, nonce, cmd.data)
            },
            Command::Deposit(cmd) => if !has_player(w.players, pid) {
                Err(ERROR_PLAYER_NOT_EXIST)
            } else {
                spec_deposit(w, i, nonce, cmd.data)
            },
            Command::Activity(a) => if !has_player(w.players, pid) {
                Err(ERROR_PLAYER_NOT_EXIST)
            } else {
                match spec_nonce_check(w, i, nonce) {
                    Err(e) => Err(e),
                    Ok(_) => spec_activity(w, i, a),
                }
            },
            _ => Ok(()),
        }
    }
}

/// Command `c` reached its account's nonce check and passed it: a failure
/// after that point still spends the nonce.
pub open spec fn spec_consumes_nonce(w: WorldView, pkey: [u64; 4], c: Command, nonce: u64) -> bool {
    let pid = spec_pkey_to_pid(pkey);
    let i = choose|i: int| is_player_at(w.players, i, pid);
    &&& !(admin_only(c) && !same_key(pkey, w.admin_pubkey))
    &&& !(c is Tick)
    &&& !(c is InstallPlayer)
    &&& w.txcounter < u64::MAX && w.txsize < u64::MAX
    &&& has_player(w.players, pid)
    &&& spec_nonce_check(w, i, nonce) is Ok
}

/// The result code of a result: 0 for success.
pub open spec fn result_code(r: Result<(), u32>) -> u32 {
    match r {
        Ok(_) => 0,
        Err(e) => e,
    }
}

/// The id that ties the log of a transaction to the clock and the count of
/// transactions: `(counter << 32) + txcounter`, modulo 2^64.
pub open spec fn correlation_id(counter: u64, txcounter: u64) -> u64 {
    (((counter % 0x1_0000_0000) * 0x1_0000_0000 + txcounter) % 0x1_0000_0000_0000_0000) as u64
}

/// The snapshots of the markets `ids`, in order.
pub open spec fn tick_events(markets: Seq<MarketData>, ids: Seq<u64>) -> Seq<u64>
    decreases ids.len(),
{
    if ids.len() == 0 {
        Seq::empty()
    } else {
        tick_events(markets, ids.drop_last()) + match market_at(markets, ids.last()) {
            Some(m) => market_object_event(m, ids.last()),
            None => Seq::<u64>::empty(),
        }
    }
}

/// `b` is `a` with a new account for the key's player id: nonce 0, the
/// initial balance and no position.
pub open spec fn install_effect(a: WorldView, b: WorldView, pkey: [u64; 4]) -> bool {
    let p = b.players.last();
    &&& b == WorldView { players: b.players, ..a }
    &&& b.players.len() == a.players.len() + 1
    &&& b.players.drop_last() == a.players
    &&& p.player_id == spec_pkey_to_pid(pkey)
    &&& p.nonce == 0
    &&& p.data.balance == NEW_PLAYER_INITIAL_BALANCE
    &&& forall|q: [u64; 2], m: u64| #[trigger] p.data.positions.position(q, m)
        == crate::player::empty_position()
}

/// `b` is `a` after command `c` with `nonce`, signed by `pkey`, succeeded,
/// before the transaction is counted and its log handed out.
pub open spec fn spec_command_effect(
    a: WorldView,
    b: WorldView,
    pkey: [u64; 4],
    c: Command,
    nonce: u64,
) -> bool {
    let i = choose|i: int| is_player_at(a.players, i, spec_pkey_to_pid(pkey));
    match c {
        Command::Tick => b == WorldView {
            counter: (a.counter + 1) as u64,
            events: a.events + tick_events(a.markets, a.market_ids),
            ..a
        },
        Command::InstallPlayer => install_effect(a, b, pkey),
        Command::Withdraw(w) => withdraw_effect(a, b, i, nonce, w),
        Command::Deposit(d) => deposit_effect(a, b, i, nonce, d.data),
        Command::Activity(act) => activity_effect(a, b, i, act) && b.players[i].nonce == nonce + 1,
    }
}

impl Transaction {
    /// The name of a result code.
    pub fn decode_error(e: u32) -> (r: &'static str)
        ensures
            r@ == crate::command::error_name(e),
    {
        crate::command::decode_error(e)
    }

    /// Reads a transaction from its words: word 0 holds the opcode in its low
    /// byte and the nonce from bit 16; the parameters follow.
    pub fn decode(params: &[u64]) -> (r: Result<Self, u32>)
        ensures
            r is Ok <==> decodable(params@),
            r is Err ==> r == Err::<Self, u32>(ERROR_INVALID_COMMAND),
            r matches Ok(t) ==> t.nonce == params@[0] / 0x10000 && decodes_to(params@, t.command),
    {
        if params.len() == 0 {
            return Err(ERROR_INVALID_COMMAND);
        }
        let command = params[0] % 256;
        let nonce = params[0] / 0x10000;
        let n = params.len();
        let command = if command == WITHDRAW {
            if n != 5 {
                return Err(ERROR_INVALID_COMMAND);
            }
            Command::Withdraw(Withdraw { data: [params[2], params[3], params[4]] })
        } else if command == DEPOSIT {
            if n != 5 || params[3] != 0 {
                return Err(ERROR_INVALID_COMMAND);
            }
            Command::Deposit(Deposit { data: [params[1], params[2], params[4]] })
        } else if command == BET || command == SELL {
            if n != 4 || params[2] > 1 {
                return Err(ERROR_INVALID_COMMAND);
            }
            if command == BET {
                Command::Activity(Activity::Bet(params[1], params[2], params[3]))
            } else {
                Command::Activity(Activity::Sell(params[1], params[2], params[3]))
            }
        } else if command == RESOLVE {
            if n != 3 || params[2] > 1 {
                return Err(ERROR_INVALID_COMMAND);
            }
            Command::Activity(Activity::Resolve(params[1], params[2]))
        } else if command == CLAIM || command == WITHDRAW_FEES {
            if n != 2 {
                return Err(ERROR_INVALID_COMMAND);
            }
            if command == CLAIM {
                Command::Activity(Activity::Claim(params[1]))
            } else {
                Command::Activity(Activity::WithdrawFees(params[1]))
            }
        } else if command == CREATE_MARKET {
            if n < 7 || params[1] != (n - 7) as u64 {
                return Err(ERROR_INVALID_COMMAND);
            }
            let title_len = n - 7;
            let mut title: Vec<u64> = Vec::new();
            let mut k: usize = 0;
            while k < title_len
                invariant
                    k <= title_len,
                    title_len + 7 == n,
                    n == params@.len(),
                    title@ == params@.subrange(2, 2 + k),
                decreases title_len - k,
            {
                title.push(params[2 + k]);
                assert(params@.subrange(2, 2 + k + 1) =~= params@.subrange(2, 2 + k).push(
                    params@[2 + k],
                ));
                k = k + 1;
            }
            Command::Activity(
                Activity::CreateMarket(
                    title,
                    params[2 + title_len],
                    params[3 + title_len],
                    params[4 + title_len],
                    params[5 + title_len],
                    params[6 + title_len],
                ),
            )
        } else if command == INSTALL_PLAYER {
            Command::InstallPlayer
        } else if command == TICK {
            Command::Tick
        } else {
            return Err(ERROR_INVALID_COMMAND);
        };
        Ok(Transaction { command, nonce })
    }

    /// Opens an account for the key's player id with the initial balance.
    pub fn create_player(&self, world: &mut WorldState, pkey: &[u64; 4]) -> (r: Result<(), u32>)
        requires
            old(world).wf(),
        ensures
            final(world).wf(),
            has_player(old(world)@.players, spec_pkey_to_pid(*pkey)) ==> r == Err::<(), u32>(
                ERROR_PLAYER_ALREADY_EXISTS,
            ) && final(world)@ == old(world)@,
            !has_player(old(world)@.players, spec_pkey_to_pid(*pkey)) ==> r is Ok && install_effect(
                old(world)@,
                final(world)@,
                *pkey,
            ),
    {
        let player_id = pkey_to_pid(pkey);
        match world.find_player(&player_id) {
            Some(_) => Err(ERROR_PLAYER_ALREADY_EXISTS),
            None => {
                let ghost before = world.players@;
                let player = PredictionMarketPlayer::new_with_balance(
                    player_id,
                    NEW_PLAYER_INITIAL_BALANCE,
                );
                world.players.push(player);
                proof {
                    assert(world.players@.drop_last() =~= before);
                    assert forall|x: int, y: int|
                        0 <= x < world.players@.len() && 0 <= y < world.players@.len() && x
                            != y implies !same_pid(
                        #[trigger] world.players@[x].player_id,
                        #[trigger] world.players@[y].player_id,
                    ) by {
                        if x == before.len() {
                            assert(!is_player_at(before, y, player_id));
                        } else if y == before.len() {
                            assert(!is_player_at(before, x, player_id));
                        }
                    }
                }
                Ok(())
            },
        }
    }

    /// Advances the clock by one and logs a snapshot of every market.
    pub fn tick(&self, world: &mut WorldState) -> (r: Result<(), u32>)
        requires
            old(world).wf(),
        ensures
            final(world).wf(),
            old(world)@.counter == u64::MAX ==> r == Err::<(), u32>(ERROR_OVERFLOW) && final(
                world)@ == old(world)@,
            old(world)@.counter < u64::MAX ==> r is Ok && final(world)@ == (WorldView {
                counter: (old(world)@.counter + 1) as u64,
                events: old(world)@.events + tick_events(old(world)@.markets, old(world)@.market_ids),
                ..old(world)@
            }),
    {
        if world.state.counter == u64::MAX {
            return Err(ERROR_OVERFLOW);
        }
        world.state.counter = world.state.counter + 1;
        let ghost e0 = world.events@;
        let ghost w1 = world@;
        let mut k: usize = 0;
        while k < world.state.market_ids.len()
            invariant
                k <= world.state.market_ids@.len(),
                registry_wf(world.state, world.markets),
                players_unique(world.players@),
                world@ == (WorldView { events: world@.events, ..w1 }),
                w1.events == e0,
                world.events@ == e0 + tick_events(
                    world.markets.markets@,
                    world.state.market_ids@.subrange(0, k as int),
                ),
            decreases world.state.market_ids@.len() - k,
        {
            let market_id = world.state.market_ids[k];
            world.state.emit_market_event(&world.markets, &mut world.events, market_id);
            proof {
                let ids = world.state.market_ids@.subrange(0, k + 1);
                assert(ids.drop_last() =~= world.state.market_ids@.subrange(0, k as int));
            }
            k = k + 1;
        }
        proof {
            assert(world.state.market_ids@.subrange(0, k as int) =~= world.state.market_ids@);
        }
        Ok(())
    }

    /// Counts one more successful transaction.
    pub fn inc_tx_number(&self, world: &mut WorldState)
        requires
            old(world).wf(),
            old(world)@.txsize < u64::MAX,
            old(world)@.txcounter < u64::MAX,
        ensures
            final(world).wf(),
            final(world)@ == (WorldView {
                txsize: (old(world)@.txsize + 1) as u64,
                txcounter: (old(world)@.txcounter + 1) as u64,
                ..old(world)@
            }),
    {
        world.state.txsize = world.state.txsize + 1;
        world.state.txcounter = world.state.txcounter + 1;
    }

    /// Applies the transaction signed by `pkey` and returns its result code,
    /// its correlation id and the log of events it left. Admin-only commands
    /// from another key fail `ERROR_UNAUTHORIZED`; a failed transaction
    /// changes nothing but the log and, once its nonce was accepted, the
    /// signer's nonce; a successful one other than a tick counts as a
    /// transaction.
    pub fn process(&self, world: &mut WorldState, pkey: &[u64; 4]) -> (r: Vec<u64>)
        requires
            old(world).wf(),
        ensures
            final(world).wf(),
            r@.len() >= 2,
            r@[0] == result_code(spec_command_result(old(world)@, *pkey, self.command, self.nonce)),
            r@[1] == correlation_id(final(world)@.counter, final(world)@.txcounter),
            final(world)@.events.len() == 0,
            spec_command_result(old(world)@, *pkey, self.command, self.nonce) is Err ==> {
                let kept = if spec_consumes_nonce(old(world)@, *pkey, self.command, self.nonce) {
                    bump_nonce(
                        old(world)@,
                        choose|i: int| is_player_at(old(world)@.players, i, spec_pkey_to_pid(*pkey)),
                    )
                } else {
                    old(world)@
                };
                &&& final(world)@ == WorldView { events: Seq::empty(), ..kept }
                &&& r@ == seq![r@[0], r@[1]] + old(world)@.events
            },
            spec_command_result(old(world)@, *pkey, self.command, self.nonce) is Ok ==> exists|
                b: WorldView,
            |
                {
                    &&& spec_command_effect(old(world)@, b, *pkey, self.command, self.nonce)
                    &&& final(world)@ == (WorldView {
                        events: Seq::empty(),
                        txcounter: if self.command is Tick {
                            b.txcounter
                        } else {
                            (b.txcounter + 1) as u64
                        },
                        txsize: if self.command is Tick {
                            b.txsize
                        } else {
                            (b.txsize + 1) as u64
                        },
                        ..b
                    })
                    &&& r@ == seq![r@[0], r@[1]] + b.events
                },
    {
        let pid = pkey_to_pid(pkey);
        let admin = world.is_admin(pkey);
        let counters_full = world.state.txcounter == u64::MAX || world.state.txsize == u64::MAX;
        let ghost w0 = world@;
        let ghost i = choose|i: int| is_player_at(w0.players, i, pid);
        let gated = match &self.command {
            Command::Tick | Command::Deposit(_) => true,
            Command::Activity(a) => match a {
                Activity::Resolve(_, _) | Activity::WithdrawFees(_) | Activity::CreateMarket(
                    _,
                    _,
                    _,
                    _,
                    _,
                    _,
                ) => true,
                _ => false,
            },
            _ => false,
        };
        let is_tick = match &self.command {
            Command::Tick => true,
            _ => false,
        };
        let result: Result<(), u32> = if gated && !admin {
            Err(ERROR_UNAUTHORIZED)
        } else if is_tick {
            self.tick(world)
        } else if counters_full {
            Err(ERROR_OVERFLOW)
        } else {
            match &self.command {
                Command::InstallPlayer => self.create_player(world, pkey),
                Command::Withdraw(cmd) => cmd.handle(world, &pid, self.nonce),
                Command::Deposit(cmd) => cmd.handle(world, &pid, self.nonce),
                Command::Activity(cmd) => cmd.handle(world, &pid, self.nonce),
                Command::Tick => Ok(()),
            }
        };
        let ghost b = world@;
        proof {
            if has_player(w0.players, pid) {
                assert(is_player_at(w0.players, i, pid));
            }
            if result is Ok {
                assert(spec_command_effect(w0, b, *pkey, self.command, self.nonce));
            }
        }
        assert(result is Err ==> world@ == if spec_consumes_nonce(w0, *pkey, self.command, self.nonce) {
            bump_nonce(w0, i)
        } else {
            w0
        });
        assert(result_code(result) == result_code(spec_command_result(w0, *pkey, self.command, self.nonce)));
        let code: u32 = match result {
            Ok(()) => {
                if !is_tick {
                    self.inc_tx_number(world);
                }
                0
            },
            Err(e) => e,
        };
        let eventid = ((world.state.counter % 0x1_0000_0000) * 0x1_0000_0000).wrapping_add(
            world.state.txcounter,
        );
        let head = vec![code as u64, eventid];
        let ghost before_clear = world.events@;
        let out = clear_events(head, &mut world.events);
        proof {
            assert(world.events@ =~= Seq::<u64>::empty());
            assert(out@ =~= seq![out@[0], out@[1]] + before_clear);
            if result is Ok {
                assert(before_clear == b.events);
                assert(world@ =~= WorldView {
                    events: Seq::empty(),
                    txcounter: if self.command is Tick {
                        b.txcounter
                    } else {
                        (b.txcounter + 1) as u64
                    },
                    txsize: if self.command is Tick {
                        b.txsize
                    } else {
                        (b.txsize + 1) as u64
                    },
                    ..b
                });
            }
        }
        out
    }
}

} // verus!
