//! The whole state that transactions act on, owned by the command processor.
use vstd::prelude::*;
use crate::market::MarketData;
use crate::player::PredictionMarketPlayer;
use crate::state::{GlobalState, MarketManager, registry_wf};
use crate::command::Withdraw;

verus! {

/// The two player ids are the same.
pub open spec fn same_pid(a: [u64; 2], b: [u64; 2]) -> bool {
    a[0] == b[0] && a[1] == b[1]
}

/// The two public keys are the same.
pub open spec fn same_key(a: [u64; 4], b: [u64; 4]) -> bool {
    a[0] == b[0] && a[1] == b[1] && a[2] == b[2] && a[3] == b[3]
}

/// What a world holds, as mathematical values.
pub struct WorldView {
    pub counter: u64,
    pub market_ids: Seq<u64>,
    pub next_market_id: u64,
    pub total_players: u64,
    pub txsize: u64,
    pub txcounter: u64,
    pub markets: Seq<MarketData>,
    pub players: Seq<PredictionMarketPlayer>,
    pub events: Seq<u64>,
    pub withdrawals: Seq<Withdraw>,
    pub admin_pubkey: [u64; 4],
}

/// Clock and counters, markets, accounts, the event log of the transaction
/// under way, the queue of withdrawals for settlement, and the admin key.
pub struct WorldState {
    pub state: GlobalState,
    pub markets: MarketManager,
    pub players: Vec<PredictionMarketPlayer>,
    pub events: Vec<u64>,
    pub withdrawals: Vec<Withdraw>,
    pub admin_pubkey: [u64; 4],
}

impl View for WorldState {
    type V = WorldView;

    open spec fn view(&self) -> WorldView {
        WorldView {
            counter: self.state.counter,
            market_ids: self.state.market_ids@,
            next_market_id: self.state.next_market_id,
            total_players: self.state.total_players,
            txsize: self.state.txsize,
            txcounter: self.state.txcounter,
            markets: self.markets.markets@,
            players: self.players@,
            events: self.events@,
            withdrawals: self.withdrawals@,
            admin_pubkey: self.admin_pubkey,
        }
    }
}

/// Index `i` holds the account of `pid`.
pub open spec fn is_player_at(players: Seq<PredictionMarketPlayer>, i: int, pid: [u64; 2]) -> bool {
    0 <= i < players.len() && same_pid(players[i].player_id, pid)
}

/// No two accounts share an id.
pub open spec fn players_unique(players: Seq<PredictionMarketPlayer>) -> bool {
    forall|i: int, j: int|
        0 <= i < players.len() && 0 <= j < players.len() && i != j ==> !same_pid(
            #[trigger] players[i].player_id,
            #[trigger] players[j].player_id,
        )
}

/// `pid` has an account.
pub open spec fn has_player(players: Seq<PredictionMarketPlayer>, pid: [u64; 2]) -> bool {
    exists|i: int| is_player_at(players, i, pid)
}

impl WorldState {
    pub open spec fn wf(&self) -> bool {
        &&& registry_wf(self.state, self.markets)
        &&& players_unique(self.players@)
    }

    /// A world with no market and no account, administered by `admin_pubkey`.
    pub fn new(admin_pubkey: [u64; 4]) -> (r: Self)
        ensures
            r.wf(),
            r@.counter == 0,
            r@.next_market_id == 1,
            r@.markets.len() == 0,
            r@.players.len() == 0,
            r@.events.len() == 0,
            r@.withdrawals.len() == 0,
            r@.txcounter == 0,
            r@.admin_pubkey == admin_pubkey,
    {
        WorldState {
            state: GlobalState::new(),
            markets: MarketManager::new(),
            players: Vec::new(),
            events: Vec::new(),
            withdrawals: Vec::new(),
            admin_pubkey,
        }
    }

    /// Index of the account of `pid`, if it has one.
    pub fn find_player(&self, pid: &[u64; 2]) -> (r: Option<usize>)
        ensures
            match r {
                Some(i) => is_player_at(self.players@, i as int, *pid),
                None => !has_player(self.players@, *pid),
            },
    {
        let mut i: usize = 0;
        while i < self.players.len()
            invariant
                i <= self.players@.len(),
                forall|j: int| 0 <= j < i ==> !is_player_at(self.players@, j, *pid),
            decreases self.players@.len() - i,
        {
            let id = self.players[i].player_id;
            if id[0] == pid[0] && id[1] == pid[1] {
                return Some(i);
            }
            i = i + 1;
        }
        None
    }

    /// Puts a stored global state in place if it agrees with the registry
    /// (ids 1, 2, ... for the markets held, and the next id after them);
    /// otherwise changes nothing. Returns whether it was put in place.
    pub fn restore_state(&mut self, state: GlobalState) -> (r: bool)
        requires
            old(self).wf(),
        ensures
            final(self).wf(),
            r == registry_wf(state, old(self).markets),
            r ==> final(self).state == state && final(self).markets == old(self).markets
                && final(self).players == old(self).players && final(self).events
                == old(self).events && final(self).withdrawals == old(self).withdrawals
                && final(self).admin_pubkey == old(self).admin_pubkey,
            !r ==> *final(self) == *old(self),
    {
        let n = self.markets.markets.len();
        if n as u64 == u64::MAX || state.next_market_id != n as u64 + 1 || state.market_ids.len() != n {
            return false;
        }
        let mut k: usize = 0;
        while k < n
            invariant
                k <= n,
                *self == *old(self),
                self.wf(),
                n == self.markets.markets@.len(),
                state.market_ids@.len() == n,
                forall|j: int| 0 <= j < k ==> #[trigger] state.market_ids@[j] == j + 1,
            decreases n - k,
        {
            if state.market_ids[k] != k as u64 + 1 {
                return false;
            }
            k = k + 1;
        }
        self.state = state;
        true
    }

    /// `pkey` is the admin key.
    pub fn is_admin(&self, pkey: &[u64; 4]) -> (r: bool)
        ensures
            r == same_key(*pkey, self.admin_pubkey),
    {
        pkey[0] == self.admin_pubkey[0] && pkey[1] == self.admin_pubkey[1] && pkey[2]
            == self.admin_pubkey[2] && pkey[3] == self.admin_pubkey[3]
    }
}

} // verus!
