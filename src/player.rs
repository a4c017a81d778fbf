//! Player accounts: a fungible balance, a nonce against replay, and the
//! ledger of share positions per (player, market).
use vstd::prelude::*;
use crate::error::{
    ERROR_INSUFFICIENT_BALANCE, ERROR_ALREADY_CLAIMED, ERROR_OVERFLOW,
};

verus! {

/// A player's shares in one market, and whether the winnings were claimed.
#[derive(Clone, Copy, Debug, PartialEq, Eq, Structural)]
pub struct PlayerMarketPosition {
    pub yes_shares: u64,
    pub no_shares: u64,
    pub claimed: bool,
}

/// The position of a (player, market) pair that was never touched.
pub open spec fn empty_position() -> PlayerMarketPosition {
    PlayerMarketPosition { yes_shares: 0, no_shares: 0, claimed: false }
}

impl Default for PlayerMarketPosition {
    fn default() -> (r: Self)
        ensures
            r == empty_position(),
    {
        PlayerMarketPosition { yes_shares: 0, no_shares: 0, claimed: false }
    }
}

/// Key of a position: the two words of the player id and the market id.
pub type PositionKey = (u64, u64, u64);

pub open spec fn position_key(player_id: [u64; 2], market_id: u64) -> PositionKey {
    (player_id[0], player_id[1], market_id)
}

/// One stored position.
#[derive(Clone, Copy, Debug)]
pub struct PositionEntry {
    pub player_id: [u64; 2],
    pub market_id: u64,
    pub position: PlayerMarketPosition,
}

pub open spec fn entry_key(e: PositionEntry) -> PositionKey {
    position_key(e.player_id, e.market_id)
}

/// The position stored under `key`: the last entry with that key, or the
/// empty position when there is none.
pub open spec fn lookup(entries: Seq<PositionEntry>, key: PositionKey) -> PlayerMarketPosition
    decreases entries.len(),
{
    if entries.len() == 0 {
        empty_position()
    } else if entry_key(entries.last()) == key {
        entries.last().position
    } else {
        lookup(entries.drop_last(), key)
    }
}

proof fn lemma_lookup_update(entries: Seq<PositionEntry>, i: int, e: PositionEntry, key: PositionKey)
    requires
        0 <= i < entries.len(),
        entry_key(entries[i]) == entry_key(e),
        forall|j: int| i < j < entries.len() ==> entry_key(#[trigger] entries[j]) != entry_key(e),
    ensures
        lookup(entries.update(i, e), key) == (if key == entry_key(e) {
            e.position
        } else {
            lookup(entries, key)
        }),
    decreases entries.len(),
{
    let s2 = entries.update(i, e);
    if i == entries.len() - 1 {
        assert(s2.drop_last() =~= entries.drop_last());
    } else {
        let last = entries.len() - 1;
        assert(entry_key(entries[last]) != entry_key(e));
        assert(s2.drop_last() =~= entries.drop_last().update(i, e));
        lemma_lookup_update(entries.drop_last(), i, e, key);
    }
}

/// The ledger of positions, keyed by (player, market). A pair with no entry
/// holds the empty position.
#[derive(Clone, Debug)]
pub struct PlayerMarketManager {
    pub entries: Vec<PositionEntry>,
}

impl PlayerMarketManager {
    pub open spec fn position(&self, player_id: [u64; 2], market_id: u64) -> PlayerMarketPosition {
        lookup(self.entries@, position_key(player_id, market_id))
    }

    /// The ledger in which every position is empty.
    pub fn new() -> (r: Self)
        ensures
            forall|p: [u64; 2], m: u64| r.position(p, m) == empty_position(),
    {
        PlayerMarketManager { entries: Vec::new() }
    }

    /// Index of the last entry under `key`, if any.
    fn find(&self, player_id: &[u64; 2], market_id: u64) -> (r: Option<usize>)
        ensures
            match r {
                Some(i) => i < self.entries@.len() && entry_key(self.entries@[i as int])
                    == position_key(*player_id, market_id) && forall|j: int|
                    i < j < self.entries@.len() ==> entry_key(#[trigger] self.entries@[j])
                    != position_key(*player_id, market_id),
                None => self.position(*player_id, market_id) == empty_position(),
            },
    {
        let ghost key = position_key(*player_id, market_id);
        let mut j: usize = self.entries.len();
        assert(self.entries@.subrange(0, j as int) =~= self.entries@);
        while j > 0
            invariant
                j <= self.entries@.len(),
                key == position_key(*player_id, market_id),
                forall|t: int| j <= t < self.entries@.len() ==> entry_key(#[trigger] self.entries@[t])
                    != key,
                lookup(self.entries@, key) == lookup(self.entries@.subrange(0, j as int), key),
            decreases j,
        {
            let e = &self.entries[j - 1];
            if e.player_id[0] == player_id[0] && e.player_id[1] == player_id[1] && e.market_id
                == market_id {
                return Some(j - 1);
            }
            assert(self.entries@.subrange(0, j as int).drop_last() =~= self.entries@.subrange(
                0,
                j - 1,
            ));
            j = j - 1;
        }
        None
    }

    /// The position of `player_id` in `market_id`; empty if never stored.
    pub fn get_position(&self, player_id: &[u64; 2], market_id: u64) -> (r: PlayerMarketPosition)
        ensures
            r == self.position(*player_id, market_id),
    {
        match self.find(player_id, market_id) {
            Some(i) => {
                proof {
                    lemma_lookup_update(
                        self.entries@,
                        i as int,
                        self.entries@[i as int],
                        position_key(*player_id, market_id),
                    );
                    assert(self.entries@.update(i as int, self.entries@[i as int])
                        =~= self.entries@);
                }
                self.entries[i].position
            },
            None => PlayerMarketPosition::default(),
        }
    }

    /// Stores `position` for `player_id` in `market_id`; no other pair changes.
    pub fn store_position(
        &mut self,
        player_id: &[u64; 2],
        market_id: u64,
        position: &PlayerMarketPosition,
    )
        ensures
            forall|p: [u64; 2], m: u64|
                #![trigger final(self).position(p, m)]
                final(self).position(p, m) == if position_key(p, m) == position_key(
                    *player_id,
                    market_id,
                ) {
                    *position
                } else {
                    old(self).position(p, m)
                },
    {
        let entry = PositionEntry { player_id: *player_id, market_id, position: *position };
        match self.find(player_id, market_id) {
            Some(i) => {
                let ghost before = self.entries@;
                self.entries.set(i, entry);
                proof {
                    assert forall|p: [u64; 2], m: u64| #![auto]
                        lookup(self.entries@, position_key(p, m)) == if position_key(p, m)
                            == position_key(*player_id, market_id) {
                            *position
                        } else {
                            lookup(before, position_key(p, m))
                        } by {
                        lemma_lookup_update(before, i as int, entry, position_key(p, m));
                    }
                }
            },
            None => {
                let ghost before = self.entries@;
                self.entries.push(entry);
                proof {
                    assert(self.entries@.drop_last() =~= before);
                }
            },
        }
    }
}

/// A player's funds and share positions.
#[derive(Clone, Debug)]
pub struct PlayerData {
    pub balance: u64,
    pub positions: PlayerMarketManager,
}

impl PlayerData {
    /// No funds and no positions.
    pub fn new() -> (r: Self)
        ensures
            r.balance == 0,
            forall|p: [u64; 2], m: u64| r.positions.position(p, m) == empty_position(),
    {
        PlayerData { balance: 0, positions: PlayerMarketManager::new() }
    }

    /// Credits `amount`; fails on overflow and then leaves the balance as it was.
    pub fn add_balance(&mut self, amount: u64) -> (r: Result<(), u32>)
        ensures
            old(self).balance + amount <= u64::MAX ==> r is Ok && final(self).balance == old(
                self).balance + amount,
            old(self).balance + amount > u64::MAX ==> r == Err::<(), u32>(ERROR_OVERFLOW)
                && final(self).balance == old(self).balance,
            final(self).positions == old(self).positions,
    {
        if amount > u64::MAX - self.balance {
            return Err(ERROR_OVERFLOW);
        }
        self.balance = self.balance + amount;
        Ok(())
    }

    /// Debits `amount` if the balance covers it.
    pub fn spend_balance(&mut self, amount: u64) -> (r: Result<(), u32>)
        ensures
            old(self).balance >= amount ==> r is Ok && final(self).balance == old(self).balance
                - amount,
            old(self).balance < amount ==> r == Err::<(), u32>(ERROR_INSUFFICIENT_BALANCE)
                && final(self).balance == old(self).balance,
            final(self).positions == old(self).positions,
    {
        if self.balance < amount {
            return Err(ERROR_INSUFFICIENT_BALANCE);
        }
        self.balance = self.balance - amount;
        Ok(())
    }

    pub fn get_yes_shares_for_market(&self, player_id: &[u64; 2], market_id: u64) -> (r: u64)
        ensures
            r == self.positions.position(*player_id, market_id).yes_shares,
    {
        self.positions.get_position(player_id, market_id).yes_shares
    }

    pub fn get_no_shares_for_market(&self, player_id: &[u64; 2], market_id: u64) -> (r: u64)
        ensures
            r == self.positions.position(*player_id, market_id).no_shares,
    {
        self.positions.get_position(player_id, market_id).no_shares
    }

    /// Adds YES shares to the position; fails on overflow and then changes nothing.
    pub fn add_yes_shares_for_market(&mut self, player_id: &[u64; 2], market_id: u64, shares: u64) -> (r:
        Result<(), u32>)
        ensures
            ({
                let p = old(self).positions.position(*player_id, market_id);
                &&& p.yes_shares + shares <= u64::MAX ==> r is Ok && final(self).positions.position(
                    *player_id,
                    market_id,
                ) == (PlayerMarketPosition { yes_shares: (p.yes_shares + shares) as u64, ..p })
                &&& p.yes_shares + shares > u64::MAX ==> r == Err::<(), u32>(ERROR_OVERFLOW)
                    && final(self).positions.position(*player_id, market_id) == p
            }),
            forall|q: [u64; 2], m: u64|
                position_key(q, m) != position_key(*player_id, market_id) ==> #[trigger] final(
                    self).positions.position(q, m) == old(self).positions.position(q, m),
            final(self).balance == old(self).balance,
    {
        let mut position = self.positions.get_position(player_id, market_id);
        if shares > u64::MAX - position.yes_shares {
            return Err(ERROR_OVERFLOW);
        }
        position.yes_shares = position.yes_shares + shares;
        self.positions.store_position(player_id, market_id, &position);
        Ok(())
    }

    /// Adds NO shares to the position; fails on overflow and then changes nothing.
    pub fn add_no_shares_for_market(&mut self, player_id: &[u64; 2], market_id: u64, shares: u64) -> (r:
        Result<(), u32>)
        ensures
            ({
                let p = old(self).positions.position(*player_id, market_id);
                &&& p.no_shares + shares <= u64::MAX ==> r is Ok && final(self).positions.position(
                    *player_id,
                    market_id,
                ) == (PlayerMarketPosition { no_shares: (p.no_shares + shares) as u64, ..p })
                &&& p.no_shares + shares > u64::MAX ==> r == Err::<(), u32>(ERROR_OVERFLOW)
                    && final(self).positions.position(*player_id, market_id) == p
            }),
            forall|q: [u64; 2], m: u64|
                position_key(q, m) != position_key(*player_id, market_id) ==> #[trigger] final(
                    self).positions.position(q, m) == old(self).positions.position(q, m),
            final(self).balance == old(self).balance,
    {
        let mut position = self.positions.get_position(player_id, market_id);
        if shares > u64::MAX - position.no_shares {
            return Err(ERROR_OVERFLOW);
        }
        position.no_shares = position.no_shares + shares;
        self.positions.store_position(player_id, market_id, &position);
        Ok(())
    }

    /// Removes YES shares from the position if it holds enough.
    pub fn subtract_yes_shares_for_market(
        &mut self,
        player_id: &[u64; 2],
        market_id: u64,
        shares: u64,
    ) -> (r: Result<(), u32>)
        ensures
            ({
                let p = old(self).positions.position(*player_id, market_id);
                &&& p.yes_shares >= shares ==> r is Ok && final(self).positions.position(
                    *player_id,
                    market_id,
                ) == (PlayerMarketPosition { yes_shares: (p.yes_shares - shares) as u64, ..p })
                &&& p.yes_shares < shares ==> r == Err::<(), u32>(ERROR_INSUFFICIENT_BALANCE)
                    && final(self).positions.position(*player_id, market_id) == p
            }),
            forall|q: [u64; 2], m: u64|
                position_key(q, m) != position_key(*player_id, market_id) ==> #[trigger] final(
                    self).positions.position(q, m) == old(self).positions.position(q, m),
            final(self).balance == old(self).balance,
    {
        let mut position = self.positions.get_position(player_id, market_id);
        if position.yes_shares < shares {
            return Err(ERROR_INSUFFICIENT_BALANCE);
        }
        position.yes_shares = position.yes_shares - shares;
        self.positions.store_position(player_id, market_id, &position);
        Ok(())
    }

    /// Removes NO shares from the position if it holds enough.
    pub fn subtract_no_shares_for_market(
        &mut self,
        player_id: &[u64; 2],
        market_id: u64,
        shares: u64,
    ) -> (r: Result<(), u32>)
        ensures
            ({
                let p = old(self).positions.position(*player_id, market_id);
                &&& p.no_shares >= shares ==> r is Ok && final(self).positions.position(
                    *player_id,
                    market_id,
                ) == (PlayerMarketPosition { no_shares: (p.no_shares - shares) as u64, ..p })
                &&& p.no_shares < shares ==> r == Err::<(), u32>(ERROR_INSUFFICIENT_BALANCE)
                    && final(self).positions.position(*player_id, market_id) == p
            }),
            forall|q: [u64; 2], m: u64|
                position_key(q, m) != position_key(*player_id, market_id) ==> #[trigger] final(
                    self).positions.position(q, m) == old(self).positions.position(q, m),
            final(self).balance == old(self).balance,
    {
        let mut position = self.positions.get_position(player_id, market_id);
        if position.no_shares < shares {
            return Err(ERROR_INSUFFICIENT_BALANCE);
        }
        position.no_shares = position.no_shares - shares;
        self.positions.store_position(player_id, market_id, &position);
        Ok(())
    }

    /// Sets the claim latch of the position; a second claim fails.
    pub fn claim_winnings_for_market(&mut self, player_id: &[u64; 2], market_id: u64) -> (r: Result<
        (),
        u32,
    >)
        ensures
            ({
                let p = old(self).positions.position(*player_id, market_id);
                &&& p.claimed ==> r == Err::<(), u32>(ERROR_ALREADY_CLAIMED) && final(
                    self).positions.position(*player_id, market_id) == p
                &&& !p.claimed ==> r is Ok && final(self).positions.position(*player_id, market_id)
                    == (PlayerMarketPosition { claimed: true, ..p })
            }),
            forall|q: [u64; 2], m: u64|
                position_key(q, m) != position_key(*player_id, market_id) ==> #[trigger] final(
                    self).positions.position(q, m) == old(self).positions.position(q, m),
            final(self).balance == old(self).balance,
    {
        let mut position = self.positions.get_position(player_id, market_id);
        if position.claimed {
            return Err(ERROR_ALREADY_CLAIMED);
        }
        position.claimed = true;
        self.positions.store_position(player_id, market_id, &position);
        Ok(())
    }
}

/// An account: its id, its nonce and its data.
#[derive(Clone, Debug)]
pub struct PredictionMarketPlayer {
    pub player_id: [u64; 2],
    pub nonce: u64,
    pub data: PlayerData,
}

impl PredictionMarketPlayer {
    /// The account of the key's player id in `players`, if it has one.
    pub fn get<'a>(players: &'a Vec<PredictionMarketPlayer>, pkey: &[u64; 4]) -> (r: Option<&'a PredictionMarketPlayer>)
        ensures
            match r {
                Some(p) => exists|i: int|
                    0 <= i < players@.len() && players@[i] == *p && p.player_id[0] == pkey[1]
                        && p.player_id[1] == pkey[2],
                None => forall|i: int|
                    0 <= i < players@.len() ==> !(players@[i].player_id[0] == pkey[1]
                        && players@[i].player_id[1] == pkey[2]),
            },
    {
        let pid = pkey_to_pid(pkey);
        let mut i: usize = 0;
        while i < players.len()
            invariant
                i <= players@.len(),
                pid == spec_pkey_to_pid(*pkey),
                forall|j: int|
                    0 <= j < i ==> !(players@[j].player_id[0] == pkey[1] && players@[j].player_id[1]
                        == pkey[2]),
            decreases players@.len() - i,
        {
            if players[i].player_id[0] == pid[0] && players[i].player_id[1] == pid[1] {
                return Some(&players[i]);
            }
            i = i + 1;
        }
        None
    }

    /// A new account for `player_id` with nonce zero and `balance`.
    pub fn new_with_balance(player_id: [u64; 2], balance: u64) -> (r: Self)
        ensures
            r.player_id == player_id,
            r.nonce == 0,
            r.data.balance == balance,
            forall|p: [u64; 2], m: u64| r.data.positions.position(p, m) == empty_position(),
    {
        let mut data = PlayerData::new();
        data.balance = balance;
        PredictionMarketPlayer { player_id, nonce: 0, data }
    }
}

/// The player id of a public key: its second and third words.
pub open spec fn spec_pkey_to_pid(pkey: [u64; 4]) -> [u64; 2] {
    [pkey[1], pkey[2]]
}

pub fn pkey_to_pid(pkey: &[u64; 4]) -> (r: [u64; 2])
    ensures
        r == spec_pkey_to_pid(*pkey),
{
    [pkey[1], pkey[2]]
}

} // verus!
