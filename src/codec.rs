//! Flat word layouts of the persisted records.
use vstd::prelude::*;
use crate::market::MarketData;
use crate::player::PlayerMarketPosition;
use crate::state::GlobalState;

verus! {

/// Word of an outcome: 0 unresolved, 1 NO won, 2 YES won.
pub open spec fn outcome_word(outcome: Option<bool>) -> u64 {
    match outcome {
        None => 0,
        Some(false) => 1,
        Some(true) => 2,
    }
}

/// Outcome of a word; any word above 1 reads as YES.
pub open spec fn word_outcome(w: u64) -> Option<bool> {
    if w == 0 {
        None
    } else if w == 1 {
        Some(false)
    } else {
        Some(true)
    }
}

/// The words after the title: times, liquidities, pool, volume, share
/// totals, resolution and fees.
pub open spec fn market_tail_words(m: MarketData) -> Seq<u64> {
    seq![
        m.start_time,
        m.end_time,
        m.resolution_time,
        m.yes_liquidity,
        m.no_liquidity,
        m.prize_pool,
        m.total_volume,
        m.total_yes_shares,
        m.total_no_shares,
        if m.resolved { 1u64 } else { 0u64 },
        outcome_word(m.outcome),
        m.total_fees_collected,
    ]
}

/// A market as a word stream: the title's length, the title, then the rest.
pub open spec fn market_words(m: MarketData) -> Seq<u64> {
    seq![m.title@.len() as u64] + m.title@ + market_tail_words(m)
}

/// `m` is the market whose words start `data` and take `used` of them. A
/// resolution word reads as true when nonzero, an outcome word as in
/// `word_outcome`.
pub open spec fn market_read_from(m: MarketData, used: usize, data: Seq<u64>) -> bool {
    let b = 1 + data[0];
    &&& used == b + MARKET_TAIL_WORDS
    &&& used <= data.len()
    &&& m.title@ == data.subrange(1, b)
    &&& m.start_time == data[b]
    &&& m.end_time == data[b + 1]
    &&& m.resolution_time == data[b + 2]
    &&& m.yes_liquidity == data[b + 3]
    &&& m.no_liquidity == data[b + 4]
    &&& m.prize_pool == data[b + 5]
    &&& m.total_volume == data[b + 6]
    &&& m.total_yes_shares == data[b + 7]
    &&& m.total_no_shares == data[b + 8]
    &&& m.resolved == (data[b + 9] != 0)
    &&& m.outcome == word_outcome(data[b + 10])
    &&& m.total_fees_collected == data[b + 11]
}

/// Number of words after the title.
pub const MARKET_TAIL_WORDS: usize = 12;

impl MarketData {
    /// Appends the market's words.
    pub fn to_data(&self, data: &mut Vec<u64>)
        ensures
            final(data)@ == old(data)@ + market_words(*self),
    {
        data.push(self.title.len() as u64);
        let mut i: usize = 0;
        while i < self.title.len()
            invariant
                i <= self.title@.len(),
                data@ == old(data)@ + seq![self.title@.len() as u64] + self.title@.subrange(
                    0,
                    i as int,
                ),
            decreases self.title@.len() - i,
        {
            data.push(self.title[i]);
            assert(self.title@.subrange(0, i + 1) =~= self.title@.subrange(0, i as int).push(
                self.title@[i as int],
            ));
            i = i + 1;
        }
        assert(self.title@.subrange(0, i as int) =~= self.title@);
        data.push(self.start_time);
        data.push(self.end_time);
        data.push(self.resolution_time);
        data.push(self.yes_liquidity);
        data.push(self.no_liquidity);
        data.push(self.prize_pool);
        data.push(self.total_volume);
        data.push(self.total_yes_shares);
        data.push(self.total_no_shares);
        data.push(if self.resolved { 1 } else { 0 });
        data.push(
            match self.outcome {
                None => 0,
                Some(false) => 1,
                Some(true) => 2,
            },
        );
        data.push(self.total_fees_collected);
        assert(data@ =~= old(data)@ + market_words(*self));
    }

    /// Reads a market from the front of `data`, with the number of words it
    /// took; `None` if `data` ends first.
    pub fn from_data(data: &[u64]) -> (r: Option<(MarketData, usize)>)
        ensures
            r is None <==> data@.len() == 0 || data@.len() < 1 + data@[0] + MARKET_TAIL_WORDS,
            r matches Some((m, used)) ==> market_read_from(m, used, data@),
    {
        if data.len() == 0 {
            return None;
        }
        let title_len = data[0];
        if title_len > (data.len() - 1) as u64 || (data.len() - 1 - title_len as usize)
            < MARKET_TAIL_WORDS {
            return None;
        }
        let n = title_len as usize;
        let mut title: Vec<u64> = Vec::new();
        let mut i: usize = 0;
        while i < n
            invariant
                i <= n,
                n + 1 <= data@.len(),
                title@ == data@.subrange(1, 1 + i),
            decreases n - i,
        {
            title.push(data[1 + i]);
            assert(data@.subrange(1, 1 + i + 1) =~= data@.subrange(1, 1 + i).push(data@[1 + i]));
            i = i + 1;
        }
        let b = 1 + n;
        let outcome_val = data[b + 10];
        let m = MarketData {
            title,
            start_time: data[b],
            end_time: data[b + 1],
            resolution_time: data[b + 2],
            yes_liquidity: data[b + 3],
            no_liquidity: data[b + 4],
            prize_pool: data[b + 5],
            total_volume: data[b + 6],
            total_yes_shares: data[b + 7],
            total_no_shares: data[b + 8],
            resolved: data[b + 9] != 0,
            outcome: if outcome_val == 0 {
                None
            } else if outcome_val == 1 {
                Some(false)
            } else {
                Some(true)
            },
            total_fees_collected: data[b + 11],
        };
        Some((m, b + MARKET_TAIL_WORDS))
    }
}

impl PlayerMarketPosition {
    /// Shares of each side, then the claim latch as 0 or 1.
    pub open spec fn words(self) -> Seq<u64> {
        seq![self.yes_shares, self.no_shares, if self.claimed { 1u64 } else { 0u64 }]
    }

    /// Appends the position's words.
    pub fn to_data(&self, data: &mut Vec<u64>)
        ensures
            final(data)@ == old(data)@ + self.words(),
    {
        data.push(self.yes_shares);
        data.push(self.no_shares);
        data.push(if self.claimed { 1 } else { 0 });
    }

    /// Reads a position from the first three words; any nonzero third word
    /// reads as claimed. `None` if fewer words are given.
    pub fn from_data(data: &[u64]) -> (r: Option<PlayerMarketPosition>)
        ensures
            data@.len() < 3 ==> r is None,
            data@.len() >= 3 ==> r == Some(
                PlayerMarketPosition {
                    yes_shares: data@[0],
                    no_shares: data@[1],
                    claimed: data@[2] != 0,
                },
            ),
    {
        if data.len() < 3 {
            return None;
        }
        Some(PlayerMarketPosition { yes_shares: data[0], no_shares: data[1], claimed: data[2] != 0 })
    }
}

/// The global state as words: clock, players, batch size, transaction count,
/// next market id, then the market ids with their count first.
pub open spec fn global_words(g: GlobalState) -> Seq<u64> {
    seq![
        g.counter,
        g.total_players,
        g.txsize,
        g.txcounter,
        g.next_market_id,
        g.market_ids@.len() as u64,
    ] + g.market_ids@
}

impl GlobalState {
    /// Appends the state's words.
    pub fn to_data(&self, data: &mut Vec<u64>)
        ensures
            final(data)@ == old(data)@ + global_words(*self),
    {
        data.push(self.counter);
        data.push(self.total_players);
        data.push(self.txsize);
        data.push(self.txcounter);
        data.push(self.next_market_id);
        data.push(self.market_ids.len() as u64);
        let ghost base = data@;
        let mut i: usize = 0;
        while i < self.market_ids.len()
            invariant
                i <= self.market_ids@.len(),
                data@ == base + self.market_ids@.subrange(0, i as int),
            decreases self.market_ids@.len() - i,
        {
            data.push(self.market_ids[i]);
            assert(self.market_ids@.subrange(0, i + 1) =~= self.market_ids@.subrange(0, i as int).push(
                self.market_ids@[i as int],
            ));
            i = i + 1;
        }
        assert(self.market_ids@.subrange(0, i as int) =~= self.market_ids@);
        assert(data@ =~= old(data)@ + global_words(*self));
    }

    /// Reads a state from the front of `data`. Market ids past the end of
    /// `data` are dropped; `None` if the six leading words are not there.
    pub fn from_data(data: &[u64]) -> (r: Option<GlobalState>)
        ensures
            data@.len() < 6 ==> r is None,
            data@.len() >= 6 ==> (r matches Some(g) && g.counter == data@[0] && g.total_players
                == data@[1] && g.txsize == data@[2] && g.txcounter == data@[3]
                && g.next_market_id == data@[4] && g.market_ids@ == data@.subrange(
                6,
                if 6 + data@[5] <= data@.len() { 6 + data@[5] } else { data@.len() as int },
            )),
    {
        if data.len() < 6 {
            return None;
        }
        let market_count = data[5];
        let available = (data.len() - 6) as u64;
        let n: usize = if market_count <= available {
            market_count as usize
        } else {
            available as usize
        };
        let len = data.len();
        let mut market_ids: Vec<u64> = Vec::new();
        let mut i: usize = 0;
        while i < n
            invariant
                i <= n,
                len == data@.len(),
                6 + n <= len,
                market_ids@ == data@.subrange(6, 6 + i),
            decreases n - i,
        {
            market_ids.push(data[6 + i]);
            assert(data@.subrange(6, 6 + i + 1) =~= data@.subrange(6, 6 + i).push(data@[6 + i]));
            i = i + 1;
        }
        Some(
            GlobalState {
                counter: data[0],
                total_players: data[1],
                txsize: data[2],
                txcounter: data[3],
                next_market_id: data[4],
                market_ids,
            },
        )
    }
}

/// Reading back the words of a market gives the market: its title and every
/// field, whatever follows the words.
pub proof fn lemma_market_words_round_trip(m: MarketData, rest: Seq<u64>, back: MarketData, used: usize)
    requires
        m.title@.len() < u64::MAX,
        market_read_from(back, used, market_words(m) + rest),
    ensures
        used == market_words(m).len(),
        back.title@ == m.title@,
        market_tail_words(back) == market_tail_words(m),
        back.resolved == m.resolved,
        back.outcome == m.outcome,
{
    let data = market_words(m) + rest;
    let n = m.title@.len() as int;
    assert(data[0] == n);
    assert(data.subrange(1, 1 + n) =~= m.title@);
    let b = 1 + n;
    assert(market_tail_words(m) =~= data.subrange(b, b + 12));
    assert(market_tail_words(back) =~= market_tail_words(m));
}

} // verus!
