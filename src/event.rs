//! The event log that a transaction leaves: each record is a header word
//! `(type << 32) + payload length` followed by the payload.
use vstd::prelude::*;
use crate::market::{MarketData, MAX_TITLE_WORDS};
use crate::codec::market_words;

verus! {

pub const EVENT_PLAYER_UPDATE: u64 = 1;
pub const EVENT_MARKET_UPDATE: u64 = 2;
pub const EVENT_BET_UPDATE: u64 = 3;
pub const EVENT_INDEXED_OBJECT: u64 = 4;

/// Object index of a market snapshot.
pub const MARKET_INFO: u64 = 1;
/// Object index of a liquidity history entry.
pub const LIQUIDITY_HISTORY_INFO: u64 = 2;

/// One record of the log.
pub open spec fn event_record(typ: u64, data: Seq<u64>) -> Seq<u64> {
    seq![(typ * 0x1_0000_0000 + data.len()) as u64] + data
}

/// Appends a record of `typ` holding `data`, which is left empty.
pub fn insert_event(events: &mut Vec<u64>, typ: u64, data: &mut Vec<u64>)
    requires
        typ < 0x1_0000_0000,
        old(data)@.len() < 0x1_0000_0000,
    ensures
        final(events)@ == old(events)@ + event_record(typ, old(data)@),
        final(data)@.len() == 0,
{
    let header = typ * 0x1_0000_0000 + data.len() as u64;
    events.push(header);
    events.append(data);
}

/// Moves the whole log behind `prefix` and leaves the log empty.
pub fn clear_events(prefix: Vec<u64>, events: &mut Vec<u64>) -> (r: Vec<u64>)
    ensures
        r@ == prefix@ + old(events)@,
        final(events)@.len() == 0,
{
    let mut c = prefix;
    c.append(events);
    c
}

/// The snapshot record of market `market_id`.
pub open spec fn market_object_event(market: MarketData, market_id: u64) -> Seq<u64> {
    event_record(EVENT_INDEXED_OBJECT, seq![MARKET_INFO, market_id] + market_words(market))
}

/// Logs a snapshot of market `market_id`.
pub fn emit_market_indexed_object(events: &mut Vec<u64>, market: &MarketData, market_id: u64)
    requires
        market.title@.len() <= MAX_TITLE_WORDS,
    ensures
        final(events)@ == old(events)@ + market_object_event(*market, market_id),
{
    let mut data: Vec<u64> = Vec::new();
    data.push(MARKET_INFO);
    data.push(market_id);
    market.to_data(&mut data);
    assert(data@ =~= seq![MARKET_INFO, market_id] + market_words(*market));
    insert_event(events, EVENT_INDEXED_OBJECT, &mut data);
}

/// One point of a market's liquidity history.
#[derive(Clone, Copy, Debug)]
pub struct LiquidityHistoryEntry {
    pub market_id: u64,
    pub counter: u64,
    pub yes_liquidity: u64,
    pub no_liquidity: u64,
    pub total_volume: u64,
    /// 0 creation, 1 bet, 2 sell, 3 resolution.
    pub action_type: u64,
}

impl LiquidityHistoryEntry {
    pub open spec fn words(self) -> Seq<u64> {
        seq![
            self.market_id,
            self.counter,
            self.yes_liquidity,
            self.no_liquidity,
            self.total_volume,
            self.action_type,
        ]
    }

    /// Appends the entry's words.
    pub fn to_data(&self, data: &mut Vec<u64>)
        ensures
            final(data)@ == old(data)@ + self.words(),
    {
        data.push(self.market_id);
        data.push(self.counter);
        data.push(self.yes_liquidity);
        data.push(self.no_liquidity);
        data.push(self.total_volume);
        data.push(self.action_type);
    }

    /// Reads an entry from the first six words; `None` if fewer are given.
    pub fn from_data(data: &[u64]) -> (r: Option<LiquidityHistoryEntry>)
        ensures
            data@.len() < 6 ==> r is None,
            data@.len() >= 6 ==> (r matches Some(e) && e.words() == data@.subrange(0, 6)),
    {
        if data.len() < 6 {
            return None;
        }
        let e = LiquidityHistoryEntry {
            market_id: data[0],
            counter: data[1],
            yes_liquidity: data[2],
            no_liquidity: data[3],
            total_volume: data[4],
            action_type: data[5],
        };
        assert(e.words() =~= data@.subrange(0, 6));
        Some(e)
    }
}

/// The history record of a market event.
pub open spec fn liquidity_history_event(entry: LiquidityHistoryEntry) -> Seq<u64> {
    event_record(EVENT_INDEXED_OBJECT, seq![LIQUIDITY_HISTORY_INFO] + entry.words())
}

/// Logs a point of the liquidity history of market `market_id`.
pub fn emit_liquidity_history(
    events: &mut Vec<u64>,
    market_id: u64,
    counter: u64,
    yes_liquidity: u64,
    no_liquidity: u64,
    total_volume: u64,
    action_type: u64,
)
    ensures
        final(events)@ == old(events)@ + liquidity_history_event(
            LiquidityHistoryEntry {
                market_id,
                counter,
                yes_liquidity,
                no_liquidity,
                total_volume,
                action_type,
            },
        ),
{
    let history_entry = LiquidityHistoryEntry {
        market_id,
        counter,
        yes_liquidity,
        no_liquidity,
        total_volume,
        action_type,
    };
    let mut data: Vec<u64> = Vec::new();
    data.push(LIQUIDITY_HISTORY_INFO);
    history_entry.to_data(&mut data);
    insert_event(events, EVENT_INDEXED_OBJECT, &mut data);
}

/// The pricing state of a market as broadcast to clients.
#[derive(Clone, Copy, Debug)]
pub struct MarketEvent {
    pub yes_liquidity: u64,
    pub no_liquidity: u64,
    /// 1 when resolved.
    pub resolved: u64,
    /// 1 when YES won; meaningless while unresolved.
    pub outcome: u64,
}

impl MarketEvent {
    pub open spec fn words(self) -> Seq<u64> {
        seq![self.yes_liquidity, self.no_liquidity, self.resolved, self.outcome]
    }

    /// The broadcast state of `m`.
    pub fn from_market(m: &MarketData) -> (r: MarketEvent)
        ensures
            r.yes_liquidity == m.yes_liquidity,
            r.no_liquidity == m.no_liquidity,
            r.resolved == (if m.resolved { 1u64 } else { 0u64 }),
            r.outcome == (if m.outcome == Some(true) { 1u64 } else { 0u64 }),
    {
        MarketEvent {
            yes_liquidity: m.yes_liquidity,
            no_liquidity: m.no_liquidity,
            resolved: if m.resolved { 1 } else { 0 },
            outcome: match m.outcome {
                Some(true) => 1,
                _ => 0,
            },
        }
    }

    /// Appends the event's words.
    pub fn to_data(&self, data: &mut Vec<u64>)
        ensures
            final(data)@ == old(data)@ + self.words(),
    {
        data.push(self.yes_liquidity);
        data.push(self.no_liquidity);
        data.push(self.resolved);
        data.push(self.outcome);
    }

    /// Reads an event from the first four words; `None` if fewer are given.
    pub fn from_data(data: &[u64]) -> (r: Option<MarketEvent>)
        ensures
            data@.len() < 4 ==> r is None,
            data@.len() >= 4 ==> (r matches Some(e) && e.words() == data@.subrange(0, 4)),
    {
        if data.len() < 4 {
            return None;
        }
        let e = MarketEvent {
            yes_liquidity: data[0],
            no_liquidity: data[1],
            resolved: data[2],
            outcome: data[3],
        };
        assert(e.words() =~= data@.subrange(0, 4));
        Some(e)
    }
}

} // verus!
