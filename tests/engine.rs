use prediction_market::command::{decode_error, Activity, Command, CommandHandler};
use prediction_market::config::NEW_PLAYER_INITIAL_BALANCE;
use prediction_market::error::{
    ERROR_ALREADY_CLAIMED, ERROR_INSUFFICIENT_BALANCE, ERROR_INVALID_COMMAND, ERROR_INVALID_NONCE,
    ERROR_MARKET_ALREADY_RESOLVED, ERROR_MARKET_NOT_ACTIVE, ERROR_MARKET_NOT_RESOLVED,
    ERROR_NO_WINNING_POSITION, ERROR_PLAYER_ALREADY_EXISTS, ERROR_PLAYER_NOT_EXIST,
    ERROR_UNAUTHORIZED,
};
use prediction_market::event::{EVENT_INDEXED_OBJECT, MARKET_INFO};
use prediction_market::market::MarketData;
use prediction_market::player::pkey_to_pid;
use prediction_market::state::{GlobalState, MarketManager, Transaction};
use prediction_market::world::WorldState;

const ADMIN: [u64; 4] = [1, 2, 3, 4];
const ALICE: [u64; 4] = [9, 10, 11, 12];
const BOB: [u64; 4] = [5, 6, 7, 8];

fn word0(op: u64, nonce: u64) -> u64 {
    op | (nonce << 16)
}

fn run(world: &mut WorldState, pkey: &[u64; 4], words: &[u64]) -> Vec<u64> {
    Transaction::decode(words).unwrap().process(world, pkey)
}

fn balance(world: &WorldState, pkey: &[u64; 4]) -> u64 {
    let i = world.find_player(&pkey_to_pid(pkey)).unwrap();
    world.players[i].data.balance
}

fn nonce(world: &WorldState, pkey: &[u64; 4]) -> u64 {
    let i = world.find_player(&pkey_to_pid(pkey)).unwrap();
    world.players[i].nonce
}

fn yes_shares(world: &WorldState, pkey: &[u64; 4], market_id: u64) -> u64 {
    let pid = pkey_to_pid(pkey);
    let i = world.find_player(&pid).unwrap();
    world.players[i].data.get_yes_shares_for_market(&pid, market_id)
}

/// Admin, Alice and Bob installed; market 1 open for 100 ticks with
/// 1,000,000 units of liquidity on each side.
fn setup() -> WorldState {
    let mut world = WorldState::new(ADMIN);
    assert_eq!(run(&mut world, &ADMIN, &[word0(1, 0)])[0], 0);
    assert_eq!(run(&mut world, &ALICE, &[word0(1, 0)])[0], 0);
    assert_eq!(run(&mut world, &BOB, &[word0(1, 0)])[0], 0);
    let title = MarketData::string_to_u64_vec("Will it rain");
    let mut words = vec![word0(9, 0), title.len() as u64];
    words.extend_from_slice(&title);
    words.extend_from_slice(&[0, 100, 100, 1_000_000, 1_000_000]);
    let out = run(&mut world, &ADMIN, &words);
    assert_eq!(out[0], 0);
    world
}

#[test]
fn install_player_once() {
    let mut world = WorldState::new(ADMIN);
    let out = run(&mut world, &ALICE, &[word0(1, 0)]);
    assert_eq!(out[0], 0);
    assert_eq!(balance(&world, &ALICE), NEW_PLAYER_INITIAL_BALANCE);
    let out = run(&mut world, &ALICE, &[word0(1, 0)]);
    assert_eq!(out[0], ERROR_PLAYER_ALREADY_EXISTS as u64);
    assert_eq!(world.players.len(), 1);
}

#[test]
fn create_market_assigns_sequential_ids() {
    let world = setup();
    assert_eq!(world.state.next_market_id, 2);
    assert_eq!(MarketManager::get_active_market_ids(&world.state), vec![1]);
    let market = world.markets.get_market(1).unwrap();
    assert_eq!(market.get_title_string(), "Will it rain");
    assert_eq!(market.end_time, 100);
    assert_eq!(nonce(&world, &ADMIN), 1);
}

#[test]
fn bet_through_processor() {
    let mut world = setup();
    let out = run(&mut world, &ALICE, &[word0(4, 0), 1, 1, 10_000]);
    assert_eq!(out[0], 0);
    assert_eq!(balance(&world, &ALICE), NEW_PLAYER_INITIAL_BALANCE - 10_000);
    assert_eq!(yes_shares(&world, &ALICE, 1), 9_803);
    assert_eq!(world.markets.get_market(1).unwrap().total_yes_shares, 9_803);
    assert_eq!(nonce(&world, &ALICE), 1);
    // result, correlation id, then a bet record and a market snapshot
    assert_eq!(out[2], (3u64 << 32) + 8);
    assert_eq!(out[3 + 6], 9_803);
    assert_eq!(out[11], (EVENT_INDEXED_OBJECT << 32) + 2 + 1 + 2 + 12);
    assert_eq!(out[12], MARKET_INFO);
}

#[test]
fn replayed_nonce_is_rejected() {
    let mut world = setup();
    assert_eq!(run(&mut world, &ALICE, &[word0(4, 0), 1, 1, 10_000])[0], 0);
    let out = run(&mut world, &ALICE, &[word0(4, 0), 1, 1, 10_000]);
    assert_eq!(out[0], ERROR_INVALID_NONCE as u64);
    assert_eq!(balance(&world, &ALICE), NEW_PLAYER_INITIAL_BALANCE - 10_000);
    assert_eq!(out.len(), 2);
}

#[test]
fn failed_transaction_spends_only_the_nonce() {
    let mut world = setup();
    let txcounter = world.state.txcounter;
    let out = run(&mut world, &ALICE, &[word0(4, 0), 1, 1, NEW_PLAYER_INITIAL_BALANCE + 1]);
    assert_eq!(out[0], ERROR_INSUFFICIENT_BALANCE as u64);
    assert_eq!(nonce(&world, &ALICE), 1);
    assert_eq!(balance(&world, &ALICE), NEW_PLAYER_INITIAL_BALANCE);
    assert_eq!(world.state.txcounter, txcounter);
    // the failed command cannot be replayed once it could succeed
    let pid = pkey_to_pid(&ALICE);
    assert_eq!(run(&mut world, &ADMIN, &[word0(3, 1), pid[0], pid[1], 0, 10])[0], 0);
    let out = run(&mut world, &ALICE, &[word0(4, 0), 1, 1, NEW_PLAYER_INITIAL_BALANCE + 1]);
    assert_eq!(out[0], ERROR_INVALID_NONCE as u64);
    let out = run(&mut world, &ALICE, &[word0(4, 1), 7, 1, 100]);
    assert_eq!(out[0], ERROR_MARKET_NOT_ACTIVE as u64);
    assert_eq!(nonce(&world, &ALICE), 2);
}

#[test]
fn correlation_id_keeps_whole_transaction_count() {
    let mut world = setup();
    world.state.txcounter = 1u64 << 32;
    let out = run(&mut world, &ADMIN, &[word0(0, 0)]);
    assert_eq!(out[0], 0);
    assert_eq!(out[1], (1u64 << 32) + (1u64 << 32));
    world.state.txcounter = u64::MAX;
    let out = run(&mut world, &ADMIN, &[word0(0, 0)]);
    assert_eq!(out[1], (2u64 << 32).wrapping_add(u64::MAX));
}

#[test]
fn admin_only_commands_are_gated() {
    let mut world = setup();
    assert_eq!(run(&mut world, &ALICE, &[word0(6, 0), 1, 1])[0], ERROR_UNAUTHORIZED as u64);
    assert_eq!(run(&mut world, &ALICE, &[word0(0, 0)])[0], ERROR_UNAUTHORIZED as u64);
    assert_eq!(run(&mut world, &ALICE, &[word0(8, 0), 1])[0], ERROR_UNAUTHORIZED as u64);
    assert!(!world.markets.get_market(1).unwrap().resolved);
}

#[test]
fn resolve_twice_through_processor() {
    let mut world = setup();
    assert_eq!(run(&mut world, &ADMIN, &[word0(6, 1), 1, 1])[0], 0);
    let out = run(&mut world, &ADMIN, &[word0(6, 2), 1, 0]);
    assert_eq!(out[0], ERROR_MARKET_ALREADY_RESOLVED as u64);
    assert_eq!(world.markets.get_market(1).unwrap().outcome, Some(true));
}

#[test]
fn claim_pays_once() {
    let mut world = setup();
    assert_eq!(run(&mut world, &ALICE, &[word0(4, 0), 1, 1, 10_000])[0], 0);
    assert_eq!(run(&mut world, &ALICE, &[word0(7, 1), 1])[0], ERROR_MARKET_NOT_RESOLVED as u64);
    assert_eq!(run(&mut world, &ADMIN, &[word0(6, 1), 1, 1])[0], 0);
    let before = balance(&world, &ALICE);
    assert_eq!(run(&mut world, &ALICE, &[word0(7, 2), 1])[0], 0);
    assert_eq!(balance(&world, &ALICE), before + 9_900);
    let out = run(&mut world, &ALICE, &[word0(7, 3), 1]);
    assert_eq!(out[0], ERROR_ALREADY_CLAIMED as u64);
    assert_eq!(balance(&world, &ALICE), before + 9_900);
}

#[test]
fn claim_without_winning_shares() {
    let mut world = setup();
    assert_eq!(run(&mut world, &ALICE, &[word0(4, 0), 1, 1, 10_000])[0], 0);
    assert_eq!(run(&mut world, &BOB, &[word0(4, 0), 1, 0, 5_000])[0], 0);
    assert_eq!(run(&mut world, &ADMIN, &[word0(6, 1), 1, 1])[0], 0);
    let out = run(&mut world, &BOB, &[word0(7, 1), 1]);
    assert_eq!(out[0], ERROR_NO_WINNING_POSITION as u64);
    // the failed claim set no latch, but spent its nonce
    let before = balance(&world, &BOB);
    assert_eq!(run(&mut world, &BOB, &[word0(7, 1), 1])[0], ERROR_INVALID_NONCE as u64);
    assert_eq!(run(&mut world, &BOB, &[word0(7, 2), 1])[0], ERROR_NO_WINNING_POSITION as u64);
    assert_eq!(balance(&world, &BOB), before);
}

#[test]
fn sell_through_processor() {
    let mut world = setup();
    assert_eq!(run(&mut world, &ALICE, &[word0(4, 0), 1, 0, 20_000])[0], 0);
    assert_eq!(run(&mut world, &BOB, &[word0(4, 0), 1, 0, 20_000])[0], 0);
    let before = balance(&world, &ALICE);
    let out = run(&mut world, &ALICE, &[word0(5, 1), 1, 0, 1_000]);
    assert_eq!(out[0], 0);
    let payout = out[3 + 6];
    assert_eq!(out[3 + 4], 10);
    assert_eq!(balance(&world, &ALICE), before + payout);
    let out = run(&mut world, &ALICE, &[word0(5, 2), 1, 0, 1_000_000]);
    assert_eq!(out[0], ERROR_INSUFFICIENT_BALANCE as u64);
}

#[test]
fn tick_advances_clock_and_broadcasts() {
    let mut world = setup();
    let out = run(&mut world, &ADMIN, &[word0(0, 0)]);
    assert_eq!(out[0], 0);
    assert_eq!(world.state.get_counter(), 1);
    assert_eq!(out[1], (1u64 << 32) + world.state.txcounter);
    assert_eq!(out[2], (EVENT_INDEXED_OBJECT << 32) + 2 + 1 + 2 + 12);
    assert_eq!(out.len(), 2 + 1 + 17);
}

#[test]
fn withdraw_fees_and_deposit() {
    let mut world = setup();
    assert_eq!(run(&mut world, &ALICE, &[word0(4, 0), 1, 1, 10_000])[0], 0);
    let before = balance(&world, &ADMIN);
    assert_eq!(run(&mut world, &ADMIN, &[word0(8, 1), 1])[0], 0);
    assert_eq!(balance(&world, &ADMIN), before + 100);
    let pid = pkey_to_pid(&BOB);
    assert_eq!(run(&mut world, &ADMIN, &[word0(3, 2), pid[0], pid[1], 0, 500])[0], 0);
    assert_eq!(balance(&world, &BOB), NEW_PLAYER_INITIAL_BALANCE + 500);
    assert_eq!(run(&mut world, &ADMIN, &[word0(3, 3), 77, 77, 0, 500])[0], ERROR_PLAYER_NOT_EXIST as u64);
}

#[test]
fn withdraw_queues_settlement() {
    let mut world = setup();
    let out = run(&mut world, &ALICE, &[word0(2, 0), 0, 0x1_0000_0064, 0, 0]);
    assert_eq!(out[0], 0);
    assert_eq!(balance(&world, &ALICE), NEW_PLAYER_INITIAL_BALANCE - 100);
    assert_eq!(world.withdrawals.len(), 1);
    let out = run(&mut world, &ALICE, &[word0(2, 1), 0, 0xffff_ffff, 0, 0]);
    assert_eq!(out[0], ERROR_INSUFFICIENT_BALANCE as u64);
}

#[test]
fn malformed_transactions_are_rejected() {
    assert_eq!(Transaction::decode(&[]).err(), Some(ERROR_INVALID_COMMAND));
    assert_eq!(Transaction::decode(&[word0(4, 0), 1, 2, 10]).err(), Some(ERROR_INVALID_COMMAND));
    assert_eq!(Transaction::decode(&[word0(4, 0), 1, 1]).err(), Some(ERROR_INVALID_COMMAND));
    assert_eq!(Transaction::decode(&[word0(6, 0), 1, 5]).err(), Some(ERROR_INVALID_COMMAND));
    assert_eq!(Transaction::decode(&[word0(9, 0), 2, 0, 0, 0, 0, 0]).err(), Some(ERROR_INVALID_COMMAND));
    assert_eq!(Transaction::decode(&[word0(10, 0)]).err(), Some(ERROR_INVALID_COMMAND));
    let t = Transaction::decode(&[word0(7, 42), 3]).unwrap();
    assert_eq!(t.nonce, 42);
    assert!(matches!(t.command, Command::Activity(Activity::Claim(3))));
}

#[test]
fn handler_requires_account() {
    let mut world = WorldState::new(ADMIN);
    let r = Activity::Claim(1).handle(&mut world, &[1, 1], 0);
    assert_eq!(r, Err(ERROR_PLAYER_NOT_EXIST));
}

#[test]
fn error_names() {
    assert_eq!(decode_error(ERROR_ALREADY_CLAIMED), "AlreadyClaimed");
    assert_eq!(Transaction::decode_error(ERROR_NO_WINNING_POSITION), "NoWinningPosition");
    assert_eq!(decode_error(0), "Unknown");
}

#[test]
fn preempt_cuts_batches() {
    let mut state = GlobalState::new();
    state.counter = 1;
    state.txsize = 40;
    assert!(state.preempt(0));
    assert_eq!(state.txsize, 0);
    assert!(!state.preempt(40));
    assert!(state.preempt(41));
    assert_eq!(GlobalState::rand_seed(), 0);
}

#[test]
fn player_shares_add_up_to_market_totals() {
    let mut world = setup();
    assert_eq!(run(&mut world, &ALICE, &[word0(4, 0), 1, 1, 10_000])[0], 0);
    assert_eq!(run(&mut world, &BOB, &[word0(4, 0), 1, 1, 30_000])[0], 0);
    assert_eq!(run(&mut world, &BOB, &[word0(4, 1), 1, 0, 7_000])[0], 0);
    assert_eq!(run(&mut world, &ALICE, &[word0(5, 1), 1, 1, 4_000])[0], 0);
    let market = world.markets.get_market(1).unwrap();
    let mut yes = 0;
    let mut no = 0;
    for p in world.players.iter() {
        yes += p.data.get_yes_shares_for_market(&p.player_id, 1);
        no += p.data.get_no_shares_for_market(&p.player_id, 1);
    }
    assert_eq!(yes, market.total_yes_shares);
    assert_eq!(no, market.total_no_shares);
}
