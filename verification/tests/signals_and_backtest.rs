use zerodha_bot_rs::backtest::{
    check_candle_count, check_periods, last_window, sma_window, tally_trades, BacktestError, BacktestPosition,
    BarAction,
};
use zerodha_bot_rs::executor::{ExecutorAction, OrderExecutor};
use zerodha_bot_rs::orders::Side;
use zerodha_bot_rs::signals::{Crossing, CrossoverTracker, PositionStatus, SideRel, Signal, SmaSignalEngine};

#[test]
fn window_keeps_the_last_period_prices() {
    let mut e: SmaSignalEngine<f64> = SmaSignalEngine::new(3);
    assert!(!e.push_ltp(1.0));
    assert!(!e.push_ltp(2.0));
    assert!(e.push_ltp(3.0));
    assert!(e.push_ltp(4.0));
    assert_eq!(e.ltp_history.iter().copied().collect::<Vec<_>>(), vec![2.0, 3.0, 4.0]);
}

#[test]
fn zero_period_window_is_never_full() {
    let mut e: SmaSignalEngine<u32> = SmaSignalEngine::new(0);
    assert!(e.push_ltp(5));
    assert!(e.ltp_history.is_empty());
}

#[test]
fn relation_changes_make_crossings() {
    let mut e: SmaSignalEngine<f64> = SmaSignalEngine::new(2);
    assert_eq!(e.record_relation(SideRel::Below), None);
    assert_eq!(e.record_relation(SideRel::Below), None);
    assert_eq!(e.record_relation(SideRel::Above), Some(Crossing::Bullish));
    assert_eq!(e.record_relation(SideRel::Above), None);
    assert_eq!(e.record_relation(SideRel::Below), Some(Crossing::Bearish));
    match Signal::new(Crossing::Bullish, 10.0, 9.5) {
        Signal::BullishCross { ltp, sma } => assert_eq!((ltp, sma), (10.0, 9.5)),
        _ => panic!("wrong signal"),
    }
}

#[test]
fn tracker_starts_quietly_and_alternates() {
    let mut t = CrossoverTracker::new();
    assert_eq!(t.status_label(), "None");
    assert_eq!(t.observe(false, true), None);
    assert_eq!(t.position_status, Some(PositionStatus::Bear));
    assert_eq!(t.observe(false, false), None);
    assert_eq!(t.observe(true, false), Some(Crossing::Bullish));
    assert_eq!(t.status_label(), "BULL");
    assert_eq!(t.observe(true, false), None);
    assert_eq!(t.observe(false, true), Some(Crossing::Bearish));
    let mut u = CrossoverTracker::new();
    assert_eq!(u.observe(true, false), None);
    assert_eq!(u.status_label(), "BULL");
}

#[test]
fn executor_alternates_and_cools_down() {
    let mut ex = OrderExecutor::new();
    let s = 1_000_000_000u64;
    let d = ex.decide(Crossing::Bearish, 0, true, false);
    assert_eq!(d.action, ExecutorAction::Hold);
    let d = ex.decide(Crossing::Bullish, 0, true, true);
    assert_eq!(d.action, ExecutorAction::Place(Side::Buy));
    assert!(d.check_margin);
    ex.complete(d.action, 5 * s);
    assert!(ex.in_long);
    assert_eq!(ex.decide(Crossing::Bearish, 6 * s, true, false).action, ExecutorAction::Cooldown);
    assert_eq!(ex.decide(Crossing::Bullish, 8 * s, true, false).action, ExecutorAction::Hold);
    let d = ex.decide(Crossing::Bearish, 8 * s, true, false);
    assert_eq!(d.action, ExecutorAction::Place(Side::Sell));
    ex.complete(d.action, 8 * s);
    assert!(!ex.in_long);
    let d = ex.decide(Crossing::Bullish, 20 * s, false, false);
    assert_eq!(d.action, ExecutorAction::DryRun);
    ex.complete(d.action, 20 * s);
    assert!(!ex.in_long);
    assert_eq!(ex.last_action_nanos, Some(20 * s));
}

#[test]
fn executor_places_nothing_while_live_trading_is_off() {
    let mut ex = OrderExecutor::new();
    let s = 1_000_000_000u64;
    let signals = [Crossing::Bullish, Crossing::Bearish, Crossing::Bullish, Crossing::Bearish, Crossing::Bullish];
    for (k, c) in signals.iter().enumerate() {
        let now = (k as u64 + 1) * 10 * s;
        let d = ex.decide(*c, now, false, true);
        assert!(!matches!(d.action, ExecutorAction::Place(_)));
        ex.complete(d.action, now);
        assert!(!ex.in_long);
    }
}

#[test]
fn backtest_parameter_checks() {
    assert_eq!(check_periods(0, 50), Err(BacktestError::ZeroPeriod));
    assert_eq!(check_periods(20, 0), Err(BacktestError::ZeroPeriod));
    assert_eq!(check_periods(50, 20), Err(BacktestError::FastNotFaster));
    assert_eq!(check_periods(20, 20), Err(BacktestError::FastNotFaster));
    assert_eq!(check_periods(20, 50), Ok(()));
    assert_eq!(check_candle_count(51, 50), Err(BacktestError::NotEnoughCandles { got: 51, need: 52 }));
    assert_eq!(check_candle_count(52, 50), Ok(()));
}

#[test]
fn averaging_windows() {
    assert_eq!(sma_window(3, 1), None);
    assert_eq!(sma_window(3, 2), Some((0, 3)));
    assert_eq!(sma_window(3, 10), Some((8, 11)));
    assert_eq!(sma_window(0, 10), None);
    assert_eq!(last_window(5, 6), None);
    assert_eq!(last_window(10, 3), Some((7, 10)));
}

#[test]
fn backtest_position_trades() {
    let mut p = BacktestPosition::flat();
    assert_eq!(p.step(3, false, true, 10), BarAction::Hold);
    assert_eq!(p.step(4, true, false, 0), BarAction::Hold);
    assert_eq!(p.step(5, true, false, 7), BarAction::Enter { qty: 7 });
    assert_eq!(p.step(6, true, false, 9), BarAction::Hold);
    assert_eq!(p.step(9, false, true, 9), BarAction::Exit { entry_bar: 5, qty: 7 });
    assert_eq!(p.force_exit(), BarAction::Hold);
    assert_eq!(p.step(10, true, false, 2), BarAction::Enter { qty: 2 });
    assert_eq!(p.force_exit(), BarAction::Exit { entry_bar: 10, qty: 2 });
    assert_eq!(p.qty, 0);
}

#[test]
fn trade_tally_adds_up() {
    assert_eq!(tally_trades(&vec![true, false, false, true, true]), (3, 2));
    assert_eq!(tally_trades(&vec![]), (0, 0));
}

#[test]
fn window_after_a_batch_keeps_the_last_period() {
    let mut e: SmaSignalEngine<u32> = SmaSignalEngine::new(3);
    e.push_ltp(1);
    e.push_ltp(2);
    for p in [3, 4, 5, 6] {
        e.push_ltp(p);
    }
    assert_eq!(e.ltp_history.iter().copied().collect::<Vec<u32>>(), vec![4, 5, 6]);
    assert_eq!(e.sma_period, 3);
}
