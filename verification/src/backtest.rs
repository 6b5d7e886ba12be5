//! The integer side of the SMA crossover backtest and of the polling
//! strategy: parameter checks, averaging windows, the position a run holds
//! and the tally of its trades.
use vstd::prelude::*;

verus! {

/// Why a backtest does not run.
#[derive(Debug, Clone, Copy, PartialEq, Eq, Structural)]
pub enum BacktestError {
    /// A moving-average period is zero.
    ZeroPeriod,
    /// The fast period is not smaller than the slow one.
    FastNotFaster,
    /// Fewer candles than the slow period plus two.
    NotEnoughCandles { got: usize, need: usize },
}

/// Checks the two moving-average periods.
pub fn check_periods(fast_period: usize, slow_period: usize) -> (r: Result<(), BacktestError>)
    ensures
        (fast_period == 0 || slow_period == 0) ==> r == Err::<(), BacktestError>(BacktestError::ZeroPeriod),
        (fast_period > 0 && slow_period > 0 && fast_period >= slow_period) ==> r == Err::<(), BacktestError>(
            BacktestError::FastNotFaster,
        ),
        (fast_period > 0 && slow_period > 0 && fast_period < slow_period) ==> r is Ok,
{
    if fast_period == 0 || slow_period == 0 {
        return Err(BacktestError::ZeroPeriod);
    }
    if fast_period >= slow_period {
        return Err(BacktestError::FastNotFaster);
    }
    Ok(())
}

/// A run needs at least `slow_period + 2` candles.
pub fn check_candle_count(candles: usize, slow_period: usize) -> (r: Result<(), BacktestError>)
    requires
        slow_period + 2 <= usize::MAX,
    ensures
        candles >= slow_period + 2 ==> r is Ok,
        candles < slow_period + 2 ==> r == Err::<(), BacktestError>(
            BacktestError::NotEnoughCandles { got: candles, need: (slow_period + 2) as usize },
        ),
{
    if candles < slow_period + 2 {
        Err(BacktestError::NotEnoughCandles { got: candles, need: slow_period + 2 })
    } else {
        Ok(())
    }
}

/// The closes averaged for the moving average of `period` bars ending at
/// bar `idx`: `start..idx + 1`, when there are that many bars.
pub open spec fn sma_range(period: nat, idx: nat) -> Option<(nat, nat)> {
    if period == 0 || idx + 1 < period {
        None
    } else {
        Some(((idx + 1 - period) as nat, idx + 1))
    }
}

pub fn sma_window(period: usize, idx: usize) -> (r: Option<(usize, usize)>)
    requires
        idx < usize::MAX,
    ensures
        match sma_range(period as nat, idx as nat) {
            Some((a, b)) => r matches Some((x, y)) && x == a && y == b,
            None => r is None,
        },
{
    if period == 0 || idx + 1 < period {
        return None;
    }
    Some((idx + 1 - period, idx + 1))
}

/// The last `period` of `len` closes, for the moving average of the latest
/// bar; none when there are fewer closes than that.
pub fn last_window(len: usize, period: usize) -> (r: Option<(usize, usize)>)
    ensures
        len < period ==> r is None,
        len >= period ==> r == Some(((len - period) as usize, len)),
{
    if len < period {
        None
    } else {
        Some((len - period, len))
    }
}

/// What a bar of the backtest does.
#[derive(Debug, Clone, Copy, PartialEq, Eq, Structural)]
pub enum BarAction {
    Hold,
    /// Buy `qty` shares at this bar.
    Enter { qty: u64 },
    /// Sell the `qty` shares bought at `entry_bar`.
    Exit { entry_bar: usize, qty: u64 },
}

/// The shares a backtest holds and the bar it bought them at.
#[derive(Debug, Clone, Copy, PartialEq, Eq, Structural)]
pub struct BacktestPosition {
    pub qty: u64,
    pub entry_bar: usize,
}

/// One bar: buy on an upward crossing when flat (if any share is
/// affordable), sell everything on a downward crossing when holding.
pub open spec fn bar_step(p: BacktestPosition, bar: usize, cross_up: bool, cross_down: bool, affordable: u64) -> (
    BacktestPosition,
    BarAction,
) {
    if p.qty == 0 && cross_up {
        if affordable > 0 {
            (BacktestPosition { qty: affordable, entry_bar: bar }, BarAction::Enter { qty: affordable })
        } else {
            (p, BarAction::Hold)
        }
    } else if p.qty > 0 && cross_down {
        (BacktestPosition { qty: 0, entry_bar: p.entry_bar }, BarAction::Exit { entry_bar: p.entry_bar, qty: p.qty })
    } else {
        (p, BarAction::Hold)
    }
}

impl BacktestPosition {
    pub fn flat() -> (p: Self)
        ensures
            p.qty == 0 && p.entry_bar == 0,
    {
        BacktestPosition { qty: 0, entry_bar: 0 }
    }

    pub fn step(&mut self, bar: usize, cross_up: bool, cross_down: bool, affordable: u64) -> (a: BarAction)
        ensures
            (*final(self), a) == bar_step(*old(self), bar, cross_up, cross_down, affordable),
    {
        if self.qty == 0 && cross_up {
            if affordable > 0 {
                self.qty = affordable;
                self.entry_bar = bar;
                BarAction::Enter { qty: affordable }
            } else {
                BarAction::Hold
            }
        } else if self.qty > 0 && cross_down {
            let q = self.qty;
            self.qty = 0;
            BarAction::Exit { entry_bar: self.entry_bar, qty: q }
        } else {
            BarAction::Hold
        }
    }

    /// At the end of the run an open position is sold at the last bar.
    pub fn force_exit(&mut self) -> (a: BarAction)
        ensures
            old(self).qty > 0 ==> a == (BarAction::Exit { entry_bar: old(self).entry_bar, qty: old(self).qty })
                && final(self).qty == 0,
            old(self).qty == 0 ==> a == BarAction::Hold && *final(self) == *old(self),
    {
        if self.qty > 0 {
            let q = self.qty;
            self.qty = 0;
            BarAction::Exit { entry_bar: self.entry_bar, qty: q }
        } else {
            BarAction::Hold
        }
    }
}

/// One bar of a run, with the crossings and the affordable quantity the
/// caller computed from the prices.
pub struct BarInput {
    pub cross_up: bool,
    pub cross_down: bool,
    pub affordable: u64,
}

/// Position after bars `0..bars.len()`.
pub open spec fn run_position(bars: Seq<BarInput>) -> BacktestPosition
    decreases bars.len(),
{
    if bars.len() == 0 {
        BacktestPosition { qty: 0, entry_bar: 0 }
    } else {
        let b = bars.last();
        bar_step(run_position(bars.drop_last()), (bars.len() - 1) as usize, b.cross_up, b.cross_down, b.affordable).0
    }
}

/// Non-hold actions of bars `0..bars.len()`, each with its bar.
pub open spec fn run_actions(bars: Seq<BarInput>) -> Seq<(usize, BarAction)>
    decreases bars.len(),
{
    if bars.len() == 0 {
        Seq::empty()
    } else {
        let b = bars.last();
        let bar = (bars.len() - 1) as usize;
        let a = bar_step(run_position(bars.drop_last()), bar, b.cross_up, b.cross_down, b.affordable).1;
        if a == BarAction::Hold {
            run_actions(bars.drop_last())
        } else {
            run_actions(bars.drop_last()).push((bar, a))
        }
    }
}

pub open spec fn is_enter(a: BarAction) -> bool {
    a matches BarAction::Enter { .. }
}

proof fn lemma_run_track(bars: Seq<BarInput>)
    requires
        bars.len() <= usize::MAX,
    ensures
        ({
            let acts = run_actions(bars);
            let p = run_position(bars);
            &&& acts.len() == 0 ==> p.qty == 0
            &&& acts.len() > 0 ==> (p.qty > 0 <==> is_enter(acts.last().1))
            &&& acts.len() > 0 && is_enter(acts.last().1) ==> p.entry_bar == acts.last().0
                && acts.last().1 == (BarAction::Enter { qty: p.qty })
            &&& acts.len() > 0 ==> is_enter(acts[0].1)
            &&& forall|i: int| 0 <= i < acts.len() ==> (#[trigger] acts[i]).0 < bars.len()
            &&& forall|i: int| 0 <= i < acts.len() - 1 ==> (is_enter(#[trigger] acts[i].1) != is_enter(acts[i + 1].1))
            &&& forall|i: int| 0 <= i < acts.len() - 1 ==> (#[trigger] acts[i]).0 < acts[i + 1].0
            &&& forall|i: int|
                0 <= i < acts.len() - 1 && is_enter(#[trigger] acts[i].1) ==> acts[i + 1].1 == (BarAction::Exit {
                    entry_bar: acts[i].0,
                    qty: acts[i].1->Enter_qty,
                })
        }),
    decreases bars.len(),
{
    if bars.len() > 0 {
        lemma_run_track(bars.drop_last());
    }
}

/// A backtest's trades alternate: it buys first, every sale sells exactly
/// the shares of the purchase before it, bought at an earlier bar.
pub proof fn lemma_trades_alternate(bars: Seq<BarInput>)
    requires
        bars.len() <= usize::MAX,
    ensures
        ({
            let acts = run_actions(bars);
            &&& acts.len() > 0 ==> is_enter(acts[0].1)
            &&& forall|i: int| 0 <= i < acts.len() - 1 ==> (is_enter(#[trigger] acts[i].1) != is_enter(acts[i + 1].1))
            &&& forall|i: int|
                0 <= i < acts.len() - 1 && is_enter(#[trigger] acts[i].1) ==> acts[i + 1].1 == (BarAction::Exit {
                    entry_bar: acts[i].0,
                    qty: acts[i].1->Enter_qty,
                }) && acts[i].0 < acts[i + 1].0
        }),
{
    lemma_run_track(bars);
}

pub open spec fn count_true(s: Seq<bool>) -> nat
    decreases s.len(),
{
    if s.len() == 0 {
        0
    } else {
        count_true(s.drop_last()) + if s.last() {
            1nat
        } else {
            0nat
        }
    }
}

/// Winning and losing trades, given for each trade whether its net result
/// was positive.
pub fn tally_trades(won: &Vec<bool>) -> (r: (usize, usize))
    ensures
        r.0 == count_true(won@),
        r.0 + r.1 == won@.len(),
{
    let mut w: usize = 0;
    let mut l: usize = 0;
    let mut i: usize = 0;
    while i < won.len()
        invariant
            i <= won@.len(),
            w == count_true(won@.take(i as int)),
            w + l == i,
        decreases won@.len() - i,
    {
        assert(won@.take(i + 1).drop_last() =~= won@.take(i as int));
        if won[i] {
            w = w + 1;
        } else {
            l = l + 1;
        }
        i = i + 1;
    }
    assert(won@.take(i as int) =~= won@);
    (w, l)
}

} // verus!
