//! Decisions of the live order executor: which crossing signals lead to an
//! order, a dry run, or nothing.
use vstd::prelude::*;
use crate::orders::Side;
use crate::signals::Crossing;

verus! {

/// Minimum time between two actions of the executor, in nanoseconds.
pub const COOLDOWN_NANOS: u64 = 2_000_000_000;

/// What the executor does with a signal.
#[derive(Debug, Clone, Copy, PartialEq, Eq, Structural)]
pub enum ExecutorAction {
    /// Too soon after the previous action: the signal is dropped unseen.
    Cooldown,
    /// The signal is announced but nothing follows (already long on a buy
    /// signal, or flat on a sell signal).
    Hold,
    /// Live trading is off: announce that no order is placed.
    DryRun,
    /// Place a market order on this side.
    Place(Side),
}

/// The executor's decision for one signal.
#[derive(Debug, Clone, Copy, PartialEq, Eq, Structural)]
pub struct ExecutorDecision {
    pub action: ExecutorAction,
    /// Estimate the margin of the buy first.
    pub check_margin: bool,
}

/// State of the executor between signals: whether it holds a long
/// position and when it last acted (on its monotonic clock).
#[derive(Debug, Clone, Copy, PartialEq, Eq, Structural)]
pub struct OrderExecutor {
    pub in_long: bool,
    pub last_action_nanos: Option<u64>,
}

pub open spec fn elapsed(last: u64, now: u64) -> int {
    if now >= last {
        now - last
    } else {
        0
    }
}

/// The decision for a signal at time `now`.
pub open spec fn decision(
    st: OrderExecutor,
    signal: Crossing,
    now: u64,
    live_enabled: bool,
    check_margin: bool,
) -> ExecutorDecision {
    if st.last_action_nanos matches Some(t) && elapsed(t, now) < COOLDOWN_NANOS {
        ExecutorDecision { action: ExecutorAction::Cooldown, check_margin: false }
    } else {
        match signal {
            Crossing::Bullish => if st.in_long {
                ExecutorDecision { action: ExecutorAction::Hold, check_margin: false }
            } else if !live_enabled {
                ExecutorDecision { action: ExecutorAction::DryRun, check_margin }
            } else {
                ExecutorDecision { action: ExecutorAction::Place(Side::Buy), check_margin }
            },
            Crossing::Bearish => if !st.in_long {
                ExecutorDecision { action: ExecutorAction::Hold, check_margin: false }
            } else if !live_enabled {
                ExecutorDecision { action: ExecutorAction::DryRun, check_margin: false }
            } else {
                ExecutorDecision { action: ExecutorAction::Place(Side::Sell), check_margin: false }
            },
        }
    }
}

/// The executor acts on a signal at `now`: it has not acted yet, or at
/// least the cooldown has passed since it last did.
pub open spec fn acts_on(st: OrderExecutor, now: u64) -> bool {
    st.last_action_nanos is None || (now >= st.last_action_nanos->0 && now - st.last_action_nanos->0 >= COOLDOWN_NANOS)
}

/// What a signal leads to outside the cooldown. While flat, a bullish
/// crossing asks for the buy's margin estimate exactly when the margin
/// check is switched on, whether or not live trading is (the estimate
/// comes before the dry-run notice), and then buys or only announces. While
/// long, a bearish crossing sells or only announces, with no margin check.
/// Within the cooldown every signal is dropped, with no margin check.
pub proof fn lemma_decision_outcomes(
    st: OrderExecutor,
    signal: Crossing,
    now: u64,
    live_enabled: bool,
    check_margin: bool,
)
    ensures
        ({
            let d = decision(st, signal, now, live_enabled, check_margin);
            &&& acts_on(st, now) && !st.in_long && signal == Crossing::Bullish ==> d.check_margin == check_margin
                && d.action == (if live_enabled { ExecutorAction::Place(Side::Buy) } else { ExecutorAction::DryRun })
            &&& acts_on(st, now) && st.in_long && signal == Crossing::Bearish ==> !d.check_margin
                && d.action == (if live_enabled { ExecutorAction::Place(Side::Sell) } else { ExecutorAction::DryRun })
            &&& acts_on(st, now) && (st.in_long == (signal == Crossing::Bullish)) ==> d.action == ExecutorAction::Hold
                && !d.check_margin
            &&& !acts_on(st, now) ==> d.action == ExecutorAction::Cooldown && !d.check_margin
        }),
{
}

/// The state once an action has been carried out at time `now`.
pub open spec fn after_action(st: OrderExecutor, action: ExecutorAction, now: u64) -> OrderExecutor {
    match action {
        ExecutorAction::DryRun => OrderExecutor { in_long: st.in_long, last_action_nanos: Some(now) },
        ExecutorAction::Place(Side::Buy) => OrderExecutor { in_long: true, last_action_nanos: Some(now) },
        ExecutorAction::Place(Side::Sell) => OrderExecutor { in_long: false, last_action_nanos: Some(now) },
        _ => st,
    }
}

impl OrderExecutor {
    /// A flat executor that has not acted yet.
    pub fn new() -> (e: Self)
        ensures
            !e.in_long,
            e.last_action_nanos is None,
    {
        OrderExecutor { in_long: false, last_action_nanos: None }
    }

    pub fn decide(&self, signal: Crossing, now: u64, live_enabled: bool, check_margin: bool) -> (d: ExecutorDecision)
        ensures
            d == decision(*self, signal, now, live_enabled, check_margin),
            acts_on(*self, now) && !self.in_long && signal == Crossing::Bullish ==> d.check_margin == check_margin
                && d.action == (if live_enabled { ExecutorAction::Place(Side::Buy) } else { ExecutorAction::DryRun }),
            acts_on(*self, now) && self.in_long && signal == Crossing::Bearish ==> !d.check_margin
                && d.action == (if live_enabled { ExecutorAction::Place(Side::Sell) } else { ExecutorAction::DryRun }),
            !acts_on(*self, now) ==> d.action == ExecutorAction::Cooldown && !d.check_margin,
    {
        if let Some(t) = self.last_action_nanos {
            let el = if now >= t { now - t } else { 0 };
            if el < COOLDOWN_NANOS {
                return ExecutorDecision { action: ExecutorAction::Cooldown, check_margin: false };
            }
        }
        match signal {
            Crossing::Bullish => if self.in_long {
                ExecutorDecision { action: ExecutorAction::Hold, check_margin: false }
            } else if !live_enabled {
                ExecutorDecision { action: ExecutorAction::DryRun, check_margin }
            } else {
                ExecutorDecision { action: ExecutorAction::Place(Side::Buy), check_margin }
            },
            Crossing::Bearish => if !self.in_long {
                ExecutorDecision { action: ExecutorAction::Hold, check_margin: false }
            } else if !live_enabled {
                ExecutorDecision { action: ExecutorAction::DryRun, check_margin: false }
            } else {
                ExecutorDecision { action: ExecutorAction::Place(Side::Sell), check_margin: false }
            },
        }
    }

    /// Records that `action` was carried out, finishing at time `now`.
    pub fn complete(&mut self, action: ExecutorAction, now: u64)
        ensures
            *final(self) == after_action(*old(self), action, now),
    {
        match action {
            ExecutorAction::DryRun => {
                self.last_action_nanos = Some(now);
            },
            ExecutorAction::Place(Side::Buy) => {
                self.in_long = true;
                self.last_action_nanos = Some(now);
            },
            ExecutorAction::Place(Side::Sell) => {
                self.in_long = false;
                self.last_action_nanos = Some(now);
            },
            _ => {},
        }
    }
}

/// One signal as the executor receives it.
pub struct SignalEvent {
    pub signal: Crossing,
    pub now: u64,
    pub live_enabled: bool,
    pub check_margin: bool,
}

/// State after handling each event in turn (every action carried out at
/// the time of its signal).
pub open spec fn run_state(st: OrderExecutor, evs: Seq<SignalEvent>) -> OrderExecutor
    decreases evs.len(),
{
    if evs.len() == 0 {
        st
    } else {
        let s = run_state(st, evs.drop_last());
        let e = evs.last();
        after_action(s, decision(s, e.signal, e.now, e.live_enabled, e.check_margin).action, e.now)
    }
}

/// Sides of the orders placed while handling the events.
pub open spec fn placed_orders(st: OrderExecutor, evs: Seq<SignalEvent>) -> Seq<Side>
    decreases evs.len(),
{
    if evs.len() == 0 {
        Seq::empty()
    } else {
        let s = run_state(st, evs.drop_last());
        let e = evs.last();
        match decision(s, e.signal, e.now, e.live_enabled, e.check_margin).action {
            ExecutorAction::Place(side) => placed_orders(st, evs.drop_last()).push(side),
            _ => placed_orders(st, evs.drop_last()),
        }
    }
}

proof fn lemma_placed_track(evs: Seq<SignalEvent>)
    ensures
        ({
            let p = placed_orders(OrderExecutor { in_long: false, last_action_nanos: None }, evs);
            let s = run_state(OrderExecutor { in_long: false, last_action_nanos: None }, evs);
            &&& p.len() == 0 ==> !s.in_long
            &&& p.len() > 0 ==> (s.in_long <==> p.last() == Side::Buy)
            &&& p.len() > 0 ==> p[0] == Side::Buy
            &&& forall|i: int| 0 <= i < p.len() - 1 ==> #[trigger] p[i] != p[i + 1]
        }),
    decreases evs.len(),
{
    if evs.len() > 0 {
        lemma_placed_track(evs.drop_last());
    }
}

/// Starting flat, the executor's orders alternate buy, sell, buy, …: it
/// never buys while long nor sells while flat.
pub proof fn lemma_orders_alternate(evs: Seq<SignalEvent>)
    ensures
        ({
            let p = placed_orders(OrderExecutor { in_long: false, last_action_nanos: None }, evs);
            &&& p.len() > 0 ==> p[0] == Side::Buy
            &&& forall|i: int| 0 <= i < p.len() - 1 ==> #[trigger] p[i] != p[i + 1]
        }),
{
    lemma_placed_track(evs);
}

/// With live trading switched off for every signal, the executor places no
/// order at all, whatever state it starts in.
pub proof fn lemma_no_orders_when_live_off(st: OrderExecutor, evs: Seq<SignalEvent>)
    requires
        forall|i: int| 0 <= i < evs.len() ==> !(#[trigger] evs[i]).live_enabled,
    ensures
        placed_orders(st, evs).len() == 0,
    decreases evs.len(),
{
    if evs.len() > 0 {
        assert(!evs[evs.len() - 1].live_enabled);
        assert forall|i: int| 0 <= i < evs.drop_last().len() implies !(#[trigger] evs.drop_last()[i]).live_enabled by {
            assert(evs.drop_last()[i] == evs[i]);
        }
        lemma_no_orders_when_live_off(st, evs.drop_last());
    }
}

/// Within the cooldown after an action, every signal is dropped.
pub proof fn lemma_cooldown(
    st: OrderExecutor,
    action: ExecutorAction,
    t: u64,
    signal: Crossing,
    now: u64,
    live_enabled: bool,
    check_margin: bool,
)
    requires
        action != ExecutorAction::Cooldown,
        action != ExecutorAction::Hold,
        t <= now < t + COOLDOWN_NANOS,
    ensures
        decision(after_action(st, action, t), signal, now, live_enabled, check_margin).action
            == ExecutorAction::Cooldown,
{
}

} // verus!
