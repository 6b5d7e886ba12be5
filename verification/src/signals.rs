//! Crossover signals: the rolling price window, the relation-change
//! detector behind live SMA signals, the bull/bear tracker of the ticker
//! stream, and the order executor's decisions.
//!
//! Prices are generic: the crate compares nothing numerically itself; the
//! caller computes the moving average and tells the engines on which side
//! of it the last price lies.
use vstd::prelude::*;
use std::collections::VecDeque;
use crate::orders::Side;

verus! {

/// Where the last price lies relative to its moving average.
#[derive(Debug, Clone, Copy, PartialEq, Eq, Structural)]
pub enum SideRel {
    Above,
    Below,
}

/// A change of side.
#[derive(Debug, Clone, Copy, PartialEq, Eq, Structural)]
pub enum Crossing {
    /// From below the average to above it.
    Bullish,
    /// From above the average to below it.
    Bearish,
}

/// A crossing together with the price and average it happened at.
#[derive(Debug)]
pub enum Signal<T> {
    BullishCross { ltp: T, sma: T },
    BearishCross { ltp: T, sma: T },
}

impl<T> Signal<T> {
    pub fn new(crossing: Crossing, ltp: T, sma: T) -> (s: Signal<T>)
        ensures
            crossing == Crossing::Bullish ==> s == (Signal::BullishCross { ltp, sma }),
            crossing == Crossing::Bearish ==> s == (Signal::BearishCross { ltp, sma }),
    {
        match crossing {
            Crossing::Bullish => Signal::BullishCross { ltp, sma },
            Crossing::Bearish => Signal::BearishCross { ltp, sma },
        }
    }
}

/// The last `period` items of `s` (all of them when there are fewer).
pub open spec fn last_n<T>(s: Seq<T>, period: nat) -> Seq<T> {
    if s.len() > period {
        s.skip(s.len() - period)
    } else {
        s
    }
}

/// The window after pushing the prices `ps` one by one, as `push_ltp`
/// does: each push appends and keeps the last `period`.
pub open spec fn window_after<T>(h: Seq<T>, ps: Seq<T>, period: nat) -> Seq<T>
    decreases ps.len(),
{
    if ps.len() == 0 {
        h
    } else {
        last_n(window_after(h, ps.drop_last(), period).push(ps.last()), period)
    }
}

/// Pushing a batch of prices into a window that is not over its period
/// leaves the last `period` values of the old window followed by the new
/// prices.
pub proof fn lemma_window_after_batch<T>(h: Seq<T>, ps: Seq<T>, period: nat)
    requires
        h.len() <= period,
    ensures
        window_after(h, ps, period) == last_n(h + ps, period),
    decreases ps.len(),
{
    if ps.len() == 0 {
        assert(h + ps =~= h);
    } else {
        let p1 = ps.drop_last();
        lemma_window_after_batch(h, p1, period);
        let s = h + p1;
        let s2 = h + ps;
        assert(s2 =~= s.push(ps.last()));
        if s.len() > period {
            let w = s.skip(s.len() - period);
            assert(w.push(ps.last()).skip(1) =~= s2.skip(s2.len() - period));
        }
    }
}

/// The crossing that a new relation makes after the previous one.
pub open spec fn crossing_of(last: Option<SideRel>, rel: SideRel) -> Option<Crossing> {
    match (last, rel) {
        (Some(SideRel::Below), SideRel::Above) => Some(Crossing::Bullish),
        (Some(SideRel::Above), SideRel::Below) => Some(Crossing::Bearish),
        _ => None,
    }
}

/// Live SMA signal engine: keeps the last `sma_period` prices and reports a
/// crossing whenever the price changes side of its average.
pub struct SmaSignalEngine<T> {
    pub sma_period: usize,
    pub ltp_history: VecDeque<T>,
    pub last_rel: Option<SideRel>,
}

impl<T> SmaSignalEngine<T> {
    pub fn new(sma_period: usize) -> (e: Self)
        ensures
            e.sma_period == sma_period,
            e.ltp_history@.len() == 0,
            e.last_rel is None,
    {
        SmaSignalEngine { sma_period, ltp_history: VecDeque::new(), last_rel: None }
    }

    /// Adds a price to the window, dropping the oldest beyond the period.
    /// Returns whether the window now holds exactly `sma_period` prices (the
    /// moving average is computed only then).
    pub fn push_ltp(&mut self, ltp: T) -> (full: bool)
        ensures
            final(self).ltp_history@ == last_n(old(self).ltp_history@.push(ltp), old(self).sma_period as nat),
            final(self).sma_period == old(self).sma_period,
            final(self).last_rel == old(self).last_rel,
            full == (final(self).ltp_history@.len() == final(self).sma_period),
    {
        let ghost s = old(self).ltp_history@.push(ltp);
        self.ltp_history.push_back(ltp);
        let ghost mut k: int = 0;
        while self.ltp_history.len() > self.sma_period
            invariant
                self.ltp_history@ == s.skip(k),
                0 <= k <= s.len(),
                s.len() > self.sma_period ==> k <= s.len() - self.sma_period,
                s.len() <= self.sma_period ==> k == 0,
                self.sma_period == old(self).sma_period,
                self.last_rel == old(self).last_rel,
            decreases self.ltp_history@.len(),
        {
            self.ltp_history.pop_front();
            proof {
                assert(s.skip(k).drop_first() =~= s.skip(k + 1));
                k = k + 1;
            }
        }
        proof {
            if s.len() > self.sma_period {
                assert(k == s.len() - self.sma_period);
            } else {
                assert(k == 0);
                assert(s.skip(0) =~= s);
            }
        }
        self.ltp_history.len() == self.sma_period
    }

    /// Records on which side of the average the latest price lies and
    /// reports the crossing this makes, if any.
    pub fn record_relation(&mut self, rel: SideRel) -> (c: Option<Crossing>)
        ensures
            c == crossing_of(old(self).last_rel, rel),
            final(self).last_rel == Some(rel),
            final(self).sma_period == old(self).sma_period,
            final(self).ltp_history == old(self).ltp_history,
    {
        let c = match (self.last_rel, rel) {
            (Some(SideRel::Below), SideRel::Above) => Some(Crossing::Bullish),
            (Some(SideRel::Above), SideRel::Below) => Some(Crossing::Bearish),
            _ => None,
        };
        self.last_rel = Some(rel);
        c
    }
}

/// Relation after feeding `rels` from `last`.
pub open spec fn relation_after(last: Option<SideRel>, rels: Seq<SideRel>) -> Option<SideRel> {
    if rels.len() == 0 {
        last
    } else {
        Some(rels.last())
    }
}

/// The crossings reported while feeding `rels`, in order.
pub open spec fn crossings(last: Option<SideRel>, rels: Seq<SideRel>) -> Seq<Crossing>
    decreases rels.len(),
{
    if rels.len() == 0 {
        Seq::empty()
    } else {
        let before = relation_after(last, rels.drop_last());
        match crossing_of(before, rels.last()) {
            Some(c) => crossings(last, rels.drop_last()).push(c),
            None => crossings(last, rels.drop_last()),
        }
    }
}

/// Side that a crossing ends on.
pub open spec fn side_after(c: Crossing) -> SideRel {
    match c {
        Crossing::Bullish => SideRel::Above,
        Crossing::Bearish => SideRel::Below,
    }
}

proof fn lemma_crossings_track(last: Option<SideRel>, rels: Seq<SideRel>)
    ensures
        crossings(last, rels).len() > 0 ==> relation_after(last, rels) == Some(
            side_after(crossings(last, rels).last()),
        ),
        forall|i: int|
            0 <= i < crossings(last, rels).len() - 1 ==> #[trigger] crossings(last, rels)[i]
                != crossings(last, rels)[i + 1],
        last is None && rels.len() <= 1 ==> crossings(last, rels).len() == 0,
    decreases rels.len(),
{
    if rels.len() > 0 {
        lemma_crossings_track(last, rels.drop_last());
    }
}

/// Crossings alternate: after a bullish crossing the next one is bearish
/// and the other way round, whatever relations come in between. A fresh
/// engine reports nothing on its first relation.
pub proof fn lemma_crossings_alternate(last: Option<SideRel>, rels: Seq<SideRel>)
    ensures
        forall|i: int|
            0 <= i < crossings(last, rels).len() - 1 ==> #[trigger] crossings(last, rels)[i]
                != crossings(last, rels)[i + 1],
        last is None && rels.len() <= 1 ==> crossings(last, rels).len() == 0,
{
    lemma_crossings_track(last, rels);
}

/// Market state as the ticker stream tracks it.
#[derive(Debug, Clone, Copy, PartialEq, Eq, Structural)]
pub enum PositionStatus {
    Bull,
    Bear,
}

/// The bull/bear state of the ticker stream: set on the first full window
/// (bull when the price is above its average, bear otherwise), then flipped
/// when the price moves strictly to the other side.
#[derive(Debug, Clone, Copy, PartialEq, Eq, Structural)]
pub struct CrossoverTracker {
    pub position_status: Option<PositionStatus>,
}

/// Status before the crossover checks of one observation.
pub open spec fn initial_status(s: Option<PositionStatus>, above: bool) -> PositionStatus {
    match s {
        Some(x) => x,
        None => if above {
            PositionStatus::Bull
        } else {
            PositionStatus::Bear
        },
    }
}

/// One observation: the new status and the crossing it signals.
pub open spec fn tracker_step(s: Option<PositionStatus>, above: bool, below: bool) -> (
    PositionStatus,
    Option<Crossing>,
) {
    let s0 = initial_status(s, above);
    if above && s0 == PositionStatus::Bear {
        (PositionStatus::Bull, Some(Crossing::Bullish))
    } else if below && s0 == PositionStatus::Bull {
        (PositionStatus::Bear, Some(Crossing::Bearish))
    } else {
        (s0, None)
    }
}

impl CrossoverTracker {
    pub fn new() -> (t: Self)
        ensures
            t.position_status is None,
    {
        CrossoverTracker { position_status: None }
    }

    /// Observes one full-window price: `above` when it is strictly above
    /// its average, `below` when strictly below (neither when equal).
    pub fn observe(&mut self, above: bool, below: bool) -> (c: Option<Crossing>)
        requires
            !(above && below),
        ensures
            final(self).position_status == Some(tracker_step(old(self).position_status, above, below).0),
            c == tracker_step(old(self).position_status, above, below).1,
    {
        if self.position_status.is_none() {
            self.position_status = Some(if above { PositionStatus::Bull } else { PositionStatus::Bear });
        }
        let mut c = None;
        if above && self.position_status == Some(PositionStatus::Bear) {
            self.position_status = Some(PositionStatus::Bull);
            c = Some(Crossing::Bullish);
        }
        if below && self.position_status == Some(PositionStatus::Bull) {
            self.position_status = Some(PositionStatus::Bear);
            c = Some(Crossing::Bearish);
        }
        c
    }

    /// Text of the status for the stream log.
    pub fn status_label(&self) -> (s: &'static str)
        ensures
            s@ == match self.position_status {
                Some(PositionStatus::Bull) => "BULL"@,
                Some(PositionStatus::Bear) => "BEAR"@,
                None => "None"@,
            },
    {
        match self.position_status {
            Some(PositionStatus::Bull) => "BULL",
            Some(PositionStatus::Bear) => "BEAR",
            None => "None",
        }
    }
}

/// Status after a run of observations.
pub open spec fn tracker_status(s: Option<PositionStatus>, obs: Seq<(bool, bool)>) -> Option<PositionStatus>
    decreases obs.len(),
{
    if obs.len() == 0 {
        s
    } else {
        let before = tracker_status(s, obs.drop_last());
        Some(tracker_step(before, obs.last().0, obs.last().1).0)
    }
}

/// Crossings signalled during a run of observations.
pub open spec fn tracker_crossings(s: Option<PositionStatus>, obs: Seq<(bool, bool)>) -> Seq<Crossing>
    decreases obs.len(),
{
    if obs.len() == 0 {
        Seq::empty()
    } else {
        let before = tracker_status(s, obs.drop_last());
        match tracker_step(before, obs.last().0, obs.last().1).1 {
            Some(c) => tracker_crossings(s, obs.drop_last()).push(c),
            None => tracker_crossings(s, obs.drop_last()),
        }
    }
}

pub open spec fn status_after(c: Crossing) -> PositionStatus {
    match c {
        Crossing::Bullish => PositionStatus::Bull,
        Crossing::Bearish => PositionStatus::Bear,
    }
}

proof fn lemma_tracker_track(s: Option<PositionStatus>, obs: Seq<(bool, bool)>)
    requires
        forall|i: int| 0 <= i < obs.len() ==> !(#[trigger] obs[i].0 && obs[i].1),
    ensures
        tracker_crossings(s, obs).len() > 0 ==> tracker_status(s, obs) == Some(
            status_after(tracker_crossings(s, obs).last()),
        ),
        forall|i: int|
            0 <= i < tracker_crossings(s, obs).len() - 1 ==> #[trigger] tracker_crossings(s, obs)[i]
                != tracker_crossings(s, obs)[i + 1],
        s is None && obs.len() <= 1 ==> tracker_crossings(s, obs).len() == 0,
    decreases obs.len(),
{
    if obs.len() > 0 {
        assert forall|i: int| 0 <= i < obs.drop_last().len() implies !(#[trigger] obs.drop_last()[i].0
            && obs.drop_last()[i].1) by {
            assert(obs.drop_last()[i] == obs[i]);
        }
        lemma_tracker_track(s, obs.drop_last());
        assert(!(obs.last().0 && obs.last().1)) by {
            assert(obs.last() == obs[obs.len() - 1]);
        }
    }
}

/// The ticker's bull and bear signals alternate, and the observation that
/// sets the initial status signals nothing.
pub proof fn lemma_tracker_alternates(s: Option<PositionStatus>, obs: Seq<(bool, bool)>)
    requires
        forall|i: int| 0 <= i < obs.len() ==> !(#[trigger] obs[i].0 && obs[i].1),
    ensures
        forall|i: int|
            0 <= i < tracker_crossings(s, obs).len() - 1 ==> #[trigger] tracker_crossings(s, obs)[i]
                != tracker_crossings(s, obs)[i + 1],
        s is None && obs.len() <= 1 ==> tracker_crossings(s, obs).len() == 0,
{
    lemma_tracker_track(s, obs);
}

} // verus!
