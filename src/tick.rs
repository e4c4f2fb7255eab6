//! Logical simulation ticks and the per-player freshness filter.
use std::collections::HashMap;
use vstd::prelude::*;

verus! {

broadcast use vstd::std_specs::hash::group_hash_axioms;

/// A logical simulation step, used per peer as a freshness counter.
#[derive(Clone, Copy, Debug, PartialEq, Eq, Structural)]
pub struct Tick(pub u64);

/// Issues ticks for one match on one process.
///
/// Every tick handed out is strictly greater than all earlier ones.
pub struct TickClock {
    last: u64,
}

impl TickClock {
    /// The value of the most recently issued tick (0 when none was issued).
    pub closed spec fn last_issued(&self) -> u64 {
        self.last
    }

    /// A clock for a new match; nothing has been issued yet.
    pub fn new() -> (r: TickClock)
        ensures
            r.last_issued() == 0,
    {
        TickClock { last: 0 }
    }

    /// The value of the most recently issued tick (0 when none was issued).
    pub fn last(&self) -> (r: u64)
        ensures
            r == self.last_issued(),
    {
        self.last
    }

    /// Issues a fresh tick, strictly greater than every earlier one.
    pub fn next(&mut self) -> (r: Tick)
        requires
            old(self).last_issued() < u64::MAX,
        ensures
            r.0 == old(self).last_issued() + 1,
            final(self).last_issued() == r.0,
    {
        self.last = self.last + 1;
        Tick(self.last)
    }
}

/// What `is_latest` does to the watermarks: the tick is recorded exactly when
/// it is fresh for that player.
pub open spec fn is_fresh(marks: Map<usize, u64>, player: usize, tick: u64) -> bool {
    !marks.contains_key(player) || marks[player] < tick
}

/// The watermarks after one call of `is_latest`.
pub open spec fn after_check(marks: Map<usize, u64>, player: usize, tick: u64) -> Map<usize, u64> {
    if is_fresh(marks, player, tick) {
        marks.insert(player, tick)
    } else {
        marks
    }
}

/// The watermark of one player after a series of ticks was checked,
/// starting from `start` (`None`: no tick seen yet).
pub open spec fn watermark_after(start: Option<u64>, ticks: Seq<u64>) -> Option<u64>
    decreases ticks.len(),
{
    if ticks.len() == 0 {
        start
    } else {
        let prev = watermark_after(start, ticks.drop_last());
        let t = ticks.last();
        match prev {
            Some(w) if t <= w => prev,
            _ => Some(t),
        }
    }
}

/// The largest element of a non-empty sequence.
pub open spec fn max_of(ticks: Seq<u64>) -> u64
    decreases ticks.len(),
{
    if ticks.len() <= 1 {
        ticks[0]
    } else {
        let m = max_of(ticks.drop_last());
        if ticks.last() > m {
            ticks.last()
        } else {
            m
        }
    }
}

/// Per-player "last applied tick" tracker that discards stale snapshots.
pub struct ClientTicks {
    marks: HashMap<usize, u64>,
}

impl View for ClientTicks {
    type V = Map<usize, u64>;

    closed spec fn view(&self) -> Map<usize, u64> {
        self.marks@
    }
}

impl ClientTicks {
    /// A tracker for a new match: no tick seen for any player.
    pub fn new() -> (r: ClientTicks)
        ensures
            r@ == Map::<usize, u64>::empty(),
    {
        ClientTicks { marks: HashMap::new() }
    }

    /// The watermark of `player`, if any tick of theirs was accepted.
    pub fn watermark(&self, player: usize) -> (r: Option<u64>)
        ensures
            r == (if self@.contains_key(player) {
                Some(self@[player])
            } else {
                None::<u64>
            }),
    {
        match self.marks.get(&player) {
            Some(w) => Some(*w),
            None => None,
        }
    }

    /// Returns true and records `tick` as the new watermark of `player`
    /// exactly when `tick` is strictly greater than the stored one, or none is
    /// stored; otherwise returns false and changes nothing.
    pub fn is_latest(&mut self, player: usize, tick: Tick) -> (r: bool)
        ensures
            r == is_fresh(old(self)@, player, tick.0),
            final(self)@ == after_check(old(self)@, player, tick.0),
    {
        let fresh = match self.marks.get(&player) {
            Some(w) => *w < tick.0,
            None => true,
        };
        if fresh {
            self.marks.insert(player, tick.0);
        }
        fresh
    }

    /// Forgets every watermark, as between two matches.
    pub fn reset(&mut self)
        ensures
            final(self)@ == Map::<usize, u64>::empty(),
    {
        self.marks = HashMap::new();
    }
}

/// A check of one player's tick never changes the watermark of another.
pub proof fn lemma_other_players_untouched(
    marks: Map<usize, u64>,
    player: usize,
    tick: u64,
    other: usize,
)
    requires
        other != player,
    ensures
        after_check(marks, player, tick).contains_key(other) == marks.contains_key(other),
        marks.contains_key(other) ==> after_check(marks, player, tick)[other] == marks[other],
{
}

/// Feeding a player's ticks one by one through the filter leaves as
/// watermark the largest tick seen: a delayed snapshot never lowers it.
pub proof fn lemma_watermark_is_max(ticks: Seq<u64>)
    requires
        ticks.len() > 0,
    ensures
        watermark_after(None, ticks) == Some(max_of(ticks)),
        forall|i: int| 0 <= i < ticks.len() ==> ticks[i] <= max_of(ticks),
    decreases ticks.len(),
{
    if ticks.len() > 1 {
        lemma_watermark_is_max(ticks.drop_last());
        assert forall|i: int| 0 <= i < ticks.len() implies ticks[i] <= max_of(ticks) by {
            if i < ticks.len() - 1 {
                assert(ticks[i] == ticks.drop_last()[i]);
            }
        }
    } else {
        assert(ticks.drop_last().len() == 0);
        assert(watermark_after(None, ticks.drop_last()) == None::<u64>);
    }
}

/// One call of the filter on a player's watermark agrees with the series
/// model: `watermark_after` advances exactly as `is_latest` does.
pub proof fn lemma_watermark_step(marks: Map<usize, u64>, player: usize, ticks: Seq<u64>, t: u64)
    requires
        watermark_after(None, ticks) == (if marks.contains_key(player) {
            Some(marks[player])
        } else {
            None::<u64>
        }),
    ensures
        watermark_after(None, ticks.push(t)) == Some(after_check(marks, player, t)[player]),
        after_check(marks, player, t).contains_key(player),
{
    assert(ticks.push(t).drop_last() == ticks);
}

} // verus!
