//! The too-fast filter: turning a ride's positions into valid segments.
//!
//! The filter walks the positions in order, keeping a single anchor: the last
//! position it accepted. Each later position forms a candidate segment from
//! the anchor; a candidate whose implied speed is over the maximum is GPS
//! noise — it is dropped and, crucially, the anchor stays where it was, so
//! the next position is measured against the same anchor. An accepted
//! candidate becomes a segment and the anchor advances.
//!
//! Whether a candidate is too fast is a float comparison (distance over
//! duration against the speed limit), so the caller assesses each candidate
//! hop and feeds the verdict in; the state machine here owns every other
//! decision, and its contracts pin them down exactly.

use vstd::prelude::*;

use crate::segment::Position;
use crate::segment::Segment;

verus! {

/// One step of the filter. The state is the current anchor, if any. Feeding a
/// position yields the next state and the segment the step accepted, if any:
/// the first position ever seen becomes the anchor and emits nothing (its
/// hop assessment is ignored); a too-fast candidate leaves the state exactly
/// as it was; any other candidate becomes a segment from the anchor, which
/// then advances.
pub open spec fn filter_step(
    anchor: Option<Position>,
    pos: Position,
    distance_bits: u64,
    too_fast: bool,
) -> (Option<Position>, Option<Segment>) {
    match anchor {
        None => (Some(pos), None),
        Some(a) => if too_fast {
            (Some(a), None)
        } else {
            (Some(pos), Some(Segment { start: a.timestamp, end: pos.timestamp, distance_bits }))
        },
    }
}

/// The filter run over a whole sequence of positions, each with the caller's
/// assessment of its candidate hop: the distance from the anchor the machine
/// had at that point (as an IEEE 754 bit pattern) and whether that hop is too
/// fast. Yields the final anchor and the accepted segments, in order.
pub open spec fn filter_run(
    anchor: Option<Position>,
    events: Seq<(Position, u64, bool)>,
) -> (Option<Position>, Seq<Segment>)
    decreases events.len(),
{
    if events.len() == 0 {
        (anchor, Seq::empty())
    } else {
        let prev = filter_run(anchor, events.drop_last());
        let e = events.last();
        let step = filter_step(prev.0, e.0, e.1, e.2);
        (
            step.0,
            match step.1 {
                None => prev.1,
                Some(s) => prev.1.push(s),
            },
        )
    }
}

/// Anchor-retention law, one step: a rejected candidate changes nothing —
/// no segment comes out and the anchor stays put — while an accepted
/// candidate from the same anchor yields exactly the segment from that
/// anchor, carrying the anchor-to-position distance it was assessed with.
pub proof fn lemma_anchor_retention(a: Position, outlier: Position, next: Position, d_out: u64,
    d_next: u64)
    ensures
        filter_step(Some(a), outlier, d_out, true) == (Some(a), None::<Segment>),
        filter_step(Some(a), next, d_next, false) == (
            Some(next),
            Some(Segment { start: a.timestamp, end: next.timestamp, distance_bits: d_next }),
        ),
{
}

/// Anchor-retention law, whole ride: a ride of three positions whose middle
/// one is an isolated outlier — its hop from the first position too fast,
/// the direct hop from the first to the third not — produces exactly one
/// segment, spanning the two consistent positions and carrying the direct
/// distance between them, not a sum through the outlier. The first
/// position's assessment is arbitrary: the machine ignores it.
pub proof fn lemma_isolated_outlier(p0: Position, outlier: Position, p2: Position, d_any: u64,
    f_any: bool, d_out: u64, d_direct: u64)
    ensures
        ({
            let run = filter_run(None, seq![(p0, d_any, f_any), (outlier, d_out, true),
                (p2, d_direct, false)]);
            &&& run.1 =~= seq![Segment {
                start: p0.timestamp,
                end: p2.timestamp,
                distance_bits: d_direct,
            }]
            &&& run.0 == Some(p2)
        }),
{
    reveal_with_fuel(filter_run, 4);
    let events = seq![(p0, d_any, f_any), (outlier, d_out, true), (p2, d_direct, false)];
    assert(events.drop_last() =~= seq![(p0, d_any, f_any), (outlier, d_out, true)]);
    assert(events.drop_last().drop_last() =~= seq![(p0, d_any, f_any)]);
    assert(events.drop_last().drop_last().drop_last() =~= Seq::<(Position, u64, bool)>::empty());
    let r0 = filter_run(None, events.drop_last().drop_last());
    assert(r0.0 == Some(p0) && r0.1 =~= Seq::<Segment>::empty());
    let r1 = filter_run(None, events.drop_last());
    assert(r1.0 == Some(p0) && r1.1 =~= Seq::<Segment>::empty());
}

/// A ride with zero or one positions yields no segment: the filter emits
/// only on the second and later positions.
pub proof fn lemma_short_ride_has_no_segments(events: Seq<(Position, u64, bool)>)
    requires
        events.len() <= 1,
    ensures
        filter_run(None, events).1 =~= Seq::<Segment>::empty(),
{
    reveal_with_fuel(filter_run, 2);
    if events.len() == 1 {
        assert(events.drop_last() =~= Seq::<(Position, u64, bool)>::empty());
    }
}

/// The noise filter as a value: feeds on one position at a time.
pub struct Segmenter {
    anchor: Option<Position>,
}

impl View for Segmenter {
    type V = Option<Position>;

    /// The current anchor: the last accepted position, if any.
    closed spec fn view(&self) -> Option<Position> {
        self.anchor
    }
}

impl Segmenter {
    /// A filter that has seen no position yet.
    pub fn new() -> (s: Segmenter)
        ensures
            s@ is None,
    {
        Segmenter { anchor: None }
    }

    /// The current anchor, for the caller to assess the next candidate hop
    /// against.
    pub fn anchor(&self) -> (a: Option<Position>)
        ensures
            a == self@,
    {
        self.anchor
    }

    /// Feeds one position together with the caller's assessment of the
    /// candidate hop from the current anchor to it: the hop's distance (an
    /// IEEE 754 bit pattern) and whether it is too fast. With no anchor yet,
    /// both are ignored and the position only becomes the anchor.
    pub fn step(&mut self, pos: Position, distance_bits: u64, too_fast: bool) -> (emitted: Option<
        Segment,
    >)
        ensures
            final(self)@ == filter_step(old(self)@, pos, distance_bits, too_fast).0,
            emitted == filter_step(old(self)@, pos, distance_bits, too_fast).1,
    {
        match self.anchor {
            None => {
                self.anchor = Some(pos);
                None
            },
            Some(a) => {
                if too_fast {
                    None
                } else {
                    self.anchor = Some(pos);
                    Some(Segment { start: a.timestamp, end: pos.timestamp, distance_bits })
                }
            },
        }
    }
}

} // verus!
