//! Grouping decoded rows into rides.
//!
//! Rows arrive in one order and carry a ride id each. A ride is a maximal
//! contiguous run of rows with the same id: the key is "same id as the
//! immediately preceding row", not "same id anywhere in the stream", so an id
//! that reappears later starts a new ride. The `Grouper` state machine
//! consumes rows one at a time and emits each ride as soon as its run closes;
//! `rides_from_records` folds it over a whole batch, validating rows as it
//! goes, and aborts on the first invalid row (the batch policy; a streaming
//! caller may instead skip invalid rows by driving the `Grouper` itself).

use vstd::prelude::*;

use crate::errors::ReadError;
use crate::records::RawRecord;
use crate::records::record_complete;
use crate::records::spec_position;
use crate::records::spec_record_missing;
use crate::records::validate_record;
use crate::segment::Position;

verus! {

/// One ride: all positions for one run of its id, in arrival order.
#[derive(Clone, Debug)]
pub struct Ride {
    pub id: u32,
    pub positions: Vec<Position>,
}

/// Mathematical picture of a ride.
#[verifier::ext_equal]
pub struct RideView {
    pub id: u32,
    pub positions: Seq<Position>,
}

impl View for Ride {
    type V = RideView;

    open spec fn view(&self) -> RideView {
        RideView { id: self.id, positions: self.positions@ }
    }
}

/// One step of the grouping state machine. The state is the ride still
/// accumulating, if any. Feeding a row yields the next state and the ride the
/// step closed, if any: a row with a new id closes the accumulating ride and
/// opens its own.
pub open spec fn group_step(st: Option<RideView>, id: u32, pos: Position) -> (Option<RideView>,
    Option<RideView>) {
    match st {
        None => (Some(RideView { id, positions: seq![pos] }), None),
        Some(g) => if g.id == id {
            (Some(RideView { id: g.id, positions: g.positions.push(pos) }), None)
        } else {
            (Some(RideView { id, positions: seq![pos] }), Some(g))
        },
    }
}

/// The grouping state machine run over a whole row sequence, from the empty
/// initial state: the final state and the rides emitted, in order.
pub open spec fn group_run(rows: Seq<(u32, Position)>) -> (Option<RideView>, Seq<RideView>)
    decreases rows.len(),
{
    if rows.len() == 0 {
        (None, Seq::empty())
    } else {
        let prev = group_run(rows.drop_last());
        let step = group_step(prev.0, rows.last().0, rows.last().1);
        (
            step.0,
            match step.1 {
                None => prev.1,
                Some(g) => prev.1.push(g),
            },
        )
    }
}

/// All rides in a row sequence: the rides the state machine emits, plus the
/// one still accumulating at end of input, if any.
pub open spec fn groups_of(rows: Seq<(u32, Position)>) -> Seq<RideView> {
    let run = group_run(rows);
    match run.0 {
        None => run.1,
        Some(g) => run.1.push(g),
    }
}

/// The rows a single ride stands for.
pub open spec fn ride_rows(g: RideView) -> Seq<(u32, Position)> {
    Seq::new(g.positions.len(), |i: int| (g.id, g.positions[i]))
}

/// The rows a ride sequence stands for, concatenated in order.
pub open spec fn ungroup(gs: Seq<RideView>) -> Seq<(u32, Position)>
    decreases gs.len(),
{
    if gs.len() == 0 {
        Seq::empty()
    } else {
        ungroup(gs.drop_last()) + ride_rows(gs.last())
    }
}

/// A ride sequence is a contiguous grouping when every ride is non-empty and
/// neighbouring rides carry different ids.
pub open spec fn contiguous_grouping(gs: Seq<RideView>) -> bool {
    &&& forall|k: int| 0 <= k < gs.len() ==> (#[trigger] gs[k]).positions.len() > 0
    &&& forall|k: int| 0 <= k < gs.len() - 1 ==> (#[trigger] gs[k]).id != gs[k + 1].id
}

/// Invariant of a partial run: the emitted rides form a contiguous grouping,
/// the accumulating ride (present exactly when any row was seen) is
/// non-empty, its id differs from the last emitted ride's, and emitted plus
/// accumulating rows reassemble the input exactly.
proof fn lemma_group_run(rows: Seq<(u32, Position)>)
    ensures
        ({
            let (st, ems) = group_run(rows);
            &&& contiguous_grouping(ems)
            &&& (st is None <==> rows.len() == 0)
            &&& (st matches Some(g) ==> g.positions.len() > 0 && g.id == rows.last().0 && (
            ems.len() > 0 ==> ems[ems.len() - 1].id != g.id))
            &&& match st {
                None => ungroup(ems) == rows,
                Some(g) => ungroup(ems) + ride_rows(g) == rows,
            }
        }),
    decreases rows.len(),
{
    if rows.len() == 0 {
        assert(ungroup(Seq::empty()) =~= rows);
    } else {
        let prefix = rows.drop_last();
        let (id, pos) = rows.last();
        lemma_group_run(prefix);
        let (st0, ems0) = group_run(prefix);
        match st0 {
            None => {
                assert(ungroup(ems0) + ride_rows(RideView { id, positions: seq![pos] }) =~= rows);
            },
            Some(g) => {
                if g.id == id {
                    let g2 = RideView { id: g.id, positions: g.positions.push(pos) };
                    assert(ride_rows(g2) =~= ride_rows(g).push((id, pos)));
                    assert(ungroup(ems0) + ride_rows(g2) =~= (ungroup(ems0) + ride_rows(g)).push(
                        (id, pos),
                    ));
                    assert(prefix.push((id, pos)) =~= rows);
                } else {
                    let ems1 = ems0.push(g);
                    assert(ems1.drop_last() =~= ems0);
                    assert(ungroup(ems1) == ungroup(ems0) + ride_rows(g));
                    assert(ride_rows(RideView { id, positions: seq![pos] }) =~= seq![(id, pos)]);
                    assert(ungroup(ems1) + seq![(id, pos)] =~= rows);
                }
            },
        }
    }
}

/// Grouping law: the rides of a row sequence always form a contiguous
/// grouping — every ride non-empty, neighbouring rides with different ids —
/// and reassembling their rows gives back the input row for row. In
/// particular an id that reappears after other ids yields a separate ride,
/// never a merged one.
pub proof fn lemma_grouping_characterization(rows: Seq<(u32, Position)>)
    ensures
        contiguous_grouping(groups_of(rows)),
        ungroup(groups_of(rows)) == rows,
{
    lemma_group_run(rows);
    let (st, ems) = group_run(rows);
    match st {
        None => {},
        Some(g) => {
            assert(groups_of(rows).drop_last() =~= ems);
        },
    }
}

/// The streaming grouper: feeds on one row at a time and hands back each ride
/// as soon as a row with a different id closes it.
pub struct Grouper {
    current_id: Option<u32>,
    positions: Vec<Position>,
}

impl View for Grouper {
    type V = Option<RideView>;

    /// The ride still accumulating, if any.
    closed spec fn view(&self) -> Option<RideView> {
        match self.current_id {
            None => None,
            Some(id) => Some(RideView { id, positions: self.positions@ }),
        }
    }
}

impl Grouper {
    /// A grouper that has seen no row yet.
    pub fn new() -> (g: Grouper)
        ensures
            g@ is None,
    {
        Grouper { current_id: None, positions: Vec::new() }
    }

    /// Feeds one row. Exactly when the row's id differs from the
    /// accumulating ride's, that ride is complete and returned.
    pub fn push(&mut self, id: u32, pos: Position) -> (emitted: Option<Ride>)
        ensures
            final(self)@ == group_step(old(self)@, id, pos).0,
            emitted is Some <==> group_step(old(self)@, id, pos).1 is Some,
            emitted matches Some(r) ==> group_step(old(self)@, id, pos).1 matches Some(g) && r@
                == g,
    {
        match self.current_id {
            None => {
                let mut ps: Vec<Position> = Vec::new();
                ps.push(pos);
                self.current_id = Some(id);
                self.positions = ps;
                proof {
                    assert(self.positions@ =~= seq![pos]);
                }
                None
            },
            Some(cid) => {
                if cid == id {
                    self.positions.push(pos);
                    None
                } else {
                    let mut finished: Vec<Position> = Vec::new();
                    finished.push(pos);
                    core::mem::swap(&mut finished, &mut self.positions);
                    self.current_id = Some(id);
                    proof {
                        assert(self.positions@ =~= seq![pos]);
                    }
                    Some(Ride { id: cid, positions: finished })
                }
            },
        }
    }

    /// Ends the input: whatever ride is still accumulating comes out.
    pub fn finish(self) -> (last: Option<Ride>)
        ensures
            last is Some <==> self@ is Some,
            last matches Some(r) ==> self@ matches Some(g) && r@ == g,
    {
        match self.current_id {
            None => None,
            Some(id) => Some(Ride { id, positions: self.positions }),
        }
    }
}

/// The key-and-position pairs of a fully validated record sequence.
pub open spec fn keyed(rows: Seq<RawRecord>) -> Seq<(u32, Position)> {
    Seq::new(rows.len(), |i: int| (rows[i].id->Some_0, spec_position(rows[i])))
}

/// Validates a whole batch of decoded rows and groups them into rides.
/// Succeeds exactly when every record carries all four fields, and then
/// returns the contiguous grouping of the rows, in order. Fails on the first
/// incomplete record, naming its first missing field; later records are not
/// looked at.
pub fn rides_from_records(records: &Vec<RawRecord>) -> (r: Result<Vec<Ride>, ReadError>)
    ensures
        r is Ok <==> (forall|i: int|
            0 <= i < records@.len() ==> record_complete(#[trigger] records@[i])),
        r matches Ok(rides) ==> {
            let gs = groups_of(keyed(records@));
            &&& rides@.len() == gs.len()
            &&& forall|k: int| 0 <= k < gs.len() ==> (#[trigger] rides@[k])@ == gs[k]
        },
        r matches Err(e) ==> exists|i: int|
            {
                &&& 0 <= i < records@.len()
                &&& !record_complete(#[trigger] records@[i])
                &&& forall|j: int| 0 <= j < i ==> record_complete(#[trigger] records@[j])
                &&& e.spec_missing_field() == spec_record_missing(records@[i])
            },
{
    let mut rides: Vec<Ride> = Vec::new();
    let mut grouper = Grouper::new();
    let ghost mut parsed: Seq<(u32, Position)> = Seq::empty();
    let n = records.len();
    let mut idx: usize = 0;
    while idx < n
        invariant
            n == records@.len(),
            idx <= n,
            forall|j: int| 0 <= j < idx ==> record_complete(#[trigger] records@[j]),
            parsed == keyed(records@.take(idx as int)),
            grouper@ == group_run(parsed).0,
            rides@.len() == group_run(parsed).1.len(),
            forall|k: int| 0 <= k < rides@.len() ==> (#[trigger] rides@[k])@ == group_run(
                parsed,
            ).1[k],
        decreases n - idx,
    {
        let record = records[idx];
        let (id, pos) = match validate_record(record) {
            Ok(p) => p,
            Err(e) => {
                return Err(e);
            },
        };
        proof {
            let parsed2 = parsed.push((id, pos));
            assert(parsed2 =~= keyed(records@.take(idx + 1 as int)));
            assert(parsed2.drop_last() =~= parsed);
            parsed = parsed2;
        }
        let emitted = grouper.push(id, pos);
        if let Some(ride) = emitted {
            rides.push(ride);
        }
        idx = idx + 1;
    }
    proof {
        assert(records@.take(n as int) =~= records@);
    }
    let last = grouper.finish();
    if let Some(ride) = last {
        rides.push(ride);
    }
    Ok(rides)
}

} // verus!
