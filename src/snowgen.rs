//! The allocation core: the state that decides which (timestamp, sequence) pair
//! the next identifier takes, fed with clock readings by its owner.
use vstd::prelude::*;
use vstd::arithmetic::power2::lemma_pow2_pos;
use crate::error::GenerationError;
use crate::layout::{Layout, LayoutView, lemma_id_order, lemma_id_successor, lemma_fields_round_trip, lemma_low_mask_is_pow2};

verus! {

/// `a` comes strictly before `b` in the order of timestamps, then sequence numbers.
pub open spec fn pair_lt(a: (u64, u64), b: (u64, u64)) -> bool {
    a.0 < b.0 || (a.0 == b.0 && a.1 < b.1)
}

/// The allocation state in mathematical terms, with every pair issued so far.
pub struct SnowgenView {
    pub layout: LayoutView,
    /// The millisecond of the last identifier issued; `None` before the first.
    pub last_timestamp: Option<u64>,
    /// The sequence number of the last identifier issued.
    pub sequence: u64,
    /// The (timestamp, sequence) pairs issued so far, oldest first.
    pub issued: Seq<(u64, u64)>,
}

impl SnowgenView {
    pub open spec fn wf(self) -> bool {
        &&& self.layout.valid()
        &&& self.sequence < self.layout.capacity()
        &&& match self.last_timestamp {
            None => self.sequence == 0 && self.issued.len() == 0,
            Some(t) => self.issued.len() > 0 && self.issued.last() == (t, self.sequence),
        }
        &&& forall|i: int, j: int|
            0 <= i < j < self.issued.len() ==> pair_lt(#[trigger] self.issued[i], #[trigger] self.issued[j])
        &&& forall|i: int| 0 <= i < self.issued.len() ==> #[trigger] self.issued[i].1 < self.layout.capacity()
    }

    /// The identifiers issued so far, oldest first.
    pub open spec fn ids(self) -> Seq<u64> {
        self.issued.map_values(|p: (u64, u64)| self.layout.id_of(p.0, p.1))
    }

    /// The pair that a reading of `t` takes, if any: `None` where the clock went back
    /// or the millisecond has no sequence number left.
    pub open spec fn next_pair(self, t: u64) -> Option<(u64, u64)> {
        match self.last_timestamp {
            None => Some((t, 0u64)),
            Some(last) => if t < last {
                None
            } else if t == last {
                if self.sequence + 1 < self.layout.capacity() {
                    Some((t, (self.sequence + 1) as u64))
                } else {
                    None
                }
            } else {
                Some((t, 0u64))
            },
        }
    }

    /// What a reading of `t` returns: the clock went back, the millisecond is full
    /// (`Ok(None)`: wait for the next one), or the identifier of the next pair.
    pub open spec fn outcome(self, t: u64) -> Result<Option<u64>, GenerationError> {
        match self.last_timestamp {
            Some(last) if t < last => Err(GenerationError::ClockRegression),
            _ => match self.next_pair(t) {
                Some(p) => Ok(Some(self.layout.id_of(p.0, p.1))),
                None => Ok(None),
            },
        }
    }

    /// The state after a reading of `t`: the next pair, if any, is issued.
    pub open spec fn next(self, t: u64) -> SnowgenView {
        match self.next_pair(t) {
            Some(p) => SnowgenView {
                last_timestamp: Some(p.0),
                sequence: p.1,
                issued: self.issued.push(p),
                ..self
            },
            None => self,
        }
    }
}

/// The allocation state of one generator: its layout, the last millisecond an
/// identifier was issued for and the sequence number used in it.
pub struct Snowgen {
    layout: Layout,
    last_timestamp: Option<u64>,
    sequence: u64,
    issued: Ghost<Seq<(u64, u64)>>,
}

impl View for Snowgen {
    type V = SnowgenView;

    closed spec fn view(&self) -> SnowgenView {
        SnowgenView {
            layout: self.layout@,
            last_timestamp: self.last_timestamp,
            sequence: self.sequence,
            issued: self.issued@,
        }
    }
}

impl Snowgen {
    #[verifier::type_invariant]
    pub(crate) open spec fn inv(self) -> bool {
        self@.wf()
    }

    pub open spec fn wf(&self) -> bool {
        self@.wf()
    }

    /// A fresh allocator: nothing issued yet, sequence 0.
    pub fn new(layout: Layout) -> (r: Snowgen)
        ensures
            r.wf(),
            r@.layout == layout@,
            r@.last_timestamp is None,
            r@.sequence == 0,
            r@.issued.len() == 0,
    {
        proof {
            use_type_invariant(&layout);
            lemma_pow2_pos(layout@.sequence_bits);
        }
        Snowgen { layout, last_timestamp: None, sequence: 0, issued: Ghost(Seq::empty()) }
    }

    pub fn layout(&self) -> (r: Layout)
        ensures
            r@ == self@.layout,
            self.wf(),
    {
        proof {
            use_type_invariant(self);
        }
        self.layout
    }

    /// Takes the next identifier for a clock reading of `timestamp` milliseconds since
    /// the epoch. A reading before the last millisecond issued is refused with
    /// `ClockRegression`. A reading of the last millisecond takes the next sequence
    /// number, or gives `Ok(None)` where the millisecond has none left: the caller
    /// waits for the clock to advance and asks again. A later reading starts at
    /// sequence 0. Nothing changes unless an identifier is issued.
    ///
    /// Identifiers are unique and increasing only while the timestamp fits in the
    /// `64 - (node_id_bits + machine_id_bits + sequence_bits)` bits above the other
    /// fields: a larger timestamp loses its high bits, and identifiers then repeat.
    pub fn next_id_at(&mut self, timestamp: u64) -> (r: Result<Option<u64>, GenerationError>)
        ensures
            old(self).wf(),
            final(self).wf(),
            final(self)@ == old(self)@.next(timestamp),
            r == old(self)@.outcome(timestamp),
            r matches Ok(Some(id)) ==> final(self)@.ids() == old(self)@.ids().push(id),
            r matches Ok(Some(id)) ==> (old(self)@.layout.timestamp_fits(timestamp) ==> forall|
                i: int,
            |
                0 <= i < old(self)@.ids().len() ==> #[trigger] old(self)@.ids()[i] < id),
            r matches Ok(Some(id)) ==> (old(self)@.last_timestamp == Some(timestamp) ==> id
                == old(self)@.ids().last() + 1),
        no_unwind
    {
        proof {
            use_type_invariant(&*self);
        }
        let seq: u64;
        match self.last_timestamp {
            Some(last) => {
                if timestamp < last {
                    return Err(GenerationError::ClockRegression);
                } else if timestamp == last {
                    if self.sequence >= self.layout.max_sequence() {
                        return Ok(None);
                    }
                    seq = self.sequence + 1;
                } else {
                    seq = 0;
                }
            },
            None => {
                seq = 0;
            },
        }
        let ghost before = self@;
        let ghost after = SnowgenView {
            last_timestamp: Some(timestamp),
            sequence: seq,
            issued: before.issued.push((timestamp, seq)),
            ..before
        };
        let id = self.layout.compose(timestamp, seq);
        proof {
            assert(after.ids() =~= before.ids().push(id));
            assert forall|i: int, j: int|
                0 <= i < j < after.issued.len() implies pair_lt(
                #[trigger] after.issued[i],
                #[trigger] after.issued[j],
            ) by {
                if j == after.issued.len() - 1 && i < before.issued.len() {
                    lemma_earlier_pairs(before, i);
                }
            }
            if before.last_timestamp == Some(timestamp) {
                lemma_id_successor(before.layout, timestamp, before.sequence);
                assert(before.ids().last() == before.layout.id_of(timestamp, before.sequence));
            }
            if before.layout.timestamp_fits(timestamp) {
                assert forall|i: int| 0 <= i < before.ids().len() implies #[trigger] before.ids()[i]
                    < id by {
                    lemma_earlier_pairs(before, i);
                    let p = before.issued[i];
                    lemma_id_order(before.layout, p.0, p.1, timestamp, seq);
                }
            }
        }
        *self = Snowgen {
            layout: self.layout,
            last_timestamp: Some(timestamp),
            sequence: seq,
            issued: Ghost(self.issued@.push((timestamp, seq))),
        };
        Ok(Some(id))
    }
}

/// Identifiers come out strictly increasing, call after call, as long as every
/// timestamp issued fits in the identifier.
pub proof fn lemma_ids_increasing(g: SnowgenView)
    requires
        g.wf(),
        forall|i: int| 0 <= i < g.issued.len() ==> g.layout.timestamp_fits(#[trigger] g.issued[i].0),
    ensures
        forall|i: int, j: int| 0 <= i < j < g.ids().len() ==> #[trigger] g.ids()[i] < #[trigger] g.ids()[j],
{
    assert forall|i: int, j: int| 0 <= i < j < g.ids().len() implies #[trigger] g.ids()[i]
        < #[trigger] g.ids()[j] by {
        let p = g.issued[i];
        let q = g.issued[j];
        assert(pair_lt(p, q));
        lemma_id_order(g.layout, p.0, p.1, q.0, q.1);
    }
}

/// No identifier is issued twice, as long as every timestamp issued fits in the
/// identifier.
pub proof fn lemma_ids_unique(g: SnowgenView)
    requires
        g.wf(),
        forall|i: int| 0 <= i < g.issued.len() ==> g.layout.timestamp_fits(#[trigger] g.issued[i].0),
    ensures
        forall|i: int, j: int|
            0 <= i < g.ids().len() && 0 <= j < g.ids().len() && i != j ==> #[trigger] g.ids()[i]
                != #[trigger] g.ids()[j],
{
    lemma_ids_increasing(g);
    assert forall|i: int, j: int|
        0 <= i < g.ids().len() && 0 <= j < g.ids().len() && i != j implies #[trigger] g.ids()[i]
        != #[trigger] g.ids()[j] by {
        if i < j {
            assert(g.ids()[i] < g.ids()[j]);
        } else {
            assert(g.ids()[j] < g.ids()[i]);
        }
    }
}

/// No millisecond holds more than `2^sequence_bits` identifiers: every sequence number
/// stays below that, and no (timestamp, sequence) pair is issued twice.
pub proof fn lemma_sequence_capacity(g: SnowgenView)
    requires
        g.wf(),
    ensures
        forall|i: int| 0 <= i < g.issued.len() ==> #[trigger] g.issued[i].1 < g.layout.capacity(),
        forall|i: int, j: int|
            0 <= i < g.issued.len() && 0 <= j < g.issued.len() && i != j ==> #[trigger] g.issued[i]
                != #[trigger] g.issued[j],
{
    assert forall|i: int, j: int|
        0 <= i < g.issued.len() && 0 <= j < g.issued.len() && i != j implies #[trigger] g.issued[i]
        != #[trigger] g.issued[j] by {
        if i < j {
            assert(pair_lt(g.issued[i], g.issued[j]));
        } else {
            assert(pair_lt(g.issued[j], g.issued[i]));
        }
    }
}

/// Once a millisecond's last sequence number is taken, another reading of that
/// millisecond issues nothing and changes nothing, and the first later reading
/// starts again at sequence 0.
pub proof fn lemma_full_millisecond_waits(g: SnowgenView, t: u64, later: u64)
    requires
        g.wf(),
        g.last_timestamp == Some(t),
        g.sequence + 1 == g.layout.capacity(),
        t < later,
    ensures
        g.outcome(t) == Ok::<Option<u64>, GenerationError>(None),
        g.next(t) == g,
        g.next_pair(later) == Some((later, 0u64)),
        g.outcome(later) == Ok::<Option<u64>, GenerationError>(Some(g.layout.id_of(later, 0))),
        g.layout.timestamp_fits(later) ==> g.layout.timestamp_field(g.layout.id_of(later, 0))
            == later && g.layout.sequence_field(g.layout.id_of(later, 0)) == 0,
        g.layout.timestamp_fits(later) ==> forall|i: int|
            0 <= i < g.ids().len() ==> #[trigger] g.ids()[i] < g.layout.id_of(later, 0),
{
    lemma_fields_round_trip(g.layout, later, 0);
    if g.layout.timestamp_fits(later) {
        assert forall|i: int| 0 <= i < g.ids().len() implies #[trigger] g.ids()[i] < g.layout.id_of(
            later,
            0,
        ) by {
            lemma_earlier_pairs(g, i);
            let p = g.issued[i];
            lemma_id_order(g.layout, p.0, p.1, later, 0);
        }
    }
}

/// Two draws in a row: the second reading is not earlier than the first; within one
/// millisecond the second identifier is the first plus one, and in any case it is
/// larger, as long as its timestamp fits in the identifier.
pub proof fn lemma_consecutive_ids(g: SnowgenView, t1: u64, id1: u64, t2: u64, id2: u64)
    requires
        g.wf(),
        g.outcome(t1) == Ok::<Option<u64>, GenerationError>(Some(id1)),
        g.next(t1).outcome(t2) == Ok::<Option<u64>, GenerationError>(Some(id2)),
    ensures
        t1 <= t2,
        t1 == t2 ==> id2 == id1 + 1,
        g.layout.timestamp_fits(t2) ==> id1 < id2,
{
    let h = g.next(t1);
    let p1 = g.next_pair(t1).unwrap();
    let p2 = h.next_pair(t2).unwrap();
    lemma_pow2_pos(g.layout.sequence_bits);
    lemma_low_mask_is_pow2(g.layout.sequence_bits as u64);
    if t1 == t2 {
        lemma_id_successor(g.layout, t1, p1.1);
    }
    if g.layout.timestamp_fits(t2) {
        lemma_id_order(g.layout, p1.0, p1.1, p2.0, p2.1);
    }
}

/// Every pair issued is at or before the last one.
proof fn lemma_earlier_pairs(g: SnowgenView, i: int)
    requires
        g.wf(),
        0 <= i < g.issued.len(),
    ensures
        g.last_timestamp matches Some(t) && (g.issued[i] == (t, g.sequence) || pair_lt(
            g.issued[i],
            (t, g.sequence),
        )),
{
    let n = g.issued.len();
    if i < n - 1 {
        assert(pair_lt(g.issued[i], g.issued[n - 1]));
    }
}

} // verus!
