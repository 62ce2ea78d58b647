//! The bit layout of an identifier and the arithmetic of packing and unpacking it.
use vstd::prelude::*;
use vstd::arithmetic::power2::{pow2, lemma2_to64, lemma2_to64_rest};
use vstd::bits::{lemma_u64_shl_is_mul, lemma_u64_pow2_no_overflow};
use crate::error::ConfigError;

verus! {

/// `x << k` on 64 bits, where a shift by 64 or more leaves nothing.
pub open spec fn shl(x: u64, k: u64) -> u64 {
    if k >= 64 {
        0
    } else {
        x << k
    }
}

/// `x >> k` on 64 bits, where a shift by 64 or more leaves nothing.
pub open spec fn shr(x: u64, k: u64) -> u64 {
    if k >= 64 {
        0
    } else {
        x >> k
    }
}

/// The mask of the `k` lowest bits of a `u64`.
pub open spec fn low_mask(k: u64) -> u64 {
    if k >= 64 {
        u64::MAX
    } else {
        ((1u64 << k) - 1) as u64
    }
}

/// Packs the four fields: `(t << (n+m+s)) | (node << (m+s)) | (machine << s) | seq`.
pub open spec fn pack(t: u64, node: u64, machine: u64, seq: u64, n: u64, m: u64, s: u64) -> u64 {
    shl(t, (n + m + s) as u64) | shl(node, (m + s) as u64) | shl(machine, s) | seq
}

/// The mask of `k` bits is `2^k - 1`.
pub proof fn lemma_low_mask_is_pow2(k: u64)
    requires
        k <= 64,
    ensures
        low_mask(k) as int == pow2(k as nat) - 1,
{
    if k < 64 {
        lemma_u64_pow2_no_overflow(k as nat);
        lemma_u64_shl_is_mul(1, k);
    } else {
        lemma2_to64();
        lemma2_to64_rest();
    }
}

/// The node, machine and sequence fields together.
pub open spec fn low_part(node: u64, machine: u64, seq: u64, m: u64, s: u64) -> u64 {
    shl(node, (m + s) as u64) | shl(machine, s) | seq
}

proof fn lemma_low_part(t: u64, node: u64, machine: u64, seq: u64, n: u64, m: u64, s: u64)
    requires
        n + m + s <= 64,
        node <= low_mask(n),
        machine <= low_mask(m),
        seq <= low_mask(s),
    ensures
        low_part(node, machine, seq, m, s) <= low_mask((n + m + s) as u64),
        pack(t, node, machine, seq, n, m, s) == shl(t, (n + m + s) as u64) | low_part(
            node,
            machine,
            seq,
            m,
            s,
        ),
{
    let low = low_part(node, machine, seq, m, s);
    assert(low <= low_mask((n + m + s) as u64)) by (bit_vector)
        requires
            n + m + s <= 64,
            node <= low_mask(n),
            machine <= low_mask(m),
            seq <= low_mask(s),
            low == low_part(node, machine, seq, m, s),
    ;
    assert(pack(t, node, machine, seq, n, m, s) == shl(t, (n + m + s) as u64) | low)
        by (bit_vector)
        requires
            low == low_part(node, machine, seq, m, s),
    ;
}

proof fn lemma_split_high(t: u64, low: u64, k: u64)
    requires
        k <= 64,
        low <= low_mask(k),
    ensures
        t <= shr(u64::MAX, k) ==> shr(shl(t, k) | low, k) == t,
{
    assert(t <= shr(u64::MAX, k) ==> shr(shl(t, k) | low, k) == t) by (bit_vector)
        requires
            k <= 64,
            low <= low_mask(k),
    ;
}

proof fn lemma_unpack(t: u64, node: u64, machine: u64, seq: u64, n: u64, m: u64, s: u64)
    requires
        n + m + s <= 64,
        node <= low_mask(n),
        machine <= low_mask(m),
        seq <= low_mask(s),
    ensures
        shr(pack(t, node, machine, seq, n, m, s), (m + s) as u64) & low_mask(n) == node,
        shr(pack(t, node, machine, seq, n, m, s), s) & low_mask(m) == machine,
        pack(t, node, machine, seq, n, m, s) & low_mask(s) == seq,
        t <= shr(u64::MAX, (n + m + s) as u64) ==> shr(
            pack(t, node, machine, seq, n, m, s),
            (n + m + s) as u64,
        ) == t,
{
    let id = pack(t, node, machine, seq, n, m, s);
    assert(shr(id, (m + s) as u64) & low_mask(n) == node) by (bit_vector)
        requires
            n + m + s <= 64,
            node <= low_mask(n),
            machine <= low_mask(m),
            seq <= low_mask(s),
            id == pack(t, node, machine, seq, n, m, s),
    ;
    assert(shr(id, s) & low_mask(m) == machine) by (bit_vector)
        requires
            n + m + s <= 64,
            node <= low_mask(n),
            machine <= low_mask(m),
            seq <= low_mask(s),
            id == pack(t, node, machine, seq, n, m, s),
    ;
    assert(id & low_mask(s) == seq) by (bit_vector)
        requires
            n + m + s <= 64,
            node <= low_mask(n),
            machine <= low_mask(m),
            seq <= low_mask(s),
            id == pack(t, node, machine, seq, n, m, s),
    ;
    lemma_low_part(t, node, machine, seq, n, m, s);
    lemma_split_high(t, low_part(node, machine, seq, m, s), (n + m + s) as u64);
}

proof fn lemma_pack_orders(
    t1: u64,
    q1: u64,
    t2: u64,
    q2: u64,
    node: u64,
    machine: u64,
    n: u64,
    m: u64,
    s: u64,
)
    requires
        n + m + s <= 64,
        node <= low_mask(n),
        machine <= low_mask(m),
        q1 <= low_mask(s),
        q2 <= low_mask(s),
        t2 <= shr(u64::MAX, (n + m + s) as u64),
        t1 < t2 || (t1 == t2 && q1 < q2),
    ensures
        pack(t1, node, machine, q1, n, m, s) < pack(t2, node, machine, q2, n, m, s),
{
    let l1 = low_part(node, machine, q1, m, s);
    let l2 = low_part(node, machine, q2, m, s);
    let k = (n + m + s) as u64;
    lemma_low_part(t1, node, machine, q1, n, m, s);
    lemma_low_part(t2, node, machine, q2, n, m, s);
    lemma_split_high(t1, l1, k);
    lemma_split_high(t2, l2, k);
    if t1 == t2 {
        let h = shl(node, (m + s) as u64) | shl(machine, s);
        assert(h & low_mask(s) == 0) by (bit_vector)
            requires
                n + m + s <= 64,
                h == shl(node, (m + s) as u64) | shl(machine, s),
        ;
        assert(l1 < l2) by (bit_vector)
            requires
                h & low_mask(s) == 0,
                q1 <= low_mask(s),
                q2 <= low_mask(s),
                q1 < q2,
                l1 == h | q1,
                l2 == h | q2,
        ;
    }
    assert(shl(t1, k) | l1 < shl(t2, k) | l2) by (bit_vector)
        requires
            k <= 64,
            l1 <= low_mask(k),
            l2 <= low_mask(k),
            t2 <= shr(u64::MAX, k),
            t1 < t2 || (t1 == t2 && l1 < l2),
    ;
}

/// `u64::MAX >> k` is the mask of the `64 - k` lowest bits.
proof fn lemma_max_shr(k: u64)
    requires
        k <= 64,
    ensures
        shr(u64::MAX, k) as int == pow2((64 - k) as nat) - 1,
{
    let r = (64 - k) as u64;
    assert(shr(u64::MAX, k) == low_mask(r)) by (bit_vector)
        requires
            k <= 64,
            r == 64 - k,
    ;
    lemma_low_mask_is_pow2(r);
}

/// A layout in mathematical terms: identity fields and field widths.
pub struct LayoutView {
    pub node_id: int,
    pub machine_id: Option<int>,
    pub timestamp_bits: nat,
    pub node_id_bits: nat,
    pub machine_id_bits: nat,
    pub sequence_bits: nat,
}

impl LayoutView {
    pub open spec fn bit_sum(self) -> nat {
        self.timestamp_bits + self.node_id_bits + self.machine_id_bits + self.sequence_bits
    }

    pub open spec fn node_id_in_range(self) -> bool {
        0 <= self.node_id < pow2(self.node_id_bits)
    }

    pub open spec fn machine_id_in_range(self) -> bool {
        match self.machine_id {
            Some(v) => 0 <= v < pow2(self.machine_id_bits),
            None => true,
        }
    }

    /// The first check that the configuration fails, in the order they are made.
    pub open spec fn config_error(self) -> Option<ConfigError> {
        if self.bit_sum() > 64 {
            Some(ConfigError::BitWidthOverflow)
        } else if !self.node_id_in_range() {
            Some(ConfigError::NodeIdOutOfRange)
        } else if !self.machine_id_in_range() {
            Some(ConfigError::MachineIdOutOfRange)
        } else {
            None
        }
    }

    pub open spec fn valid(self) -> bool {
        self.config_error() is None
    }

    /// What the machine field holds: the machine id, or 0 where there is none.
    pub open spec fn machine_field(self) -> int {
        match self.machine_id {
            Some(v) => v,
            None => 0,
        }
    }

    /// How far the timestamp is shifted: the widths of the three lower fields.
    pub open spec fn shift(self) -> nat {
        self.node_id_bits + self.machine_id_bits + self.sequence_bits
    }

    /// How many identifiers one millisecond holds.
    pub open spec fn capacity(self) -> nat {
        pow2(self.sequence_bits)
    }

    /// The timestamp is small enough that no bit of it is shifted out of the identifier.
    pub open spec fn timestamp_fits(self, t: u64) -> bool {
        t < pow2((64 - self.shift()) as nat)
    }

    /// The identifier of sequence number `seq` in millisecond `t`.
    pub open spec fn id_of(self, t: u64, seq: u64) -> u64 {
        pack(
            t,
            self.node_id as u64,
            self.machine_field() as u64,
            seq,
            self.node_id_bits as u64,
            self.machine_id_bits as u64,
            self.sequence_bits as u64,
        )
    }

    pub open spec fn timestamp_field(self, id: u64) -> u64 {
        shr(id, self.shift() as u64)
    }

    pub open spec fn node_id_field(self, id: u64) -> u64 {
        shr(id, (self.machine_id_bits + self.sequence_bits) as u64) & low_mask(
            self.node_id_bits as u64,
        )
    }

    pub open spec fn machine_id_field(self, id: u64) -> u64 {
        shr(id, self.sequence_bits as u64) & low_mask(self.machine_id_bits as u64)
    }

    pub open spec fn sequence_field(self, id: u64) -> u64 {
        id & low_mask(self.sequence_bits as u64)
    }
}

/// Unpacking an identifier gives back the node id, the machine field and the sequence
/// number it was packed from, and the timestamp too where that fits.
pub proof fn lemma_fields_round_trip(l: LayoutView, t: u64, seq: u64)
    requires
        l.valid(),
        seq < l.capacity(),
    ensures
        l.node_id_field(l.id_of(t, seq)) == l.node_id,
        l.machine_id_field(l.id_of(t, seq)) == l.machine_field(),
        l.sequence_field(l.id_of(t, seq)) == seq,
        l.timestamp_fits(t) ==> l.timestamp_field(l.id_of(t, seq)) == t,
{
    lemma_fields_fit(l);
    lemma_low_mask_is_pow2(l.sequence_bits as u64);
    lemma_max_shr(l.shift() as u64);
    lemma_unpack(
        t,
        l.node_id as u64,
        l.machine_field() as u64,
        seq,
        l.node_id_bits as u64,
        l.machine_id_bits as u64,
        l.sequence_bits as u64,
    );
}

/// Within one layout, identifiers follow the order of (timestamp, sequence) pairs,
/// as long as the later timestamp fits.
pub proof fn lemma_id_order(l: LayoutView, t1: u64, q1: u64, t2: u64, q2: u64)
    requires
        l.valid(),
        q1 < l.capacity(),
        q2 < l.capacity(),
        l.timestamp_fits(t2),
        t1 < t2 || (t1 == t2 && q1 < q2),
    ensures
        l.id_of(t1, q1) < l.id_of(t2, q2),
{
    lemma_fields_fit(l);
    lemma_low_mask_is_pow2(l.sequence_bits as u64);
    lemma_max_shr(l.shift() as u64);
    lemma_pack_orders(
        t1,
        q1,
        t2,
        q2,
        l.node_id as u64,
        l.machine_field() as u64,
        l.node_id_bits as u64,
        l.machine_id_bits as u64,
        l.sequence_bits as u64,
    );
}

/// Within one millisecond, the next sequence number gives the next identifier.
pub proof fn lemma_id_successor(l: LayoutView, t: u64, q: u64)
    requires
        l.valid(),
        q + 1 < l.capacity(),
    ensures
        l.id_of(t, (q + 1) as u64) == l.id_of(t, q) + 1,
{
    lemma_fields_fit(l);
    lemma_low_mask_is_pow2(l.sequence_bits as u64);
    lemma_pack_successor(
        t,
        l.node_id as u64,
        l.machine_field() as u64,
        q,
        l.node_id_bits as u64,
        l.machine_id_bits as u64,
        l.sequence_bits as u64,
    );
}

proof fn lemma_pack_successor(t: u64, node: u64, machine: u64, q: u64, n: u64, m: u64, s: u64)
    requires
        n + m + s <= 64,
        node <= low_mask(n),
        machine <= low_mask(m),
        q < low_mask(s),
    ensures
        pack(t, node, machine, (q + 1) as u64, n, m, s) == pack(t, node, machine, q, n, m, s) + 1,
{
    let k = (n + m + s) as u64;
    let q1 = (q + 1) as u64;
    let h = shl(node, (m + s) as u64) | shl(machine, s);
    let l0 = low_part(node, machine, q, m, s);
    let l1 = low_part(node, machine, q1, m, s);
    lemma_low_part(t, node, machine, q, n, m, s);
    lemma_low_part(t, node, machine, q1, n, m, s);
    assert(h & low_mask(s) == 0) by (bit_vector)
        requires
            n + m + s <= 64,
            h == shl(node, (m + s) as u64) | shl(machine, s),
    ;
    assert(l1 == l0 + 1) by (bit_vector)
        requires
            h & low_mask(s) == 0,
            q < low_mask(s),
            q1 == q + 1,
            l0 == h | q,
            l1 == h | q1,
    ;
    assert(shl(t, k) | l1 == (shl(t, k) | l0) + 1) by (bit_vector)
        requires
            k <= 64,
            l1 <= low_mask(k),
            l1 == l0 + 1,
    ;
}

/// In a valid layout the identity fields fit under their masks.
proof fn lemma_fields_fit(l: LayoutView)
    requires
        l.valid(),
    ensures
        0 <= l.node_id <= low_mask(l.node_id_bits as u64),
        0 <= l.machine_field() <= low_mask(l.machine_id_bits as u64),
{
    lemma_low_mask_is_pow2(l.node_id_bits as u64);
    lemma_low_mask_is_pow2(l.machine_id_bits as u64);
}

/// A validated layout: field widths that add up to at most 64 bits, and identity
/// fields that fit in their widths.
#[derive(Clone, Copy, Debug)]
pub struct Layout {
    node_id: i32,
    machine_id: Option<i32>,
    timestamp_bits: u8,
    node_id_bits: u8,
    machine_id_bits: u8,
    sequence_bits: u8,
}

impl View for Layout {
    type V = LayoutView;

    closed spec fn view(&self) -> LayoutView {
        LayoutView {
            node_id: self.node_id as int,
            machine_id: match self.machine_id {
                Some(v) => Some(v as int),
                None => None,
            },
            timestamp_bits: self.timestamp_bits as nat,
            node_id_bits: self.node_id_bits as nat,
            machine_id_bits: self.machine_id_bits as nat,
            sequence_bits: self.sequence_bits as nat,
        }
    }
}

/// The mask of the `k` lowest bits, that is `2^k - 1`.
fn mask_of(k: u8) -> (r: u64)
    requires
        k <= 64,
    ensures
        r == low_mask(k as u64),
        r as int == pow2(k as nat) - 1,
    no_unwind
{
    proof {
        lemma_low_mask_is_pow2(k as u64);
    }
    if k >= 64 {
        u64::MAX
    } else {
        let one: u64 = 1;
        proof {
            lemma_u64_pow2_no_overflow(k as nat);
            lemma_u64_shl_is_mul(1, k as u64);
        }
        (one << k as u64) - 1
    }
}

/// `x << k`, or 0 where `k` is 64 or more.
fn shift_left(x: u64, k: u8) -> (r: u64)
    ensures
        r == shl(x, k as u64),
    no_unwind
{
    if k >= 64 {
        0
    } else {
        x << k as u64
    }
}

/// `x >> k`, or 0 where `k` is 64 or more.
fn shift_right(x: u64, k: u8) -> (r: u64)
    ensures
        r == shr(x, k as u64),
    no_unwind
{
    if k >= 64 {
        0
    } else {
        x >> k as u64
    }
}

/// Whether `v` lies in `[0, 2^bits - 1]`.
fn fits_in_bits(v: i32, bits: u8) -> (r: bool)
    requires
        bits <= 64,
    ensures
        r == (0 <= v < pow2(bits as nat)),
{
    v >= 0 && (v as u64) <= mask_of(bits)
}

impl Layout {
    #[verifier::type_invariant]
    pub(crate) open spec fn inv(self) -> bool {
        self@.valid()
    }

    /// Checks a configuration: the widths must add up to at most 64, the node id must
    /// fit in its field, and so must the machine id where there is one. The checks are
    /// made in that order and the first that fails gives the error.
    pub fn new(
        node_id: i32,
        machine_id: Option<i32>,
        timestamp_bits: u8,
        node_id_bits: u8,
        machine_id_bits: u8,
        sequence_bits: u8,
    ) -> (r: Result<Layout, ConfigError>)
        ensures
            ({
                let v = LayoutView {
                    node_id: node_id as int,
                    machine_id: match machine_id {
                        Some(x) => Some(x as int),
                        None => None,
                    },
                    timestamp_bits: timestamp_bits as nat,
                    node_id_bits: node_id_bits as nat,
                    machine_id_bits: machine_id_bits as nat,
                    sequence_bits: sequence_bits as nat,
                };
                match r {
                    Ok(l) => v.config_error() is None && l@ == v,
                    Err(e) => v.config_error() == Some(e),
                }
            }),
    {
        let sum: u16 = timestamp_bits as u16 + node_id_bits as u16 + machine_id_bits as u16
            + sequence_bits as u16;
        if sum > 64 {
            return Err(ConfigError::BitWidthOverflow);
        }
        if !fits_in_bits(node_id, node_id_bits) {
            return Err(ConfigError::NodeIdOutOfRange);
        }
        match machine_id {
            Some(v) => {
                if !fits_in_bits(v, machine_id_bits) {
                    return Err(ConfigError::MachineIdOutOfRange);
                }
            },
            None => {},
        }
        Ok(
            Layout {
                node_id,
                machine_id,
                timestamp_bits,
                node_id_bits,
                machine_id_bits,
                sequence_bits,
            },
        )
    }

    pub fn node_id(&self) -> (r: i32)
        ensures
            r == self@.node_id,
    {
        self.node_id
    }

    pub fn machine_id(&self) -> (r: Option<i32>)
        ensures
            self@.machine_id == (match r {
                Some(v) => Some(v as int),
                None => None::<int>,
            }),
    {
        self.machine_id
    }

    pub fn timestamp_bits(&self) -> (r: u8)
        ensures
            r == self@.timestamp_bits,
    {
        self.timestamp_bits
    }

    pub fn node_id_bits(&self) -> (r: u8)
        ensures
            r == self@.node_id_bits,
    {
        self.node_id_bits
    }

    pub fn machine_id_bits(&self) -> (r: u8)
        ensures
            r == self@.machine_id_bits,
    {
        self.machine_id_bits
    }

    pub fn sequence_bits(&self) -> (r: u8)
        ensures
            r == self@.sequence_bits,
    {
        self.sequence_bits
    }

    /// The largest sequence number that one millisecond holds: `2^sequence_bits - 1`.
    pub fn max_sequence(&self) -> (r: u64)
        ensures
            r as int == self@.capacity() - 1,
        no_unwind
    {
        proof {
            use_type_invariant(self);
        }
        mask_of(self.sequence_bits)
    }

    /// The identifier of sequence number `sequence` in millisecond `timestamp`:
    /// `(timestamp << (n+m+s)) | (node_id << (m+s)) | (machine_id << s) | sequence`,
    /// with 0 for an absent machine id.
    pub fn compose(&self, timestamp: u64, sequence: u64) -> (r: u64)
        requires
            sequence < self@.capacity(),
        ensures
            r == self@.id_of(timestamp, sequence),
        no_unwind
    {
        proof {
            use_type_invariant(self);
        }
        let machine: i32 = match self.machine_id {
            Some(v) => v,
            None => 0,
        };
        let lower: u8 = self.machine_id_bits + self.sequence_bits;
        let shift: u8 = self.node_id_bits + lower;
        shift_left(timestamp, shift) | shift_left(self.node_id as u64, lower) | shift_left(
            machine as u64,
            self.sequence_bits,
        ) | sequence
    }

    /// The timestamp field of `id`.
    pub fn timestamp_of(&self, id: u64) -> (r: u64)
        ensures
            r == self@.timestamp_field(id),
    {
        proof {
            use_type_invariant(self);
        }
        shift_right(id, self.node_id_bits + self.machine_id_bits + self.sequence_bits)
    }

    /// The node id field of `id`.
    pub fn node_id_of(&self, id: u64) -> (r: u64)
        ensures
            r == self@.node_id_field(id),
    {
        proof {
            use_type_invariant(self);
        }
        shift_right(id, self.machine_id_bits + self.sequence_bits) & mask_of(self.node_id_bits)
    }

    /// The machine id field of `id`.
    pub fn machine_id_of(&self, id: u64) -> (r: u64)
        ensures
            r == self@.machine_id_field(id),
    {
        proof {
            use_type_invariant(self);
        }
        shift_right(id, self.sequence_bits) & mask_of(self.machine_id_bits)
    }

    /// The sequence field of `id`.
    pub fn sequence_of(&self, id: u64) -> (r: u64)
        ensures
            r == self@.sequence_field(id),
    {
        proof {
            use_type_invariant(self);
        }
        id & mask_of(self.sequence_bits)
    }
}

} // verus!
