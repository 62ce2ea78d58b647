//! Configuring a generator: field widths, identity fields and the epoch.
use vstd::prelude::*;
use crate::epoch::{Epoch, signed_unix_millis};
use crate::error::ConfigError;
use crate::layout::{Layout, LayoutView};
use crate::snowflake::Snowflake;
use crate::snowgen::Snowgen;

verus! {

/// A configuration in mathematical terms; nothing of it has been checked yet.
pub struct BuilderView {
    pub epoch: Epoch,
    pub layout: LayoutView,
}

/// Collects a generator's configuration; `build` checks it.
pub struct SnowflakeBuilder {
    node_id: i32,
    machine_id: Option<i32>,
    epoch: Epoch,
    timestamp_bits: u8,
    node_id_bits: u8,
    machine_id_bits: u8,
    sequence_bits: u8,
}

impl View for SnowflakeBuilder {
    type V = BuilderView;

    closed spec fn view(&self) -> BuilderView {
        BuilderView {
            epoch: self.epoch,
            layout: LayoutView {
                node_id: self.node_id as int,
                machine_id: match self.machine_id {
                    Some(v) => Some(v as int),
                    None => None,
                },
                timestamp_bits: self.timestamp_bits as nat,
                node_id_bits: self.node_id_bits as nat,
                machine_id_bits: self.machine_id_bits as nat,
                sequence_bits: self.sequence_bits as nat,
            },
        }
    }
}

impl SnowflakeBuilder {
    /// The default configuration: 41 timestamp bits, 5 node id bits, 5 machine id bits,
    /// 12 sequence bits, node id 0, no machine id, and the Unix epoch.
    pub fn new() -> (r: SnowflakeBuilder)
        ensures
            r@ == (BuilderView {
                epoch: Epoch::MillisecondsSinceUnixEpoch(0),
                layout: LayoutView {
                    node_id: 0,
                    machine_id: None,
                    timestamp_bits: 41,
                    node_id_bits: 5,
                    machine_id_bits: 5,
                    sequence_bits: 12,
                },
            }),
    {
        SnowflakeBuilder {
            node_id: 0,
            machine_id: None,
            epoch: Epoch::MillisecondsSinceUnixEpoch(0),
            timestamp_bits: 41,
            node_id_bits: 5,
            machine_id_bits: 5,
            sequence_bits: 12,
        }
    }

    pub fn epoch(self, epoch: Epoch) -> (r: Self)
        ensures
            r@ == (BuilderView { epoch, ..self@ }),
    {
        let mut b = self;
        b.epoch = epoch;
        b
    }

    pub fn node_id(self, node_id: i32) -> (r: Self)
        ensures
            r@ == (BuilderView { layout: LayoutView { node_id: node_id as int, ..self@.layout }, ..self@ }),
    {
        let mut b = self;
        b.node_id = node_id;
        b
    }

    pub fn machine_id(self, machine_id: i32) -> (r: Self)
        ensures
            r@ == (BuilderView {
                layout: LayoutView { machine_id: Some(machine_id as int), ..self@.layout },
                ..self@
            }),
    {
        let mut b = self;
        b.machine_id = Some(machine_id);
        b
    }

    pub fn timestamp_bits(self, timestamp_bits: u8) -> (r: Self)
        ensures
            r@ == (BuilderView {
                layout: LayoutView { timestamp_bits: timestamp_bits as nat, ..self@.layout },
                ..self@
            }),
    {
        let mut b = self;
        b.timestamp_bits = timestamp_bits;
        b
    }

    pub fn node_id_bits(self, node_id_bits: u8) -> (r: Self)
        ensures
            r@ == (BuilderView {
                layout: LayoutView { node_id_bits: node_id_bits as nat, ..self@.layout },
                ..self@
            }),
    {
        let mut b = self;
        b.node_id_bits = node_id_bits;
        b
    }

    pub fn machine_id_bits(self, machine_id_bits: u8) -> (r: Self)
        ensures
            r@ == (BuilderView {
                layout: LayoutView { machine_id_bits: machine_id_bits as nat, ..self@.layout },
                ..self@
            }),
    {
        let mut b = self;
        b.machine_id_bits = machine_id_bits;
        b
    }

    pub fn sequence_bits(self, sequence_bits: u8) -> (r: Self)
        ensures
            r@ == (BuilderView {
                layout: LayoutView { sequence_bits: sequence_bits as nat, ..self@.layout },
                ..self@
            }),
    {
        let mut b = self;
        b.sequence_bits = sequence_bits;
        b
    }

    /// Checks the configuration and makes a generator. The checks, in order: the
    /// four widths add up to at most 64 (`BitWidthOverflow`), the node id lies in
    /// `[0, 2^node_id_bits - 1]` (`NodeIdOutOfRange`), and the machine id, where there
    /// is one, lies in `[0, 2^machine_id_bits - 1]` (`MachineIdOutOfRange`). A new
    /// generator has issued nothing, and its epoch is tied to the monotonic clock as
    /// `Epoch::normalize` describes.
    pub fn build(self) -> (r: Result<Snowflake, ConfigError>)
        ensures
            match r {
                Ok(g) => {
                    &&& self@.layout.config_error() is None
                    &&& g.wf()
                    &&& g@.layout == self@.layout
                    &&& g@.last_timestamp is None
                    &&& g@.sequence == 0
                    &&& g@.issued.len() == 0
                    &&& (self@.epoch matches Epoch::Instant(i) ==> g.origin().anchor() == i
                        && g.origin().offset_ms() == 0)
                    &&& (self@.epoch matches Epoch::MillisecondsSinceUnixEpoch(m) ==> exists|
                        now: Result<u128, u128>,
                    | g.origin().offset_ms() == #[trigger] signed_unix_millis(now) - m)
                    &&& (self@.epoch matches Epoch::SystemTime(_) ==> exists|
                        now: Result<u128, u128>,
                    |
                        exists|since: Result<u128, u128>|
                            g.origin().offset_ms() == #[trigger] signed_unix_millis(now)
                                - #[trigger] signed_unix_millis(since))
                },
                Err(e) => self@.layout.config_error() == Some(e),
            },
    {
        let layout = Layout::new(
            self.node_id,
            self.machine_id,
            self.timestamp_bits,
            self.node_id_bits,
            self.machine_id_bits,
            self.sequence_bits,
        );
        match layout {
            Ok(l) => {
                let origin = self.epoch.normalize();
                Ok(Snowflake::from_parts(origin, Snowgen::new(l)))
            },
            Err(e) => Err(e),
        }
    }
}

} // verus!
