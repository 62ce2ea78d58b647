//! The ways in which configuring a generator or drawing an identifier can fail.
use vstd::prelude::*;

verus! {

/// Why a configuration was refused when a generator was built.
#[derive(Clone, Copy, Debug, PartialEq, Eq, Structural)]
pub enum ConfigError {
    /// The four field widths add up to more than 64 bits.
    BitWidthOverflow,
    /// The node id is negative or does not fit in its field.
    NodeIdOutOfRange,
    /// The machine id is negative or does not fit in its field.
    MachineIdOutOfRange,
}

impl ConfigError {
    /// A sentence that describes the error.
    pub fn message(&self) -> (r: &'static str)
        ensures
            *self == ConfigError::BitWidthOverflow ==> r@
                == "The sum of timestamp_bits, node_id_bits, machine_id_bits, and sequence_bits should not exceed 64."@,
            *self == ConfigError::NodeIdOutOfRange ==> r@
                == "Invalid node_id, it should be between 0 and the maximum node_id."@,
            *self == ConfigError::MachineIdOutOfRange ==> r@
                == "Invalid machine_id, it should be between 0 and the maximum machine_id."@,
    {
        match self {
            ConfigError::BitWidthOverflow => {
                "The sum of timestamp_bits, node_id_bits, machine_id_bits, and sequence_bits should not exceed 64."
            },
            ConfigError::NodeIdOutOfRange => {
                "Invalid node_id, it should be between 0 and the maximum node_id."
            },
            ConfigError::MachineIdOutOfRange => {
                "Invalid machine_id, it should be between 0 and the maximum machine_id."
            },
        }
    }
}

/// Why no identifier was issued.
#[derive(Clone, Copy, Debug, PartialEq, Eq, Structural)]
pub enum GenerationError {
    /// The clock reads an earlier millisecond than the last one an identifier was issued for.
    ClockRegression,
}

impl GenerationError {
    /// A sentence that describes the error.
    pub fn message(&self) -> (r: &'static str)
        ensures
            r@ == "The clock moved backwards; no identifier was issued."@,
    {
        "The clock moved backwards; no identifier was issued."
    }
}

} // verus!
