use snowflake_rs::{ConfigError, SnowflakeBuilder};
use std::collections::HashSet;
use std::sync::{Arc, Mutex};

fn draw(generator: &mut snowflake_rs::Snowflake) -> Result<u64, snowflake_rs::GenerationError> {
    loop {
        if let Some(id) = generator.try_next_id()? {
            return Ok(id);
        }
    }
}

#[test]
fn test_snowgen_unique_ids() {
    let snowgen = SnowflakeBuilder::new().node_id(1).build().unwrap();
    let snowgen = Arc::new(Mutex::new(snowgen));
    let mut ids = HashSet::new();

    for _ in 0..10000 {
        let mut snowgen = snowgen.lock().unwrap();
        let id = draw(&mut snowgen).unwrap();
        drop(snowgen);
        assert!(ids.insert(id), "ID duplicate：{}", id);
    }
}

#[test]
fn test_build_valid_configuration() {
    let builder = SnowflakeBuilder::new().node_id(1).build();
    assert!(builder.is_ok());
}

#[test]
fn test_build_exceed_max_bits() {
    let builder = SnowflakeBuilder::new()
        .timestamp_bits(41)
        .node_id_bits(12)
        .machine_id_bits(12)
        .sequence_bits(1)
        .build();
    assert_eq!(
        builder.err().unwrap().message(),
        "The sum of timestamp_bits, node_id_bits, machine_id_bits, and sequence_bits should not exceed 64."
    );
}

#[test]
fn test_build_invalid_node_id() {
    let builder = SnowflakeBuilder::new().node_id(-1).build();
    assert_eq!(
        builder.err().unwrap().message(),
        "Invalid node_id, it should be between 0 and the maximum node_id."
    );

    let builder = SnowflakeBuilder::new().node_id(33).build();
    assert_eq!(
        builder.err().unwrap().message(),
        "Invalid node_id, it should be between 0 and the maximum node_id."
    );
}

#[test]
fn test_build_invalid_machine_id() {
    let builder = SnowflakeBuilder::new().machine_id(-1).build();
    assert_eq!(
        builder.err().unwrap().message(),
        "Invalid machine_id, it should be between 0 and the maximum machine_id."
    );

    let builder = SnowflakeBuilder::new()
        .machine_id(33)
        .machine_id_bits(5)
        .build();
    assert_eq!(
        builder.err().unwrap().message(),
        "Invalid machine_id, it should be between 0 and the maximum machine_id."
    );
}

#[test]
fn build_errors_carry_their_variant() {
    assert_eq!(
        SnowflakeBuilder::new().node_id(-1).build().err(),
        Some(ConfigError::NodeIdOutOfRange)
    );
    assert_eq!(
        SnowflakeBuilder::new().machine_id(32).build().err(),
        Some(ConfigError::MachineIdOutOfRange)
    );
    assert_eq!(
        SnowflakeBuilder::new().sequence_bits(14).build().err(),
        Some(ConfigError::BitWidthOverflow)
    );
}
