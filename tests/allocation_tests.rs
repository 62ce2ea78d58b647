use snowflake_rs::{
    ConfigError, Epoch, GenerationError, Layout, Snowflake, SnowflakeBuilder, Snowgen,
};

fn next_id(generator: &mut Snowflake) -> u64 {
    loop {
        if let Some(id) = generator.try_next_id().unwrap() {
            return id;
        }
    }
}

#[test]
fn compose_packs_the_four_fields() {
    let layout = Layout::new(3, Some(2), 41, 6, 6, 10).unwrap();
    // 5 << 22 | 3 << 16 | 2 << 10 | 7
    assert_eq!(layout.compose(5, 7), 21_170_183);
    let no_machine = Layout::new(1, None, 41, 5, 5, 12).unwrap();
    assert_eq!(no_machine.compose(2, 0), (2 << 22) | (1 << 17));
}

#[test]
fn node_and_machine_round_trip() {
    let mut generator = SnowflakeBuilder::new()
        .node_id(3)
        .machine_id(2)
        .node_id_bits(6)
        .machine_id_bits(6)
        .sequence_bits(10)
        .build()
        .unwrap();
    let layout = generator.layout();
    for _ in 0..100 {
        let id = next_id(&mut generator);
        assert_eq!(layout.node_id_of(id), 3);
        assert_eq!(layout.machine_id_of(id), 2);
    }
    let id = layout.compose(123_456, 77);
    assert_eq!(layout.timestamp_of(id), 123_456);
    assert_eq!(layout.sequence_of(id), 77);
}

#[test]
fn node_id_boundary() {
    assert!(SnowflakeBuilder::new().node_id_bits(5).node_id(31).build().is_ok());
    assert!(SnowflakeBuilder::new().node_id_bits(5).node_id(0).build().is_ok());
    assert_eq!(
        SnowflakeBuilder::new().node_id_bits(5).node_id(32).build().err(),
        Some(ConfigError::NodeIdOutOfRange)
    );
    assert_eq!(
        SnowflakeBuilder::new().node_id_bits(5).node_id(-1).build().err(),
        Some(ConfigError::NodeIdOutOfRange)
    );
    assert!(SnowflakeBuilder::new().timestamp_bits(7).node_id_bits(40).node_id(i32::MAX).build().is_ok());
    assert_eq!(
        SnowflakeBuilder::new().node_id_bits(0).node_id(1).build().err(),
        Some(ConfigError::NodeIdOutOfRange)
    );
}

#[test]
fn bit_sum_boundary() {
    let over = || {
        SnowflakeBuilder::new()
            .timestamp_bits(41)
            .node_id_bits(12)
            .machine_id_bits(12)
            .sequence_bits(1)
    };
    assert_eq!(over().build().err(), Some(ConfigError::BitWidthOverflow));
    assert!(over().timestamp_bits(39).build().is_ok());
    assert!(over().node_id_bits(10).build().is_ok());
    assert!(over().machine_id_bits(10).build().is_ok());
    assert_eq!(over().sequence_bits(0).build().err(), Some(ConfigError::BitWidthOverflow));
    assert_eq!(
        SnowflakeBuilder::new().timestamp_bits(255).node_id_bits(255).build().err(),
        Some(ConfigError::BitWidthOverflow)
    );
}

#[test]
fn bit_sum_is_checked_before_the_ids() {
    assert_eq!(
        SnowflakeBuilder::new().node_id(-5).machine_id(-5).sequence_bits(60).build().err(),
        Some(ConfigError::BitWidthOverflow)
    );
    assert_eq!(
        SnowflakeBuilder::new().node_id(-5).machine_id(-5).build().err(),
        Some(ConfigError::NodeIdOutOfRange)
    );
}

#[test]
fn sequence_rollover_waits_for_the_next_millisecond() {
    let layout = Layout::new(0, None, 41, 5, 5, 1).unwrap();
    let mut core = Snowgen::new(layout);
    let a = core.next_id_at(7).unwrap().unwrap();
    let b = core.next_id_at(7).unwrap().unwrap();
    assert_eq!(core.next_id_at(7), Ok(None));
    assert_eq!(core.next_id_at(7), Ok(None));
    let c = core.next_id_at(8).unwrap().unwrap();
    assert_eq!(a, layout.compose(7, 0));
    assert_eq!(b, layout.compose(7, 1));
    assert_eq!(c, layout.compose(8, 0));
    assert!(a < b && b < c);
}

#[test]
fn sequence_rollover_on_the_clock() {
    let mut generator = SnowflakeBuilder::new().sequence_bits(1).build().unwrap();
    let layout = generator.layout();
    let ids: Vec<u64> = (0..3).map(|_| next_id(&mut generator)).collect();
    assert!(ids[0] < ids[1] && ids[1] < ids[2]);
    assert!(layout.sequence_of(ids[0]) <= 1 && layout.sequence_of(ids[2]) <= 1);
    let stamps: Vec<u64> = ids.iter().map(|&id| layout.timestamp_of(id)).collect();
    assert!(stamps[2] > stamps[0]);
}

#[test]
fn clock_regression_is_refused() {
    let layout = Layout::new(1, Some(1), 41, 5, 5, 12).unwrap();
    let mut core = Snowgen::new(layout);
    let first = core.next_id_at(100).unwrap().unwrap();
    assert_eq!(core.next_id_at(99), Err(GenerationError::ClockRegression));
    assert_eq!(
        GenerationError::ClockRegression.message(),
        "The clock moved backwards; no identifier was issued."
    );
    let next = core.next_id_at(100).unwrap().unwrap();
    assert_eq!(next, first + 1);
}

#[test]
fn a_new_millisecond_restarts_the_sequence() {
    let layout = Layout::new(2, None, 41, 5, 5, 12).unwrap();
    let mut core = Snowgen::new(layout);
    for _ in 0..5 {
        core.next_id_at(10).unwrap();
    }
    let id = core.next_id_at(11).unwrap().unwrap();
    assert_eq!(layout.sequence_of(id), 0);
    assert_eq!(layout.timestamp_of(id), 11);
}

#[test]
fn ids_increase_over_simulated_milliseconds() {
    let layout = Layout::new(5, Some(9), 41, 5, 5, 3).unwrap();
    let mut core = Snowgen::new(layout);
    let mut ids = Vec::new();
    let mut t: u64 = 1_000;
    while ids.len() < 500 {
        match core.next_id_at(t).unwrap() {
            Some(id) => ids.push(id),
            None => t += 1,
        }
    }
    assert!(ids.windows(2).all(|w| w[0] < w[1]));
    // eight identifiers a millisecond: the 500th falls in the 63rd millisecond
    assert_eq!(t, 1_062);
}

#[test]
fn ids_from_the_clock_strictly_increase() {
    let mut generator = SnowflakeBuilder::new()
        .epoch(Epoch::MillisecondsSinceUnixEpoch(0))
        .node_id(1)
        .build()
        .unwrap();
    let ids: Vec<u64> = (0..10_000).map(|_| next_id(&mut generator)).collect();
    assert!(ids.windows(2).all(|w| w[0] < w[1]));
}

#[test]
fn widest_lower_fields_leave_no_timestamp() {
    let layout = Layout::new(0, None, 0, 0, 0, 64).unwrap();
    assert_eq!(layout.max_sequence(), u64::MAX);
    assert_eq!(layout.compose(123, 5), 5);
    assert_eq!(layout.timestamp_of(u64::MAX), 0);
    let layout = Layout::new(i32::MAX, Some(0), 0, 64, 0, 0).unwrap();
    assert_eq!(layout.compose(9, 0), i32::MAX as u64);
    assert_eq!(layout.node_id_of(u64::MAX), u64::MAX);
}

#[test]
fn layout_reports_its_configuration() {
    let layout = Layout::new(4, Some(6), 40, 6, 7, 11).unwrap();
    assert_eq!(layout.node_id(), 4);
    assert_eq!(layout.machine_id(), Some(6));
    assert_eq!(layout.timestamp_bits(), 40);
    assert_eq!(layout.node_id_bits(), 6);
    assert_eq!(layout.machine_id_bits(), 7);
    assert_eq!(layout.sequence_bits(), 11);
    assert_eq!(layout.max_sequence(), 2047);
    assert_eq!(Snowgen::new(layout).layout().node_id(), 4);
}

#[test]
fn same_millisecond_ids_differ_by_one() {
    let layout = Layout::new(7, Some(3), 41, 5, 5, 12).unwrap();
    let mut core = Snowgen::new(layout);
    let a = core.next_id_at(42).unwrap().unwrap();
    let b = core.next_id_at(42).unwrap().unwrap();
    let c = core.next_id_at(42).unwrap().unwrap();
    assert_eq!(b, a + 1);
    assert_eq!(c, b + 1);
    assert_eq!(layout.compose(42, 2), c);
}
