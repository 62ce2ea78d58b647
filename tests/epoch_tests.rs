use snowflake_rs::{Epoch, GenerationError, Snowflake, SnowflakeBuilder};
use std::time::{Duration, Instant, SystemTime, UNIX_EPOCH};

fn next_id(generator: &mut Snowflake) -> Result<u64, GenerationError> {
    loop {
        if let Some(id) = generator.try_next_id()? {
            return Ok(id);
        }
    }
}

#[test]
fn test_epoch_system_time() {
    let mut snowgen = SnowflakeBuilder::new()
        .epoch(Epoch::SystemTime(SystemTime::now()))
        .node_id(1)
        .build()
        .unwrap();

    assert!(next_id(&mut snowgen).is_ok());
}

#[test]
fn test_epoch_instant() {
    let mut snowgen = SnowflakeBuilder::new()
        .epoch(Epoch::Instant(Instant::now()))
        .node_id(1)
        .build()
        .unwrap();

    assert!(next_id(&mut snowgen).is_ok());
}

#[test]
fn test_epoch_milliseconds_since_unix_epoch() {
    let now = SystemTime::now();
    let unix_epoch = now.duration_since(UNIX_EPOCH).unwrap();
    let millis_since_unix_epoch = unix_epoch.as_millis() as i64;

    let mut snowgen = SnowflakeBuilder::new()
        .epoch(Epoch::MillisecondsSinceUnixEpoch(millis_since_unix_epoch))
        .node_id(1)
        .build()
        .unwrap();

    assert!(next_id(&mut snowgen).is_ok());
}

#[test]
fn timestamps_count_from_a_recent_epoch() {
    let ten_seconds_ago = SystemTime::now() - Duration::from_secs(10);
    let generator = SnowflakeBuilder::new()
        .epoch(Epoch::SystemTime(ten_seconds_ago))
        .build()
        .unwrap();
    let t = generator.current_timestamp();
    assert!((9_900..20_000).contains(&t), "timestamp {}", t);

    let generator = SnowflakeBuilder::new()
        .epoch(Epoch::Instant(Instant::now()))
        .build()
        .unwrap();
    assert!(generator.current_timestamp() < 5_000);
}

#[test]
fn default_epoch_is_the_unix_epoch() {
    let generator = SnowflakeBuilder::new().build().unwrap();
    let since_unix = SystemTime::now().duration_since(UNIX_EPOCH).unwrap().as_millis() as u64;
    let t = generator.current_timestamp();
    assert!(t + 5_000 > since_unix && t < since_unix + 5_000, "timestamp {}", t);
}

#[test]
fn an_epoch_in_the_future_reads_zero() {
    let later = SystemTime::now() + Duration::from_secs(3600);
    let generator = SnowflakeBuilder::new().epoch(Epoch::SystemTime(later)).build().unwrap();
    assert_eq!(generator.current_timestamp(), 0);
}

#[test]
fn drawn_ids_carry_the_clock_reading() {
    let mut generator = SnowflakeBuilder::new()
        .epoch(Epoch::Instant(Instant::now()))
        .node_id(3)
        .build()
        .unwrap();
    let id = next_id(&mut generator).unwrap();
    let layout = generator.layout();
    assert!(layout.timestamp_of(id) < 5_000);
    assert_eq!(layout.node_id_of(id), 3);
}

#[test]
fn signed_millis_gives_the_sign_and_holds_the_range() {
    assert_eq!(snowflake_rs::signed_millis(Ok(1_500)), 1_500);
    assert_eq!(snowflake_rs::signed_millis(Err(250)), -250);
    assert_eq!(snowflake_rs::signed_millis(Ok(0)), 0);
    assert_eq!(snowflake_rs::signed_millis(Ok(u128::MAX)), u64::MAX as i128);
    assert_eq!(snowflake_rs::signed_millis(Err(u128::MAX)), -(u64::MAX as i128));
}

#[test]
fn origin_at_counts_from_the_epoch() {
    let origin = snowflake_rs::ClockOrigin::origin_at(Instant::now(), 10_000, 4_000);
    let t = origin.now_millis();
    assert!((6_000..8_000).contains(&t), "timestamp {}", t);
    let before = snowflake_rs::ClockOrigin::origin_at(Instant::now(), 1_000, 4_000);
    assert_eq!(before.now_millis(), 0);
}
