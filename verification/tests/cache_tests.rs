use raal::cache::{cache_path, is_fresh, make_envelope, CacheData};
use raal::errors::CacheError;
use raal::instance::AshufInfo;
use raal::resolver::{cached_data_at, plan_resolution, ResolvePlan};

fn instance(id: &str) -> AshufInfo {
    AshufInfo {
        instance_id: id.to_string(),
        private_ip_addresses: vec!["10.0.0.1".to_string()],
        public_ip_addresses: vec![],
        state_name: "running".to_string(),
        launch_time: "2017-05-01T12:00:00.000Z".to_string(),
        availability_zone: "us-east-1a".to_string(),
        image_ami: "ami-1234".to_string(),
        tags: vec![],
    }
}

#[test]
fn cache_path_is_deterministic_per_account_and_region() {
    assert_eq!(
        cache_path("/home/op/.raal", "123456", "us-east-1"),
        "/home/op/.raal/123456_us-east-1_ec2_instances.json"
    );
    assert_ne!(
        cache_path("/d", "a1", "us-east-1"),
        cache_path("/d", "a2", "us-east-1")
    );
    assert_ne!(
        cache_path("/d", "a1", "us-east-1"),
        cache_path("/d", "a1", "us-west-2")
    );
}

#[test]
fn ttl_boundary_is_strict() {
    let now: i64 = 1_700_000_000;
    let fresh_env = make_envelope(vec![instance("i-1")], now - 299);
    let expired_env = make_envelope(vec![instance("i-1")], now - 300);
    let older_env = make_envelope(vec![instance("i-1")], now - 301);
    assert!(is_fresh(&fresh_env, 300, now));
    assert!(!is_fresh(&expired_env, 300, now));
    assert!(!is_fresh(&older_env, 300, now));
}

#[test]
fn zero_ttl_expires_everything() {
    let now: i64 = 1_700_000_000;
    let env = make_envelope(vec![], now);
    assert!(!is_fresh(&env, 0, now));
}

#[test]
fn envelope_keeps_instances_and_write_time() {
    let env = make_envelope(vec![instance("i-1"), instance("i-2")], 42);
    assert_eq!(env.written_time, 42);
    assert_eq!(env.instance_data.len(), 2);
    assert_eq!(env.instance_data[0].instance_id, "i-1");
    assert_eq!(env.instance_data[1].instance_id, "i-2");
}

#[test]
fn fresh_envelope_round_trips_its_instances() {
    // The value half of a write-then-read round trip: what the envelope was
    // given is exactly what a fresh read serves back, element for element.
    let now: i64 = 1_700_000_000;
    let written = vec![instance("i-1"), instance("i-2")];
    let env = make_envelope(written.clone(), now);
    let served = cached_data_at(Ok(env), 300, now).unwrap();
    assert_eq!(served, written);
}

#[test]
fn expired_envelope_reads_as_unavailable() {
    let now: i64 = 1_700_000_000;
    let env = make_envelope(vec![instance("i-1")], now - 301);
    let err = cached_data_at(Ok(env), 300, now).unwrap_err();
    assert_eq!(err, CacheError::Unavailable("expired".to_string()));
}

#[test]
fn read_failure_passes_through() {
    let err = cached_data_at(
        Err(CacheError::Unavailable("no such file".to_string())),
        300,
        1_700_000_000,
    )
    .unwrap_err();
    assert_eq!(err, CacheError::Unavailable("no such file".to_string()));
}

#[test]
fn bypass_always_fetches_live() {
    let now: i64 = 1_700_000_000;
    let env = make_envelope(vec![instance("i-1")], now);
    let plan = plan_resolution(true, Ok(env), 300, now);
    assert_eq!(plan, ResolvePlan::FetchLive);
}

#[test]
fn fresh_cache_is_served_without_fetch() {
    let now: i64 = 1_700_000_000;
    let env = make_envelope(vec![instance("i-1")], now - 10);
    let plan = plan_resolution(false, Ok(env), 300, now);
    match plan {
        ResolvePlan::UseCached(data) => {
            assert_eq!(data.len(), 1);
            assert_eq!(data[0].instance_id, "i-1");
        }
        ResolvePlan::FetchLive => panic!("fresh cache must be served"),
    }
}

#[test]
fn missing_or_stale_cache_falls_back_to_live_fetch() {
    let now: i64 = 1_700_000_000;
    let stale = make_envelope(vec![instance("i-1")], now - 3_600);
    assert_eq!(
        plan_resolution(false, Ok(stale), 300, now),
        ResolvePlan::FetchLive
    );
    assert_eq!(
        plan_resolution(
            false,
            Err(CacheError::Unavailable("absent".to_string())),
            300,
            now
        ),
        ResolvePlan::FetchLive
    );
}

#[test]
fn cache_data_fields_compare_by_value() {
    let a = CacheData {
        written_time: 7,
        instance_data: vec![instance("i-1")],
    };
    let b = make_envelope(vec![instance("i-1")], 7);
    assert_eq!(a, b);
}
