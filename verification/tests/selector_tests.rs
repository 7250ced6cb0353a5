use raal::errors::SelectorError;
use raal::instance::AshufInfo;
use raal::selector::select_one;

fn instance(id: &str) -> AshufInfo {
    AshufInfo {
        instance_id: id.to_string(),
        private_ip_addresses: vec!["10.0.0.1".to_string()],
        public_ip_addresses: vec![],
        state_name: "running".to_string(),
        launch_time: "2017-05-01T12:00:00.000Z".to_string(),
        availability_zone: "us-east-1a".to_string(),
        image_ami: "ami-1234".to_string(),
        tags: vec![],
    }
}

#[test]
fn empty_set_is_a_distinct_no_match_outcome() {
    let matches: Vec<AshufInfo> = vec![];
    let err = select_one(&matches).unwrap_err();
    assert_eq!(err, SelectorError::EmptySet);
}

#[test]
fn singleton_set_always_returns_its_element() {
    let matches = vec![instance("i-only")];
    for _ in 0..50 {
        let chosen = select_one(&matches).unwrap();
        assert_eq!(chosen.instance_id, "i-only");
    }
}

#[test]
fn selection_comes_from_the_matched_set() {
    let matches = vec![instance("i-1"), instance("i-2"), instance("i-3")];
    for _ in 0..50 {
        let chosen = select_one(&matches).unwrap();
        assert!(matches.iter().any(|m| m == chosen));
    }
}
