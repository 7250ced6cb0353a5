use raal::errors::{NormalizationError, RequiredField};
use raal::normalize::{ashuf_info_list, ec2_res_to_instances, ip_addresses_of, tags_of};
use raal::raw::{
    RawInstanceRecord, RawNetworkInterface, RawPlacement, RawReservation, RawState, RawTag,
};

fn full_record(id: &str) -> RawInstanceRecord {
    RawInstanceRecord {
        instance_id: Some(id.to_string()),
        network_interfaces: Some(vec![RawNetworkInterface {
            private_ip_address: Some("10.0.0.1".to_string()),
        }]),
        private_ip_address: Some("10.0.0.2".to_string()),
        public_ip_address: Some("54.1.2.3".to_string()),
        state: Some(RawState {
            name: Some("running".to_string()),
        }),
        launch_time: Some("2017-05-01T12:00:00.000Z".to_string()),
        placement: Some(RawPlacement {
            availability_zone: Some("us-east-1a".to_string()),
        }),
        image_id: Some("ami-1234".to_string()),
        tags: Some(vec![RawTag {
            key: Some("Name".to_string()),
            value: Some("web-1".to_string()),
        }]),
    }
}

#[test]
fn normalize_full_record_copies_every_field() {
    let out = ashuf_info_list(vec![full_record("i-abc")]).unwrap();
    assert_eq!(out.len(), 1);
    let info = &out[0];
    assert_eq!(info.instance_id, "i-abc");
    assert_eq!(info.state_name, "running");
    assert_eq!(info.launch_time, "2017-05-01T12:00:00.000Z");
    assert_eq!(info.availability_zone, "us-east-1a");
    assert_eq!(info.image_ami, "ami-1234");
    assert_eq!(
        info.private_ip_addresses,
        vec!["10.0.0.1".to_string(), "10.0.0.2".to_string()]
    );
    assert_eq!(info.public_ip_addresses, vec!["54.1.2.3".to_string()]);
    assert_eq!(info.tags.len(), 1);
    assert_eq!(info.tags[0].key, "Name");
    assert_eq!(info.tags[0].value, "web-1");
}

#[test]
fn normalize_missing_instance_id() {
    let mut rec = full_record("i-abc");
    rec.instance_id = None;
    let err = ashuf_info_list(vec![rec]).unwrap_err();
    assert_eq!(
        err,
        NormalizationError::MissingField(RequiredField::InstanceId)
    );
}

#[test]
fn normalize_missing_state_name() {
    let mut rec = full_record("i-abc");
    rec.state = Some(RawState { name: None });
    let err = ashuf_info_list(vec![rec]).unwrap_err();
    assert_eq!(
        err,
        NormalizationError::MissingField(RequiredField::StateName)
    );

    let mut rec = full_record("i-abc");
    rec.state = None;
    let err = ashuf_info_list(vec![rec]).unwrap_err();
    assert_eq!(
        err,
        NormalizationError::MissingField(RequiredField::StateName)
    );
}

#[test]
fn normalize_missing_launch_time() {
    let mut rec = full_record("i-abc");
    rec.launch_time = None;
    let err = ashuf_info_list(vec![rec]).unwrap_err();
    assert_eq!(
        err,
        NormalizationError::MissingField(RequiredField::LaunchTime)
    );
}

#[test]
fn normalize_missing_availability_zone() {
    let mut rec = full_record("i-abc");
    rec.placement = None;
    let err = ashuf_info_list(vec![rec]).unwrap_err();
    assert_eq!(
        err,
        NormalizationError::MissingField(RequiredField::AvailabilityZone)
    );
}

#[test]
fn normalize_missing_image_id() {
    let mut rec = full_record("i-abc");
    rec.image_id = None;
    let err = ashuf_info_list(vec![rec]).unwrap_err();
    assert_eq!(err, NormalizationError::MissingField(RequiredField::ImageId));
}

#[test]
fn normalize_error_names_earliest_failing_record() {
    let mut first_bad = full_record("i-1");
    first_bad.launch_time = None;
    let mut second_bad = full_record("i-2");
    second_bad.image_id = None;
    let err = ashuf_info_list(vec![full_record("i-0"), first_bad, second_bad]).unwrap_err();
    assert_eq!(
        err,
        NormalizationError::MissingField(RequiredField::LaunchTime)
    );
}

#[test]
fn normalize_missing_addresses_and_tags_is_no_error() {
    let mut rec = full_record("i-abc");
    rec.network_interfaces = None;
    rec.private_ip_address = None;
    rec.public_ip_address = None;
    rec.tags = None;
    let out = ashuf_info_list(vec![rec]).unwrap();
    assert!(out[0].private_ip_addresses.is_empty());
    assert!(out[0].public_ip_addresses.is_empty());
    assert!(out[0].tags.is_empty());
}

#[test]
fn ip_address_in_interface_and_top_level_appears_once() {
    let mut rec = full_record("i-abc");
    rec.network_interfaces = Some(vec![RawNetworkInterface {
        private_ip_address: Some("10.0.0.9".to_string()),
    }]);
    rec.private_ip_address = Some("10.0.0.9".to_string());
    let (private, public) = ip_addresses_of(&rec);
    assert_eq!(private, vec!["10.0.0.9".to_string()]);
    assert_eq!(public, vec!["54.1.2.3".to_string()]);
}

#[test]
fn ip_addresses_keep_first_occurrence_order() {
    let mut rec = full_record("i-abc");
    rec.network_interfaces = Some(vec![
        RawNetworkInterface {
            private_ip_address: Some("10.0.0.2".to_string()),
        },
        RawNetworkInterface {
            private_ip_address: None,
        },
        RawNetworkInterface {
            private_ip_address: Some("10.0.0.1".to_string()),
        },
        RawNetworkInterface {
            private_ip_address: Some("10.0.0.2".to_string()),
        },
    ]);
    rec.private_ip_address = Some("10.0.0.3".to_string());
    let (private, _) = ip_addresses_of(&rec);
    assert_eq!(
        private,
        vec![
            "10.0.0.2".to_string(),
            "10.0.0.1".to_string(),
            "10.0.0.3".to_string()
        ]
    );
}

#[test]
fn tag_pair_missing_either_half_is_dropped() {
    let mut rec = full_record("i-abc");
    rec.tags = Some(vec![
        RawTag {
            key: Some("Name".to_string()),
            value: None,
        },
        RawTag {
            key: None,
            value: Some("orphan".to_string()),
        },
        RawTag {
            key: Some("Tier".to_string()),
            value: Some("web".to_string()),
        },
    ]);
    let tags = tags_of(&rec);
    assert_eq!(tags.len(), 1);
    assert_eq!(tags[0].key, "Tier");
    assert_eq!(tags[0].value, "web");
}

#[test]
fn duplicate_tag_key_keeps_earliest_pair() {
    let mut rec = full_record("i-abc");
    rec.tags = Some(vec![
        RawTag {
            key: Some("Name".to_string()),
            value: Some("first".to_string()),
        },
        RawTag {
            key: Some("Name".to_string()),
            value: Some("second".to_string()),
        },
    ]);
    let tags = tags_of(&rec);
    assert_eq!(tags.len(), 1);
    assert_eq!(tags[0].value, "first");
}

#[test]
fn reservations_flatten_in_order() {
    let reservations = vec![
        RawReservation {
            instances: Some(vec![full_record("i-1"), full_record("i-2")]),
        },
        RawReservation { instances: None },
        RawReservation {
            instances: Some(vec![full_record("i-3")]),
        },
    ];
    let raws = ec2_res_to_instances(reservations);
    let ids: Vec<String> = raws.iter().map(|r| r.instance_id.clone().unwrap()).collect();
    assert_eq!(
        ids,
        vec!["i-1".to_string(), "i-2".to_string(), "i-3".to_string()]
    );
}
