use raal::errors::MatcherError;
use raal::instance::{AshufInfo, Tag};
use raal::matcher::{
    instances_matching_regex, partition_matches, running_instances, CompiledPattern,
};

fn instance(id: &str, tags: Vec<(&str, &str)>) -> AshufInfo {
    AshufInfo {
        instance_id: id.to_string(),
        private_ip_addresses: vec!["10.0.0.1".to_string()],
        public_ip_addresses: vec![],
        state_name: "running".to_string(),
        launch_time: "2017-05-01T12:00:00.000Z".to_string(),
        availability_zone: "us-east-1a".to_string(),
        image_ami: "ami-1234".to_string(),
        tags: tags
            .into_iter()
            .map(|(k, v)| Tag {
                key: k.to_string(),
                value: v.to_string(),
            })
            .collect(),
    }
}

fn ids(instances: &[AshufInfo]) -> Vec<String> {
    instances.iter().map(|i| i.instance_id.clone()).collect()
}

#[test]
fn invalid_pattern_is_fatal() {
    let r = instances_matching_regex(
        "(unclosed".to_string(),
        vec!["Name".to_string()],
        vec![instance("i-1", vec![("Name", "web-1")])],
    );
    assert_eq!(r.unwrap_err(), MatcherError::InvalidPattern);
    assert!(matches!(
        CompiledPattern::compile("(unclosed"),
        Err(MatcherError::InvalidPattern)
    ));
}

#[test]
fn partition_splits_by_tag_value_in_order() {
    let rexpr = CompiledPattern::compile("web").unwrap();
    let input = vec![
        instance("i-1", vec![("Name", "web-1")]),
        instance("i-2", vec![("Name", "db-1")]),
        instance("i-3", vec![("Name", "web-2")]),
        instance("i-4", vec![("Tier", "web")]),
    ];
    let (matched, unmatched) = partition_matches(&rexpr, &"Name".to_string(), input);
    assert_eq!(ids(&matched), vec!["i-1".to_string(), "i-3".to_string()]);
    assert_eq!(ids(&unmatched), vec!["i-2".to_string(), "i-4".to_string()]);
}

#[test]
fn instance_without_the_key_is_not_matched() {
    let rexpr = CompiledPattern::compile(".*").unwrap();
    let input = vec![instance("i-1", vec![("Tier", "web")])];
    let (matched, unmatched) = partition_matches(&rexpr, &"Name".to_string(), input);
    assert!(matched.is_empty());
    assert_eq!(ids(&unmatched), vec!["i-1".to_string()]);
}

#[test]
fn first_key_wins_over_later_keys() {
    // Matches the pattern on both `Name` and `Tier`: attributed to the
    // `Name` pass, and present exactly once in the output.
    let both = instance("i-1", vec![("Name", "web-1"), ("Tier", "web")]);
    let tier_only = instance("i-2", vec![("Name", "db-1"), ("Tier", "web")]);
    let matched = instances_matching_regex(
        "web".to_string(),
        vec!["Name".to_string(), "Tier".to_string()],
        vec![tier_only, both],
    )
    .unwrap();
    // i-1 matched in the Name pass, so it precedes i-2, which only the
    // later Tier pass picked up — even though i-2 came first in the input.
    assert_eq!(ids(&matched), vec!["i-1".to_string(), "i-2".to_string()]);
}

#[test]
fn matched_output_is_stable_concatenation_of_passes() {
    let matched = instances_matching_regex(
        "^web".to_string(),
        vec!["Name".to_string()],
        vec![
            instance("i-1", vec![("Name", "web-a")]),
            instance("i-2", vec![("Name", "db-1")]),
            instance("i-3", vec![("Name", "web-b")]),
        ],
    )
    .unwrap();
    assert_eq!(ids(&matched), vec!["i-1".to_string(), "i-3".to_string()]);
}

#[test]
fn every_instance_lands_in_matched_or_remainder() {
    // The matched set and the final remainder partition the input: no
    // instance is lost, none is duplicated.
    let input = vec![
        instance("i-1", vec![("Name", "web-1"), ("Tier", "web")]),
        instance("i-2", vec![("Name", "db-1")]),
        instance("i-3", vec![("Tier", "web")]),
        instance("i-4", vec![]),
    ];
    let keys = vec!["Name".to_string(), "Tier".to_string()];
    let matched =
        instances_matching_regex("web".to_string(), keys.clone(), input.clone()).unwrap();
    assert_eq!(ids(&matched), vec!["i-1".to_string(), "i-3".to_string()]);

    // Rebuild the remainder by running the same passes by hand.
    let rexpr = CompiledPattern::compile("web").unwrap();
    let (_, after_name) = partition_matches(&rexpr, &keys[0], input.clone());
    let (_, remainder) = partition_matches(&rexpr, &keys[1], after_name);
    assert_eq!(ids(&remainder), vec!["i-2".to_string(), "i-4".to_string()]);

    let mut together: Vec<String> = ids(&matched);
    together.extend(ids(&remainder));
    together.sort();
    let mut expected = ids(&input);
    expected.sort();
    assert_eq!(together, expected);
}

#[test]
fn running_instances_keeps_only_running() {
    let mut stopped = instance("i-2", vec![]);
    stopped.state_name = "stopped".to_string();
    let mut terminated = instance("i-3", vec![]);
    terminated.state_name = "terminated".to_string();
    let out = running_instances(vec![instance("i-1", vec![]), stopped, terminated]);
    assert_eq!(ids(&out), vec!["i-1".to_string()]);
}
