use deucalion::aws_poller::AwsInstancesPoller;
use deucalion::labels::{label_instance, name_instance_labels};
use deucalion::config::{AwsInstancesPollerSettings, AwsInstancesPollerSettingsProvider};
use deucalion::ec2::{Instance, Placement, Tag};
use deucalion::gauges::FamilyHandle;
use deucalion::pagination::{PaginatedIterator, PaginatedRequestor};
use deucalion::poller::{PollerError, ProviderError};
use prometheus::Registry;

fn pairs(labels: &[(&str, &str)]) -> Vec<(String, String)> {
    labels.iter().map(|(n, v)| (n.to_string(), v.to_string())).collect()
}

fn texts(list: &[&str]) -> Vec<String> {
    list.iter().map(|n| n.to_string()).collect()
}

fn tag(key: &str, value: &str) -> Tag {
    Tag { key: Some(key.to_string()), value: Some(value.to_string()) }
}

fn instance(id: &str, tags: Vec<Tag>) -> Instance {
    Instance {
        instance_id: Some(id.to_string()),
        instance_type: Some("m4.large".to_string()),
        instance_lifecycle: None,
        platform: None,
        placement: Some(Placement { availability_zone: Some("eu-west-1a".to_string()) }),
        tags: Some(tags),
    }
}

fn settings(expose: &[&str]) -> AwsInstancesPollerSettings {
    AwsInstancesPollerSettings {
        credentials_provider: None,
        region: "eu-west-1".to_string(),
        expose_tags: texts(expose),
        describe_instances_chunk_size: Some(100),
    }
}

struct Fixed(AwsInstancesPollerSettings);

impl AwsInstancesPollerSettingsProvider for Fixed {
    fn aws_instances_poller_settings(&self) -> AwsInstancesPollerSettings {
        self.0.clone()
    }
}

struct Listing {
    answers: Vec<Result<Option<Vec<Instance>>, ProviderError>>,
}

impl PaginatedRequestor for Listing {
    type Item = Instance;
    type Error = ProviderError;

    fn next_page(&mut self) -> Result<Option<Vec<Instance>>, ProviderError> {
        if self.answers.is_empty() {
            Ok(None)
        } else {
            self.answers.remove(0)
        }
    }
}

fn listing(pages: Vec<Vec<Instance>>) -> Listing {
    let mut answers: Vec<Result<Option<Vec<Instance>>, ProviderError>> =
        pages.into_iter().map(|p| Ok(Some(p))).collect();
    answers.push(Ok(None));
    Listing { answers }
}

fn failing(pages: Vec<Vec<Instance>>, error: ProviderError) -> Listing {
    let mut answers: Vec<Result<Option<Vec<Instance>>, ProviderError>> =
        pages.into_iter().map(|p| Ok(Some(p))).collect();
    answers.push(Err(error));
    Listing { answers }
}

/// The ids of the series with their values, sorted; one entry per series.
fn ids(handle: &FamilyHandle) -> Vec<(String, f64)> {
    let mut all: Vec<(String, f64)> = series(handle)
        .into_iter()
        .map(|(labels, value)| {
            (labels.iter().find(|l| l.0 == "id").unwrap().1.clone(), value)
        })
        .collect();
    all.sort_by(|a, b| a.0.cmp(&b.0));
    all
}

fn series(handle: &FamilyHandle) -> Vec<(Vec<(String, String)>, f64)> {
    let registry = Registry::new();
    registry.register(Box::new(handle.collector.clone())).unwrap();
    let mut all = Vec::new();
    for family in registry.gather() {
        assert_eq!(family.get_name(), "AwsInstanceState");
        assert_eq!(family.get_help(), "Identifies a running AWS instance");
        for metric in family.get_metric() {
            let mut labels: Vec<(String, String)> = metric
                .get_label()
                .iter()
                .map(|l| (l.get_name().to_string(), l.get_value().to_string()))
                .collect();
            labels.sort();
            all.push((labels, metric.get_gauge().get_value()));
        }
    }
    all.sort_by(|a, b| a.0.cmp(&b.0));
    all
}

fn one(id: &str) -> (String, f64) {
    (id.to_string(), 1.0)
}

#[test]
fn label_names_start_with_the_fixed_ones() {
    assert_eq!(
        name_instance_labels(&texts(&["team", "owner"])),
        texts(&["id", "availability_zone", "platform", "type", "lifecycle", "team", "owner"])
    );
    assert_eq!(
        name_instance_labels(&texts(&[])),
        texts(&["id", "availability_zone", "platform", "type", "lifecycle"])
    );
}

#[test]
fn label_construction_matches_tags_without_regard_to_case() {
    let record = instance("i-1", vec![tag("Team", "x")]);
    let labels = label_instance(&record, &texts(&["team", "owner"])).unwrap();
    assert_eq!(
        labels,
        pairs(&[
            ("id", "i-1"),
            ("availability_zone", "eu-west-1a"),
            ("platform", "linux"),
            ("type", "m4.large"),
            ("lifecycle", "ondemand"),
            ("team", "x"),
            ("owner", ""),
        ])
    );
}

#[test]
fn labels_take_platform_and_lifecycle_where_they_are_given() {
    let mut record = instance("i-1", vec![]);
    record.platform = Some("windows".to_string());
    record.instance_lifecycle = Some("spot".to_string());
    assert_eq!(
        label_instance(&record, &texts(&[])).unwrap(),
        pairs(&[
            ("id", "i-1"),
            ("availability_zone", "eu-west-1a"),
            ("platform", "windows"),
            ("type", "m4.large"),
            ("lifecycle", "spot"),
        ])
    );
}

#[test]
fn the_first_matching_tag_gives_the_value() {
    let record = instance(
        "i-1",
        vec![tag("other", "o"), tag("TEAM", "first"), tag("team", "second")],
    );
    let labels = label_instance(&record, &texts(&["Team"])).unwrap();
    assert_eq!(labels[5], ("Team".to_string(), "first".to_string()));
}

fn exposes(declared: &str, key: &str) -> bool {
    let record = instance("i-1", vec![tag(key, "found")]);
    label_instance(&record, &texts(&[declared])).unwrap()[5].1 == "found"
}

#[test]
fn tag_keys_match_up_to_the_case_of_ascii_letters() {
    assert!(exposes("Team", "team"));
    assert!(exposes("TEAM", "tEaM"));
    assert!(exposes("a-1_Z", "A-1_z"));
    assert!(exposes("", ""));
    assert!(exposes("\u{e9}A", "\u{e9}a"));
    assert!(!exposes("team", "teams"));
    assert!(!exposes("teams", "team"));
    assert!(!exposes("team", "tean"));
    assert!(!exposes("[", "{"));
    assert!(!exposes("@", "`"));
    assert!(!exposes("\u{c9}", "\u{e9}"));
}

#[test]
fn an_exposed_label_keeps_the_name_it_was_declared_with() {
    let record = instance("i-1", vec![tag("team", "x")]);
    let labels = label_instance(&record, &texts(&["TeAm"])).unwrap();
    assert_eq!(labels[5], ("TeAm".to_string(), "x".to_string()));
}

#[test]
fn a_tag_without_a_key_matches_nothing_and_one_without_a_value_is_empty() {
    let record = instance(
        "i-1",
        vec![
            Tag { key: None, value: Some("lost".to_string()) },
            Tag { key: Some("team".to_string()), value: None },
            tag("team", "late"),
        ],
    );
    let labels = label_instance(&record, &texts(&["team", "owner"])).unwrap();
    assert_eq!(labels[5], ("team".to_string(), "".to_string()));
    assert_eq!(labels[6], ("owner".to_string(), "".to_string()));
}

#[test]
fn an_instance_without_a_required_attribute_has_no_labels() {
    let mut no_tags = instance("i-1", vec![]);
    no_tags.tags = None;
    assert_eq!(label_instance(&no_tags, &texts(&["team"])), None);
    let mut no_id = instance("i-1", vec![]);
    no_id.instance_id = None;
    assert_eq!(label_instance(&no_id, &texts(&["team"])), None);
    let mut no_type = instance("i-1", vec![]);
    no_type.instance_type = None;
    assert_eq!(label_instance(&no_type, &texts(&["team"])), None);
    let mut no_placement = instance("i-1", vec![]);
    no_placement.placement = None;
    assert_eq!(label_instance(&no_placement, &texts(&["team"])), None);
    let mut no_zone = instance("i-1", vec![]);
    no_zone.placement = Some(Placement { availability_zone: None });
    assert_eq!(label_instance(&no_zone, &texts(&["team"])), None);
    assert!(label_instance(&instance("i-1", vec![]), &texts(&["team"])).is_some());
}

#[test]
fn a_poller_starts_with_an_empty_family() {
    let poller = AwsInstancesPoller::from_settings(settings(&["team"])).unwrap();
    assert_eq!(series(&poller.counters()), vec![]);
}

#[test]
fn a_poller_is_made_from_what_the_provider_hands_out() {
    let mut poller = AwsInstancesPoller::new(&Fixed(settings(&["team"]))).ok().unwrap();
    assert_eq!(poller.poll(listing(vec![vec![instance("i-1", vec![tag("team", "x")])]])), None);
    assert_eq!(
        series(&poller.counters()),
        vec![(
            {
                let mut labels = pairs(&[
                    ("id", "i-1"),
                    ("availability_zone", "eu-west-1a"),
                    ("platform", "linux"),
                    ("type", "m4.large"),
                    ("lifecycle", "ondemand"),
                    ("team", "x"),
                ]);
                labels.sort();
                labels
            },
            1.0
        )]
    );
}

#[test]
fn exposed_tags_must_make_well_formed_label_names() {
    let refused = AwsInstancesPoller::from_settings(settings(&["aws:autoscaling:groupName"]));
    assert!(matches!(refused, Err(PollerError::UnknownError(_))));
    assert!(AwsInstancesPoller::from_settings(settings(&["my-tag"])).is_err());
    assert!(AwsInstancesPoller::from_settings(settings(&[""])).is_err());
    assert!(AwsInstancesPoller::new(&Fixed(settings(&["9"]))).is_err());
}

#[test]
fn exposed_tags_must_not_repeat_a_label_name() {
    assert!(AwsInstancesPoller::from_settings(settings(&["team", "team"])).is_err());
    assert!(AwsInstancesPoller::from_settings(settings(&["id"])).is_err());
    assert!(AwsInstancesPoller::from_settings(settings(&["lifecycle"])).is_err());
    assert!(AwsInstancesPoller::from_settings(settings(&["team", "Team"])).is_ok());
}

#[test]
fn the_requestor_lists_running_instances_by_the_page_size_hint() {
    let poller = AwsInstancesPoller::from_settings(settings(&[])).unwrap();
    let requestor = poller.requestor();
    assert!(requestor.first_chunk);
    assert_eq!(requestor.req.dry_run, None);
    assert_eq!(requestor.req.max_results, Some(100));
    assert_eq!(requestor.req.next_token, None);
    let filters = requestor.req.filters.unwrap();
    assert_eq!(filters.len(), 1);
    assert_eq!(filters[0].name, Some("instance-state-code".to_string()));
    assert_eq!(filters[0].values, Some(vec!["16".to_string()]));
}

#[test]
fn safe_deletion_commit_removes_what_was_not_observed() {
    let mut poller = AwsInstancesPoller::from_settings(settings(&[])).unwrap();
    let first = listing(vec![vec![instance("A", vec![]), instance("B", vec![])], vec![instance("C", vec![])]]);
    assert_eq!(poller.poll(first), None);
    assert_eq!(ids(&poller.counters()), vec![one("A"), one("B"), one("C")]);
    let second = listing(vec![vec![instance("A", vec![])], vec![instance("C", vec![])]]);
    assert_eq!(poller.poll(second), None);
    assert_eq!(ids(&poller.counters()), vec![one("A"), one("C")]);
}

#[test]
fn safe_deletion_abort_removes_nothing() {
    let mut poller = AwsInstancesPoller::from_settings(settings(&[])).unwrap();
    let first = listing(vec![vec![instance("A", vec![]), instance("B", vec![]), instance("C", vec![])]]);
    assert_eq!(poller.poll(first), None);
    let second = failing(
        vec![vec![instance("A", vec![])]],
        ProviderError::HttpDispatch("connection reset".to_string()),
    );
    assert_eq!(
        poller.poll(second),
        Some(PollerError::NetworkError("connection reset".to_string()))
    );
    assert_eq!(ids(&poller.counters()), vec![one("A"), one("B"), one("C")]);
}

#[test]
fn an_aborted_pass_keeps_what_it_added() {
    let mut poller = AwsInstancesPoller::from_settings(settings(&[])).unwrap();
    assert_eq!(poller.poll(listing(vec![vec![instance("A", vec![])]])), None);
    let second = failing(
        vec![vec![instance("D", vec![])], vec![instance("E", vec![])]],
        ProviderError::Unknown("RequestLimitExceeded".to_string()),
    );
    assert_eq!(
        poller.poll(second),
        Some(PollerError::UnknownError("RequestLimitExceeded".to_string()))
    );
    assert_eq!(ids(&poller.counters()), vec![one("A"), one("D"), one("E")]);
}

#[test]
fn a_failure_on_the_first_page_changes_nothing() {
    let mut poller = AwsInstancesPoller::from_settings(settings(&[])).unwrap();
    assert_eq!(poller.poll(listing(vec![vec![instance("A", vec![])]])), None);
    let second = failing(vec![], ProviderError::Credentials("expired".to_string()));
    assert_eq!(poller.poll(second), Some(PollerError::InvalidCredentials("expired".to_string())));
    assert_eq!(ids(&poller.counters()), vec![one("A")]);
}

#[test]
fn the_failure_of_a_pass_is_classified_for_the_instances_listing() {
    let mut poller = AwsInstancesPoller::from_settings(settings(&[])).unwrap();
    let denied = failing(vec![], ProviderError::Unknown("UnauthorizedOperation".to_string()));
    assert_eq!(
        poller.poll(denied),
        Some(PollerError::InsufficientPermissions("DescribeInstances".to_string()))
    );
}

#[test]
fn a_dry_run_confirmation_is_not_reported_and_nothing_is_removed() {
    let mut poller = AwsInstancesPoller::from_settings(settings(&[])).unwrap();
    assert_eq!(poller.poll(listing(vec![vec![instance("A", vec![])]])), None);
    let odd = failing(vec![], ProviderError::Unknown("DryRunOperation".to_string()));
    assert_eq!(poller.poll(odd), None);
    assert_eq!(ids(&poller.counters()), vec![one("A")]);
}

#[test]
fn an_empty_listing_removes_everything() {
    let mut poller = AwsInstancesPoller::from_settings(settings(&[])).unwrap();
    assert_eq!(poller.poll(listing(vec![vec![instance("A", vec![]), instance("B", vec![])]])), None);
    assert_eq!(poller.poll(listing(vec![])), None);
    assert_eq!(ids(&poller.counters()), vec![]);
}

#[test]
fn idempotent_upsert_leaves_one_series_at_one() {
    let mut poller = AwsInstancesPoller::from_settings(settings(&["team"])).unwrap();
    let record = instance("A", vec![tag("team", "x")]);
    let twice = listing(vec![vec![record.clone(), record.clone()], vec![record.clone()]]);
    assert_eq!(poller.poll(twice), None);
    assert_eq!(ids(&poller.counters()), vec![one("A")]);
    assert_eq!(poller.poll(listing(vec![vec![record]])), None);
    assert_eq!(ids(&poller.counters()), vec![one("A")]);
}

#[test]
fn an_instance_whose_labels_changed_keeps_its_earlier_series() {
    let mut poller = AwsInstancesPoller::from_settings(settings(&["team"])).unwrap();
    assert_eq!(poller.poll(listing(vec![vec![instance("A", vec![tag("team", "x")])]])), None);
    assert_eq!(poller.poll(listing(vec![vec![instance("A", vec![tag("team", "y")])]])), None);
    let teams: Vec<String> = series(&poller.counters())
        .into_iter()
        .map(|(labels, _)| labels.iter().find(|l| l.0 == "team").unwrap().1.clone())
        .collect();
    assert_eq!(teams, vec!["x".to_string(), "y".to_string()]);
    assert_eq!(poller.poll(listing(vec![])), None);
    assert_eq!(series(&poller.counters()), vec![]);
}

#[test]
fn an_instance_without_tags_is_passed_over_and_counts_as_gone() {
    let mut poller = AwsInstancesPoller::from_settings(settings(&[])).unwrap();
    assert_eq!(poller.poll(listing(vec![vec![instance("A", vec![]), instance("B", vec![])]])), None);
    let mut untagged = instance("B", vec![]);
    untagged.tags = None;
    assert_eq!(poller.poll(listing(vec![vec![instance("A", vec![]), untagged]])), None);
    assert_eq!(ids(&poller.counters()), vec![one("A")]);
}

#[test]
fn a_pass_can_be_run_step_by_step() {
    let mut poller = AwsInstancesPoller::from_settings(settings(&[])).unwrap();
    assert_eq!(
        poller.poll(listing(vec![vec![instance("A", vec![]), instance("B", vec![]), instance("C", vec![])]])),
        None
    );
    let mut pass = poller.begin_pass();
    poller.observe(&mut pass, &instance("C", vec![]));
    poller.observe(&mut pass, &instance("D", vec![]));
    assert_eq!(ids(&poller.counters()), vec![one("A"), one("B"), one("C"), one("D")]);
    poller.commit(pass);
    assert_eq!(ids(&poller.counters()), vec![one("C"), one("D")]);
}

#[test]
fn a_pass_that_is_dropped_removes_nothing() {
    let mut poller = AwsInstancesPoller::from_settings(settings(&[])).unwrap();
    assert_eq!(poller.poll(listing(vec![vec![instance("A", vec![]), instance("B", vec![])]])), None);
    {
        let mut pass = poller.begin_pass();
        poller.observe(&mut pass, &instance("C", vec![]));
    }
    assert_eq!(ids(&poller.counters()), vec![one("A"), one("B"), one("C")]);
}

#[test]
fn take_in_goes_on_where_the_iterator_stands() {
    let mut poller = AwsInstancesPoller::from_settings(settings(&[])).unwrap();
    assert_eq!(
        poller.poll(listing(vec![vec![instance("A", vec![]), instance("B", vec![]), instance("C", vec![])]])),
        None
    );
    let mut slot: Option<ProviderError> = None;
    let mut pass = poller.begin_pass();
    {
        let requestor = failing(
            vec![vec![instance("X", vec![]), instance("B", vec![])], vec![instance("D", vec![])]],
            ProviderError::Validation("late".to_string()),
        );
        let mut records = PaginatedIterator::new(requestor, &mut slot);
        assert_eq!(records.next().unwrap().instance_id, Some("X".to_string()));
        poller.take_in(&mut pass, &mut records);
        assert!(records.next().is_none());
    }
    assert_eq!(slot, Some(ProviderError::Validation("late".to_string())));
    assert_eq!(ids(&poller.counters()), vec![one("A"), one("B"), one("C"), one("D")]);
    poller.commit(pass);
    assert_eq!(ids(&poller.counters()), vec![one("B"), one("D")]);
}

#[test]
fn a_pass_over_answers_at_hand_commits_at_the_end_of_the_listing() {
    let mut poller = AwsInstancesPoller::from_settings(settings(&[])).unwrap();
    let first = vec![
        Ok(Some(vec![instance("A", vec![]), instance("B", vec![])])),
        Ok(Some(vec![])),
        Ok(Some(vec![instance("C", vec![])])),
        Ok(None),
    ];
    assert_eq!(poller.pass_over(first), None);
    assert_eq!(ids(&poller.counters()), vec![one("A"), one("B"), one("C")]);
    let second = vec![Ok(Some(vec![instance("A", vec![])])), Ok(Some(vec![instance("C", vec![])])), Ok(None)];
    assert_eq!(poller.pass_over(second), None);
    assert_eq!(ids(&poller.counters()), vec![one("A"), one("C")]);
}

#[test]
fn a_pass_over_answers_at_hand_stops_at_a_failure() {
    let mut poller = AwsInstancesPoller::from_settings(settings(&[])).unwrap();
    assert_eq!(poller.pass_over(vec![Ok(Some(vec![instance("A", vec![]), instance("B", vec![])]))]), None);
    let failing = vec![
        Ok(Some(vec![instance("D", vec![])])),
        Err(ProviderError::HttpDispatch("reset".to_string())),
        Ok(Some(vec![instance("E", vec![])])),
        Ok(None),
    ];
    assert_eq!(poller.pass_over(failing), Some(PollerError::NetworkError("reset".to_string())));
    assert_eq!(ids(&poller.counters()), vec![one("A"), one("B"), one("D")]);
}

#[test]
fn a_pass_over_answers_at_hand_looks_at_nothing_after_the_end() {
    let mut poller = AwsInstancesPoller::from_settings(settings(&[])).unwrap();
    let answers = vec![
        Ok(Some(vec![instance("A", vec![])])),
        Ok(None),
        Ok(Some(vec![instance("B", vec![])])),
        Err(ProviderError::Unknown("late".to_string())),
    ];
    assert_eq!(poller.pass_over(answers), None);
    assert_eq!(ids(&poller.counters()), vec![one("A")]);
}

#[test]
fn a_pass_over_pages_alone_ends_with_them() {
    let mut poller = AwsInstancesPoller::from_settings(settings(&[])).unwrap();
    assert_eq!(poller.pass_over(vec![Ok(Some(vec![instance("A", vec![]), instance("B", vec![])]))]), None);
    assert_eq!(poller.pass_over(vec![Ok(Some(vec![instance("B", vec![])]))]), None);
    assert_eq!(ids(&poller.counters()), vec![one("B")]);
    assert_eq!(poller.pass_over(vec![]), None);
    assert_eq!(ids(&poller.counters()), vec![]);
}

#[test]
fn a_pass_over_answers_at_hand_does_what_a_poll_does() {
    let pages = vec![vec![instance("A", vec![tag("team", "x")])], vec![instance("B", vec![])]];
    let mut polled = AwsInstancesPoller::from_settings(settings(&["team"])).unwrap();
    let mut passed = AwsInstancesPoller::from_settings(settings(&["team"])).unwrap();
    let answers: Vec<Result<Option<Vec<Instance>>, ProviderError>> =
        pages.iter().map(|p| Ok(Some(p.clone()))).collect();
    assert_eq!(polled.poll(listing(pages)), passed.pass_over(answers));
    assert_eq!(series(&polled.counters()), series(&passed.counters()));
}
