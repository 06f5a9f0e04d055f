use deucalion::config::{
    AwsCredentialsProviderType, AwsInstancesPollerSettings, AwsInstancesPollerSettingsProvider,
    AwsSpotPricesPollerSettings, AwsSpotPricesPollerSettingsProvider, ConfigError,
    DeucalionSettings, ScrapeSettings, ScrapeSettingsProvider,
};

fn all_settings() -> DeucalionSettings {
    DeucalionSettings {
        aws_instances_poller_settings: AwsInstancesPollerSettings {
            credentials_provider: Some(AwsCredentialsProviderType::Profile),
            region: "eu-west-1".to_string(),
            expose_tags: vec!["team".to_string()],
            describe_instances_chunk_size: Some(500),
        },
        aws_spot_prices_poller_settings: AwsSpotPricesPollerSettings {
            credentials_provider: None,
            region: "us-east-1".to_string(),
            max_chunk_size: None,
            availability_zones: Some(vec!["us-east-1a".to_string()]),
            products: None,
            instance_types: Some(vec!["m4.large".to_string()]),
        },
        scrape_settings: ScrapeSettings {
            polling_period: Some(30),
            listen_on: "127.0.0.1:9090".to_string(),
            read_timeout: None,
            keep_alive_timeout: Some(15),
        },
    }
}

#[test]
fn the_settings_hand_out_their_parts() {
    let settings = all_settings();
    let instances = settings.aws_instances_poller_settings();
    assert_eq!(instances.credentials_provider, Some(AwsCredentialsProviderType::Profile));
    assert_eq!(instances.region, "eu-west-1");
    assert_eq!(instances.expose_tags, vec!["team".to_string()]);
    assert_eq!(instances.describe_instances_chunk_size, Some(500));
    let prices = settings.aws_spot_prices_poller_settings();
    assert_eq!(prices.credentials_provider, None);
    assert_eq!(prices.region, "us-east-1");
    assert_eq!(prices.max_chunk_size, None);
    assert_eq!(prices.availability_zones, Some(vec!["us-east-1a".to_string()]));
    assert_eq!(prices.products, None);
    assert_eq!(prices.instance_types, Some(vec!["m4.large".to_string()]));
    assert_eq!(settings.listen_on(), "127.0.0.1:9090");
    assert_eq!(settings.polling_period(), Some(30));
    assert_eq!(settings.read_timeout(), None);
    assert_eq!(settings.keep_alive_timeout(), Some(15));
}

#[test]
fn a_reading_failure_becomes_an_io_error() {
    let failure = std::io::Error::new(std::io::ErrorKind::NotFound, "config.yml is not there");
    assert_eq!(
        ConfigError::from(failure),
        ConfigError::IoError("config.yml is not there".to_string())
    );
    let denied = std::io::Error::from(std::io::ErrorKind::PermissionDenied);
    assert_eq!(ConfigError::from(denied), ConfigError::IoError("permission denied".to_string()));
}

#[test]
fn a_yaml_failure_becomes_a_syntax_error() {
    let failure = serde_yaml::from_str::<Vec<u32>>("[1, 2").unwrap_err();
    let described = match ConfigError::from(failure) {
        ConfigError::SyntaxError(text) => text,
        ConfigError::IoError(_) => panic!("a failure of the reader is a syntax error"),
    };
    assert!(!described.is_empty());
    let more = serde_yaml::from_str::<Vec<u32>>("- 1\n---\n- 2\n").unwrap_err();
    assert_eq!(
        ConfigError::from(more),
        ConfigError::SyntaxError(
            "deserializing from YAML containing more than one document is not supported".to_string()
        )
    );
}
