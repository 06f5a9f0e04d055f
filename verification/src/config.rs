//! Settings of the pollers and of the scrape endpoint, as plain values.

use vstd::prelude::*;
use crate::text::{copy_optional_texts, copy_texts, view_texts};

verus! {

/// Why the settings could not be loaded.
#[derive(Debug, PartialEq, Eq, Clone)]
pub enum ConfigError {
    /// The settings file could not be read.
    IoError(String),
    /// The settings file is not a valid settings document.
    SyntaxError(String),
}

/// `std::io::Error`, of which nothing is known but that it is a value.
#[verifier::external_type_specification]
#[verifier::external_body]
pub struct ExIoError(std::io::Error);

/// `serde_yaml::Error`, of which nothing is known but its description.
#[verifier::external_type_specification]
#[verifier::external_body]
pub struct ExYamlError(serde_yaml::Error);

/// What `std::error::Error::description` gives for an error of the YAML
/// reader.
pub uninterp spec fn yaml_error_description(error: serde_yaml::Error) -> Seq<char>;

/// `ToString::to_string` of an input or output error: its message, as
/// `Display` gives it. Nothing is claimed of the text: for an error of the
/// operating system it is that system's.
#[verifier::external_body]
fn describe_io_error(error: &std::io::Error) -> (text: String) {
    error.to_string()
}

/// `std::error::Error::description` of an error of the YAML reader.
#[verifier::external_body]
fn describe_yaml_error(error: &serde_yaml::Error) -> (text: String)
    ensures
        text@ == yaml_error_description(*error),
{
    String::from(std::error::Error::description(error))
}

/// A failure to read is an `IoError` with the message of the failure.
impl From<std::io::Error> for ConfigError {
    fn from(e: std::io::Error) -> (error: ConfigError)
        ensures
            error is IoError,
    {
        ConfigError::IoError(describe_io_error(&e))
    }
}

/// The conversion has no spec function: the message is not modelled.
impl vstd::std_specs::convert::FromSpecImpl<std::io::Error> for ConfigError {
    open spec fn obeys_from_spec() -> bool {
        false
    }

    open spec fn from_spec(e: std::io::Error) -> ConfigError {
        arbitrary()
    }
}

/// A failure of the YAML reader is a `SyntaxError` with the description of
/// the failure.
impl From<serde_yaml::Error> for ConfigError {
    fn from(e: serde_yaml::Error) -> (error: ConfigError)
        ensures
            error matches ConfigError::SyntaxError(text) && text@ == yaml_error_description(e),
    {
        ConfigError::SyntaxError(describe_yaml_error(&e))
    }
}

/// The conversion has no spec function: what it gives is stated of the
/// text of the error, which a spec function cannot build.
impl vstd::std_specs::convert::FromSpecImpl<serde_yaml::Error> for ConfigError {
    open spec fn obeys_from_spec() -> bool {
        false
    }

    open spec fn from_spec(e: serde_yaml::Error) -> ConfigError {
        arbitrary()
    }
}

/// The strategy that supplies credentials to a poller.
#[derive(Copy, Debug, PartialEq, Eq, Hash, Clone, Structural)]
pub enum AwsCredentialsProviderType {
    /// The provider's own resolution chain.
    Default,
    /// Environment variables.
    Environment,
    /// A named profile.
    Profile,
    /// The metadata service of the compute instance.
    Instance,
    /// The identity injected into a container.
    Container,
}

impl Default for AwsCredentialsProviderType {
    fn default() -> (kind: AwsCredentialsProviderType)
        ensures
            kind == AwsCredentialsProviderType::Default,
    {
        AwsCredentialsProviderType::Default
    }
}

/// What the instances poller is configured with.
#[derive(Clone)]
pub struct AwsInstancesPollerSettings {
    pub credentials_provider: Option<AwsCredentialsProviderType>,
    pub region: String,
    /// Tag keys to expose as labels, in label order.
    pub expose_tags: Vec<String>,
    /// Page size hint for the listing.
    pub describe_instances_chunk_size: Option<i32>,
}

/// A source of the instances poller's settings.
pub trait AwsInstancesPollerSettingsProvider {
    fn aws_instances_poller_settings(&self) -> AwsInstancesPollerSettings;
}

/// What the spot prices poller is configured with.
#[derive(Clone)]
pub struct AwsSpotPricesPollerSettings {
    pub credentials_provider: Option<AwsCredentialsProviderType>,
    pub region: String,
    /// Page size hint for the listing.
    pub max_chunk_size: Option<i32>,
    /// The availability zones to list prices of; all of them if `None`.
    pub availability_zones: Option<Vec<String>>,
    /// The products to list prices of; all of them if `None`.
    pub products: Option<Vec<String>>,
    /// The instance types to list prices of; all of them if `None`.
    pub instance_types: Option<Vec<String>>,
}

/// A source of the spot prices poller's settings.
pub trait AwsSpotPricesPollerSettingsProvider {
    fn aws_spot_prices_poller_settings(&self) -> AwsSpotPricesPollerSettings;
}

/// What the scrape endpoint and the workers are configured with. Times are
/// in whole seconds.
#[derive(Clone)]
pub struct ScrapeSettings {
    /// The time from the start of one pass to the start of the next.
    pub polling_period: Option<u64>,
    /// The address the endpoint listens on, as it is written.
    pub listen_on: String,
    pub read_timeout: Option<u64>,
    pub keep_alive_timeout: Option<u64>,
}

/// A source of the scrape settings.
pub trait ScrapeSettingsProvider {
    fn listen_on(&self) -> String;

    fn read_timeout(&self) -> Option<u64>;

    fn keep_alive_timeout(&self) -> Option<u64>;

    fn polling_period(&self) -> Option<u64>;
}

/// The polling period where the settings name none, in seconds.
pub const DEFAULT_POLLING_PERIOD: u64 = 60;

/// The number of nanoseconds in a second.
pub const NANOS_PER_SECOND: u128 = 1_000_000_000;

/// The polling period in nanoseconds: that of the settings, or one minute.
pub open spec fn polling_period_nanos(polling_period: Option<u64>) -> int {
    match polling_period {
        Some(seconds) => seconds * NANOS_PER_SECOND,
        None => DEFAULT_POLLING_PERIOD * NANOS_PER_SECOND,
    }
}

/// The polling period of the workers, in nanoseconds.
pub fn effective_polling_period(polling_period: Option<u64>) -> (nanos: u128)
    ensures
        nanos == polling_period_nanos(polling_period),
{
    let seconds: u64 = match polling_period {
        Some(seconds) => seconds,
        None => DEFAULT_POLLING_PERIOD,
    };
    assert(seconds * NANOS_PER_SECOND <= u128::MAX) by (nonlinear_arith)
        requires
            seconds <= u64::MAX,
            NANOS_PER_SECOND == 1_000_000_000,
    ;
    (seconds as u128) * NANOS_PER_SECOND
}

/// All the settings of the process.
#[derive(Clone)]
pub struct DeucalionSettings {
    pub aws_instances_poller_settings: AwsInstancesPollerSettings,
    pub aws_spot_prices_poller_settings: AwsSpotPricesPollerSettings,
    pub scrape_settings: ScrapeSettings,
}

impl AwsInstancesPollerSettingsProvider for DeucalionSettings {
    fn aws_instances_poller_settings(&self) -> (settings: AwsInstancesPollerSettings)
        ensures
            settings.credentials_provider == self.aws_instances_poller_settings.credentials_provider,
            settings.region@ == self.aws_instances_poller_settings.region@,
            settings.expose_tags.deep_view()
                == self.aws_instances_poller_settings.expose_tags.deep_view(),
            settings.describe_instances_chunk_size
                == self.aws_instances_poller_settings.describe_instances_chunk_size,
    {
        let own = &self.aws_instances_poller_settings;
        AwsInstancesPollerSettings {
            credentials_provider: own.credentials_provider,
            region: own.region.clone(),
            expose_tags: copy_texts(&own.expose_tags),
            describe_instances_chunk_size: own.describe_instances_chunk_size,
        }
    }
}

impl AwsSpotPricesPollerSettingsProvider for DeucalionSettings {
    fn aws_spot_prices_poller_settings(&self) -> (settings: AwsSpotPricesPollerSettings)
        ensures
            settings.credentials_provider
                == self.aws_spot_prices_poller_settings.credentials_provider,
            settings.region@ == self.aws_spot_prices_poller_settings.region@,
            settings.max_chunk_size == self.aws_spot_prices_poller_settings.max_chunk_size,
            view_texts(settings.availability_zones) == view_texts(
                self.aws_spot_prices_poller_settings.availability_zones,
            ),
            view_texts(settings.products) == view_texts(
                self.aws_spot_prices_poller_settings.products,
            ),
            view_texts(settings.instance_types) == view_texts(
                self.aws_spot_prices_poller_settings.instance_types,
            ),
    {
        let own = &self.aws_spot_prices_poller_settings;
        AwsSpotPricesPollerSettings {
            credentials_provider: own.credentials_provider,
            region: own.region.clone(),
            max_chunk_size: own.max_chunk_size,
            availability_zones: copy_optional_texts(&own.availability_zones),
            products: copy_optional_texts(&own.products),
            instance_types: copy_optional_texts(&own.instance_types),
        }
    }
}

impl ScrapeSettingsProvider for DeucalionSettings {
    fn listen_on(&self) -> (address: String)
        ensures
            address@ == self.scrape_settings.listen_on@,
    {
        self.scrape_settings.listen_on.clone()
    }

    fn read_timeout(&self) -> (seconds: Option<u64>)
        ensures
            seconds == self.scrape_settings.read_timeout,
    {
        self.scrape_settings.read_timeout
    }

    fn keep_alive_timeout(&self) -> (seconds: Option<u64>)
        ensures
            seconds == self.scrape_settings.keep_alive_timeout,
    {
        self.scrape_settings.keep_alive_timeout
    }

    fn polling_period(&self) -> (seconds: Option<u64>)
        ensures
            seconds == self.scrape_settings.polling_period,
    {
        self.scrape_settings.polling_period
    }
}

} // verus!
