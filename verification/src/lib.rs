//! Mirrors a cloud fleet into labelled gauges.
//!
//! - `pagination`: draining a cursor-paginated listing record by record.
//! - `ec2`: the provider's records and requests, and the cursors of its
//!   listings.
//! - `poller`: the taxonomy of poller errors and the classification of
//!   provider errors.
//! - `gauges`: the gauge family a poller publishes into.
//! - `labels`: how a record becomes a set of labels.
//! - `reconcile`: bringing a gauge family in line with what a pass observed.
//! - `aws_poller`: the instances poller and the spot prices poller.
//! - `periodic`, `termination`: the schedule of the polling worker and the
//!   flag behind a wait for termination.
//! - `config`: the settings.
//! - `text`: text predicates and copies.

pub mod aws_poller;
pub mod config;
pub mod ec2;
pub mod gauges;
pub mod labels;
pub mod pagination;
pub mod periodic;
pub mod poller;
pub mod reconcile;
pub mod termination;
pub mod text;
