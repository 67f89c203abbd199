//! Validating an audit configuration.
use std::path::PathBuf;

use aws_net_hound::audit::config::{
    is_plausible_region, BoundaryConfig, Config, ConfigError, Neo4jConfig,
};
use aws_net_hound::audit::{Cli, Command};
use aws_net_hound::ingest::aws_client::{
    require_account_id, require_region, resolve_region, ATTEMPT_TIMEOUT_SECS, MAX_ATTEMPTS,
};
use aws_net_hound::ingest::IngestConfig;
use aws_net_hound::error::{ErrorSource, IngestError};

fn config(region: &str, boundary: BoundaryConfig) -> Config {
    Config {
        region: region.to_string(),
        profile: "default".to_string(),
        boundary,
        output_path: PathBuf::from("./out.json"),
        neo4j: Neo4jConfig {
            uri: "bolt://127.0.0.1:7687".to_string(),
            user: "neo4j".to_string(),
        },
    }
}

fn one_vpc() -> BoundaryConfig {
    BoundaryConfig {
        vpc_ids: vec!["vpc-0example".to_string()],
        ..BoundaryConfig::default()
    }
}

#[test]
fn complete_config_keeps_every_setting() {
    let validated = config("us-east-1", one_vpc())
        .validate()
        .unwrap_or_else(|e| panic!("validate failed: {e:?}"));

    assert_eq!(validated.region, "us-east-1");
    assert_eq!(validated.profile, "default");
    assert_eq!(validated.boundary.vpc_ids, vec!["vpc-0example"]);
    assert_eq!(validated.output_path, PathBuf::from("./out.json"));
    assert_eq!(validated.neo4j.uri, "bolt://127.0.0.1:7687");
    assert_eq!(validated.neo4j.user, "neo4j");
}

#[test]
fn validate_config_empty_boundary_returns_empty_boundary_error() {
    let result = config("us-east-1", BoundaryConfig::default()).validate();

    assert!(matches!(result, Err(ConfigError::EmptyBoundary)));
}

#[test]
fn validate_config_boundary_with_only_tags_returns_validated_config() {
    let boundary = BoundaryConfig {
        tags: vec!["env:pci-prod".to_string()],
        ..BoundaryConfig::default()
    };

    let validated = config("us-east-1", boundary)
        .validate()
        .unwrap_or_else(|e| panic!("validate failed: {e:?}"));

    assert_eq!(validated.boundary.tags, vec!["env:pci-prod"]);
}

#[test]
fn validate_config_invalid_region_returns_invalid_region_error() {
    let result = config("US-EAST-1", one_vpc()).validate();

    assert!(matches!(result, Err(ConfigError::InvalidRegion { .. })));
}

#[test]
fn region_needs_a_hyphen_and_no_capital_of_any_script() {
    for region in ["", "useast1", "us-\u{c9}ast-1", "us-\u{416}"] {
        let result = config(region, one_vpc()).validate();

        let Err(ConfigError::InvalidRegion { region: reported }) = result else {
            panic!("expected {region:?} to be refused");
        };
        assert_eq!(reported, region);
    }
    assert!(config("us-\u{e9}st-1", one_vpc()).validate().is_ok());
}

#[test]
fn empty_boundary_is_reported_before_the_region() {
    let result = config("", BoundaryConfig::default()).validate();

    assert!(matches!(result, Err(ConfigError::EmptyBoundary)));
}

#[test]
fn region_is_judged_with_what_is_said_of_its_capitals() {
    let region: Vec<char> = "us-east-1".chars().collect();

    assert!(is_plausible_region(&region, false));
    assert!(!is_plausible_region(&region, true));
    assert!(!is_plausible_region(&region[..2], false));
}

#[test]
fn command_carries_the_path_of_the_configuration() {
    let cli = Cli {
        command: Command::Run {
            config: PathBuf::from("audit.yaml"),
        },
    };

    assert_eq!(
        cli.command,
        Command::Run {
            config: PathBuf::from("audit.yaml"),
        }
    );
    assert_ne!(cli.command, Command::Preflight);
}

#[test]
fn resolve_region_treats_empty_explicit_region_as_absent() {
    // Arrange / Act
    let region = resolve_region(Some(""), None, None, Some("ap-south-1"));

    // Assert
    assert_eq!(region, Some("ap-south-1".to_string()));
}

#[test]
fn resolve_region_prefers_aws_region_over_aws_default_region() {
    // Arrange / Act
    let region = resolve_region(None, Some("us-west-2"), Some("us-east-2"), None);

    // Assert
    assert_eq!(region, Some("us-west-2".to_string()));
}

#[test]
fn resolve_region_with_no_source_returns_none() {
    // Arrange / Act
    let region = resolve_region(None, None, None, None);

    // Assert
    assert_eq!(region, None);
}

#[test]
fn explicit_region_beats_every_other_source() {
    let region = resolve_region(
        Some("eu-west-1"),
        Some("us-west-2"),
        Some("us-east-2"),
        Some("ap-south-1"),
    );

    assert_eq!(region, Some("eu-west-1".to_string()));
}

#[test]
fn build_ec2_client_with_explicit_region_uses_that_region() {
    let result = require_region(resolve_region(Some("eu-west-1"), None, None, None));

    let region = match result {
        Ok(region) => region,
        Err(err) => panic!("expected an explicit region to build a config, got {err:?}"),
    };
    assert_eq!(region, "eu-west-1");
}

#[test]
fn build_ec2_client_without_any_region_returns_region_not_resolved() {
    let result = require_region(resolve_region(None, None, None, None));

    assert!(matches!(result, Err(IngestError::RegionNotResolved)));
}

#[test]
fn identity_without_an_account_is_an_error() {
    assert_eq!(
        require_account_id(Some("123456789012".to_string())).ok(),
        Some("123456789012".to_string())
    );
    assert!(matches!(
        require_account_id(None),
        Err(IngestError::AccountIdResolution { source: ErrorSource::Message(text) })
            if text == "GetCallerIdentity response had no account field"
    ));
}

#[test]
fn calls_are_retried_within_these_limits() {
    assert_eq!(MAX_ATTEMPTS, 8);
    assert_eq!(ATTEMPT_TIMEOUT_SECS, 20);
}

#[test]
fn ingest_config_default_carries_no_credentials() {
    // Arrange
    let config = IngestConfig::default();

    // Act / Assert: exhaustive destructure — a field added to
    // `IngestConfig` breaks this match, forcing whoever adds it to
    // confirm here that it can't hold a secret.
    let IngestConfig { region, neo4j_uri } = config;
    assert_eq!(region, None);
    assert_eq!(neo4j_uri, None);
}
