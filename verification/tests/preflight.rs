//! Reading the state of the database service.
use std::time::Duration;

use aws_net_hound::audit::preflight::{
    health_from_compose_ps, poll_step, poll_step_at, PollStep, PreflightError, ServiceHealth,
};

#[test]
fn health_from_compose_ps_healthy_service_returns_healthy() {
    let stdout = "neo4j|healthy|running\n";

    let result = health_from_compose_ps(stdout);

    assert_eq!(
        result.unwrap_or_else(|e| panic!("{e:?}")),
        ServiceHealth::Healthy
    );
}

#[test]
fn health_from_compose_ps_starting_service_returns_starting() {
    let stdout = "neo4j|starting|running\n";

    let result = health_from_compose_ps(stdout);

    assert_eq!(
        result.unwrap_or_else(|e| panic!("{e:?}")),
        ServiceHealth::Starting
    );
}

#[test]
fn health_from_compose_ps_unhealthy_service_returns_unhealthy() {
    let stdout = "neo4j|unhealthy|running\n";

    let result = health_from_compose_ps(stdout);

    assert_eq!(
        result.unwrap_or_else(|e| panic!("{e:?}")),
        ServiceHealth::Unhealthy
    );
}

#[test]
fn health_from_compose_ps_empty_output_returns_absent() {
    let stdout = "";

    let result = health_from_compose_ps(stdout);

    assert_eq!(
        result.unwrap_or_else(|e| panic!("{e:?}")),
        ServiceHealth::Absent
    );
}

#[test]
fn health_from_compose_ps_malformed_line_returns_unexpected_output_error() {
    let stdout = "neo4j|???|running\n";

    let result = health_from_compose_ps(stdout);

    assert!(matches!(
        result,
        Err(PreflightError::UnexpectedOutput { .. })
    ));
}

#[test]
fn other_services_and_empty_lines_are_passed_over() {
    let stdout = "grafana|???|running\n\n  neo4j|Healthy|running  \r\nneo4j|starting|running\n";

    let result = health_from_compose_ps(stdout);

    assert_eq!(result, Ok(ServiceHealth::Healthy));
}

#[test]
fn line_without_fields_is_reported_as_it_stands() {
    let result = health_from_compose_ps("grafana|healthy|running\n\tno fields \n");

    assert_eq!(
        result,
        Err(PreflightError::UnexpectedOutput {
            line: "no fields".to_string(),
        })
    );
}

#[test]
fn service_that_is_not_ready_is_waited_for() {
    assert_eq!(
        poll_step(ServiceHealth::Starting, Duration::from_millis(179_999)),
        PollStep::WaitSecs(2)
    );
    assert_eq!(
        poll_step(ServiceHealth::Unhealthy, Duration::ZERO),
        PollStep::WaitSecs(2)
    );
    assert_eq!(
        poll_step(ServiceHealth::Healthy, Duration::from_secs(500)),
        PollStep::Ready
    );
}

#[test]
fn service_that_stays_unready_is_given_up() {
    assert_eq!(
        poll_step(ServiceHealth::Unhealthy, Duration::from_millis(180_250)),
        PollStep::GiveUp(PreflightError::NotHealthy {
            waited: Duration::from_millis(180_250),
            last_state: ServiceHealth::Unhealthy,
        })
    );
}

#[test]
fn wait_is_judged_by_its_whole_seconds() {
    let waited = Duration::from_secs(1);

    assert_eq!(
        poll_step_at(ServiceHealth::Starting, waited, 179),
        PollStep::WaitSecs(2)
    );
    assert_eq!(
        poll_step_at(ServiceHealth::Starting, waited, 180),
        PollStep::GiveUp(PreflightError::NotHealthy {
            waited,
            last_state: ServiceHealth::Starting,
        })
    );
}

#[test]
fn preflight_missing_service_returns_absent_error() {
    assert_eq!(
        poll_step(ServiceHealth::Absent, Duration::ZERO),
        PollStep::GiveUp(PreflightError::ServiceAbsent)
    );
}
