//! The check before a run: what the state of the `neo4j` service means, and
//! whether to wait on.
use vstd::prelude::*;
use vstd::string::*;

use crate::text::{
    chars_of, lines_of, lower_text, quote, same_text, split_chars, text_of, trim_chars,
};

verus! {

/// Seconds between two looks at the service.
pub const POLL_INTERVAL_SECS: u64 = 2;

/// Seconds after which a service that is still not healthy is given up. Above
/// the 120 seconds that the service's own health check leaves it to start.
pub const POLL_TIMEOUT_SECS: u64 = 180;

/// Has the service states listed one per line, as `service|health|state`.
pub const PS_FORMAT: &'static str = "{{.Service}}|{{.Health}}|{{.State}}";

/// Health of the `neo4j` service.
///
/// `Starting` and `Unhealthy` both mean that it is not ready yet; `Absent`
/// means that it was never brought up.
#[derive(Debug, Clone, Copy, PartialEq, Eq, Structural)]
pub enum ServiceHealth {
    Healthy,
    Starting,
    Unhealthy,
    Absent,
}

/// The whole seconds of a duration, as `Duration::as_secs` gives them.
pub uninterp spec fn whole_seconds(duration: std::time::Duration) -> u64;

/// `Duration::as_secs` gives the number of whole seconds that a duration holds,
/// which depends on the duration alone.
pub assume_specification[ std::time::Duration::as_secs ](duration: &std::time::Duration) -> (seconds:
    u64)
    ensures
        seconds == whole_seconds(*duration),
;

impl ServiceHealth {
    /// The name of this state.
    pub open spec fn name_text(self) -> Seq<char> {
        match self {
            ServiceHealth::Healthy => "Healthy"@,
            ServiceHealth::Starting => "Starting"@,
            ServiceHealth::Unhealthy => "Unhealthy"@,
            ServiceHealth::Absent => "Absent"@,
        }
    }

    /// The name of this state.
    pub fn name(self) -> (name: &'static str)
        ensures
            name@ == self.name_text(),
    {
        match self {
            ServiceHealth::Healthy => "Healthy",
            ServiceHealth::Starting => "Starting",
            ServiceHealth::Unhealthy => "Unhealthy",
            ServiceHealth::Absent => "Absent",
        }
    }
}

/// What formatting `duration` with `{:?}` gives: its length with a unit.
pub uninterp spec fn debug_duration(duration: std::time::Duration) -> Seq<char>;

/// `format!` with `{:?}` on a `Duration`. The result is named, not described:
/// the unit and the digits are the formatter's affair.
#[verifier::external_body]
fn show_duration(duration: &std::time::Duration) -> (shown: String)
    ensures
        shown@ == debug_duration(*duration),
{
    format!("{:?}", duration)
}

/// Errors of the preflight check.
#[derive(Debug, PartialEq, Eq)]
#[non_exhaustive]
pub enum PreflightError {
    /// Docker does not answer.
    DockerUnavailable { reason: String },
    /// The service states could not be listed.
    ComposePsFailed { stderr: String },
    /// A line of the listing makes no sense.
    UnexpectedOutput { line: String },
    /// The service was never brought up.
    ServiceAbsent,
    /// The service was not healthy after such a wait.
    NotHealthy { waited: std::time::Duration, last_state: ServiceHealth },
}

impl PreflightError {
    /// What `message` says of this error.
    pub open spec fn text(self) -> Seq<char> {
        match self {
            PreflightError::DockerUnavailable { reason } => {
                "Docker is not available ("@
                    + reason@
                    + "). Start Docker Desktop (or the Docker daemon) and retry."@
            },
            PreflightError::ComposePsFailed { stderr } => {
                "`docker compose ps` failed: "@
                    + stderr@
                    + ". If this mentions NEO4J_PASSWORD, set it (see .env.example) and retry."@
            },
            PreflightError::UnexpectedOutput { line } => {
                "unrecognized `docker compose ps` output line: "@
                    + crate::text::debug_quoted(line@)
            },
            PreflightError::ServiceAbsent => {
                "neo4j service is not up; run `docker compose up -d` in crates/audit-local/ and retry"@
            },
            PreflightError::NotHealthy { waited, last_state } => {
                "neo4j did not become healthy within "@
                    + debug_duration(waited)
                    + " (last state: "@
                    + last_state.name_text()
                    + ")"@
            },
        }
    }

    /// The error as a sentence.
    pub fn message(&self) -> (message: String)
        ensures
            message@ == self.text(),
    {
        match self {
            PreflightError::DockerUnavailable { reason } => {
                let mut message = String::from_str("Docker is not available (");
                message.append(reason.as_str());
                message.append("). Start Docker Desktop (or the Docker daemon) and retry.");
                message
            },
            PreflightError::ComposePsFailed { stderr } => {
                let mut message = String::from_str("`docker compose ps` failed: ");
                message.append(stderr.as_str());
                message.append(". If this mentions NEO4J_PASSWORD, set it (see .env.example) and retry.");
                message
            },
            PreflightError::UnexpectedOutput { line } => {
                let mut message = String::from_str("unrecognized `docker compose ps` output line: ");
                message.append(quote(line.as_str()).as_str());
                message
            },
            PreflightError::ServiceAbsent => String::from_str(
                "neo4j service is not up; run `docker compose up -d` in crates/audit-local/ and retry",
            ),
            PreflightError::NotHealthy { waited, last_state } => {
                let mut message = String::from_str("neo4j did not become healthy within ");
                message.append(show_duration(waited).as_str());
                message.append(" (last state: ");
                message.append(last_state.name());
                message.append(")");
                message
            },
        }
    }
}

/// What a line of the listing, already trimmed, says of the service: nothing,
/// its health, or that the line makes no sense.
pub open spec fn line_health(line: Seq<char>) -> Option<Result<ServiceHealth, Seq<char>>> {
    let fields = crate::text::split(line, '|');
    if line.len() == 0 {
        None
    } else if fields.len() < 2 {
        Some(Err(line))
    } else if fields[0] != "neo4j"@ {
        None
    } else {
        let health = crate::text::ascii_lower(fields[1]);
        Some(
            if health == "healthy"@ {
                Ok(ServiceHealth::Healthy)
            } else if health == "starting"@ {
                Ok(ServiceHealth::Starting)
            } else if health == "unhealthy"@ {
                Ok(ServiceHealth::Unhealthy)
            } else {
                Err(line)
            },
        )
    }
}

/// What the lines of the listing say of the service: what the first line says
/// that says anything, and that it is absent where none does.
pub open spec fn listed_health(lines: Seq<Seq<char>>) -> Result<ServiceHealth, Seq<char>>
    decreases lines.len(),
{
    if lines.len() == 0 {
        Ok(ServiceHealth::Absent)
    } else {
        match line_health(crate::text::trim(lines[0])) {
            Some(said) => said,
            None => listed_health(lines.skip(1)),
        }
    }
}

/// The health of the service, or the line that makes no sense.
pub open spec fn said_health(said: Result<ServiceHealth, PreflightError>) -> Result<
    ServiceHealth,
    Seq<char>,
> {
    match said {
        Ok(health) => Ok(health),
        Err(error) => Err(error->line@),
    }
}

fn health_of_line(line: &[char]) -> (said: Option<Result<ServiceHealth, PreflightError>>)
    ensures
        said is Some == line_health(line@) is Some,
        said matches Some(Err(error)) ==> error is UnexpectedOutput,
        said is Some ==> said_health(said->0) == line_health(line@)->0,
{
    if line.len() == 0 {
        return None;
    }
    let fields = split_chars(line, '|');
    let whole = text_of(line, 0, line.len());
    assert(whole@ =~= line@);
    if fields.len() < 2 {
        return Some(Err(PreflightError::UnexpectedOutput { line: whole }));
    }
    proof {
        let model = crate::text::split(line@, '|');
        assert(model[0] == fields@[0].deep_view());
        assert(model[1] == fields@[1].deep_view());
        assert(fields@[0].deep_view() =~= fields@[0]@);
        assert(fields@[1].deep_view() =~= fields@[1]@);
    }
    let service = text_of(&fields[0], 0, fields[0].len());
    assert(service@ =~= fields@[0]@);
    if !same_text(service.as_str(), "neo4j") {
        return None;
    }
    let health = lower_text(&fields[1]);
    let said = if same_text(health.as_str(), "healthy") {
        Ok(ServiceHealth::Healthy)
    } else if same_text(health.as_str(), "starting") {
        Ok(ServiceHealth::Starting)
    } else if same_text(health.as_str(), "unhealthy") {
        Ok(ServiceHealth::Unhealthy)
    } else {
        Err(PreflightError::UnexpectedOutput { line: whole })
    };
    Some(said)
}

/// Reads the health of the `neo4j` service out of the listing that `PS_FORMAT`
/// gives.
pub fn health_from_compose_ps(stdout: &str) -> (health: Result<ServiceHealth, PreflightError>)
    ensures
        health matches Err(error) ==> error is UnexpectedOutput,
        said_health(health) == listed_health(crate::text::lines(stdout@)),
{
    let chars = chars_of(stdout);
    let lines = lines_of(&chars);
    let ghost model = lines.deep_view();
    let mut i: usize = 0;
    assert(model.skip(0) =~= model);
    while i < lines.len()
        invariant
            0 <= i <= lines@.len(),
            model == lines.deep_view(),
            model == crate::text::lines(stdout@),
            listed_health(model) == listed_health(model.skip(i as int)),
        decreases lines@.len() - i,
    {
        proof {
            assert(model.skip(i as int)[0] == lines@[i as int].deep_view());
            assert(lines@[i as int].deep_view() =~= lines@[i as int]@);
            assert(model.skip(i as int).skip(1) =~= model.skip(i + 1));
        }
        match health_of_line(trim_chars(&lines[i])) {
            Some(said) => {
                return said;
            },
            None => {},
        }
        i = i + 1;
    }
    Ok(ServiceHealth::Absent)
}

/// What to do after a look at the service.
#[derive(Debug, PartialEq, Eq)]
pub enum PollStep {
    /// The service is healthy.
    Ready,
    /// Look again after so many seconds.
    WaitSecs(u64),
    /// Give up.
    GiveUp(PreflightError),
}

/// What to do where the service is in this state after a wait of so many whole
/// seconds.
pub open spec fn step_after(
    health: ServiceHealth,
    waited: std::time::Duration,
    waited_secs: u64,
) -> PollStep {
    match health {
        ServiceHealth::Healthy => PollStep::Ready,
        ServiceHealth::Absent => PollStep::GiveUp(PreflightError::ServiceAbsent),
        last_state => if waited_secs >= POLL_TIMEOUT_SECS {
            PollStep::GiveUp(PreflightError::NotHealthy { waited, last_state })
        } else {
            PollStep::WaitSecs(POLL_INTERVAL_SECS)
        },
    }
}

/// Decides what to do where the service is in this state so long after the
/// first look.
pub fn poll_step(health: ServiceHealth, waited: std::time::Duration) -> (step: PollStep)
    ensures
        step == step_after(health, waited, whole_seconds(waited)),
{
    poll_step_at(health, waited, waited.as_secs())
}

/// Decides what to do where the service is in this state after a wait of so
/// many whole seconds.
pub fn poll_step_at(
    health: ServiceHealth,
    waited: std::time::Duration,
    waited_secs: u64,
) -> (step: PollStep)
    ensures
        step == step_after(health, waited, waited_secs),
{
    match health {
        ServiceHealth::Healthy => PollStep::Ready,
        ServiceHealth::Absent => PollStep::GiveUp(PreflightError::ServiceAbsent),
        ServiceHealth::Starting | ServiceHealth::Unhealthy => {
            if waited_secs >= POLL_TIMEOUT_SECS {
                PollStep::GiveUp(PreflightError::NotHealthy { waited, last_state: health })
            } else {
                PollStep::WaitSecs(POLL_INTERVAL_SECS)
            }
        },
    }
}

/// Lines of other services, and empty ones, never change what is read.
pub proof fn law_other_lines_are_ignored(
    before: Seq<Seq<char>>,
    line: Seq<char>,
    after: Seq<Seq<char>>,
)
    requires
        line_health(crate::text::trim(line)) is None,
    ensures
        listed_health(before.push(line) + after) == listed_health(before + after),
    decreases before.len(),
{
    let with = before.push(line) + after;
    let plain = before + after;
    if before.len() == 0 {
        assert(with[0] == line);
        assert(with.skip(1) =~= after);
        assert(plain =~= after);
    } else {
        law_other_lines_are_ignored(before.skip(1), line, after);
        assert(with[0] == before[0]);
        assert(plain[0] == before[0]);
        assert(with.skip(1) =~= before.skip(1).push(line) + after);
        assert(plain.skip(1) =~= before.skip(1) + after);
    }
}

} // verus!
