//! What the audit reasons about: rules and findings.
pub mod finding;
pub mod order;
pub mod rule;

pub use finding::{Reachability, ReachabilityFinding, Severity};
pub use rule::{Action, Direction, NaclRule, PortRange, RuleError, RuleTarget, SgRule};
