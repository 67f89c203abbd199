//! The audit configuration and its validation.
//!
//! A `Config` is what an operator wrote. Only a `ValidatedConfig` is run, and
//! `Config::validate` is what makes one.
use vstd::prelude::*;
use vstd::string::*;

use crate::text::{chars_of, quote};

verus! {

/// A path in the file system, carried from the configuration to whoever opens
/// it. Nothing is claimed of it.
#[verifier::external_type_specification]
#[verifier::external_body]
pub struct ExPathBuf(std::path::PathBuf);

/// A failure to read a file, `std::io::Error`. It is carried along and nothing
/// is read of it.
#[verifier::external_type_specification]
#[verifier::external_body]
pub struct ExIoError(std::io::Error);

/// A failure to parse a file, `serde_norway::Error`. It is carried along and
/// nothing is read of it.
#[verifier::external_type_specification]
#[verifier::external_body]
pub struct ExYamlError(serde_norway::Error);

/// An audit configuration that may not make sense yet.
#[derive(Debug)]
pub struct Config {
    pub region: String,
    pub profile: String,
    pub boundary: BoundaryConfig,
    pub output_path: std::path::PathBuf,
    pub neo4j: Neo4jConfig,
}

/// What marks off the regulated boundary that a run evaluates reachability
/// against.
#[derive(Debug)]
pub struct BoundaryConfig {
    pub vpc_ids: Vec<String>,
    pub cidrs: Vec<String>,
    pub tags: Vec<String>,
}

/// Where the graph database is. The password is no part of a configuration
/// file.
#[derive(Debug)]
pub struct Neo4jConfig {
    pub uri: String,
    pub user: String,
}

/// A configuration that passed `Config::validate`.
#[derive(Debug)]
pub struct ValidatedConfig {
    pub region: String,
    pub profile: String,
    pub boundary: BoundaryConfig,
    pub output_path: std::path::PathBuf,
    pub neo4j: Neo4jConfig,
}

/// Errors of reading or validating a configuration.
#[derive(Debug)]
pub enum ConfigError {
    /// The file could not be read.
    UnreadableFile { path: std::path::PathBuf, source: std::io::Error },
    /// The file holds no configuration.
    Malformed { source: serde_norway::Error },
    /// No selector marks off a boundary.
    EmptyBoundary,
    /// The region cannot be one.
    InvalidRegion { region: String },
}

impl ConfigError {
    /// What `message` says of this error.
    pub open spec fn text(self) -> Seq<char> {
        match self {
            ConfigError::UnreadableFile { .. } => {
                "failed to read config file"@
            },
            ConfigError::Malformed { .. } => {
                "failed to parse config"@
            },
            ConfigError::EmptyBoundary => {
                "boundary has no selectors: at least one of vpc_ids, cidrs, or tags must be non-empty"@
            },
            ConfigError::InvalidRegion { region } => {
                "invalid region "@
                    + crate::text::debug_quoted(region@)
                    + ": expected a lowercase region string containing '-'"@
            },
        }
    }

    /// The error as a sentence, up to the file and the failure that it holds.
    pub fn message(&self) -> (message: String)
        ensures
            message@ == self.text(),
    {
        match self {
            ConfigError::UnreadableFile { .. } => String::from_str(
                "failed to read config file",
            ),
            ConfigError::Malformed { .. } => String::from_str(
                "failed to parse config",
            ),
            ConfigError::EmptyBoundary => String::from_str(
                "boundary has no selectors: at least one of vpc_ids, cidrs, or tags must be non-empty",
            ),
            ConfigError::InvalidRegion { region } => {
                let mut message = String::from_str("invalid region ");
                message.append(quote(region.as_str()).as_str());
                message.append(": expected a lowercase region string containing '-'");
                message
            },
        }
    }
}

impl BoundaryConfig {
    /// Whether no selector of any kind is there.
    pub open spec fn no_selectors(&self) -> bool {
        self.vpc_ids@.len() == 0 && self.cidrs@.len() == 0 && self.tags@.len() == 0
    }

    /// Whether no selector of any kind is there.
    pub fn is_empty(&self) -> (empty: bool)
        ensures
            empty == self.no_selectors(),
    {
        self.vpc_ids.len() == 0 && self.cidrs.len() == 0 && self.tags.len() == 0
    }
}

impl Default for BoundaryConfig {
    fn default() -> (boundary: Self)
        ensures
            boundary.no_selectors(),
    {
        BoundaryConfig { vpc_ids: Vec::new(), cidrs: Vec::new(), tags: Vec::new() }
    }
}

/// Whether `c` is an upper-case letter in the sense of Unicode.
pub uninterp spec fn uppercase(c: char) -> bool;

/// `char::is_uppercase`: whether the character has the Unicode property
/// `Uppercase`. Of the ASCII characters those are the letters from `A` to `Z`.
#[verifier::external_body]
fn is_uppercase(c: char) -> (upper: bool)
    ensures
        upper == uppercase(c),
        c as u32 <= 127 ==> upper == (65 <= c as u32 <= 90),
{
    c.is_uppercase()
}

/// Whether `text` holds an upper-case letter.
pub open spec fn holds_uppercase(text: Seq<char>) -> bool {
    exists|i: int| 0 <= i < text.len() && uppercase(#[trigger] text[i])
}

/// Whether `region` has the looks of a region: it is not empty, holds a hyphen,
/// and holds no upper-case letter, which `upper` says.
pub open spec fn plausible_region(region: Seq<char>, upper: bool) -> bool {
    region.len() > 0 && !upper && region.contains('-')
}

fn has_uppercase(chars: &[char]) -> (upper: bool)
    ensures
        upper == holds_uppercase(chars@),
{
    let mut i: usize = 0;
    while i < chars.len()
        invariant
            0 <= i <= chars@.len(),
            forall|j: int| 0 <= j < i ==> !uppercase(#[trigger] chars@[j]),
        decreases chars@.len() - i,
    {
        if is_uppercase(chars[i]) {
            assert(uppercase(chars@[i as int]));
            return true;
        }
        i = i + 1;
    }
    false
}

/// Whether `chars` have the looks of a region, where `upper` says whether an
/// upper-case letter is among them.
pub fn is_plausible_region(chars: &[char], upper: bool) -> (plausible: bool)
    ensures
        plausible == plausible_region(chars@, upper),
{
    let mut i: usize = 0;
    while i < chars.len()
        invariant
            0 <= i <= chars@.len(),
            forall|j: int| 0 <= j < i ==> #[trigger] chars@[j] != '-',
        decreases chars@.len() - i,
    {
        if chars[i] == '-' {
            assert(chars@[i as int] == '-');
            return !upper;
        }
        i = i + 1;
    }
    false
}

/// Whether a configuration can be run.
pub open spec fn is_valid(config: Config) -> bool {
    !config.boundary.no_selectors() && plausible_region(
        config.region@,
        holds_uppercase(config.region@),
    )
}

impl Config {
    /// Takes this configuration as one that can be run. A boundary without a
    /// selector is reported before a region that cannot be one.
    pub fn validate(self) -> (validated: Result<ValidatedConfig, ConfigError>)
        ensures
            validated is Ok <==> is_valid(self),
            validated matches Ok(config) ==> config.region == self.region && config.profile
                == self.profile && config.boundary == self.boundary && config.output_path
                == self.output_path && config.neo4j == self.neo4j,
            validated matches Err(error) ==> error == (if self.boundary.no_selectors() {
                ConfigError::EmptyBoundary
            } else {
                ConfigError::InvalidRegion { region: self.region }
            }),
    {
        if self.boundary.is_empty() {
            return Err(ConfigError::EmptyBoundary);
        }
        let chars = chars_of(self.region.as_str());
        let upper = has_uppercase(&chars);
        if !is_plausible_region(&chars, upper) {
            return Err(ConfigError::InvalidRegion { region: self.region });
        }
        Ok(
            ValidatedConfig {
                region: self.region,
                profile: self.profile,
                boundary: self.boundary,
                output_path: self.output_path,
                neo4j: self.neo4j,
            },
        )
    }
}

} // verus!
