use vstd::prelude::*;

use crate::packdata::PackConfig;

verus! {

/// Whether a string is a valid semantic version. What the parser of the
/// semver crate accepts depends on the characters alone, so the predicate
/// is a fixed function of the string.
pub uninterp spec fn semver_ok(s: Seq<char>) -> bool;

/// Relies on semver::Version::parse: it accepts a string or rejects it by
/// its characters alone.
#[verifier::external_body]
fn semver_parse_ok(s: &String) -> (r: bool)
    ensures
        r == semver_ok(s@),
{
    semver::Version::parse(s.as_str()).is_ok()
}

/// A pack configuration that cannot be built from.
#[derive(Clone, Copy, PartialEq, Eq, Debug, Structural)]
pub enum ConfigError {
    /// The version field is not a valid semantic version.
    InvalidVersion,
}

impl ConfigError {
    /// A short description, for callers that report failures.
    pub fn describe(&self) -> &'static str {
        match self {
            ConfigError::InvalidVersion => "invalid version, version must be valid semver",
        }
    }
}

/// Whether the configuration's version field is a valid semantic version.
pub fn check_semver(config: &PackConfig) -> (r: bool)
    ensures
        r == semver_ok(config.version@),
{
    semver_parse_ok(&config.version)
}

/// Demands a configuration fit to build from: its version field must be a
/// valid semantic version.
pub fn assert_valid_config(config: &PackConfig) -> (r: Result<(), ConfigError>)
    ensures
        r is Ok <==> semver_ok(config.version@),
        r is Err ==> r->Err_0 == ConfigError::InvalidVersion,
{
    if !check_semver(config) {
        return Err(ConfigError::InvalidVersion);
    }
    Ok(())
}

} // verus!
