//! The AppContainer backend's checks before a launch: whether the
//! configuration can be enforced, which roots are granted, which profile the
//! child runs in and in which directory.

use vstd::prelude::*;

use crate::config::SandboxConfigData;
use crate::error::{Error, Result};
use crate::windows::paths::{grants_view, spec_grants, HostFacts, RootGrant};
use crate::windows::policy::{is_refusal, unsupported_reason, validate_config_supported};
use crate::windows::profile::{profile_name, spec_profile_name, spec_slug, ProfileName};

verus! {

/// The application id the backend's AppContainer profiles are named after.
pub const HEEL_APP_ID: &'static str = "heel";

/// The Windows AppContainer backend.
#[derive(Debug)]
pub struct WindowsBackend;

impl WindowsBackend {
    /// The backend; constructing it needs nothing of the host.
    pub fn new() -> (r: Result<WindowsBackend>)
        ensures
            r is Ok,
    {
        Ok(WindowsBackend)
    }
}

/// The AppContainer profile for a configuration, named after the application
/// id and seeded with the working directory.
pub fn appcontainer_profile_name(config: &SandboxConfigData) -> (r: Result<ProfileName>)
    ensures
        match r {
            Ok(n) => exists|seed: &str|
                seed@ == config.working_dir@ && n.view() == spec_profile_name(HEEL_APP_ID, seed),
            Err(_) => spec_slug(HEEL_APP_ID@).len() == 0,
        },
{
    let seed = config.working_dir.as_str();
    profile_name(HEEL_APP_ID, seed)
}

/// What a launch needs once the configuration has been accepted.
#[derive(Debug)]
pub struct LaunchPlan {
    /// The roots granted to the AppContainer.
    pub grants: Vec<RootGrant>,
    /// The profile the child runs in.
    pub profile: ProfileName,
    /// The child's working directory.
    pub current_dir: String,
}

/// Prepares a launch: the configuration must be one the backend can enforce
/// (its first unsupported setting is reported otherwise), then the profile is
/// named; the child runs in `current_dir`, or in the working directory.
pub fn plan_launch(config: &SandboxConfigData, facts: &HostFacts, current_dir: Option<&str>) -> (r:
    Result<LaunchPlan>)
    ensures
        unsupported_reason(*config) matches Some(reason) ==> (r matches Err(e) && is_refusal(e, reason)),
        unsupported_reason(*config) is None ==> match r {
            Ok(p) => grants_view(p.grants@) == spec_grants(*config, *facts) && (exists|seed: &str|
                seed@ == config.working_dir@ && p.profile.view() == spec_profile_name(
                    HEEL_APP_ID,
                    seed,
                )) && p.current_dir@ == (match current_dir {
                Some(d) => d@,
                None => config.working_dir@,
            }),
            Err(_) => spec_slug(HEEL_APP_ID@).len() == 0,
        },
{
    let grants = validate_config_supported(config, facts)?;
    let profile = appcontainer_profile_name(config)?;
    let dir = match current_dir {
        Some(d) => String::from_str(d),
        None => config.working_dir.clone(),
    };
    Ok(LaunchPlan { grants, profile, current_dir: dir })
}

impl WindowsBackend {
    /// Prepares a launch (see `plan_launch`). On a host without AppContainer
    /// support an accepted configuration still fails: the backend fails closed
    /// rather than start the process unconfined.
    pub fn spawn(
        &self,
        config: &SandboxConfigData,
        facts: &HostFacts,
        current_dir: Option<&str>,
        appcontainer_available: bool,
    ) -> (r: Result<LaunchPlan>)
        ensures
            unsupported_reason(*config) matches Some(reason) ==> (r matches Err(e) && is_refusal(
                e,
                reason,
            )),
            unsupported_reason(*config) is None && spec_slug(HEEL_APP_ID@).len() > 0
                && !appcontainer_available ==> (r matches Err(e) && e is UnsupportedPlatform),
            unsupported_reason(*config) is None && appcontainer_available ==> match r {
                Ok(p) => grants_view(p.grants@) == spec_grants(*config, *facts) && (exists|
                    seed: &str,
                |
                    seed@ == config.working_dir@ && p.profile.view() == spec_profile_name(
                        HEEL_APP_ID,
                        seed,
                    )) && p.current_dir@ == (match current_dir {
                    Some(d) => d@,
                    None => config.working_dir@,
                }),
                Err(_) => spec_slug(HEEL_APP_ID@).len() == 0,
            },
    {
        let plan = plan_launch(config, facts, current_dir)?;
        if !appcontainer_available {
            return Err(Error::UnsupportedPlatform);
        }
        Ok(plan)
    }
}

} // verus!
