//! The configurations the AppContainer backend can enforce.

use vstd::prelude::*;

use crate::config::SandboxConfigData;
use crate::error::{Error, Result};
use crate::windows::paths::{grants_from_config, grants_view, spec_grants, HostFacts};

verus! {

/// The refusal, if any, of a configuration the AppContainer backend cannot
/// enforce: a non-strict filesystem, a globally writable filesystem, a network
/// policy other than deny-all, or IPC. The checks run in that order.
pub open spec fn unsupported_reason(config: SandboxConfigData) -> Option<(Seq<char>, Seq<char>, Seq<char>)> {
    if !config.filesystem_strict {
        Some(("windows-appcontainer-filesystem"@, "strict filesystem"@, "non-strict filesystem"@))
    } else if config.writable_file_system {
        Some(
            (
                "windows-appcontainer-filesystem"@,
                "explicit writable roots"@,
                "globally writable filesystem"@,
            ),
        )
    } else if !config.network_deny_all {
        Some(("windows-appcontainer-network"@, "DenyAll network policy"@, "non-DenyAll policy"@))
    } else if config.ipc_port is Some || config.ipc_configured {
        Some(("windows-appcontainer-ipc"@, "IPC disabled"@, "IPC configured"@))
    } else {
        None
    }
}

/// The backend accepts exactly the configurations it can enforce: a strict
/// filesystem that is not globally writable, the deny-all network policy, and
/// no IPC.
pub proof fn lemma_accepted_configs_are_enforceable(config: SandboxConfigData)
    ensures
        unsupported_reason(config) is None <==> (config.filesystem_strict
            && !config.writable_file_system && config.network_deny_all && config.ipc_port is None
            && !config.ipc_configured),
{
}

/// Whether `e` reports the refusal `reason`.
pub open spec fn is_refusal(e: Error, reason: (Seq<char>, Seq<char>, Seq<char>)) -> bool {
    e matches Error::UnsupportedPlatformVersion { platform: p, minimum: m, current: c } && p@
        == reason.0 && m@ == reason.1 && c@ == reason.2
}

fn unsupported(platform: &str, minimum: &str, current: &str) -> (e: Error)
    ensures
        e matches Error::UnsupportedPlatformVersion { platform: p, minimum: m, current: c } && p@
            == platform@ && m@ == minimum@ && c@ == current@,
{
    Error::UnsupportedPlatformVersion {
        platform: String::from_str(platform),
        minimum: String::from_str(minimum),
        current: String::from_str(current),
    }
}

/// Checks that the AppContainer backend can enforce `config` and returns the
/// roots to grant; otherwise reports the first unsupported setting.
pub fn validate_config_supported(config: &SandboxConfigData, facts: &HostFacts) -> (r: Result<
    Vec<crate::windows::paths::RootGrant>,
>)
    ensures
        match (r, unsupported_reason(*config)) {
            (Ok(gs), None) => grants_view(gs@) == spec_grants(*config, *facts),
            (Err(e), Some(reason)) => is_refusal(e, reason),
            _ => false,
        },
{
    if !config.filesystem_strict {
        return Err(
            unsupported("windows-appcontainer-filesystem", "strict filesystem", "non-strict filesystem"),
        );
    }
    if config.writable_file_system {
        return Err(
            unsupported(
                "windows-appcontainer-filesystem",
                "explicit writable roots",
                "globally writable filesystem",
            ),
        );
    }
    if !config.network_deny_all {
        return Err(
            unsupported("windows-appcontainer-network", "DenyAll network policy", "non-DenyAll policy"),
        );
    }
    if config.ipc_port.is_some() || config.ipc_configured {
        return Err(unsupported("windows-appcontainer-ipc", "IPC disabled", "IPC configured"));
    }
    Ok(grants_from_config(config, facts))
}

} // verus!
