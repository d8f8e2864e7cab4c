//! Decisions of the Windows AppContainer backend: supported policy, filesystem
//! grants, ACL grant bookkeeping, profile names and command-line quoting.

pub mod paths;
pub mod policy;
pub mod process;
pub mod profile;
pub mod token;
pub mod acl;
pub mod backend;
