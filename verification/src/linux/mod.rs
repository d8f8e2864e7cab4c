//! Decisions of the Linux backend: supported kernels, the Landlock rule set and
//! the Seccomp filter a sandboxed process gets.

pub mod kernel;
pub mod landlock;
pub mod seccomp;
pub mod launch;
