//! Host-target support rules for toolchain installation.
//!
//! The host's architecture, operating system and C environment are handed in
//! as plain tagged values; querying them is the caller's business.

use vstd::prelude::*;

verus! {

/// The name of the rustup toolchain the installer manages.
pub fn rustup_toolchain_name() -> (r: &'static str)
    ensures
        r@ == "succinct"@,
{
    "succinct"
}

/// The latest toolchain release tag the build system supports.
pub fn latest_supported_toolchain_version_tag() -> (r: &'static str)
    ensures
        r@ == "v1.82.0"@,
{
    "v1.82.0"
}

/// A host CPU architecture, as far as toolchain support distinguishes them.
#[derive(Clone, Copy, Debug, PartialEq, Eq, Structural)]
pub enum TargetArch {
    /// 64-bit x86.
    X8664,
    /// 64-bit ARM.
    Aarch64,
    /// Anything else.
    Other,
}

/// A host operating system, as far as toolchain support distinguishes them.
#[derive(Clone, Copy, Debug, PartialEq, Eq, Structural)]
pub enum TargetOs {
    /// Linux.
    Linux,
    /// macOS.
    Macos,
    /// Anything else.
    Other,
}

/// A target C environment, as far as toolchain selection distinguishes them.
#[derive(Clone, Copy, Debug, PartialEq, Eq, Structural)]
pub enum TargetEnvironment {
    /// musl libc.
    Musl,
    /// GNU libc.
    Gnu,
    /// Anything else.
    Other,
}

/// Whether a prebuilt toolchain exists for the given host: 64-bit x86 or ARM,
/// on Linux or macOS.
#[must_use]
pub fn is_supported_target(arch: TargetArch, os: TargetOs) -> (r: bool)
    ensures
        r == ((arch == TargetArch::X8664 || arch == TargetArch::Aarch64) && (os == TargetOs::Linux
            || os == TargetOs::Macos)),
{
    let arch_ok = match arch {
        TargetArch::X8664 => true,
        TargetArch::Aarch64 => true,
        TargetArch::Other => false,
    };
    let os_ok = match os {
        TargetOs::Linux => true,
        TargetOs::Macos => true,
        TargetOs::Other => false,
    };
    arch_ok && os_ok
}

/// The environment the toolchain is selected for: never musl — a musl host is
/// served the GNU toolchain — and any other environment as it is.
#[must_use]
pub fn normalize_target_environment(environment: TargetEnvironment) -> (r: TargetEnvironment)
    ensures
        environment == TargetEnvironment::Musl ==> r == TargetEnvironment::Gnu,
        environment != TargetEnvironment::Musl ==> r == environment,
{
    match environment {
        TargetEnvironment::Musl => TargetEnvironment::Gnu,
        other => other,
    }
}

} // verus!
