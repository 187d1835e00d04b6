//! What is known of the system that commands run on.

use vstd::prelude::*;
use crate::error::{outcome, Error, ErrorView};

verus! {

broadcast use vstd::string::group_string_axioms;

#[derive(Clone, Copy, Debug, PartialEq, Eq, Structural)]
pub enum OperatingSystem {
    FreeBsd,
    Linux,
    Macos,
    Windows,
    Other,
}

#[derive(Clone, Copy, Debug, PartialEq, Eq, Structural)]
pub enum OperatingSystemFamily {
    Unix,
    Windows,
}

#[derive(Clone, Copy, Debug, PartialEq, Eq, Structural)]
pub enum Architecture {
    X86_64,
    Aarch64,
    Other,
}

/// The system that commands run on.
#[derive(Clone, Copy, Debug)]
pub struct Target {
    pub os: OperatingSystem,
    pub family: OperatingSystemFamily,
    pub arch: Architecture,
    pub is_wine: Option<bool>,
    pub logical_cpus: u32,
}

/// The operating system, by the symbols that programs compare with.
#[derive(Clone, Copy, Debug)]
pub struct OsInfo {
    pub os: &'static str,
    pub family: &'static str,
    pub is_wine: Option<bool>,
}

/// The processor, by the symbol that programs compare with.
#[derive(Clone, Copy, Debug)]
pub struct CpuInfo {
    pub arch: &'static str,
    pub logical_count: u32,
}

/// The symbol of an operating system, for those that have one.
pub open spec fn os_symbol(os: OperatingSystem) -> Option<Seq<char>> {
    match os {
        OperatingSystem::FreeBsd => Some("FREEBSD"@),
        OperatingSystem::Linux => Some("LINUX"@),
        OperatingSystem::Macos => Some("MACOS"@),
        OperatingSystem::Windows => Some("WINDOWS"@),
        OperatingSystem::Other => None,
    }
}

/// The symbol of a family of operating systems.
pub open spec fn family_symbol(family: OperatingSystemFamily) -> Seq<char> {
    match family {
        OperatingSystemFamily::Unix => "UNIX"@,
        OperatingSystemFamily::Windows => "WINDOWS"@,
    }
}

/// The symbol of an architecture, for those that have one.
pub open spec fn arch_symbol(arch: Architecture) -> Option<Seq<char>> {
    match arch {
        Architecture::X86_64 => Some("X86_64"@),
        Architecture::Aarch64 => Some("AARCH64"@),
        Architecture::Other => None,
    }
}

/// The operating system of the target.
pub fn os_info(target: &Target) -> (r: Result<OsInfo, Error>)
    ensures
        match os_symbol(target.os) {
            None => r is Err && r->Err_0@ == ErrorView::NotSupported,
            Some(os) => {
                &&& r is Ok
                &&& r->Ok_0.os@ == os
                &&& r->Ok_0.family@ == family_symbol(target.family)
                &&& r->Ok_0.is_wine == target.is_wine
            },
        },
{
    let os = match target.os {
        OperatingSystem::FreeBsd => "FREEBSD",
        OperatingSystem::Linux => "LINUX",
        OperatingSystem::Macos => "MACOS",
        OperatingSystem::Windows => "WINDOWS",
        OperatingSystem::Other => return Err(Error::NotSupported),
    };
    let family = match target.family {
        OperatingSystemFamily::Unix => "UNIX",
        OperatingSystemFamily::Windows => "WINDOWS",
    };
    Ok(OsInfo { os, family, is_wine: target.is_wine })
}

impl OsInfo {
    /// Whether the system is emulated; a target that cannot tell has no such
    /// field.
    pub fn wine(&self) -> (r: Result<bool, Error>)
        ensures
            outcome(r) == match self.is_wine {
                Some(value) => Ok(value),
                None => Err(ErrorView::Field("is_wine"@)),
            },
    {
        match self.is_wine {
            Some(value) => Ok(value),
            None => Err(Error::Field("is_wine".to_owned())),
        }
    }
}

/// The processor of the target.
pub fn cpu_info(target: &Target) -> (r: Result<CpuInfo, Error>)
    ensures
        match arch_symbol(target.arch) {
            None => r is Err && r->Err_0@ == ErrorView::NotSupported,
            Some(arch) => {
                &&& r is Ok
                &&& r->Ok_0.arch@ == arch
                &&& r->Ok_0.logical_count == target.logical_cpus
            },
        },
{
    let arch = match target.arch {
        Architecture::X86_64 => "X86_64",
        Architecture::Aarch64 => "AARCH64",
        Architecture::Other => return Err(Error::NotSupported),
    };
    Ok(CpuInfo { arch, logical_count: target.logical_cpus })
}

} // verus!
