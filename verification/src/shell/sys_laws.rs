//! How systems are called.

use vstd::prelude::*;
use crate::shell::sys::{
    arch_symbol, family_symbol, os_symbol, Architecture, OperatingSystem, OperatingSystemFamily,
};

verus! {

broadcast use vstd::string::group_string_axioms;

/// A system is called by its own name, and only those without a name have no
/// symbol.
pub proof fn systems_are_called_by_name(
    os: OperatingSystem,
    family: OperatingSystemFamily,
    arch: Architecture,
)
    ensures
        os_symbol(os) == Some("FREEBSD"@) <==> os is FreeBsd,
        os_symbol(os) == Some("LINUX"@) <==> os is Linux,
        os_symbol(os) == Some("MACOS"@) <==> os is Macos,
        os_symbol(os) == Some("WINDOWS"@) <==> os is Windows,
        os_symbol(os) is None <==> os is Other,
        family_symbol(family) == "UNIX"@ <==> family is Unix,
        family_symbol(family) == "WINDOWS"@ <==> family is Windows,
        arch_symbol(arch) == Some("X86_64"@) <==> arch is X86_64,
        arch_symbol(arch) == Some("AARCH64"@) <==> arch is Aarch64,
        arch_symbol(arch) is None <==> arch is Other,
{
    reveal_strlit("FREEBSD");
    reveal_strlit("LINUX");
    reveal_strlit("MACOS");
    reveal_strlit("WINDOWS");
    reveal_strlit("UNIX");
    reveal_strlit("X86_64");
    reveal_strlit("AARCH64");
    assert("FREEBSD"@.len() == 7 && "FREEBSD"@[0] == 'F');
    assert("LINUX"@.len() == 5 && "LINUX"@[0] == 'L');
    assert("MACOS"@.len() == 5 && "MACOS"@[0] == 'M');
    assert("WINDOWS"@.len() == 7 && "WINDOWS"@[0] == 'W');
    assert("UNIX"@.len() == 4);
    assert("X86_64"@.len() == 6);
    assert("AARCH64"@.len() == 7);
}

} // verus!
