//! Installing and removing the background service, per platform.
use vstd::prelude::*;
use crate::xtask::package::Platform;

verus! {

/// On macOS the LaunchAgent is installed (by the caller); elsewhere the
/// task is refused.
pub fn install_service(platform: Platform) -> (r: Result<(), String>)
    ensures
        match platform {
            Platform::Macos => r is Ok,
            Platform::Windows => r matches Err(m) && m@
                == "Windows service installation is not implemented yet"@,
            Platform::Linux => r matches Err(m) && m@
                == "Linux service installation is not implemented yet"@,
        },
{
    match platform {
        Platform::Macos => Ok(()),
        Platform::Windows => crate::xtask::windows::install_service(),
        Platform::Linux => crate::xtask::linux::install_service(),
    }
}

/// On macOS the LaunchAgent is removed (by the caller); elsewhere the task
/// is refused.
pub fn uninstall_service(platform: Platform) -> (r: Result<(), String>)
    ensures
        match platform {
            Platform::Macos => r is Ok,
            Platform::Windows => r matches Err(m) && m@ == "Windows service removal is not implemented yet"@,
            Platform::Linux => r matches Err(m) && m@ == "Linux service removal is not implemented yet"@,
        },
{
    match platform {
        Platform::Macos => Ok(()),
        Platform::Windows => crate::xtask::windows::uninstall_service(),
        Platform::Linux => crate::xtask::linux::uninstall_service(),
    }
}

} // verus!
