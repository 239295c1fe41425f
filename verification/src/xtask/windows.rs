//! Windows packaging and service management, not written yet.
use vstd::prelude::*;

verus! {

pub fn package() -> (r: Result<(), String>)
    ensures
        r matches Err(m) && m@ == "Windows packaging is not implemented yet"@,
{
    Err("Windows packaging is not implemented yet".to_string())
}

pub fn install_service() -> (r: Result<(), String>)
    ensures
        r matches Err(m) && m@ == "Windows service installation is not implemented yet"@,
{
    Err("Windows service installation is not implemented yet".to_string())
}

pub fn uninstall_service() -> (r: Result<(), String>)
    ensures
        r matches Err(m) && m@ == "Windows service removal is not implemented yet"@,
{
    Err("Windows service removal is not implemented yet".to_string())
}

} // verus!
