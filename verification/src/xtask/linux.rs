//! Linux packaging and service management, not written yet.
use vstd::prelude::*;

verus! {

pub fn package() -> (r: Result<(), String>)
    ensures
        r matches Err(m) && m@ == "Linux packaging is not implemented yet"@,
{
    Err("Linux packaging is not implemented yet".to_string())
}

pub fn install_service() -> (r: Result<(), String>)
    ensures
        r matches Err(m) && m@ == "Linux service installation is not implemented yet"@,
{
    Err("Linux service installation is not implemented yet".to_string())
}

pub fn uninstall_service() -> (r: Result<(), String>)
    ensures
        r matches Err(m) && m@ == "Linux service removal is not implemented yet"@,
{
    Err("Linux service removal is not implemented yet".to_string())
}

} // verus!
