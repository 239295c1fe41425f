//! Packaging targets and the checks made before packaging.
use vstd::prelude::*;
use crate::text::{chars_eq, chars_of, push_all, starts_with, starts_with_chars, string_of};

verus! {

/// A platform the project can be packaged for.
#[derive(Clone, Copy, Debug, PartialEq, Eq, Structural)]
pub enum Platform {
    Macos,
    Windows,
    Linux,
}

/// The operating-system name of a platform, as `std::env::consts::OS`
/// writes it.
pub open spec fn platform_os(p: Platform) -> Seq<char> {
    match p {
        Platform::Macos => "macos"@,
        Platform::Windows => "windows"@,
        Platform::Linux => "linux"@,
    }
}

pub fn platform_name(platform: Platform) -> (r: &'static str)
    ensures
        r@ == platform_os(platform),
{
    match platform {
        Platform::Macos => "macos",
        Platform::Windows => "windows",
        Platform::Linux => "linux",
    }
}

/// Packaging runs only on a host of the target platform.
pub fn ensure_host_matches(platform: Platform, host: &str) -> (r: Result<(), String>)
    ensures
        match r {
            Ok(()) => host@ == platform_os(platform),
            Err(m) => host@ != platform_os(platform) && m@ == "packaging for "@ + platform_os(
                platform,
            ) + " must be run on a "@ + platform_os(platform) + " host; current host is "@
                + host@,
        },
{
    let target = chars_of(platform_name(platform));
    let h = chars_of(host);
    if chars_eq(h.as_slice(), target.as_slice()) {
        return Ok(());
    }
    let mut m = chars_of("packaging for ");
    push_all(&mut m, target.as_slice());
    push_all(&mut m, chars_of(" must be run on a ").as_slice());
    push_all(&mut m, target.as_slice());
    push_all(&mut m, chars_of(" host; current host is ").as_slice());
    push_all(&mut m, h.as_slice());
    Err(string_of(m.as_slice()))
}

/// AppleDouble files (`._name`) are not copied into packages.
pub fn should_skip_packaged_file(name: &str) -> (r: bool)
    ensures
        r == starts_with(name@, "._"@),
{
    starts_with_chars(chars_of(name).as_slice(), chars_of("._").as_slice())
}


/// How far macOS packaging goes.
#[derive(Clone, Copy, Debug, PartialEq, Eq, Structural)]
pub enum MacosPackageStage {
    BuildBinary,
    StageApp,
    PackageDmg,
    All,
}

/// One step of packaging, performed in order by the caller.
#[derive(Debug, Clone, PartialEq, Eq)]
pub enum PackageStep {
    /// `cargo build --release --bin jabberwok`.
    BuildReleaseBinary,
    /// Assemble the `.app` bundle.
    StageAppBundle,
    /// Build the disk image from the staged bundle.
    PackageDmg,
    /// Stop with this error.
    Fail(String),
}

pub enum StepView {
    BuildReleaseBinary,
    StageAppBundle,
    PackageDmg,
    Fail(Seq<char>),
}

pub open spec fn step_view(s: PackageStep) -> StepView {
    match s {
        PackageStep::BuildReleaseBinary => StepView::BuildReleaseBinary,
        PackageStep::StageAppBundle => StepView::StageAppBundle,
        PackageStep::PackageDmg => StepView::PackageDmg,
        PackageStep::Fail(m) => StepView::Fail(m@),
    }
}

pub open spec fn steps_view(s: Seq<PackageStep>) -> Seq<StepView> {
    s.map_values(|x: PackageStep| step_view(x))
}

fn steps2(a: PackageStep, b: PackageStep) -> (r: Vec<PackageStep>)
    ensures
        steps_view(r@) == seq![step_view(a), step_view(b)],
{
    let ghost va = step_view(a);
    let ghost vb = step_view(b);
    let mut r: Vec<PackageStep> = Vec::new();
    r.push(a);
    r.push(b);
    assert(steps_view(r@) =~= seq![va, vb]);
    r
}

fn steps3(a: PackageStep, b: PackageStep, c: PackageStep) -> (r: Vec<PackageStep>)
    ensures
        steps_view(r@) == seq![step_view(a), step_view(b), step_view(c)],
{
    let ghost va = step_view(a);
    let ghost vb = step_view(b);
    let ghost vc = step_view(c);
    let mut r: Vec<PackageStep> = Vec::new();
    r.push(a);
    r.push(b);
    r.push(c);
    assert(steps_view(r@) =~= seq![va, vb, vc]);
    r
}

/// The packaging steps for a platform, on a host of that platform: build
/// the binary, then package (macOS) or stop (the others, not written yet).
pub fn package(platform: Platform, host: &str) -> (r: Result<Vec<PackageStep>, String>)
    ensures
        match r {
            Err(m) => host@ != platform_os(platform) && m@ == "packaging for "@ + platform_os(
                platform,
            ) + " must be run on a "@ + platform_os(platform) + " host; current host is "@
                + host@,
            Ok(steps) => host@ == platform_os(platform) && steps_view(steps@) == match platform {
                Platform::Macos => seq![
                    StepView::BuildReleaseBinary,
                    StepView::StageAppBundle,
                    StepView::PackageDmg,
                ],
                Platform::Windows => seq![
                    StepView::BuildReleaseBinary,
                    StepView::Fail("Windows packaging is not implemented yet"@),
                ],
                Platform::Linux => seq![
                    StepView::BuildReleaseBinary,
                    StepView::Fail("Linux packaging is not implemented yet"@),
                ],
            },
        },
{
    ensure_host_matches(platform, host)?;
    match platform {
        Platform::Macos => Ok(
            steps3(PackageStep::BuildReleaseBinary, PackageStep::StageAppBundle, PackageStep::PackageDmg),
        ),
        Platform::Windows => {
            let e = match crate::xtask::windows::package() {
                Err(e) => e,
                Ok(()) => String::new(),
            };
            Ok(steps2(PackageStep::BuildReleaseBinary, PackageStep::Fail(e)))
        },
        Platform::Linux => {
            let e = match crate::xtask::linux::package() {
                Err(e) => e,
                Ok(()) => String::new(),
            };
            Ok(steps2(PackageStep::BuildReleaseBinary, PackageStep::Fail(e)))
        },
    }
}

/// The steps of one macOS packaging stage, on a macOS host.
pub fn package_macos(stage: MacosPackageStage, host: &str) -> (r: Result<Vec<PackageStep>, String>)
    ensures
        match r {
            Err(m) => host@ != "macos"@ && m@ == "packaging for macos must be run on a macos host; current host is "@
                + host@,
            Ok(steps) => host@ == "macos"@ && steps_view(steps@) == match stage {
                MacosPackageStage::BuildBinary => seq![StepView::BuildReleaseBinary],
                MacosPackageStage::StageApp => seq![
                    StepView::BuildReleaseBinary,
                    StepView::StageAppBundle,
                ],
                MacosPackageStage::PackageDmg => seq![StepView::PackageDmg],
                MacosPackageStage::All => seq![
                    StepView::BuildReleaseBinary,
                    StepView::StageAppBundle,
                    StepView::PackageDmg,
                ],
            },
        },
{
    match ensure_host_matches(Platform::Macos, host) {
        Err(m) => {
            proof {
                reveal_strlit("macos");
                reveal_strlit("packaging for ");
                reveal_strlit(" must be run on a ");
                reveal_strlit(" host; current host is ");
                reveal_strlit("packaging for macos must be run on a macos host; current host is ");
            }
            assert("packaging for "@ + "macos"@ + " must be run on a "@ + "macos"@
                + " host; current host is "@ =~= "packaging for macos must be run on a macos host; current host is "@);
            return Err(m);
        },
        Ok(()) => {},
    }
    let steps = match stage {
        MacosPackageStage::BuildBinary => {
            let mut v: Vec<PackageStep> = Vec::new();
            v.push(PackageStep::BuildReleaseBinary);
            assert(steps_view(v@) =~= seq![StepView::BuildReleaseBinary]);
            v
        },
        MacosPackageStage::StageApp => steps2(PackageStep::BuildReleaseBinary, PackageStep::StageAppBundle),
        MacosPackageStage::PackageDmg => {
            let mut v: Vec<PackageStep> = Vec::new();
            v.push(PackageStep::PackageDmg);
            assert(steps_view(v@) =~= seq![StepView::PackageDmg]);
            v
        },
        MacosPackageStage::All => steps3(
            PackageStep::BuildReleaseBinary,
            PackageStep::StageAppBundle,
            PackageStep::PackageDmg,
        ),
    };
    Ok(steps)
}

} // verus!
