//! How an extension is built from its sources: which build system a
//! source directory calls for, and the command that runs it.

use vstd::prelude::*;
use crate::profile::entities::contains_text;
use crate::text::{join, str_eq};

verus! {

/// How an extension is built from its sources.
#[derive(Debug)]
pub enum BuildSystem {
    Npm { script: String },
    Pnpm { script: String },
    Yarn { script: String },
    Make,
    WebExt,
    /// Nothing to build: the sources are the extension.
    NoBuild,
    Custom { command: String },
}

pub enum BuildSystemView {
    Npm { script: Seq<char> },
    Pnpm { script: Seq<char> },
    Yarn { script: Seq<char> },
    Make,
    WebExt,
    NoBuild,
    Custom { command: Seq<char> },
}

impl View for BuildSystem {
    type V = BuildSystemView;

    open spec fn view(&self) -> BuildSystemView {
        match self {
            BuildSystem::Npm { script } => BuildSystemView::Npm { script: script@ },
            BuildSystem::Pnpm { script } => BuildSystemView::Pnpm { script: script@ },
            BuildSystem::Yarn { script } => BuildSystemView::Yarn { script: script@ },
            BuildSystem::Make => BuildSystemView::Make,
            BuildSystem::WebExt => BuildSystemView::WebExt,
            BuildSystem::NoBuild => BuildSystemView::NoBuild,
            BuildSystem::Custom { command } => BuildSystemView::Custom { command: command@ },
        }
    }
}

/// No build system was found, and no manifest either.
#[derive(Debug, Clone, Copy, PartialEq, Eq, Structural)]
pub struct NoBuildSystem;

/// The script that builds a package: `build`, else `dist`, else
/// `package`, whichever the package file declares first in this order.
pub open spec fn build_script(scripts: Seq<Seq<char>>) -> Option<Seq<char>> {
    if scripts.contains("build"@) {
        Some("build"@)
    } else if scripts.contains("dist"@) {
        Some("dist"@)
    } else if scripts.contains("package"@) {
        Some("package"@)
    } else {
        None
    }
}

/// The package manager of a directory with a build script: pnpm or yarn
/// where their lock file lies, npm otherwise.
pub open spec fn package_manager(files: Seq<Seq<char>>, script: Seq<char>) -> BuildSystemView {
    if files.contains("pnpm-lock.yaml"@) {
        BuildSystemView::Pnpm { script }
    } else if files.contains("yarn.lock"@) {
        BuildSystemView::Yarn { script }
    } else {
        BuildSystemView::Npm { script }
    }
}

/// The script of the package file of a directory, if the directory has a
/// package file that declares one.
pub open spec fn declared_script(files: Seq<Seq<char>>, scripts: Option<Seq<Seq<char>>>) -> Option<
    Seq<char>,
> {
    if files.contains("package.json"@) {
        match scripts {
            Some(s) => build_script(s),
            None => None,
        }
    } else {
        None
    }
}

/// The build system that a source directory calls for. `files` are the
/// names in the directory, `scripts` the names of the scripts that its
/// package file declares, and `has_manifest` says whether an extension
/// manifest lies in it.
pub open spec fn build_system_of(
    files: Seq<Seq<char>>,
    scripts: Option<Seq<Seq<char>>>,
    has_manifest: bool,
) -> Option<BuildSystemView> {
    match declared_script(files, scripts) {
        Some(script) => Some(package_manager(files, script)),
        None => {
            if files.contains("Makefile"@) || files.contains("makefile"@) {
                Some(BuildSystemView::Make)
            } else if files.contains("web-ext-config.js"@) || files.contains(
                "web-ext-config.cjs"@,
            ) {
                Some(BuildSystemView::WebExt)
            } else if has_manifest {
                Some(BuildSystemView::NoBuild)
            } else {
                None
            }
        },
    }
}

/// The command that runs a build system; none where nothing is built.
pub open spec fn build_command(system: BuildSystemView) -> Option<Seq<char>> {
    match system {
        BuildSystemView::Npm { script } => Some("npm install && npm run "@ + script),
        BuildSystemView::Pnpm { script } => Some("pnpm install && pnpm run "@ + script),
        BuildSystemView::Yarn { script } => Some("yarn install && yarn "@ + script),
        BuildSystemView::Make => Some("make"@),
        BuildSystemView::WebExt => Some("web-ext build"@),
        BuildSystemView::NoBuild => None,
        BuildSystemView::Custom { command } => Some(command),
    }
}

/// The script that builds a package, if its package file declares one.
fn find_script(scripts: &[String]) -> (r: Option<&'static str>)
    ensures
        r.deep_view() == build_script(scripts.deep_view()),
{
    if contains_text(scripts, "build") {
        Some("build")
    } else if contains_text(scripts, "dist") {
        Some("dist")
    } else if contains_text(scripts, "package") {
        Some("package")
    } else {
        None
    }
}

/// True for the directories that a search for the built extension does
/// not enter.
pub open spec fn skipped_directory(name: Seq<char>) -> bool {
    name == "node_modules"@ || name == ".git"@ || name == ".github"@ || name == "test"@ || name
        == "tests"@ || name == "__pycache__"@
}

/// True for the directories that a search for the built extension does
/// not enter.
pub fn is_skipped_directory(name: &str) -> (r: bool)
    ensures
        r == skipped_directory(name@),
{
    str_eq(name, "node_modules") || str_eq(name, ".git") || str_eq(name, ".github") || str_eq(
        name,
        "test",
    ) || str_eq(name, "tests") || str_eq(name, "__pycache__")
}

/// The directory of the built extension among the usual places: the
/// first of `dist`, `build`, `extension`, `addon`, `web-ext-artifacts`,
/// `pkg`, `out` and `.` that is listed in `present`.
pub open spec fn output_directory(present: Seq<Seq<char>>) -> Option<Seq<char>> {
    if present.contains("dist"@) {
        Some("dist"@)
    } else if present.contains("build"@) {
        Some("build"@)
    } else if present.contains("extension"@) {
        Some("extension"@)
    } else if present.contains("addon"@) {
        Some("addon"@)
    } else if present.contains("web-ext-artifacts"@) {
        Some("web-ext-artifacts"@)
    } else if present.contains("pkg"@) {
        Some("pkg"@)
    } else if present.contains("out"@) {
        Some("out"@)
    } else if present.contains("."@) {
        Some("."@)
    } else {
        None
    }
}

/// Picks the directory of the built extension among the usual places;
/// `present` lists the places in which a manifest lies.
pub fn find_output_directory(present: &[String]) -> (r: Option<&'static str>)
    ensures
        r.deep_view() == output_directory(present.deep_view()),
{
    if contains_text(present, "dist") {
        Some("dist")
    } else if contains_text(present, "build") {
        Some("build")
    } else if contains_text(present, "extension") {
        Some("extension")
    } else if contains_text(present, "addon") {
        Some("addon")
    } else if contains_text(present, "web-ext-artifacts") {
        Some("web-ext-artifacts")
    } else if contains_text(present, "pkg") {
        Some("pkg")
    } else if contains_text(present, "out") {
        Some("out")
    } else if contains_text(present, ".") {
        Some(".")
    } else {
        None
    }
}

impl BuildSystem {
    /// Finds the build system of a source directory. Fails when the
    /// directory has neither a build system nor a manifest.
    pub fn detect(files: &[String], scripts: Option<&[String]>, has_manifest: bool) -> (r: Result<
        Self,
        NoBuildSystem,
    >)
        ensures
            match build_system_of(files.deep_view(), scripts.deep_view(), has_manifest) {
                Some(system) => r matches Ok(s) && s@ == system,
                None => r is Err,
            },
    {
        let declared = if contains_text(files, "package.json") {
            match scripts {
                Some(s) => find_script(s),
                None => None,
            }
        } else {
            None
        };
        match declared {
            Some(script) => {
                let script = script.to_owned();
                if contains_text(files, "pnpm-lock.yaml") {
                    Ok(BuildSystem::Pnpm { script })
                } else if contains_text(files, "yarn.lock") {
                    Ok(BuildSystem::Yarn { script })
                } else {
                    Ok(BuildSystem::Npm { script })
                }
            },
            None => {
                if contains_text(files, "Makefile") || contains_text(files, "makefile") {
                    Ok(BuildSystem::Make)
                } else if contains_text(files, "web-ext-config.js") || contains_text(
                    files,
                    "web-ext-config.cjs",
                ) {
                    Ok(BuildSystem::WebExt)
                } else if has_manifest {
                    Ok(BuildSystem::NoBuild)
                } else {
                    Err(NoBuildSystem)
                }
            },
        }
    }

    /// The command that runs the build system; none where nothing is
    /// built.
    pub fn to_command_string(&self) -> (r: Option<String>)
        ensures
            r.deep_view() == build_command(self@),
    {
        match self {
            BuildSystem::Npm { script } => Some(join("npm install && npm run ", script.as_str())),
            BuildSystem::Pnpm { script } => Some(join("pnpm install && pnpm run ", script.as_str())),
            BuildSystem::Yarn { script } => Some(join("yarn install && yarn ", script.as_str())),
            BuildSystem::Make => Some("make".to_owned()),
            BuildSystem::WebExt => Some("web-ext build".to_owned()),
            BuildSystem::NoBuild => None,
            BuildSystem::Custom { command } => Some(command.clone()),
        }
    }
}

} // verus!
