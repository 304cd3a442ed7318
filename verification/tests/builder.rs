use wolfpack::extensions::builder::{
    find_output_directory, is_skipped_directory, BuildSystem, NoBuildSystem,
};

fn names(list: &[&str]) -> Vec<String> {
    list.iter().map(|s| s.to_string()).collect()
}

fn detect(files: &[&str], scripts: Option<&[&str]>, has_manifest: bool) -> Result<BuildSystem, NoBuildSystem> {
    let scripts = scripts.map(names);
    BuildSystem::detect(&names(files), scripts.as_deref(), has_manifest)
}

#[test]
fn package_scripts_pick_the_package_manager() {
    match detect(&["package.json", "src"], Some(&["test", "build"]), false) {
        Ok(BuildSystem::Npm { script }) => assert_eq!(script, "build"),
        other => panic!("unexpected {:?}", other),
    }
    match detect(&["package.json", "pnpm-lock.yaml", "yarn.lock"], Some(&["dist"]), false) {
        Ok(BuildSystem::Pnpm { script }) => assert_eq!(script, "dist"),
        other => panic!("unexpected {:?}", other),
    }
    match detect(&["yarn.lock", "package.json"], Some(&["package", "lint"]), true) {
        Ok(BuildSystem::Yarn { script }) => assert_eq!(script, "package"),
        other => panic!("unexpected {:?}", other),
    }
    match detect(&["package.json"], Some(&["package", "dist", "build"]), true) {
        Ok(BuildSystem::Npm { script }) => assert_eq!(script, "build"),
        other => panic!("unexpected {:?}", other),
    }
}

#[test]
fn other_build_systems_follow_in_order() {
    assert!(matches!(detect(&["Makefile", "web-ext-config.js"], None, true), Ok(BuildSystem::Make)));
    assert!(matches!(detect(&["makefile"], None, false), Ok(BuildSystem::Make)));
    assert!(matches!(detect(&["web-ext-config.cjs"], None, true), Ok(BuildSystem::WebExt)));
    assert!(matches!(detect(&["web-ext-config.js"], None, false), Ok(BuildSystem::WebExt)));
    assert!(matches!(detect(&["icon.png"], None, true), Ok(BuildSystem::NoBuild)));
    assert_eq!(detect(&["icon.png"], None, false).unwrap_err(), NoBuildSystem);
    assert_eq!(detect(&[], None, false).unwrap_err(), NoBuildSystem);
}

#[test]
fn a_package_file_without_build_script_is_passed_over() {
    assert!(matches!(detect(&["package.json", "Makefile"], Some(&["test"]), false), Ok(BuildSystem::Make)));
    assert!(matches!(detect(&["package.json"], None, true), Ok(BuildSystem::NoBuild)));
    assert!(detect(&["package.json"], Some(&[]), false).is_err());
    // Scripts without a package file count for nothing.
    assert!(detect(&["src"], Some(&["build"]), false).is_err());
}

#[test]
fn build_commands() {
    let npm = BuildSystem::Npm { script: "build".to_string() };
    assert_eq!(npm.to_command_string(), Some("npm install && npm run build".to_string()));
    let pnpm = BuildSystem::Pnpm { script: "dist".to_string() };
    assert_eq!(pnpm.to_command_string(), Some("pnpm install && pnpm run dist".to_string()));
    let yarn = BuildSystem::Yarn { script: "package".to_string() };
    assert_eq!(yarn.to_command_string(), Some("yarn install && yarn package".to_string()));
    assert_eq!(BuildSystem::Make.to_command_string(), Some("make".to_string()));
    assert_eq!(BuildSystem::WebExt.to_command_string(), Some("web-ext build".to_string()));
    assert_eq!(BuildSystem::NoBuild.to_command_string(), None);
    let custom = BuildSystem::Custom { command: "./build.sh --release".to_string() };
    assert_eq!(custom.to_command_string(), Some("./build.sh --release".to_string()));
}

#[test]
fn the_search_for_the_built_extension() {
    assert_eq!(find_output_directory(&names(&[".", "out", "build"])), Some("build"));
    assert_eq!(find_output_directory(&names(&["build", "dist"])), Some("dist"));
    assert_eq!(find_output_directory(&names(&["."])), Some("."));
    assert_eq!(find_output_directory(&names(&["pkg", "web-ext-artifacts"])), Some("web-ext-artifacts"));
    assert_eq!(find_output_directory(&names(&["target"])), None);
    assert_eq!(find_output_directory(&[]), None);
    for skipped in ["node_modules", ".git", ".github", "test", "tests", "__pycache__"] {
        assert!(is_skipped_directory(skipped));
    }
    assert!(!is_skipped_directory("src"));
    assert!(!is_skipped_directory("Tests"));
    assert!(!is_skipped_directory(""));
}
