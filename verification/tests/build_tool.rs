use renpy_rust_module::build_run::{
    after_build, artifact_copies, crate_source, should_deploy, AfterBuild, BuildOutcome,
    CopyDir, CrateSource,
};
use renpy_rust_module::config::{
    choose_project_root, plugin_config_or_default, prepend_search_path, project_root,
    resolve_deploy, resolve_dist_dir, resolve_targets, rewrite_windows_pyo3_config, BuildConfig,
    Deploy, DistDir, PluginConfig,
};
use renpy_rust_module::manifest::{
    cdylib_package_name, discover_cdylib_crates, file_extension, has_import_library,
    manifest_package_name, select_crate_names,
};
use renpy_rust_module::platform::{
    artifact_names, binary_candidates, cargo_build_args, lowercase_all, platform,
    platform_selected, platforms_to_build, should_build, target_matches, PLATFORM_COUNT,
};
use renpy_rust_module::setup::{
    check_setup_script, pick_python_exe, python_candidates, setup_argument, setup_exit_outcome,
    SetupArgument, SetupError,
};
use renpy_rust_module::text::{contains, starts_with, str_eq};
use renpy_rust_module::watch::{
    should_scan_dir, watched_dirs, watched_files, ChangeWatcher, FileSnapshot, FileStamp,
};

fn strings(v: &[&str]) -> Vec<String> {
    v.iter().map(|s| s.to_string()).collect()
}

#[test]
fn platform_table_in_build_order() {
    let triples: Vec<&str> = (0..PLATFORM_COUNT).map(|i| platform(i).triple).collect();
    assert_eq!(
        triples,
        vec![
            "x86_64-pc-windows-gnu",
            "x86_64-unknown-linux-gnu",
            "aarch64-unknown-linux-gnu",
            "aarch64-apple-darwin",
            "x86_64-apple-darwin"
        ]
    );
    assert!(!platform(0).use_zig);
    assert!(platform(4).use_zig);
    assert_eq!(platform(3).lib_ext, ".dylib");
}

#[test]
fn empty_all_or_default_selects_every_platform() {
    for sel in [vec![], strings(&["all"]), strings(&["linux", "default"])] {
        assert_eq!(platforms_to_build(&sel), vec![0, 1, 2, 3, 4]);
    }
    // `All` is not `all`: only the exact words select everything.
    assert_eq!(platforms_to_build(&strings(&["All"])), Vec::<usize>::new());
}

#[test]
fn targets_select_by_key_triple_and_alias() {
    assert_eq!(platforms_to_build(&strings(&["windows"])), vec![0]);
    assert_eq!(platforms_to_build(&strings(&["Win64"])), vec![0]);
    assert_eq!(platforms_to_build(&strings(&["linux"])), vec![1, 2]);
    assert_eq!(platforms_to_build(&strings(&["linux-x86_64"])), vec![1]);
    assert_eq!(platforms_to_build(&strings(&["linux-arm64"])), vec![2]);
    assert_eq!(platforms_to_build(&strings(&["mac"])), vec![3, 4]);
    assert_eq!(platforms_to_build(&strings(&["macOS"])), vec![3, 4]);
    assert_eq!(platforms_to_build(&strings(&["darwin"])), vec![3, 4]);
    assert_eq!(platforms_to_build(&strings(&["linux", "mac"])), vec![1, 2, 3, 4]);
    assert_eq!(platforms_to_build(&strings(&["mac-arm"])), vec![3]);
    assert_eq!(platforms_to_build(&strings(&["mac-intel"])), vec![4]);
    assert_eq!(platforms_to_build(&strings(&["AARCH64-APPLE-DARWIN"])), vec![3]);
    assert_eq!(platforms_to_build(&strings(&["windows", "mac-arm"])), vec![0, 3]);
    assert_eq!(platforms_to_build(&strings(&["freebsd"])), Vec::<usize>::new());
}

#[test]
fn target_matching_on_lowered_names() {
    assert!(target_matches("linux-aarch64", &platform(2)));
    assert!(!target_matches("linux-aarch64", &platform(1)));
    assert!(!target_matches("macx86", &platform(3)));
    assert!(target_matches("macx86", &platform(4)));
    assert!(!target_matches("mac", &platform(0)));
    assert!(!target_matches("mac-arm", &platform(2)));
    assert!(target_matches("darwin", &platform(3)));
    assert!(!target_matches("LINUX", &platform(1)));
}

#[test]
fn selection_uses_lowered_names_for_matching_only() {
    let sel = strings(&["ALL"]);
    let lowered = lowercase_all(&sel);
    assert_eq!(lowered, strings(&["all"]));
    assert!(!platform_selected(&sel, &lowered, &platform(0)));
    assert!(!should_build(&sel, &platform(0)));
    assert!(should_build(&strings(&["WINDOWS"]), &platform(0)));
    // The Kelvin sign lower-cases to an ASCII `k`.
    assert!(should_build(&strings(&["x86_64-un\u{212A}nown-linux-gnu"]), &platform(1)));
}

#[test]
fn cargo_arguments_per_platform() {
    let crates = strings(&["game_ext", "other"]);
    assert_eq!(
        cargo_build_args(&platform(0), &crates),
        strings(&[
            "build", "-p", "game_ext", "-p", "other", "--target", "x86_64-pc-windows-gnu",
            "--release"
        ])
    );
    assert_eq!(
        cargo_build_args(&platform(3), &Vec::new()),
        strings(&["zigbuild", "--target", "aarch64-apple-darwin", "--release"])
    );
}

#[test]
fn artifact_file_names() {
    assert_eq!(
        binary_candidates("mymod"),
        strings(&["mymod.dll", "libmymod.so", "mymod.so", "libmymod.dylib", "mymod.dylib"])
    );
    let w = artifact_names(&platform(0), "mymod");
    assert_eq!(w.library, "mymod.dll");
    assert_eq!(w.python_module, "mymod.pyd");
    assert_eq!(w.abi_module, "mymod.cp312-win_amd64.pyd");
    let m = artifact_names(&platform(4), "mymod");
    assert_eq!(m.library, "libmymod.dylib");
    assert_eq!(m.python_module, "mymod.so");
    assert_eq!(m.abi_module, "mymod.cpython-312-darwin-x86_64.so");
}

#[test]
fn targets_resolve_by_precedence() {
    assert_eq!(resolve_targets(strings(&["mac"]), strings(&["linux"]), false), strings(&["mac"]));
    assert_eq!(resolve_targets(vec![], strings(&["linux"]), true), strings(&["linux"]));
    assert_eq!(resolve_targets(vec![], vec![], false), strings(&["windows", "linux", "mac"]));
    assert_eq!(resolve_targets(vec![], vec![], true), strings(&["windows"]));
}

#[test]
fn dist_dir_and_deploy_resolution() {
    assert!(matches!(resolve_dist_dir(Some(7u8), Some("out".to_string())), DistDir::Given(7)));
    assert!(matches!(
        resolve_dist_dir::<u8>(None, Some("out".to_string())),
        DistDir::UnderRoot(ref d) if d == "out"
    ));
    assert!(matches!(resolve_dist_dir::<u8>(None, None), DistDir::UnderRoot(ref d) if d == "dist"));
    assert!(matches!(resolve_deploy(Some(1u8), Some("g".to_string())), Some(Deploy::Given(1))));
    assert!(matches!(
        resolve_deploy::<u8>(None, Some("g".to_string())),
        Some(Deploy::Configured(ref s)) if s == "g"
    ));
    assert!(resolve_deploy::<u8>(None, Some(String::new())).is_none());
    assert!(resolve_deploy::<u8>(None, None).is_none());
}

#[test]
fn missing_config_means_defaults() {
    let c = plugin_config_or_default(None);
    assert!(c.build.targets.is_empty());
    assert!(c.build.dist_dir.is_none());
    assert!(c.build.deploy_to_game.is_none());
    let given = PluginConfig {
        build: BuildConfig {
            targets: strings(&["linux"]),
            dist_dir: Some("d".to_string()),
            deploy_to_game: None,
        },
    };
    let kept = plugin_config_or_default(Some(given));
    assert_eq!(kept.build.targets, strings(&["linux"]));
    assert_eq!(kept.build.dist_dir.as_deref(), Some("d"));
}

#[test]
fn windows_config_points_at_bundled_libraries() {
    let input = "implementation=CPython\nlib_dir=C:/old\r\nversion=3.12\nlib_dir_extra=x";
    assert_eq!(
        rewrite_windows_pyo3_config(input),
        "implementation=CPython\nlib_dir=renpy_includes\nversion=3.12\nlib_dir_extra=x\n"
    );
    assert_eq!(rewrite_windows_pyo3_config(""), "\n");
    assert_eq!(rewrite_windows_pyo3_config("a\n\nb\n"), "a\n\nb\n");
}

#[test]
fn rewriting_twice_changes_nothing() {
    for input in ["", "\n", "a\r\nlib_dir=x\n", "lib_dir=old\r", "k=v\nlib_dir=\n\nz"] {
        let once = rewrite_windows_pyo3_config(input);
        assert_eq!(rewrite_windows_pyo3_config(&once), once, "input {:?}", input);
    }
    // A kept line that still ends in a carriage return loses it on the second pass.
    let once = rewrite_windows_pyo3_config("a\r");
    assert_eq!(once, "a\r\n");
    assert_eq!(rewrite_windows_pyo3_config(&once), "a\n");
}

#[test]
fn project_root_steps_out_of_xtask() {
    assert_eq!(project_root("/work/proj/xtask"), "/work/proj");
    assert_eq!(project_root("/work/proj"), "/work/proj");
    assert_eq!(project_root("xtask"), "");
    assert_eq!(project_root("/work/xtask/sub"), "/work/xtask/sub");
    assert_eq!(project_root("/home/u/proj/xtask"), "/home/u/proj");
    assert_eq!(project_root("/home/u/myxtask"), "/home/u/myxtask");
    assert_eq!(project_root("/xtask"), "/");
    assert_eq!(
        choose_project_root("/a/xtask", Some("xtask".to_string()), Some("/a".to_string())),
        "/a"
    );
    assert_eq!(choose_project_root("/a/xtask", Some("xtask".to_string()), None), "/a/xtask");
    assert_eq!(choose_project_root("/a/b", Some("b".to_string()), Some("/a".to_string())), "/a/b");
}

#[test]
fn search_path_separator() {
    assert_eq!(prepend_search_path("C:/inc", "C:/bin", true), "C:/inc;C:/bin");
    assert_eq!(prepend_search_path("/inc", "/usr/bin", false), "/inc:/usr/bin");
    assert_eq!(prepend_search_path("/inc", "", false), "/inc:");
}

#[test]
fn manifests_name_packages() {
    let lib = "[package]\nname = \"game_ext\"\n[lib]\ncrate-type = [\"cdylib\"]\n";
    let bin = "[package]\nname = \"tool\"\n";
    assert_eq!(manifest_package_name(lib), Some("game_ext".to_string()));
    assert_eq!(manifest_package_name(bin), Some("tool".to_string()));
    assert_eq!(manifest_package_name("[package]\nname = 5\n"), None);
    assert_eq!(manifest_package_name("not toml ["), None);
    assert_eq!(cdylib_package_name(lib), Some("game_ext".to_string()));
    assert_eq!(cdylib_package_name(bin), None);
}

#[test]
fn crate_discovery_prefers_cdylib_subcrates() {
    let lib = "[package]\nname = \"game_ext\"\n[lib]\ncrate-type = [\"cdylib\"]\n".to_string();
    let other = "[package]\nname = \"helper\"\n".to_string();
    let root = "[package]\nname = \"root_pkg\"\n";
    assert_eq!(
        discover_cdylib_crates(&vec![other.clone(), lib.clone()], Some(root)),
        strings(&["game_ext"])
    );
    assert_eq!(discover_cdylib_crates(&vec![other], Some(root)), strings(&["root_pkg"]));
    assert_eq!(discover_cdylib_crates(&vec![], None), Vec::<String>::new());
    assert_eq!(
        select_crate_names(vec![None, Some("a".to_string()), Some("b".to_string())], None),
        strings(&["a", "b"])
    );
    assert_eq!(select_crate_names(vec![None], Some("r".to_string())), strings(&["r"]));
}

#[test]
fn extensions_as_std_documents_them() {
    for name in ["libpython3.12.dll.a", "python.def", ".a", "a", "x.", ".hidden.a", "..", "noext"] {
        let std_ext = std::path::Path::new(name).extension().map(|e| e.to_str().unwrap().to_string());
        assert_eq!(file_extension(name), std_ext, "name {:?}", name);
    }
    assert!(has_import_library(&strings(&["python.def", "libpython3.12.dll.a"])));
    assert!(!has_import_library(&strings(&["python.def", ".a", "README.md"])));
    assert!(!has_import_library(&Vec::new()));
}

#[test]
fn python_probe_order() {
    assert_eq!(python_candidates(), vec!["python3", "python", "py"]);
    assert_eq!(pick_python_exe(Some(1)), "python");
    assert_eq!(pick_python_exe(Some(2)), "py");
    assert_eq!(pick_python_exe(None), "python3");
}

#[test]
fn setup_steps_and_errors() {
    assert_eq!(check_setup_script(false), Err(SetupError::ScriptMissing));
    assert_eq!(check_setup_script(true), Ok(()));
    assert_eq!(setup_exit_outcome(None), Err(SetupError::LaunchFailed));
    assert_eq!(setup_exit_outcome(Some(false)), Err(SetupError::ExitedWithError));
    assert_eq!(setup_exit_outcome(Some(true)), Ok(()));
    assert_eq!(SetupError::ScriptMissing.message(), "setup_renpy_includes.py not found in scripts/");
    assert_eq!(SetupError::LaunchFailed.message(), "Failed to run setup_renpy_includes.py");
    assert_eq!(SetupError::ExitedWithError.message(), "setup_renpy_includes.py exited with error");
    assert!(matches!(setup_argument(Some(3u8)), SetupArgument::Directory(3)));
    assert!(matches!(setup_argument::<u8>(None), SetupArgument::Flag("--detect")));
}

#[test]
fn text_helpers() {
    assert!(str_eq("abc", "abc"));
    assert!(!str_eq("abc", "abd"));
    assert!(starts_with("windows", "win"));
    assert!(!starts_with("wi", "win"));
    assert!(contains("mac-arm64", "arm"));
    assert!(contains("x", ""));
    assert!(!contains("mac", "intel"));
}

fn stamp(path: &str, secs: u64) -> FileStamp {
    FileStamp { path: path.as_bytes().to_vec(), before_epoch: false, secs, nanos: 0 }
}

#[test]
fn scans_skip_build_directories() {
    assert!(!should_scan_dir("target"));
    assert!(!should_scan_dir("dist"));
    assert!(!should_scan_dir(".git"));
    assert!(should_scan_dir("src"));
}

#[test]
fn snapshots_compare_as_maps() {
    let mut a = FileSnapshot::new();
    a.insert(stamp("src/lib.rs", 1));
    a.insert(stamp("Cargo.toml", 2));
    let mut b = FileSnapshot::new();
    b.insert(stamp("Cargo.toml", 2));
    b.insert(stamp("src/lib.rs", 5));
    assert!(!a.same_as(&b));
    b.insert(stamp("src/lib.rs", 1));
    assert!(a.same_as(&b));
    assert_eq!(b.lookup(&b"src/lib.rs".to_vec()), Some((false, 1, 0)));
    assert_eq!(b.lookup(&b"missing".to_vec()), None);
    let mut c = FileSnapshot::new();
    c.insert(stamp("Cargo.toml", 2));
    assert!(!a.same_as(&c));
    assert!(!c.same_as(&a));
}

#[test]
fn watcher_rebuilds_only_on_change() {
    let mut first = FileSnapshot::new();
    first.insert(stamp("src/lib.rs", 1));
    let mut w = ChangeWatcher::new(first);
    let mut same = FileSnapshot::new();
    same.insert(stamp("src/lib.rs", 1));
    assert!(!w.observe(same));
    let mut touched = FileSnapshot::new();
    touched.insert(stamp("src/lib.rs", 2));
    assert!(w.observe(touched));
    let mut again = FileSnapshot::new();
    again.insert(stamp("src/lib.rs", 2));
    assert!(!w.observe(again));
}

#[test]
fn steps_after_a_platform_build() {
    assert_eq!(after_build(BuildOutcome::NotStarted, true), AfterBuild::Abort);
    assert_eq!(after_build(BuildOutcome::Failed, true), AfterBuild::ReportFailure);
    assert_eq!(after_build(BuildOutcome::Succeeded, true), AfterBuild::Package);
    assert_eq!(after_build(BuildOutcome::Succeeded, false), AfterBuild::ReportSuccess);
}

#[test]
fn packaging_copies_per_platform() {
    let copies: Vec<(CopyDir, String, bool)> = artifact_copies(&platform(1), "m", "libm.so")
        .into_iter()
        .map(|c| (c.dir, c.name, c.must_succeed))
        .collect();
    assert_eq!(
        copies,
        vec![
            (CopyDir::Lib, "libm.so".to_string(), true),
            (CopyDir::Packages, "libm.so".to_string(), true),
            (CopyDir::Release, "m.so".to_string(), false),
            (CopyDir::Lib, "m.so".to_string(), true),
            (CopyDir::Packages, "m.cpython-312-x86_64-linux-gnu.so".to_string(), true),
        ]
    );
    // A binary already named like the Python module is not copied onto itself.
    let names: Vec<String> =
        artifact_copies(&platform(1), "m", "m.so").into_iter().map(|c| c.name).collect();
    assert_eq!(names, strings(&["libm.so", "libm.so", "m.so", "m.cpython-312-x86_64-linux-gnu.so"]));
}

#[test]
fn deploy_only_with_a_distribution_and_an_existing_game() {
    assert!(should_deploy(true, Some(true)));
    assert!(!should_deploy(true, Some(false)));
    assert!(!should_deploy(true, None));
    assert!(!should_deploy(false, Some(true)));
}

#[test]
fn crates_from_command_line_or_discovery() {
    assert!(matches!(crate_source(strings(&["a"])), CrateSource::Given(ref v) if v == &strings(&["a"])));
    assert!(matches!(crate_source(Vec::new()), CrateSource::Discover));
}

#[test]
fn watched_paths() {
    assert_eq!(watched_dirs(), vec!["src", "scripts", "tests"]);
    assert_eq!(watched_files(), vec!["Cargo.toml", "renpy-plugin.toml"]);
}
