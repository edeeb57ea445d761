use cargo_ohos::ambient::{contains_sequence, fold_ambient_flags};
use cargo_ohos::args::{parse_min_api, split_cargo_args, CliOptions};
use cargo_ohos::command::{
    cargo_command, cargo_commands_help, cargo_subcommands, check_min_api, exit_code, help_command,
    manifest_path, parse_invocation, resolve_target, resolve_toolchain_source, runs_target_binaries,
    wants_cargo_help, OptionVariables, Options, DEFAULT_TARGET,
};
use cargo_ohos::ordered::{StringMap, StringSet};
use cargo_ohos::path::Platform;
use cargo_ohos::runner::{find_in_path, parse_version, path_candidates, Version};
use cargo_ohos::sdk::Sdk;
use cargo_ohos::target::Target;

fn strings(list: &[&str]) -> Vec<String> {
    list.iter().map(|text| text.to_string()).collect()
}

fn variables(list: &[(&str, &str)]) -> StringMap {
    let mut env = StringMap::new();
    for (name, value) in list {
        env.insert(name.to_string(), value.to_string());
    }
    env
}

#[test]
fn split_stops_at_double_dash() {
    let args = strings(&[
        "test", "-t", "aarch64", "--", "--target", "foo", "--sdk", "x",
    ]);
    let (options, rest) = split_cargo_args(args).unwrap();
    assert_eq!(options.target.as_deref(), Some("aarch64"));
    assert_eq!(rest, ["test", "--", "--target", "foo", "--sdk", "x"]);
}

#[test]
fn split_takes_llvm_and_inline_options() {
    let args = strings(&["build", "--llvm", "/toolchains/llvm", "--no-inline-flags"]);
    let (options, rest) = split_cargo_args(args).unwrap();
    assert_eq!(options.llvm.as_deref(), Some("/toolchains/llvm"));
    assert!(options.no_inline_flags);
    assert_eq!(rest, ["build"]);
}

#[test]
fn split_takes_min_api() {
    let (options, rest) = split_cargo_args(strings(&["build", "--min-api", "14"])).unwrap();
    assert_eq!(options.min_api, Some(14));
    assert_eq!(rest, ["build"]);

    let (options, _) = split_cargo_args(strings(&["build", "--min-api=21"])).unwrap();
    assert_eq!(options.min_api, Some(21));

    assert!(split_cargo_args(strings(&["build", "--min-api", "five"])).is_err());
}

#[test]
fn split_reports_what_is_missing_or_wrong() {
    for (args, message) in [
        (&["build", "-t"][..], "missing value after `--target`"),
        (&["build", "--sdk"], "missing value after `--sdk`"),
        (&["build", "--llvm"], "missing value after `--llvm`"),
        (&["build", "--download-prebuilt"], "missing value after `--download-prebuilt`"),
        (&["build", "--min-api"], "missing value after `--min-api`"),
        (&["build", "--min-api=x"], "invalid API level after `--min-api`: `x`"),
    ] {
        assert_eq!(split_cargo_args(strings(args)).unwrap_err(), message);
    }
    assert_eq!(parse_min_api("21"), Ok(21));
    assert!(parse_min_api("").is_err());
}

#[test]
fn later_options_win_and_foreign_arguments_stay() {
    let (options, rest) = split_cargo_args(strings(&[
        "build", "-p", "x", "--target=a", "--sdk", "s", "--target", "b", "--release",
    ]))
    .unwrap();
    assert_eq!(options.target.as_deref(), Some("b"));
    assert_eq!(options.sdk.as_deref(), Some("s"));
    assert_eq!(rest, ["build", "-p", "x", "--release"]);
}

#[test]
fn min_api_gate() {
    let fake_sdk = |api_version: Option<u32>| Sdk {
        native_root: "/sdk/native".to_owned(),
        sysroot: "/sdk/native/sysroot".to_owned(),
        llvm_root: "/sdk/native/llvm".to_owned(),
        llvm_bin: "/sdk/native/llvm/bin".to_owned(),
        cmake: None,
        cmake_toolchain_file: None,
        api_version,
        version: None,
    };
    assert!(check_min_api(&fake_sdk(Some(21)), None).is_ok());
    assert!(check_min_api(&fake_sdk(Some(21)), Some(14)).is_ok());
    assert!(check_min_api(&fake_sdk(Some(14)), Some(14)).is_ok());
    assert!(check_min_api(&fake_sdk(Some(12)), Some(14)).is_err());
    assert!(check_min_api(&fake_sdk(None), Some(14)).is_err());
    assert!(check_min_api(&fake_sdk(None), None).is_ok());
    assert_eq!(
        check_min_api(&fake_sdk(Some(12)), Some(14)).unwrap_err(),
        "The OpenHarmony SDK at /sdk/native has API level 12, but --min-api requires at least 14"
    );
}

#[test]
fn split_takes_download_prebuilt() {
    let (options, rest) = split_cargo_args(strings(&["build", "--download-prebuilt=19"])).unwrap();

    assert_eq!(options.download_prebuilt.as_deref(), Some("19"));
    assert_eq!(rest, ["build"]);
}

#[test]
fn explicit_toolchain_source_overrides_environment_default() {
    let (llvm, download) =
        resolve_toolchain_source(Some("explicit".to_owned()), None, None, Some("19".to_owned()))
            .unwrap();
    assert_eq!(llvm, Some("explicit".to_owned()));
    assert_eq!(download, None);

    let (llvm, download) = resolve_toolchain_source(
        None,
        Some("19".to_owned()),
        Some("environment".to_owned()),
        None,
    )
    .unwrap();
    assert_eq!(llvm, None);
    assert_eq!(download.as_deref(), Some("19"));
}

#[test]
fn conflicting_environment_toolchain_sources_are_rejected() {
    assert!(resolve_toolchain_source(
        None,
        None,
        Some("environment".to_owned()),
        Some("19".to_owned()),
    )
    .is_err());
}

#[test]
fn fold_appends_ambient_after_tool_flags() {
    let mut env = variables(&[
        ("TARGET_CFLAGS", "--target=t"),
        ("BINDGEN_EXTRA_CLANG_ARGS_x", "-Ii"),
    ]);
    let warnings = fold_ambient_flags(
        &mut env,
        "BINDGEN_EXTRA_CLANG_ARGS_x",
        &variables(&[("TARGET_CFLAGS", "-fsanitize=address")]),
    );
    assert_eq!(
        env.get("TARGET_CFLAGS").unwrap(),
        "--target=t -fsanitize=address"
    );
    assert_eq!(env.get("BINDGEN_EXTRA_CLANG_ARGS_x").unwrap(), "-Ii");
    assert!(warnings.is_empty());
}

#[test]
fn fold_keeps_already_composed_ambient_values() {
    let mut env = variables(&[("TARGET_CFLAGS", "--target=t")]);
    fold_ambient_flags(&mut env, "B", &variables(&[("TARGET_CFLAGS", "--target=t -g")]));
    assert_eq!(env.get("TARGET_CFLAGS").unwrap(), "--target=t -g");
}

#[test]
fn fold_ignores_vars_the_tool_does_not_set() {
    let mut env = StringMap::new();
    let warnings = fold_ambient_flags(&mut env, "B", &variables(&[("TARGET_CFLAGS", "-g")]));
    assert_eq!(env.len(), 0);
    assert!(warnings.is_empty());
}

#[test]
fn fold_warns_about_masked_plain_vars() {
    let mut env = variables(&[
        ("TARGET_CFLAGS", "--target=t"),
        ("BINDGEN_EXTRA_CLANG_ARGS_x", "-Ii"),
    ]);
    let warnings = fold_ambient_flags(
        &mut env,
        "BINDGEN_EXTRA_CLANG_ARGS_x",
        &variables(&[("CFLAGS", "-g"), ("BINDGEN_EXTRA_CLANG_ARGS", "-g")]),
    );
    assert_eq!(env.get("TARGET_CFLAGS").unwrap(), "--target=t");
    assert_eq!(warnings.len(), 2);
    assert!(warnings[0].contains("$CFLAGS"));
    assert!(warnings[0].contains("$TARGET_CFLAGS"));
    assert!(warnings[1].contains("$BINDGEN_EXTRA_CLANG_ARGS "));
}

#[test]
fn fold_does_not_warn_when_the_specific_var_is_also_ambient() {
    let mut env = variables(&[("TARGET_CFLAGS", "--target=t")]);
    let warnings = fold_ambient_flags(
        &mut env,
        "B",
        &variables(&[("TARGET_CFLAGS", "-g"), ("CFLAGS", "-g")]),
    );
    assert!(warnings.is_empty());
}

#[test]
fn folding_twice_changes_nothing() {
    let ambient = variables(&[("TARGET_CFLAGS", "-g")]);
    let mut env = variables(&[("TARGET_CFLAGS", "--target=t")]);
    fold_ambient_flags(&mut env, "B", &ambient);
    let once = env.get("TARGET_CFLAGS").unwrap();
    let mut again = variables(&[("TARGET_CFLAGS", "--target=t")]);
    fold_ambient_flags(&mut again, "B", &env);
    assert_eq!(again.get("TARGET_CFLAGS").unwrap(), once);
    // A variable that is set to nothing counts as not set.
    let mut empty = variables(&[("TARGET_CFLAGS", "--target=t")]);
    let warnings = fold_ambient_flags(
        &mut empty,
        "B",
        &variables(&[("TARGET_CFLAGS", ""), ("CFLAGS", "")]),
    );
    assert_eq!(empty.get("TARGET_CFLAGS").unwrap(), "--target=t");
    assert!(warnings.is_empty());
}

#[test]
fn sequence_containment() {
    let flags = |s: &str| s.split(' ').map(str::to_owned).collect::<Vec<_>>();
    assert!(contains_sequence(&flags("-a -b -c"), &flags("-b -c")));
    assert!(!contains_sequence(&flags("-a -b"), &flags("-b -c")));
    assert!(!contains_sequence(&flags("-b"), &flags("-b -c")));
    assert!(contains_sequence(&flags("-a"), &Vec::new()));
}

#[test]
fn default_target_is_a_valid_target() {
    assert!(Target::parse(DEFAULT_TARGET).is_ok());
}

#[test]
fn explicit_target_wins() {
    assert_eq!(resolve_target(Some("armv7".to_owned()), None).0, "armv7");
    assert_eq!(
        resolve_target(Some("armv7".to_owned()), Some("x86_64".to_owned())),
        ("armv7".to_owned(), None)
    );
}

#[test]
fn root_help_mentions_cargo_subcommands() {
    let help = cargo_commands_help();
    assert!(help.contains("cargo ohos build"));
    for name in cargo_subcommands() {
        assert!(help.contains(&name), "help does not mention `{name}`");
    }
    assert!(help.starts_with("Cargo commands:\n  b, bench, build, c, check, clippy, d, doc, fix, r, run, rustc, t, test\n"));
}

#[test]
fn help_before_double_dash_is_a_help_request() {
    assert!(wants_cargo_help(&strings(&["build", "--help"])));
    assert!(wants_cargo_help(&strings(&["build", "-h"])));
    assert!(!wants_cargo_help(&strings(&["run", "--", "--help"])));
    assert!(!wants_cargo_help(&strings(&["build"])));
}

#[test]
fn target_help_still_needs_a_runner() {
    assert!(runs_target_binaries("run", &strings(&["run", "--", "--help"])));
}

#[test]
fn cargo_help_does_not_need_a_runner() {
    assert!(!runs_target_binaries("run", &strings(&["run", "--help"])));
    assert!(!runs_target_binaries("test", &strings(&["test", "--no-run"])));
    assert!(!runs_target_binaries("build", &strings(&["build"])));
    for name in ["r", "run", "t", "test", "bench"] {
        assert!(runs_target_binaries(name, &strings(&[name])), "{name}");
    }
}

#[test]
fn options_combine_the_command_line_and_the_environment() {
    let no_variables = || OptionVariables {
        llvm: None,
        download_prebuilt: None,
        target: None,
    };
    let (options, note) = Options::from_cli(CliOptions::new(), no_variables())
        .unwrap_or_else(|error| panic!("{error}"));
    assert_eq!(options.target, "aarch64-unknown-linux-ohos");
    assert!(note.unwrap().contains("no target given, defaulting to"));

    let mut variables = no_variables();
    variables.llvm = Some("/llvm".to_owned());
    variables.download_prebuilt = Some(String::new());
    variables.target = Some("armv7".to_owned());
    let (options, note) = Options::from_cli(CliOptions::new(), variables)
        .unwrap_or_else(|error| panic!("{error}"));
    assert_eq!(options.llvm.as_deref(), Some("/llvm"));
    assert_eq!(options.download_prebuilt, None);
    assert_eq!(options.target, "armv7");
    assert_eq!(note, None);

    let mut unsafe_version = CliOptions::new();
    unsafe_version.download_prebuilt = Some("../x".to_owned());
    assert!(Options::from_cli(unsafe_version, no_variables()).is_err());
}

#[test]
fn the_project_is_named_by_its_manifest() {
    let path = |args: &[&str]| manifest_path(&strings(args));
    assert_eq!(path(&["build", "--manifest-path", "a/Cargo.toml"]).as_deref(), Some("a/Cargo.toml"));
    assert_eq!(path(&["build", "--manifest-path=b"]).as_deref(), Some("b"));
    assert_eq!(path(&["run", "--", "--manifest-path", "c"]), None);
    assert_eq!(path(&["build", "--manifest-path"]), None);
    assert_eq!(path(&["build"]), None);
}

#[test]
fn commands_keep_the_arguments_of_the_user() {
    assert_eq!(
        cargo_command(&strings(&["run", "--release", "--", "x"]), "t"),
        ["cargo", "run", "--target=t", "--release", "--", "x"]
    );
    assert_eq!(help_command(&strings(&["run", "-h"])), ["cargo", "run", "-h"]);
    let invocation = parse_invocation(strings(&["test", "-t", "x86_64", "--help"]))
        .unwrap_or_else(|error| panic!("{error}"));
    assert_eq!(invocation.name, "test");
    assert_eq!(invocation.rest, ["test", "--help"]);
    assert!(invocation.help);
    assert!(parse_invocation(Vec::new()).is_err());
    assert!(parse_invocation(strings(&["build", "--sdk"])).is_err());
}

#[test]
fn exit_codes_are_passed_on() {
    assert_eq!(exit_code(Some(0)), 0);
    assert_eq!(exit_code(Some(7)), 7);
    assert_eq!(exit_code(Some(1000)), 255);
    assert_eq!(exit_code(Some(-1)), 255);
    assert_eq!(exit_code(None), 1);
}

#[test]
fn programs_are_looked_for_along_the_path() {
    let dirs = strings(&["/a", "", "/b/"]);
    assert_eq!(path_candidates(Platform::Linux, &dirs, "x"), ["/a/x", "/b/x"]);
    let mut files = StringSet::new();
    assert_eq!(find_in_path(Platform::Linux, &dirs, "x", &files), None);
    files.insert("/b/x".to_owned());
    assert_eq!(
        find_in_path(Platform::Linux, &dirs, "x", &files).as_deref(),
        Some("/b/x")
    );
    files.insert("/a/x".to_owned());
    assert_eq!(
        find_in_path(Platform::Linux, &dirs, "x", &files).as_deref(),
        Some("/a/x")
    );
    assert_eq!(
        path_candidates(Platform::Windows, &strings(&[r"C:\a"]), "x"),
        [r"C:\a\x.exe"]
    );
    // The extension takes the place of another.
    assert_eq!(
        path_candidates(Platform::Windows, &strings(&[r"C:\a"]), "x.y"),
        [r"C:\a\x.exe"]
    );
    assert_eq!(path_candidates(Platform::Linux, &strings(&["/a"]), "x.y"), ["/a/x.y"]);
}

#[test]
fn versions_of_the_runner_are_understood() {
    let version = |major, minor, patch| {
        Some(Version {
            major,
            minor,
            patch,
        })
    };
    assert_eq!(parse_version("ohos-test-runner 0.1.5\n"), version(0, 1, 5));
    assert_eq!(parse_version("0.2"), version(0, 2, 0));
    assert_eq!(parse_version("x 1.2.3-beta.1+build"), version(1, 2, 3));
    for text in ["", "\n1.2.3", "x", "1", "1.2.3.4", "1.x.3"] {
        assert_eq!(parse_version(text), None, "{text:?}");
    }
    assert!(version(0, 1, 5).unwrap().is_recent_enough());
    assert!(version(1, 0, 0).unwrap().is_recent_enough());
    assert!(version(0, 2, 0).unwrap().is_recent_enough());
    assert!(!version(0, 1, 4).unwrap().is_recent_enough());
    let written = version(10, 2, 33).unwrap().to_text();
    assert_eq!(written, "10.2.33");
    assert_eq!(parse_version(&written), version(10, 2, 33));
}
