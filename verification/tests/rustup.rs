use cargo_ohos::process::{Outcome, Output, RunError};
use cargo_ohos::rustup::{ensure_target, parse_target_list, Seen, Step};

fn output(code: i32, stdout: &str) -> Outcome {
    Ok(Output {
        code: Some(code),
        stdout: stdout.as_bytes().to_vec(),
        stderr: Vec::new(),
    })
}

fn failed(code: i32, stderr: &str) -> Outcome {
    Ok(Output {
        code: Some(code),
        stdout: Vec::new(),
        stderr: stderr.as_bytes().to_vec(),
    })
}

fn not_found() -> Outcome {
    Err(RunError {
        not_found: true,
        message: "not found".to_owned(),
    })
}

/// Carries out the flow with `run` as the programs and `directories` as what exists.
fn ensure_target_with(
    triple: &str,
    directories: &[&str],
    mut run: impl FnMut(&[&str]) -> Outcome,
) -> (Option<String>, Result<(), String>) {
    let mut seen = Seen {
        installed: None,
        available: None,
        added: None,
        libdir: None,
        libdir_exists: None,
    };
    let mut call = |command: &Vec<String>| {
        run(&command.iter().map(String::as_str).collect::<Vec<_>>())
    };
    loop {
        match ensure_target(triple, &seen) {
            Step::ListInstalled(command) => seen.installed = Some(call(&command)),
            Step::ListAvailable(command) => seen.available = Some(call(&command)),
            Step::Add { announcement, command } => {
                assert!(announcement.contains("is not installed"), "{announcement}");
                seen.added = Some(call(&command));
            }
            Step::PrintLibdir(command) => seen.libdir = Some(call(&command)),
            Step::IsDirectory(path) => {
                seen.libdir_exists = Some(directories.contains(&path.as_str()))
            }
            Step::Done { note, result } => return (note, result),
        }
    }
}

#[test]
fn parse_installed_list_is_one_triple_per_line() {
    assert_eq!(
        parse_target_list(b"x86_64-unknown-linux-gnu\naarch64-unknown-linux-ohos\n"),
        ["x86_64-unknown-linux-gnu", "aarch64-unknown-linux-ohos"]
    );
}

#[test]
fn parse_available_list_strips_installed_marker() {
    assert_eq!(
        parse_target_list(
            b"aarch64-unknown-linux-ohos (installed)\nloongarch64-unknown-linux-gnu\n",
        ),
        ["aarch64-unknown-linux-ohos", "loongarch64-unknown-linux-gnu"]
    );
}

#[test]
fn skips_rustup_add_when_target_is_already_installed() {
    let mut calls: Vec<Vec<String>> = Vec::new();
    ensure_target_with("aarch64-unknown-linux-ohos", &[], |argv| {
        calls.push(argv.iter().map(|word| word.to_string()).collect());
        output(0, "x86_64-unknown-linux-gnu\naarch64-unknown-linux-ohos\n")
    })
    .1
    .unwrap();
    assert_eq!(
        calls,
        [vec![
            "rustup".to_owned(),
            "target".to_owned(),
            "list".to_owned(),
            "--installed".to_owned()
        ]]
    );
}

#[test]
fn adds_a_published_target_that_is_not_installed() {
    let mut calls: Vec<Vec<String>> = Vec::new();
    ensure_target_with("aarch64-unknown-linux-ohos", &[], |argv| {
        calls.push(argv.iter().map(|word| word.to_string()).collect());
        match argv {
            ["rustup", "target", "list", "--installed"] => output(0, "x86_64-unknown-linux-gnu\n"),
            ["rustup", "target", "list"] => output(
                0,
                "aarch64-unknown-linux-ohos\narmv7-unknown-linux-ohos\nx86_64-unknown-linux-ohos\n",
            ),
            ["rustup", "target", "add", "aarch64-unknown-linux-ohos"] => output(0, ""),
            other => panic!("unexpected command {other:?}"),
        }
    })
    .1
    .unwrap();
    assert_eq!(
        calls.last().unwrap(),
        &[
            "rustup".to_owned(),
            "target".to_owned(),
            "add".to_owned(),
            "aarch64-unknown-linux-ohos".to_owned()
        ]
    );
}

#[test]
fn does_not_invent_an_unpublished_target() {
    let mut calls: Vec<Vec<String>> = Vec::new();
    let (note, result) = ensure_target_with("loongarch64-unknown-linux-ohos", &[], |argv| {
        calls.push(argv.iter().map(|word| word.to_string()).collect());
        match argv {
            ["rustup", "target", "list", "--installed"] => output(0, "x86_64-unknown-linux-gnu\n"),
            ["rustup", "target", "list"] => output(
                0,
                "aarch64-unknown-linux-ohos\narmv7-unknown-linux-ohos\nx86_64-unknown-linux-ohos\n",
            ),
            other => panic!("unexpected command {other:?}"),
        }
    });
    result.unwrap();
    assert!(note.unwrap().contains("rustup does not ship `loongarch64-unknown-linux-ohos`"));
    assert!(calls
        .iter()
        .all(|argv| argv.get(2).map(String::as_str) != Some("add")));
}

#[test]
fn errors_clearly_when_rustup_is_missing() {
    let error = ensure_target_with("aarch64-unknown-linux-ohos", &[], |argv| match argv[0] {
        "rustup" => not_found(),
        "rustc" => output(0, "/definitely-not-a-rust-std/lib\n"),
        other => panic!("unexpected program {other}"),
    })
    .1
    .unwrap_err();
    assert!(error.contains("rustup"));
    assert!(error.contains("rustup target add aarch64-unknown-linux-ohos"));
    assert!(error.contains("https://rustup.rs/"));
}

#[test]
fn rustc_sysroot_is_enough_when_rustup_is_missing() {
    let libdir = "/rust/lib/rustlib/aarch64-unknown-linux-ohos/lib";
    ensure_target_with("aarch64-unknown-linux-ohos", &[libdir], |argv| match argv {
        ["rustup", ..] => not_found(),
        ["rustc", "--print", "target-libdir", "--target", "aarch64-unknown-linux-ohos"] => {
            output(0, &format!("{libdir}\n"))
        }
        other => panic!("unexpected command {other:?}"),
    })
    .1
    .unwrap();
}

#[test]
fn rustc_sysroot_does_not_count_as_installed_when_the_libdir_is_absent() {
    let error = ensure_target_with("aarch64-unknown-linux-ohos", &[], |argv| match argv {
        ["rustup", ..] => not_found(),
        ["rustc", "--print", "target-libdir", "--target", "aarch64-unknown-linux-ohos"] => output(
            0,
            "/definitely-not-a-rust-std/lib/rustlib/aarch64-unknown-linux-ohos/lib\n",
        ),
        other => panic!("unexpected command {other:?}"),
    })
    .1
    .unwrap_err();
    assert!(error.contains("`rustup` was not found"));
}

#[test]
fn rustup_add_failure_includes_command_output() {
    let error = ensure_target_with("aarch64-unknown-linux-ohos", &[], |argv| match argv {
        ["rustup", "target", "list", "--installed"] => output(0, ""),
        ["rustup", "target", "list"] => output(0, "aarch64-unknown-linux-ohos\n"),
        ["rustup", "target", "add", "aarch64-unknown-linux-ohos"] => {
            failed(1, "error: could not download component\n")
        }
        other => panic!("unexpected command {other:?}"),
    })
    .1
    .unwrap_err();
    assert!(error.contains("rustup target add aarch64-unknown-linux-ohos"));
    assert!(error.contains("could not download component"));
}

#[test]
fn rustup_list_nonzero_exit_is_an_error() {
    let error = ensure_target_with("aarch64-unknown-linux-ohos", &[], |argv| {
        assert_eq!(argv, ["rustup", "target", "list", "--installed"]);
        failed(1, "error: no such command: `target`\n")
    })
    .1
    .unwrap_err();
    assert!(error.contains("rustup target list --installed"));
    assert!(error.contains("no such command"));
}

#[test]
fn a_rustc_that_fails_has_no_library() {
    let run = |rustc: Outcome| {
        let mut rustc = Some(rustc);
        ensure_target_with("t", &[""], |argv| match argv[0] {
            "rustup" => not_found(),
            _ => rustc.take().unwrap(),
        })
        .1
    };
    assert!(run(output(1, "/lib")).is_err());
    assert!(run(output(0, " \n")).is_err());
    assert!(run(not_found()).unwrap_err().contains("`rustup` was not found"));
    let denied = Err(RunError {
        not_found: false,
        message: "denied".to_owned(),
    });
    assert_eq!(
        run(denied).unwrap_err(),
        "could not run `rustc --print target-libdir --target t`: denied"
    );
}
