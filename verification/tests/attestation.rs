use cargo_ohos::attestation::{
    attestation_url, available, is_attested, verify, with_command_output, Seen, Signer, Step,
};
use cargo_ohos::process::{Outcome, Output, RunError};

fn ran(code: i32, stdout: &str, stderr: &str) -> Outcome {
    Ok(Output {
        code: Some(code),
        stdout: stdout.as_bytes().to_vec(),
        stderr: stderr.as_bytes().to_vec(),
    })
}

fn not_run(not_found: bool, message: &str) -> Outcome {
    Err(RunError {
        not_found,
        message: message.to_owned(),
    })
}

fn signer() -> Signer {
    Signer {
        repository: "openharmony-rs/ohos-sdk",
        workflow: "openharmony-rs/ohos-sdk/.github/workflows/Release.yml",
    }
}

/// Runs the verification; the result is its end and the arguments of the commands.
fn run(answers: Vec<Outcome>) -> (Option<String>, Result<(), String>, Vec<String>) {
    let mut answers = answers.into_iter();
    let mut seen = Seen {
        auth: None,
        verified: None,
    };
    let mut commands = Vec::new();
    loop {
        match verify("archive.tar.gz", &signer(), "refs/tags/v7.0", &seen) {
            Step::Authenticate(command) => {
                assert_eq!(command[0], "gh");
                commands.push(command[1..].join(" "));
                seen.auth = answers.next();
            }
            Step::Verify(command) => {
                assert_eq!(command[0], "gh");
                commands.push(command[1..].join(" "));
                seen.verified = answers.next();
            }
            Step::Done { note, result } => return (note, result, commands),
        }
    }
}

#[test]
fn verifies_the_artifact_against_the_signer_and_ref() {
    let (note, result, commands) = run(vec![ran(0, "", ""), ran(0, "", "")]);

    assert!(result.is_ok(), "{result:?}");
    assert_eq!(note.as_deref(), Some("note: GitHub artifact attestation verified"));
    assert_eq!(commands.len(), 2);
    assert!(commands[0].starts_with("auth status"), "{}", commands[0]);
    assert!(
        commands[1].contains("--repo openharmony-rs/ohos-sdk"),
        "{}",
        commands[1]
    );
    assert!(
        commands[1]
            .contains("--signer-workflow openharmony-rs/ohos-sdk/.github/workflows/Release.yml"),
        "{}",
        commands[1]
    );
    assert!(
        commands[1].contains("--source-ref refs/tags/v7.0"),
        "{}",
        commands[1]
    );
}

#[test]
fn includes_captured_command_output_in_errors() {
    let message = with_command_output(
        "verification failed".to_owned(),
        b"attestation details\n",
        b"verification error\n",
    );

    assert_eq!(
        message,
        "verification failed\nstdout:\nattestation details\nstderr:\nverification error"
    );
}

#[test]
fn an_unusable_gh_skips_the_verification() {
    let (note, result, commands) = run(vec![not_run(true, "missing")]);
    assert!(result.is_ok());
    assert!(note.unwrap().contains("`gh` is not installed"));
    assert_eq!(commands.len(), 1);

    let (note, result, commands) = run(vec![ran(1, "", "")]);
    assert!(result.is_ok());
    assert!(note.unwrap().contains("`gh` is not authenticated"));
    assert_eq!(commands.len(), 1);

    assert_eq!(available(&not_run(true, "missing")), Ok(false));
    assert_eq!(available(&ran(4, "", "")), Ok(false));
    assert_eq!(available(&ran(0, "", "")), Ok(true));
}

#[test]
fn a_failed_verification_is_an_error() {
    let (_, result, _) = run(vec![ran(0, "", ""), ran(1, "", "no attestation\n")]);
    assert_eq!(
        result.unwrap_err(),
        "GitHub artifact attestation verification failed for archive.tar.gz\nstderr:\nno attestation"
    );
    let (_, result, _) = run(vec![ran(0, "", ""), not_run(true, "gone")]);
    assert_eq!(result.unwrap_err(), "could not run `gh attestation verify`: gone");
    let (_, result, _) = run(vec![not_run(false, "denied")]);
    assert_eq!(result.unwrap_err(), "could not run `gh auth status`: denied");
    assert_eq!(
        available(&not_run(false, "denied")),
        Err("could not run `gh auth status`: denied".to_owned())
    );
}

#[test]
fn attestations_are_looked_up_by_digest() {
    assert_eq!(
        attestation_url("abc", &signer()),
        "https://api.github.com/repos/openharmony-rs/ohos-sdk/attestations/sha256:abc"
    );
    assert_eq!(is_attested("abc", &signer(), &Ok(200)), Ok(true));
    assert_eq!(is_attested("abc", &signer(), &Ok(404)), Ok(false));
    assert!(is_attested("abc", &signer(), &Ok(500)).is_err());
}
