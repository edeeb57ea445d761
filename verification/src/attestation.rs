//! Verification of the GitHub build provenance attestations the mirrors publish for their release
//! artifacts, via the `gh` CLI.

use crate::process::{argv, succeeded, with_output, Outcome};
use crate::text::{cat2, cat4, texts};
use vstd::prelude::*;

pub use crate::process::with_command_output;

verus! {

/// The workflow allowed to have produced an artifact.
pub struct Signer {
    pub repository: &'static str,
    pub workflow: &'static str,
}

/// Where GitHub lists the attestations covering `digest`.
pub open spec fn attestation_url_of(digest: Seq<char>, signer: Signer) -> Seq<char> {
    "https://api.github.com/repos/"@ + signer.repository@ + "/attestations/sha256:"@ + digest
}

pub fn attestation_url(digest: &str, signer: &Signer) -> (res: String)
    ensures
        res@ == attestation_url_of(digest@, *signer),
{
    cat4("https://api.github.com/repos/", signer.repository, "/attestations/sha256:", digest)
}

/// Whether the signer's repository published an attestation covering `digest`, from what the
/// request for [`attestation_url`] was answered. Releases made before a mirror started attesting
/// have none, and cannot be verified.
pub fn is_attested(digest: &str, signer: &Signer, response: &Result<u16, String>) -> (res: Result<
    bool,
    String,
>)
    ensures
        crate::download::exists_is(attestation_url_of(digest@, *signer), *response, res),
{
    crate::download::resource_exists(attestation_url(digest, signer).as_str(), response)
}

/// Whether `gh` can be used.
pub enum Auth {
    Authenticated,
    /// It cannot, and verification is skipped with this note.
    Skipped(String),
    Failed(String),
}

/// What the outcome of `gh auth status` says.
pub open spec fn auth_is(outcome: Outcome, auth: Auth) -> bool {
    match outcome {
        Ok(output) => if succeeded(output) {
            auth is Authenticated
        } else {
            auth matches Auth::Skipped(note) && note@
                == "note: `gh` is not authenticated; skipping GitHub artifact attestation verification"@
        },
        Err(error) => if error.not_found {
            auth matches Auth::Skipped(note) && note@
                == "note: `gh` is not installed; skipping GitHub artifact attestation verification"@
        } else {
            auth matches Auth::Failed(message) && message@ == "could not run `gh auth status`: "@
                + error.message@
        },
    }
}

pub fn authentication(outcome: &Outcome) -> (res: Auth)
    ensures
        auth_is(*outcome, res),
{
    match outcome {
        Ok(output) => if output.success() {
            Auth::Authenticated
        } else {
            Auth::Skipped(
                "note: `gh` is not authenticated; skipping GitHub artifact attestation verification".to_owned(),
            )
        },
        Err(error) => if error.not_found {
            Auth::Skipped(
                "note: `gh` is not installed; skipping GitHub artifact attestation verification".to_owned(),
            )
        } else {
            Auth::Failed(cat2("could not run `gh auth status`: ", error.message.as_str()))
        },
    }
}

/// Whether attestations can be verified at all, from the outcome of `gh auth status`.
pub fn available(outcome: &Outcome) -> (res: Result<bool, String>)
    ensures
        match *outcome {
            Ok(output) => res == Ok::<bool, String>(succeeded(output)),
            Err(error) => if error.not_found {
                res == Ok::<bool, String>(false)
            } else {
                res matches Err(message) && message@ == "could not run `gh auth status`: "@
                    + error.message@
            },
        },
{
    match authentication(outcome) {
        Auth::Authenticated => Ok(true),
        Auth::Skipped(_) => Ok(false),
        Auth::Failed(message) => Err(message),
    }
}

/// The command that tells whether `gh` is authenticated.
pub open spec fn auth_command() -> Seq<Seq<char>> {
    seq!["gh"@, "auth"@, "status"@, "--active"@, "--hostname"@, "github.com"@]
}

/// The command that verifies `artifact`.
pub open spec fn verify_command(artifact: Seq<char>, signer: Signer, source_ref: Seq<char>) -> Seq<
    Seq<char>,
> {
    seq![
        "gh"@,
        "attestation"@,
        "verify"@,
        artifact,
        "--repo"@,
        signer.repository@,
        "--signer-workflow"@,
        signer.workflow@,
        "--source-ref"@,
        source_ref,
        "--deny-self-hosted-runners"@,
    ]
}

/// The outcomes of the commands run so far.
pub struct Seen {
    pub auth: Option<Outcome>,
    pub verified: Option<Outcome>,
}

/// What to do next.
pub enum Step {
    /// Run this command, and record its outcome as `auth`.
    Authenticate(Vec<String>),
    /// Run this command, and record its outcome as `verified`.
    Verify(Vec<String>),
    /// Print the note, and end with the result.
    Done { note: Option<String>, result: Result<(), String> },
}

/// The step that follows `seen`: `gh` verifies the artifact only once it is known to be
/// authenticated, and the verification succeeds if `gh` says so or cannot be used at all.
pub open spec fn verify_step(
    artifact: Seq<char>,
    signer: Signer,
    source_ref: Seq<char>,
    seen: Seen,
    step: Step,
) -> bool {
    match seen.auth {
        None => step matches Step::Authenticate(command) && texts(command@) == auth_command(),
        Some(outcome) => {
            let ready = outcome is Ok && succeeded(outcome->Ok_0);
            let skipped = if outcome is Ok {
                !ready
            } else {
                outcome->Err_0.not_found
            };
            if ready {
                match seen.verified {
                    None => step matches Step::Verify(command) && texts(command@) == verify_command(
                        artifact,
                        signer,
                        source_ref,
                    ),
                    Some(Ok(output)) => if succeeded(output) {
                        step matches Step::Done { note: Some(note), result: Ok(()) } && note@
                            == "note: GitHub artifact attestation verified"@
                    } else {
                        step matches Step::Done { note: None, result: Err(message) } && message@
                            == with_output(
                            "GitHub artifact attestation verification failed for "@ + artifact,
                            output.stdout@,
                            output.stderr@,
                        )
                    },
                    Some(Err(error)) => {
                        step matches Step::Done { note: None, result: Err(message) } && message@
                            == "could not run `gh attestation verify`: "@ + error.message@
                    },
                }
            } else if skipped {
                step matches Step::Done { note: Some(note), result: Ok(()) } && auth_is(
                    outcome,
                    Auth::Skipped(note),
                )
            } else {
                step matches Step::Done { note: None, result: Err(message) } && auth_is(
                    outcome,
                    Auth::Failed(message),
                )
            }
        },
    }
}

/// Verify that `artifact` was built by `signer`'s workflow at `source_ref`: the step that follows
/// what was seen so far.
pub fn verify(artifact: &str, signer: &Signer, source_ref: &str, seen: &Seen) -> (res: Step)
    ensures
        verify_step(artifact@, *signer, source_ref@, *seen, res),
{
    let auth = match &seen.auth {
        None => {
            let command = argv(vec!["gh", "auth", "status", "--active", "--hostname", "github.com"]);
            proof {
                assert(texts(command@) =~= auth_command());
            }
            return Step::Authenticate(command);
        },
        Some(outcome) => authentication(outcome),
    };
    match auth {
        Auth::Skipped(note) => return Step::Done { note: Some(note), result: Ok(()) },
        Auth::Failed(message) => return Step::Done { note: None, result: Err(message) },
        Auth::Authenticated => {},
    }
    match &seen.verified {
        None => {
            let command = argv(
                vec![
                    "gh",
                    "attestation",
                    "verify",
                    artifact,
                    "--repo",
                    signer.repository,
                    "--signer-workflow",
                    signer.workflow,
                    "--source-ref",
                    source_ref,
                    "--deny-self-hosted-runners",
                ],
            );
            proof {
                assert(texts(command@) =~= verify_command(artifact@, *signer, source_ref@));
            }
            Step::Verify(command)
        },
        Some(Ok(output)) => if output.success() {
            Step::Done {
                note: Some("note: GitHub artifact attestation verified".to_owned()),
                result: Ok(()),
            }
        } else {
            let message = cat2("GitHub artifact attestation verification failed for ", artifact);
            Step::Done {
                note: None,
                result: Err(
                    with_command_output(message, output.stdout.as_slice(), output.stderr.as_slice()),
                ),
            }
        },
        Some(Err(error)) => {
            let message = cat2("could not run `gh attestation verify`: ", error.message.as_str());
            Step::Done { note: None, result: Err(message) }
        },
    }
}

/// An artifact is accepted only if `gh` verified it or is not usable; once `gh` has failed to verify
/// it, or could not be run although it is authenticated, it is refused.
pub proof fn law_refused_artifacts_are_not_accepted(
    artifact: Seq<char>,
    signer: Signer,
    source_ref: Seq<char>,
    seen: Seen,
    step: Step,
)
    requires
        verify_step(artifact, signer, source_ref, seen, step),
        step matches Step::Done { result: Ok(()), .. },
    ensures
        seen.auth matches Some(auth) && match auth {
            Ok(output) => succeeded(output) ==> (seen.verified matches Some(Ok(verified))
                && succeeded(verified)),
            Err(error) => error.not_found,
        },
{
}

/// Nothing is done twice: each step asks for something that was not seen yet, so that carrying out the
/// steps comes to an end.
pub proof fn law_every_step_is_new(
    artifact: Seq<char>,
    signer: Signer,
    source_ref: Seq<char>,
    seen: Seen,
    step: Step,
)
    requires
        verify_step(artifact, signer, source_ref, seen, step),
    ensures
        step is Authenticate ==> seen.auth is None,
        step is Verify ==> seen.verified is None,
{
}

} // verus!
