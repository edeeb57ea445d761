//! Fetching the archive of an SDK release, and taking out of it what is to be installed.

use crate::attestation::{
    attestation_url, attestation_url_of, auth_command, authentication, is_attested, Auth,
    Signer,
};
use crate::digest::{parse_sha256, sha256_text};
use crate::download::{
    asset_copies, exists_is, key_is_less, key_less, version_key, version_key_of, Asset,
};
use crate::process::{argv, succeeded, Outcome};
use crate::sdk::release::Selection;
use crate::text::{cat2, cat3, cat5, opt_text, split_whitespace, texts, words};
use vstd::prelude::*;

verus! {

/// The workflow that publishes the SDK archives.
pub open spec fn is_sdk_signer(signer: Signer) -> bool {
    &&& signer.repository@ == "openharmony-rs/ohos-sdk"@
    &&& signer.workflow@ == "openharmony-rs/ohos-sdk/.github/workflows/Release.yml"@
}

pub fn sdk_signer() -> (res: Signer)
    ensures
        is_sdk_signer(res),
{
    Signer {
        repository: "openharmony-rs/ohos-sdk",
        workflow: "openharmony-rs/ohos-sdk/.github/workflows/Release.yml",
    }
}

/// The last release from before the mirror attested every archive it publishes. A later release
/// without an attestation is not what the mirror's release workflow produces.
pub const LAST_UNATTESTED_RELEASE: &'static str = "7.0";

/// Whether every archive of this version has an attestation.
pub open spec fn must_be_attested(version: Seq<char>) -> bool {
    key_less(version_key_of("7.0"@), version_key_of(version))
}

pub fn requires_attestation(version: &str) -> (res: bool)
    ensures
        res == must_be_attested(version@),
{
    key_is_less(&version_key(LAST_UNATTESTED_RELEASE), &version_key(version))
}

/// The digest a checksum file gives: its first word.
pub open spec fn checksum_digest(text: Seq<char>) -> Option<Seq<char>> {
    let found = words(text);
    if found.len() > 0 {
        sha256_text(found[0])
    } else {
        None
    }
}

pub fn parse_checksum(text: &str) -> (res: Option<String>)
    ensures
        opt_text(res) == checksum_digest(text@),
{
    let found = split_whitespace(text);
    if found.len() > 0 {
        proof {
            assert(texts(found@)[0] == found@[0]@);
        }
        parse_sha256(found[0].as_str())
    } else {
        None
    }
}

/// What was seen so far while fetching an archive.
pub struct FetchSeen {
    /// The checksum file.
    pub checksum: Option<Result<String, String>>,
    pub auth: Option<Outcome>,
    /// The status the query for an attestation was answered with.
    pub attested: Option<Result<u16, String>>,
    pub downloaded: Option<Result<(), String>>,
    pub verified: Option<Result<(), String>>,
}

/// What to do next to fetch an archive.
pub enum FetchStep {
    /// Fetch the text at this address: `checksum`.
    FetchChecksum(String),
    /// Run this command: `auth`.
    Authenticate(Vec<String>),
    /// Request this address: `attested`.
    QueryAttestation(String),
    /// Print the note, and download the parts into one file, which has this digest: `downloaded`.
    Download { note: Option<String>, parts: Vec<Asset>, path: String, expected: String },
    /// Verify that this workflow of the repository built the file from the ref: `verified`.
    Verify {
        path: String,
        repository: &'static str,
        workflow: &'static str,
        source_ref: String,
    },
    Done(Result<(), String>),
}

pub open spec fn fetch_fails(step: FetchStep, message: Seq<char>) -> bool {
    step matches FetchStep::Done(Err(error)) && error@ == message
}

/// The download, and the verification of the attestation if there is one to verify.
pub open spec fn download_step(
    selection: Selection,
    archive: Seq<char>,
    expected: Seq<char>,
    note: Option<Seq<char>>,
    verify: bool,
    seen: FetchSeen,
    step: FetchStep,
) -> bool {
    match seen.downloaded {
        None => {
            &&& step matches FetchStep::Download { note: printed, parts, path, expected: digest }
            &&& opt_text(printed) == note
            &&& parts@ == selection.parts@
            &&& path@ == archive
            &&& digest@ == expected
        },
        Some(Err(error)) => fetch_fails(step, error@),
        Some(Ok(_)) => if verify {
            match seen.verified {
                None => {
                    &&& step matches FetchStep::Verify { path, repository, workflow, source_ref }
                    &&& path@ == archive
                    &&& repository@ == "openharmony-rs/ohos-sdk"@
                    &&& workflow@ == "openharmony-rs/ohos-sdk/.github/workflows/Release.yml"@
                    &&& source_ref@ == "refs/tags/v"@ + selection.version@
                },
                Some(Err(error)) => fetch_fails(step, error@),
                Some(Ok(_)) => step matches FetchStep::Done(Ok(_)),
            }
        } else {
            step matches FetchStep::Done(Ok(_))
        },
    }
}

/// What follows once `gh` is known to be usable. The mirror attests the archive as published
/// upstream, before it is split into parts; releases made before it did so have nothing to check.
pub open spec fn attested_step(
    selection: Selection,
    archive: Seq<char>,
    expected: Seq<char>,
    seen: FetchSeen,
    step: FetchStep,
) -> bool {
    let url = "https://api.github.com/repos/openharmony-rs/ohos-sdk/attestations/sha256:"@ + expected;
    match seen.attested {
        None => step matches FetchStep::QueryAttestation(asked) && asked@ == url,
        Some(response) => if response is Ok && response->Ok_0 < 400 {
            download_step(selection, archive, expected, None, true, seen, step)
        } else if response is Ok && response->Ok_0 == 404 {
            if must_be_attested(selection.version@) {
                fetch_fails(
                    step,
                    "release `v"@ + selection.version@
                        + "` has no build provenance attestation for `"@ + selection.archive_name@
                        + "`, which every release after 7.0 must have"@,
                )
            } else {
                download_step(
                    selection,
                    archive,
                    expected,
                    Some(
                        "note: release `v"@ + selection.version@
                            + "` has no build provenance attestation for the whole archive"@,
                    ),
                    false,
                    seen,
                    step,
                )
            }
        } else {
            step matches FetchStep::Done(Err(message)) && exists_is(url, response, Err(message))
        },
    }
}

/// The step that follows `seen`: the checksum first, to learn the expected digest; then whether there
/// is an attestation, so that a failed query costs no download; then the archive.
pub open spec fn fetch_step(
    selection: Selection,
    archive: Seq<char>,
    seen: FetchSeen,
    step: FetchStep,
) -> bool {
    match seen.checksum {
        None => step matches FetchStep::FetchChecksum(url) && url@
            == selection.sha256_asset.browser_download_url@,
        Some(Err(error)) => fetch_fails(step, error@),
        Some(Ok(text)) => match checksum_digest(text@) {
            None => fetch_fails(
                step,
                "asset `"@ + selection.sha256_asset.name@ + "` has no valid SHA-256 digest"@,
            ),
            Some(expected) => match seen.auth {
                None => step matches FetchStep::Authenticate(command) && texts(command@)
                    == auth_command(),
                Some(Ok(output)) => if succeeded(output) {
                    attested_step(selection, archive, expected, seen, step)
                } else {
                    download_step(
                        selection,
                        archive,
                        expected,
                        Some(
                            "note: `gh` is not authenticated; skipping GitHub artifact attestation verification"@,
                        ),
                        false,
                        seen,
                        step,
                    )
                },
                Some(Err(error)) => if error.not_found {
                    download_step(
                        selection,
                        archive,
                        expected,
                        Some(
                            "note: `gh` is not installed; skipping GitHub artifact attestation verification"@,
                        ),
                        false,
                        seen,
                        step,
                    )
                } else {
                    fetch_fails(step, "could not run `gh auth status`: "@ + error.message@)
                },
            },
        },
    }
}

fn download_next(
    selection: &Selection,
    archive: &str,
    expected: String,
    note: Option<String>,
    verify: bool,
    seen: &FetchSeen,
) -> (res: FetchStep)
    ensures
        download_step(*selection, archive@, expected@, opt_text(note), verify, *seen, res),
{
    match &seen.downloaded {
        None => FetchStep::Download {
            note,
            parts: asset_copies(&selection.parts),
            path: archive.to_owned(),
            expected,
        },
        Some(Err(error)) => FetchStep::Done(Err(error.clone())),
        Some(Ok(_)) => if verify {
            match &seen.verified {
                None => {
                    let signer = sdk_signer();
                    FetchStep::Verify {
                        path: archive.to_owned(),
                        repository: signer.repository,
                        workflow: signer.workflow,
                        source_ref: cat2("refs/tags/v", selection.version.as_str()),
                    }
                },
                Some(Err(error)) => FetchStep::Done(Err(error.clone())),
                Some(Ok(_)) => FetchStep::Done(Ok(())),
            }
        } else {
            FetchStep::Done(Ok(()))
        },
    }
}

proof fn lemma_sdk_attestation_url(digest: Seq<char>, signer: Signer)
    requires
        is_sdk_signer(signer),
    ensures
        attestation_url_of(digest, signer)
            == "https://api.github.com/repos/openharmony-rs/ohos-sdk/attestations/sha256:"@ + digest,
{
    reveal_strlit("https://api.github.com/repos/");
    reveal_strlit("openharmony-rs/ohos-sdk");
    reveal_strlit("/attestations/sha256:");
    reveal_strlit("https://api.github.com/repos/openharmony-rs/ohos-sdk/attestations/sha256:");
    assert("https://api.github.com/repos/"@ + "openharmony-rs/ohos-sdk"@ + "/attestations/sha256:"@
        =~= "https://api.github.com/repos/openharmony-rs/ohos-sdk/attestations/sha256:"@);
}

fn attested_next(selection: &Selection, archive: &str, expected: String, seen: &FetchSeen) -> (res:
    FetchStep)
    ensures
        attested_step(*selection, archive@, expected@, *seen, res),
{
    let signer = sdk_signer();
    proof {
        lemma_sdk_attestation_url(expected@, signer);
    }
    let response = match &seen.attested {
        None => return FetchStep::QueryAttestation(attestation_url(expected.as_str(), &signer)),
        Some(response) => response,
    };
    match is_attested(expected.as_str(), &signer, response) {
        Err(message) => FetchStep::Done(Err(message)),
        Ok(true) => download_next(selection, archive, expected, None, true, seen),
        Ok(false) => if requires_attestation(selection.version.as_str()) {
            FetchStep::Done(
                Err(
                    cat5(
                        "release `v",
                        selection.version.as_str(),
                        "` has no build provenance attestation for `",
                        selection.archive_name,
                        "`, which every release after 7.0 must have",
                    ),
                ),
            )
        } else {
            let note = cat3(
                "note: release `v",
                selection.version.as_str(),
                "` has no build provenance attestation for the whole archive",
            );
            download_next(selection, archive, expected, Some(note), false, seen)
        },
    }
}

/// Download the archive (any split parts into one file) and verify it against the mirror's checksum
/// and its attestation: the step that follows what was seen so far. `archive` is where it goes.
pub fn fetch_and_verify_archive(selection: &Selection, archive: &str, seen: &FetchSeen) -> (res:
    FetchStep)
    ensures
        fetch_step(*selection, archive@, *seen, res),
{
    let expected = match &seen.checksum {
        None => {
            return FetchStep::FetchChecksum(selection.sha256_asset.browser_download_url.clone());
        },
        Some(Err(error)) => return FetchStep::Done(Err(error.clone())),
        Some(Ok(text)) => match parse_checksum(text.as_str()) {
            Some(expected) => expected,
            None => {
                return FetchStep::Done(
                    Err(
                        cat3(
                            "asset `",
                            selection.sha256_asset.name.as_str(),
                            "` has no valid SHA-256 digest",
                        ),
                    ),
                );
            },
        },
    };
    let auth = match &seen.auth {
        None => {
            let command = argv(vec!["gh", "auth", "status", "--active", "--hostname", "github.com"]);
            proof {
                assert(texts(command@) =~= auth_command());
            }
            return FetchStep::Authenticate(command);
        },
        Some(outcome) => authentication(outcome),
    };
    match auth {
        Auth::Failed(message) => FetchStep::Done(Err(message)),
        Auth::Skipped(note) => download_next(selection, archive, expected, Some(note), false, seen),
        Auth::Authenticated => attested_next(selection, archive, expected, seen),
    }
}

/// An archive is accepted only after it was downloaded with the digest its checksum file gives; where
/// `gh` can be used, a release that must be attested is accepted only if its attestation was
/// verified.
pub proof fn law_archives_are_verified(
    selection: Selection,
    archive: Seq<char>,
    seen: FetchSeen,
    step: FetchStep,
)
    requires
        fetch_step(selection, archive, seen, step),
    ensures
        step is Download || step is Verify || (step matches FetchStep::Done(Ok(_))) ==> (
        seen.checksum matches Some(Ok(text)) && checksum_digest(text@) is Some),
        step matches FetchStep::Done(Ok(_)) ==> (seen.downloaded matches Some(Ok(_))),
        (step matches FetchStep::Done(Ok(_))) && must_be_attested(selection.version@) && (
        seen.auth matches Some(Ok(output)) && succeeded(output)) ==> (
        seen.verified matches Some(Ok(_))),
{
}

/// What is downloaded are the parts selected, checked against the digest of the checksum file; and what
/// is verified is that the mirror's release workflow made the archive from the tag of the version.
pub proof fn law_the_mirror_is_the_signer(
    selection: Selection,
    archive: Seq<char>,
    seen: FetchSeen,
    step: FetchStep,
)
    requires
        fetch_step(selection, archive, seen, step),
    ensures
        step matches FetchStep::Download { note, parts, path, expected } ==> {
            &&& parts@ == selection.parts@
            &&& path@ == archive
            &&& seen.checksum matches Some(Ok(text))
            &&& checksum_digest(text@) == Some(expected@)
        },
        step matches FetchStep::Verify { path, repository, workflow, source_ref } ==> {
            &&& path@ == archive
            &&& repository@ == "openharmony-rs/ohos-sdk"@
            &&& workflow@ == "openharmony-rs/ohos-sdk/.github/workflows/Release.yml"@
            &&& source_ref@ == "refs/tags/v"@ + selection.version@
        },
{
}

/// Nothing is done twice: each step asks for something that was not seen yet, so that carrying out the
/// steps comes to an end.
pub proof fn law_every_step_is_new(
    selection: Selection,
    archive: Seq<char>,
    seen: FetchSeen,
    step: FetchStep,
)
    requires
        fetch_step(selection, archive, seen, step),
    ensures
        step is FetchChecksum ==> seen.checksum is None,
        step is Authenticate ==> seen.auth is None,
        step is QueryAttestation ==> seen.attested is None,
        step is Download ==> seen.downloaded is None,
        step is Verify ==> seen.verified is None,
{
}

} // verus!
