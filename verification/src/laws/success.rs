//! Laws of success: what goes well where nothing stands in its way.

use crate::attestation::{verify_step, Seen as VerifySeen, Signer, Step as VerifyStep};
use crate::command::{exit_code_of, Invocation};
use crate::download::{
    digest_of, releases_step, safe_component, version_of, Asset, Release, ReleasesSeen,
    ReleasesStep,
};
use crate::path::{joined_path, Platform};
use crate::prebuilt;
use crate::process::succeeded;
use crate::run::{run_step, RunSeen, RunStep};
use crate::rustup::{ensure_step, target_list, Seen, Step};
use crate::sdk::extract::{component_archives, extract_step, ExtractSeen, ExtractStep};
use crate::sdk::fetch::{checksum_digest, fetch_step, must_be_attested, FetchSeen, FetchStep};
use crate::sdk::install;
use crate::sdk::release;
use crate::sdk::release::{archive_of, requested, Request, Selection};
use crate::text::{decimal, texts, trimmed, utf8_lossy};
use vstd::prelude::*;

verus! {

/// An artifact is accepted without a verification where `gh` cannot be used, because it is not there or
/// not authenticated, and only then; that it could not be run otherwise is an error.
pub proof fn law_artifacts_without_gh(
    artifact: Seq<char>,
    signer: Signer,
    source_ref: Seq<char>,
    seen: VerifySeen,
    step: VerifyStep,
)
    requires
        verify_step(artifact, signer, source_ref, seen, step),
    ensures
        (seen.auth matches Some(Ok(output)) && !succeeded(output)) ==> (step matches VerifyStep::Done {
            result: Ok(()),
            ..
        }),
        (seen.auth matches Some(Err(error)) && error.not_found) ==> (step matches VerifyStep::Done {
            result: Ok(()),
            ..
        }),
        (seen.auth matches Some(Err(error)) && !error.not_found) ==> (step matches VerifyStep::Done {
            result: Err(_),
            ..
        }),
        (seen.auth matches Some(Ok(output)) && succeeded(output)) && seen.verified is None ==> step is Verify,
        (seen.auth matches Some(Ok(output)) && succeeded(output)) && (seen.verified matches Some(Err(_)))
            ==> (step matches VerifyStep::Done { result: Err(_), .. }),
        seen.auth is None ==> step is Authenticate,
{
}

/// An archive whose digest is known is downloaded, with `gh` or without; one that was downloaded is
/// accepted, once it is verified where there is an attestation; and an old release needs none.
pub proof fn law_archives_that_are_fetched(
    selection: Selection,
    archive: Seq<char>,
    seen: FetchSeen,
    step: FetchStep,
)
    requires
        fetch_step(selection, archive, seen, step),
        seen.checksum matches Some(Ok(text)) && checksum_digest(text@) is Some,
    ensures
        ({
            let usable = seen.auth matches Some(Ok(output)) && succeeded(output);
            let skipped = seen.auth matches Some(answer) && match answer {
                Ok(output) => !succeeded(output),
                Err(error) => error.not_found,
            };
            let attested = seen.attested matches Some(Ok(status)) && status < 400;
            let unattested = seen.attested matches Some(Ok(status)) && status == 404;
            let plain = skipped || (usable && unattested && !must_be_attested(selection.version@));
            &&& seen.auth is None ==> step is Authenticate
            &&& usable && seen.attested is None ==> step is QueryAttestation
            &&& plain && seen.downloaded is None ==> step is Download
            &&& plain && (seen.downloaded matches Some(Ok(_))) ==> (step matches FetchStep::Done(Ok(_)))
            &&& usable && attested && seen.downloaded is None ==> step is Download
            &&& usable && attested && (seen.downloaded matches Some(Ok(_))) && seen.verified is None
                ==> step is Verify
            &&& usable && attested && (seen.downloaded matches Some(Ok(_))) && (
            seen.verified matches Some(Ok(_))) ==> (step matches FetchStep::Done(Ok(_)))
            &&& usable && unattested && must_be_attested(selection.version@) ==> (
            step matches FetchStep::Done(Err(_)))
            &&& (seen.downloaded matches Some(Err(_))) && (plain || (usable && attested)) ==> (
            step matches FetchStep::Done(Err(_)))
            &&& (seen.verified matches Some(Err(_))) && usable && attested && (
            seen.downloaded matches Some(Ok(_))) ==> (step matches FetchStep::Done(Err(_)))
            &&& usable && (seen.attested matches Some(Ok(status)) && status >= 400 && status != 404) ==> (
            step matches FetchStep::Done(Err(_)))
            &&& usable && (seen.attested matches Some(Err(_))) ==> (step matches FetchStep::Done(Err(_)))
            &&& seen.auth is Some && !usable && !skipped ==> (step matches FetchStep::Done(Err(_)))
        }),
{
}

/// A toolchain that is not there yet is installed where every step goes well.
pub proof fn law_toolchains_that_are_installed(
    root: Seq<char>,
    selection: prebuilt::Selection,
    paths: prebuilt::InstallPaths,
    seen: prebuilt::InstallSeen,
    step: prebuilt::InstallStep,
)
    requires
        prebuilt::install_step(root, selection, paths, seen, step),
        seen.root_created matches Some(Ok(_)),
        seen.locked matches Some(Ok(_)),
        seen.existing is Some,
        seen.staging_cleared matches Some(Ok(_)),
        seen.archive_cleared matches Some(Ok(_)),
        seen.auth matches Some(answer) && match answer {
            Ok(output) => true,
            Err(error) => error.not_found,
        },
        seen.downloaded matches Some(Ok(_)),
        seen.verified matches Some(Ok(_)),
        seen.staging_created matches Some(Ok(_)),
        seen.extracted matches Some(Ok(_)),
        seen.found matches Some(Ok(_)),
        seen.parent_created matches Some(Ok(_)),
        seen.install_cleared matches Some(Ok(_)),
        seen.moved matches Some(Ok(_)),
        seen.marked matches Some(Ok(_)),
        seen.cleaned,
    ensures
        step matches prebuilt::InstallStep::Done { result: Ok(dir), .. } && dir@ == paths.install@,
{
}

/// An SDK that is not there yet is installed where every step goes well, in the directory of its level.
pub proof fn law_sdks_that_are_installed(
    platform: Platform,
    root: Seq<char>,
    selection: Selection,
    asked: Option<Set<Seq<char>>>,
    paths: install::InstallPaths,
    seen: install::InstallSeen,
    step: install::InstallStep,
    level: u32,
)
    requires
        install::install_step(platform, root, selection, asked, paths, seen, step),
        seen.root_created matches Some(Ok(_)),
        seen.locked matches Some(Ok(_)),
        seen.existing matches Some((None, _)),
        seen.staging_cleared matches Some(Ok(_)),
        seen.archive_cleared matches Some(Ok(_)),
        seen.fetched matches Some(Ok(_)),
        seen.staging_created matches Some(Ok(_)),
        seen.host_extracted matches Some(Ok(_)),
        seen.archive_dropped matches Some(Ok(_)),
        seen.api matches Some(Ok(found)) && found == level,
        seen.invalidated matches Some(Ok(_)),
        seen.base_cleared matches Some(Ok(_)),
        seen.base_created matches Some(Ok(_)),
        seen.moved matches Some(Ok(_)),
        seen.marked matches Some(Ok(_)),
        seen.cleaned,
    ensures
        step matches install::InstallStep::Done { result: Ok(dir), .. } && dir@ == joined_path(
            platform,
            paths.base@,
            decimal(level as nat),
        ),
{
}

/// What is unpacked for an SDK that is there already has the components it has, along with those asked
/// for.
pub proof fn law_nothing_installed_is_lost(
    platform: Platform,
    root: Seq<char>,
    selection: Selection,
    asked: Option<Set<Seq<char>>>,
    paths: install::InstallPaths,
    seen: install::InstallSeen,
    step: install::InstallStep,
)
    requires
        install::install_step(platform, root, selection, asked, paths, seen, step),
    ensures
        step matches install::InstallStep::ExtractHost { archive, staging, components } ==> (
        seen.existing matches Some(existing) && (install::installed_components(existing, selection)
            matches Some(have) ==> crate::sdk::components::covers_all(components@, have))),
{
    if let install::InstallStep::ExtractHost { archive, staging, components } = step {
        let installed = install::installed_components(seen.existing->Some_0, selection);
        if installed is Some {
            crate::sdk::components::law_union_adds(installed->Some_0, asked, asked);
            crate::sdk::components::law_covering_is_an_order(
                installed->Some_0,
                installed->Some_0,
                installed->Some_0,
            );
        }
    }
}

/// Unpacking ends with the level that is declared first, where there were archives and all of them were
/// unpacked.
pub proof fn law_archives_that_are_unpacked(
    platform: Platform,
    dir: Seq<char>,
    seen: ExtractSeen,
    step: ExtractStep,
    names: Vec<String>,
)
    requires
        extract_step(platform, dir, seen, step),
        seen.listed == Some(Ok::<Vec<String>, String>(names)),
    ensures
        ({
            let archives = component_archives(texts(names@));
            let all = archives.len() > 0 && seen.unpacked >= archives.len();
            &&& archives.len() == 0 ==> (step matches ExtractStep::Done(Err(_)))
            &&& archives.len() > 0 && seen.unpacked < archives.len() && seen.failure is None ==> step is Unpack
            &&& archives.len() > 0 && seen.unpacked < archives.len() && seen.failure is Some ==> (
            step matches ExtractStep::Done(Err(_)))
            &&& all && seen.levels is None ==> step is ReadLevels
            &&& all && (seen.levels matches Some(Ok(levels)) && exists|i: int|
                0 <= i < levels@.len() && (#[trigger] levels@[i]) is Some) ==> (
            step matches ExtractStep::Done(Ok(_)))
            &&& all && (seen.levels matches Some(Ok(levels)) && forall|i: int|
                0 <= i < levels@.len() ==> (#[trigger] levels@[i]) is None) ==> (
            step matches ExtractStep::Done(Err(_)))
        }),
{
    if let Some(Ok(levels)) = seen.levels {
        crate::laws::installs::law_the_first_level(levels@);
    }
}

/// A toolchain is selected where the host is one there are toolchains for, a release matches, its version
/// is safe in a path, and it has an archive for the host with a digest.
pub proof fn law_toolchains_that_are_selected(
    releases: Seq<Release>,
    asked: Seq<char>,
    os: Seq<char>,
    arch: Seq<char>,
    res: Result<prebuilt::Selection, String>,
    id: Seq<char>,
    release: Release,
    at: int,
)
    requires
        prebuilt::select_is(releases, asked, os, arch, res),
        prebuilt::host_id(os, arch) == Some(id),
        crate::download::chosen(
            crate::download::published(releases, "toolchain-"@),
            "toolchain-"@,
            asked,
        ) == Some(release),
        safe_component(version_of(release, "toolchain-"@)),
        0 <= at < release.assets@.len(),
        ("clang_"@ + id + "-"@).is_prefix_of(release.assets@[at].name@),
        ".tar.gz"@.is_suffix_of(release.assets@[at].name@),
        forall|j: int|
            0 <= j < at ==> !(("clang_"@ + id + "-"@).is_prefix_of(
                (#[trigger] release.assets@[j]).name@,
            ) && ".tar.gz"@.is_suffix_of(release.assets@[j].name@)),
    ensures
        res is Ok <==> digest_of(release.assets@[at]) is Some,
        res matches Ok(selection) ==> selection.asset == release.assets@[at],
{
    let archive = |asset: Asset| prebuilt::is_archive(asset, id);
    crate::sort::lemma_first_index(release.assets@, archive, at);
}

/// An SDK is selected where there are archives for the host, a release is what was requested, its version
/// is safe in a path, and it has the archive and its checksum.
pub proof fn law_sdks_that_are_selected(
    releases: Seq<Release>,
    request: Request,
    os: Seq<char>,
    arch: Seq<char>,
    res: Result<Selection, String>,
)
    requires
        release::select_is(releases, request, os, arch, res),
    ensures
        res is Ok <==> (archive_of(os, arch) matches Some(archive) && requested(
            crate::download::published(releases, "v"@),
            request,
        ) matches Some(found) && safe_component(version_of(found, "v"@)) && (exists|i: int|
            0 <= i < found.assets@.len() && release::is_part(
                (#[trigger] found.assets@[i]).name@,
                archive,
            )) && (exists|i: int|
            0 <= i < found.assets@.len() && (#[trigger] found.assets@[i]).name@ == archive
                + ".sha256"@)),
{
    if archive_of(os, arch) is Some && requested(
        crate::download::published(releases, "v"@),
        request,
    ) is Some {
        let archive = archive_of(os, arch)->Some_0;
        let found = requested(crate::download::published(releases, "v"@), request)->Some_0;
        let assets = found.assets@;
        lemma_something_is_kept(assets, archive);
        let named = |a: Asset| a.name@ == archive + ".sha256"@;
        crate::laws::sdk::lemma_last_index_bounds(assets, named);
        let at = crate::sort::last_index(assets, named);
        if at >= 0 {
            assert(named(assets[at]));
        } else {
            assert forall|i: int| 0 <= i < assets.len() implies (#[trigger] assets[i]).name@ != archive
                + ".sha256"@ by {
                assert(!named(assets[i]));
            }
        }
    }
}

proof fn lemma_something_is_kept(assets: Seq<Asset>, archive: Seq<char>)
    ensures
        release::archive_parts(assets, archive).len() > 0 <==> exists|i: int|
            0 <= i < assets.len() && release::is_part((#[trigger] assets[i]).name@, archive),
{
    broadcast use vstd::seq_lib::group_filter_ensures;

    let part = |a: Asset| release::is_part(a.name@, archive);
    let kept = release::archive_parts(assets, archive);
    if kept.len() > 0 {
        assert(kept.contains(kept[0]));
        assets.lemma_filter_contains_rev(part, kept[0]);
        let i = choose|i: int| 0 <= i < assets.len() && assets[i] == kept[0];
        assert(part(kept[0]));
        assert(release::is_part(assets[i].name@, archive));
    }
    if exists|i: int| 0 <= i < assets.len() && release::is_part((#[trigger] assets[i]).name@, archive) {
        let i = choose|i: int|
            0 <= i < assets.len() && release::is_part((#[trigger] assets[i]).name@, archive);
        assert(part(assets[i]));
        assert(kept.contains(assets[i]));
    }
}

/// Metadata is used once it is there: fresh from the cache, or fetched, understood and written, or where
/// it could not be fetched from the cache after all.
pub proof fn law_metadata_that_is_used(
    platform: Platform,
    root: Seq<char>,
    url: Seq<char>,
    seen: ReleasesSeen,
    step: ReleasesStep,
)
    requires
        releases_step(platform, root, url, seen, step),
        seen.created matches Some(Ok(_)),
        seen.locked matches Some(Ok(_)),
    ensures
        (seen.age matches Some(Some((seconds, _))) && seconds < 3600) && seen.cached == Some(true) ==> (
        step matches ReleasesStep::UseCached(None)),
        seen.age == Some(None::<(u64, u32)>) && (seen.fetched matches Some(Ok(_))) && (
        seen.parsed matches Some(Ok(_))) && (seen.written matches Some(Ok(_))) ==> step is UseFetched,
        seen.age == Some(None::<(u64, u32)>) && (seen.fetched matches Some(Err(_))) && seen.cached == Some(
            true,
        ) ==> step is UseCached,
        seen.age == Some(None::<(u64, u32)>) && (seen.fetched matches Some(Err(_))) && seen.cached == Some(
            false,
        ) ==> step is Fail,
        seen.age == Some(None::<(u64, u32)>) && (seen.parsed matches Some(Err(_))) && (
        seen.fetched matches Some(Ok(_))) ==> step is Fail,
{
}

/// A target that rustup does not ship is not an error, nor one that rustc has a library directory for
/// where there is no rustup; without either it is.
pub proof fn law_targets_that_cannot_be_added(triple: Seq<char>, seen: Seen, step: Step)
    requires
        ensure_step(triple, seen, step),
    ensures
        ({
            let lacking = seen.installed matches Some(Ok(output)) && succeeded(output) && !target_list(
                output.stdout@,
            ).contains(triple);
            let no_rustup = seen.installed matches Some(Err(error)) && error.not_found;
            let has_path = seen.libdir matches Some(Ok(output)) && succeeded(output) && trimmed(
                utf8_lossy(output.stdout@),
            ).len() > 0;
            &&& lacking && seen.available is None ==> step is ListAvailable
            &&& lacking && (seen.available matches Some(Ok(output)) && succeeded(output) && !target_list(
                output.stdout@,
            ).contains(triple)) ==> (step matches Step::Done { result: Ok(()), .. })
            &&& lacking && (seen.available matches Some(Ok(output)) && succeeded(output) && target_list(
                output.stdout@,
            ).contains(triple)) && seen.added is None ==> step is Add
            &&& lacking && (seen.available matches Some(Ok(output)) && succeeded(output) && target_list(
                output.stdout@,
            ).contains(triple)) && (seen.added matches Some(Ok(output)) && succeeded(output)) ==> (
            step matches Step::Done { result: Ok(()), .. })
            &&& no_rustup && seen.libdir is None ==> step is PrintLibdir
            &&& no_rustup && has_path && seen.libdir_exists is None ==> step is IsDirectory
            &&& no_rustup && has_path && seen.libdir_exists == Some(true) ==> (step matches Step::Done {
                result: Ok(()),
                ..
            })
            &&& no_rustup && has_path && seen.libdir_exists == Some(false) ==> (step matches Step::Done {
                result: Err(_),
                ..
            })
            &&& no_rustup && seen.libdir is Some && !has_path ==> (step matches Step::Done {
                result: Err(_),
                ..
            })
        }),
{
}

/// A run ends as cargo does, and one for help with the help on the tool's own options behind cargo's.
pub proof fn law_runs_end_as_cargo_does(
    platform: Platform,
    invocation: Invocation,
    ambient: Map<Seq<char>, Seq<char>>,
    seen: RunSeen,
    step: RunStep,
)
    requires
        run_step(platform, invocation, ambient, seen, step),
    ensures
        step matches RunStep::Exit { code } ==> (seen.ran matches Some(Ok(last)) && code == exit_code_of(
            last,
        ) && !invocation.help),
        step matches RunStep::PrintOptions { code } ==> (seen.ran matches Some(Ok(last)) && code
            == exit_code_of(last) && invocation.help),
        invocation.help && seen.ran is None ==> step is ShowHelp,
        invocation.help && (seen.ran matches Some(Ok(_))) ==> step is PrintOptions,
        !invocation.help && seen.built is None ==> step is Build,
        !invocation.help && (seen.built matches Some(Err(_))) ==> step is Fail,
        !invocation.help && (seen.built matches Some(Ok(_))) && seen.ran is None ==> !(step is Exit)
            && !(step is Build),
{
}

} // verus!
