//! Laws of toolchains: what one consists of, and which prebuilt one is installed where.

use crate::attestation::{
    attestation_url_of, auth_command, verify_command, verify_step, Seen as VerifySeen, Signer,
    Step as VerifyStep,
};
use crate::build_env::Error;
use crate::download::{digest_of, matches_version, publishes, safe_component, version_of, Release};
use crate::path::{joined_path, program_of, Platform};
use crate::prebuilt::{
    asset_prefix_of, directories_of, host_id, is_archive, marker_of, paths_are, resolve_step,
    root_is, select_is, toolchains_in, Entry, InstallPaths, ResolveSeen, ResolveStep, Selection,
};
use crate::process::succeeded;
use crate::sdk::Sdk;
use crate::sort::{first_index, lemma_first_index_bounds};
use crate::target::Target;
use crate::text::{has_slice, texts};
use crate::toolchain::{
    has_libclang, is_libclang, libcxx_headers_of, libcxx_of, resolve_is, tool_names, Found,
    Toolchain,
};
use vstd::prelude::*;

verus! {

/// Where the tool `name` of a toolchain is.
pub open spec fn tool_at(platform: Platform, root: Seq<char>, name: Seq<char>) -> Seq<char> {
    program_of(platform, joined_path(platform, joined_path(platform, root, "bin"@), name))
}

/// Each tool of a toolchain is the program of its name in the toolchain's own directory of programs; the
/// toolchain is the one that was given, or else the SDK's.
pub proof fn law_tools_are_what_they_are_called(
    platform: Platform,
    sdk: Sdk,
    llvm: Option<String>,
    found: Found,
    toolchain: Toolchain,
)
    requires
        resolve_is(platform, sdk, llvm, found, Ok::<Toolchain, Error>(toolchain)),
    ensures
        ({
            let root = toolchain.root@;
            &&& toolchain.clang@ == tool_at(platform, root, "clang"@)
            &&& toolchain.clangxx@ == tool_at(platform, root, "clang++"@)
            &&& toolchain.ar@ == tool_at(platform, root, "llvm-ar"@)
            &&& toolchain.ranlib@ == tool_at(platform, root, "llvm-ranlib"@)
            &&& toolchain.strip@ == tool_at(platform, root, "llvm-strip"@)
            &&& toolchain.objcopy@ == tool_at(platform, root, "llvm-objcopy"@)
            &&& toolchain.readelf@ == tool_at(platform, root, "llvm-readelf"@)
            &&& llvm is None ==> root == sdk.llvm_root@
            &&& llvm is Some ==> (found.canonical_llvm matches Ok(given) && root == given@)
            &&& llvm is Some ==> found.directories@.contains(
                joined_path(platform, joined_path(platform, root, "include"@), "libcxx-ohos"@),
            )
            &&& toolchain.libclang_dir@ == joined_path(platform, root, "lib"@) || (platform
                == Platform::Windows && toolchain.libclang_dir@ == joined_path(platform, root, "bin"@))
            &&& toolchain.libclang_dir@ == joined_path(platform, root, "lib"@) || has_libclang(
                platform,
                texts(found.bin_entries@),
            )
            &&& has_libclang(platform, texts(found.lib_entries@)) ==> toolchain.libclang_dir@
                == joined_path(platform, root, "lib"@)
            &&& !has_libclang(platform, texts(found.lib_entries@)) ==> toolchain.libclang_dir@
                == joined_path(platform, root, "bin"@)
        }),
{
}

/// The tools that are looked for are those that are used, and no others.
pub proof fn law_tools_that_are_looked_for(name: Seq<char>)
    ensures
        tool_names().contains(name) <==> {
            ||| name == "clang"@
            ||| name == "clang++"@
            ||| name == "llvm-ar"@
            ||| name == "llvm-ranlib"@
            ||| name == "llvm-strip"@
            ||| name == "llvm-objcopy"@
            ||| name == "llvm-readelf"@
        },
{
    let all = tool_names();
    assert(all.len() == 7);
    assert(all[0] == "clang"@ && all[1] == "clang++"@ && all[2] == "llvm-ar"@ && all[3]
        == "llvm-ranlib"@ && all[4] == "llvm-strip"@ && all[5] == "llvm-objcopy"@ && all[6]
        == "llvm-readelf"@);
    if all.contains(name) {
        let i = choose|i: int| 0 <= i < all.len() && all[i] == name;
        assert(all[i] == name);
    }
}

/// A toolchain that has all its tools, its libclang, and where it is not the SDK's its C++ headers, is
/// resolved; of another it is said what is missing, and that is missing.
pub proof fn law_what_is_missing_is_named(
    platform: Platform,
    sdk: Sdk,
    llvm: Option<String>,
    found: Found,
    res: Result<Toolchain, Error>,
)
    requires
        resolve_is(platform, sdk, llvm, found, res),
        llvm is Some ==> found.canonical_llvm is Ok,
    ensures
        ({
            let root = match llvm {
                None => sdk.llvm_root@,
                Some(_) => found.canonical_llvm->Ok_0@,
            };
            let files = found.files@;
            let has_headers = llvm is None || found.directories@.contains(
                joined_path(platform, joined_path(platform, root, "include"@), "libcxx-ohos"@),
            );
            let has_tools = files.contains(tool_at(platform, root, "clang"@)) && files.contains(
                tool_at(platform, root, "clang++"@),
            ) && files.contains(tool_at(platform, root, "llvm-ar"@)) && files.contains(
                tool_at(platform, root, "llvm-ranlib"@),
            ) && files.contains(tool_at(platform, root, "llvm-strip"@)) && files.contains(
                tool_at(platform, root, "llvm-objcopy"@),
            ) && files.contains(tool_at(platform, root, "llvm-readelf"@));
            let has_clang = has_libclang(platform, texts(found.lib_entries@)) || (platform
                == Platform::Windows && has_libclang(platform, texts(found.bin_entries@)));
            &&& res is Ok <==> has_headers && has_tools && has_clang
            &&& res matches Err(Error::MissingTool { path }) ==> !files.contains(path@)
            &&& res matches Err(Error::MissingLibclang { path }) ==> !has_clang && has_tools
            &&& res matches Err(Error::InvalidToolchain { path }) ==> !has_headers && path@ == root
        }),
{
    let root = match llvm {
        None => sdk.llvm_root@,
        Some(_) => found.canonical_llvm->Ok_0@,
    };
    let files = found.files@;
    let names = tool_names();
    let missing = |name: Seq<char>| !files.contains(
        crate::toolchain::tool_path(platform, root, name),
    );
    lemma_first_index_bounds(names, missing);
    let at = first_index(names, missing) as int;
    assert(names[0] == "clang"@ && names[1] == "clang++"@ && names[2] == "llvm-ar"@ && names[3]
        == "llvm-ranlib"@ && names[4] == "llvm-strip"@ && names[5] == "llvm-objcopy"@ && names[6]
        == "llvm-readelf"@);
    if at < names.len() {
        assert(missing(names[at]));
    } else {
        assert(!missing(names[0]) && !missing(names[1]) && !missing(names[2]) && !missing(names[3])
            && !missing(names[4]) && !missing(names[5]) && !missing(names[6]));
    }
}

/// A file is a libclang if its name says so and it is a shared library of the platform.
pub proof fn law_shared_libraries(platform: Platform, name: Seq<char>, names: Seq<Seq<char>>)
    ensures
        is_libclang(platform, name) <==> "libclang."@.is_prefix_of(name) && has_slice(
            name,
            match platform {
                Platform::Linux => ".so"@,
                Platform::Macos => ".dylib"@,
                Platform::Windows => ".dll"@,
            },
        ),
        has_libclang(platform, names) <==> exists|i: int|
            0 <= i < names.len() && is_libclang(platform, #[trigger] names[i]),
{
}

/// The C++ library of a toolchain is among its libraries for the target.
pub proof fn law_the_library_of_the_target(platform: Platform, root: Seq<char>, target: Target)
    ensures
        libcxx_of(platform, root, target) == joined_path(
            platform,
            joined_path(platform, joined_path(platform, root, "lib"@), target.lib_dir@),
            "libc++.so"@,
        ),
        libcxx_headers_of(platform, root) == joined_path(
            platform,
            joined_path(platform, root, "include"@),
            "libcxx-ohos"@,
        ),
{
}

/// There are prebuilt toolchains for these hosts and no others; each is named by its system and its
/// architecture.
pub proof fn law_hosts_of_toolchains(os: Seq<char>, arch: Seq<char>)
    ensures
        host_id(os, arch) is Some <==> (os == "macos"@ && (arch == "aarch64"@ || arch == "x86_64"@)) || ((
        os == "linux"@ || os == "windows"@) && arch == "x86_64"@),
        os == "linux"@ && arch == "x86_64"@ ==> host_id(os, arch) == Some("linux-x86_64"@),
        os == "windows"@ && arch == "x86_64"@ ==> host_id(os, arch) == Some("windows-x86_64"@),
        os == "macos"@ && arch == "x86_64"@ ==> host_id(os, arch) == Some("darwin-x86_64"@),
        os == "macos"@ && arch == "aarch64"@ ==> host_id(os, arch) == Some("darwin-arm64"@),
{
    reveal_strlit("linux");
    reveal_strlit("macos");
    reveal_strlit("windows");
    reveal_strlit("x86_64");
    reveal_strlit("aarch64");
    assert("linux"@[0] == 'l' && "macos"@[0] == 'm' && "windows"@[0] == 'w');
    assert("x86_64"@[0] == 'x' && "aarch64"@[0] == 'a');
}

/// What is selected is the archive for the host of a release that matches: one that is published as
/// such, with the digest that is reported for it, under a version that is safe in a path.
pub proof fn law_a_selected_toolchain(
    releases: Seq<Release>,
    requested: Seq<char>,
    os: Seq<char>,
    arch: Seq<char>,
    selection: Selection,
)
    requires
        select_is(releases, requested, os, arch, Ok::<Selection, String>(selection)),
    ensures
        exists|release: Release|
            {
                &&& #[trigger] releases.contains(release)
                &&& !release.draft
                &&& release.tag_name@ == "toolchain-"@ + selection.version@
                &&& matches_version(requested, selection.version@)
                &&& release.assets@.contains(selection.asset)
            },
        host_id(os, arch) == Some(selection.host.id@),
        ("clang_"@ + selection.host.id@ + "-"@).is_prefix_of(selection.asset.name@),
        ".tar.gz"@.is_suffix_of(selection.asset.name@),
        selection.host.asset_prefix@ == "clang_"@ + selection.host.id@ + "-"@,
        digest_of(selection.asset) == Some(selection.sha256@),
        safe_component(selection.version@),
{
    let id = host_id(os, arch)->Some_0;
    let prefix = "toolchain-"@;
    crate::download::law_selected_release(releases, prefix, requested);
    let release = crate::download::chosen(
        crate::download::published(releases, prefix),
        prefix,
        requested,
    )->Some_0;
    assert(publishes(release, prefix));
    assert(release.tag_name@ =~= prefix + version_of(release, prefix));
    let archive = |asset: crate::download::Asset| is_archive(asset, id);
    lemma_first_index_bounds(release.assets@, archive);
    let at = first_index(release.assets@, archive) as int;
    assert(archive(release.assets@[at]));
    assert(release.assets@.contains(selection.asset));
    assert(asset_prefix_of(id) == "clang_"@ + id + "-"@);
    assert(releases.contains(release));
}

/// A toolchain is kept in a directory of its version and host, below the cache; its marker is in it, and
/// what is temporary is beside it, so that two of them are never in each other's way.
pub proof fn law_where_toolchains_are_kept(
    platform: Platform,
    root: Seq<char>,
    selection: Selection,
    paths: InstallPaths,
)
    requires
        paths_are(platform, root, selection, paths),
    ensures
        paths.install@ == joined_path(
            platform,
            joined_path(
                platform,
                joined_path(platform, root, selection.version@),
                selection.host.id@,
            ),
            "llvm"@,
        ),
        paths.parent@ == joined_path(
            platform,
            joined_path(platform, root, selection.version@),
            selection.host.id@,
        ),
        paths.marker@ == joined_path(platform, paths.install@, ".cargo-ohos-complete"@),
        paths.lock@ == joined_path(
            platform,
            root,
            selection.version@ + "-"@ + selection.host.id@ + ".lock"@,
        ),
        paths.archive@ == joined_path(
            platform,
            root,
            ".download-"@ + (selection.version@ + "-"@ + selection.host.id@) + ".tar.gz"@,
        ),
        paths.staging@ == joined_path(
            platform,
            root,
            ".extract-"@ + (selection.version@ + "-"@ + selection.host.id@),
        ),
{
}

/// The marker of an install tells the archive by its name and its digest: two that differ in either are
/// marked differently.
pub proof fn law_markers_tell_archives_apart(a: Selection, b: Selection)
    requires
        !a.asset.name@.contains('\n'),
        !b.asset.name@.contains('\n'),
        marker_of(a) == marker_of(b),
    ensures
        a.asset.name@ == b.asset.name@,
        a.sha256@ == b.sha256@,
{
    reveal_strlit("\n");
    let x = a.asset.name@;
    let y = b.asset.name@;
    let m = marker_of(a);
    assert(m == x + "\n"@ + a.sha256@ + "\n"@);
    assert(m == y + "\n"@ + b.sha256@ + "\n"@);
    assert(m[x.len() as int] == '\n');
    assert(m[y.len() as int] == '\n');
    if x.len() < y.len() {
        assert(y[x.len() as int] == m[x.len() as int]);
        assert(y.contains('\n'));
    }
    if y.len() < x.len() {
        assert(x[y.len() as int] == m[y.len() as int]);
        assert(x.contains('\n'));
    }
    assert(m.take(x.len() as int) =~= x);
    assert(m.take(y.len() as int) =~= y);
    let from = x.len() + 1;
    assert(m.subrange(from as int, m.len() - 1) =~= a.sha256@);
    assert(m.subrange(from as int, m.len() - 1) =~= b.sha256@);
}

/// Getting a toolchain asks the mirror's list of releases, installs what is selected of it, and ends
/// with where that is.
pub proof fn law_getting_a_toolchain(
    requested: Seq<char>,
    os: Seq<char>,
    arch: Seq<char>,
    seen: ResolveSeen,
    step: ResolveStep,
)
    requires
        resolve_step(requested, os, arch, seen, step),
    ensures
        !safe_component(requested) ==> (step matches ResolveStep::Done(Err(_))),
        step is FetchReleases <==> safe_component(requested) && seen is Nothing,
        step matches ResolveStep::FetchReleases { url, subdir } ==> {
            &&& url@
                == "https://api.github.com/repos/openharmony-rs/ohos-llvm-toolchains/releases?per_page=100"@
            &&& subdir@ == "ohos-llvm"@
        },
        step matches ResolveStep::Install(selection) ==> (seen matches ResolveSeen::Releases(
            Ok(releases),
        ) && select_is(releases@, requested, os, arch, Ok::<Selection, String>(selection))),
        step matches ResolveStep::Done(Ok(path)) ==> seen == ResolveSeen::Installed(
            Ok::<String, String>(path),
        ),
{
}

/// `gh` is told what to verify: the artifact, the repository and the workflow that must have made it,
/// the ref it must have been made from, and that a machine of someone else's will not do.
pub proof fn law_what_is_verified(
    artifact: Seq<char>,
    signer: Signer,
    source_ref: Seq<char>,
    seen: VerifySeen,
    step: VerifyStep,
)
    requires
        verify_step(artifact, signer, source_ref, seen, step),
    ensures
        step matches VerifyStep::Verify(command) ==> {
            let words = texts(command@);
            &&& words.len() == 11
            &&& words[0] == "gh"@ && words[1] == "attestation"@ && words[2] == "verify"@
            &&& words[3] == artifact
            &&& words[4] == "--repo"@ && words[5] == signer.repository@
            &&& words[6] == "--signer-workflow"@ && words[7] == signer.workflow@
            &&& words[8] == "--source-ref"@ && words[9] == source_ref
            &&& words[10] == "--deny-self-hosted-runners"@
            &&& seen.auth matches Some(Ok(output)) && succeeded(output)
        },
        step matches VerifyStep::Authenticate(command) ==> {
            let words = texts(command@);
            &&& words.len() == 6
            &&& words[0] == "gh"@ && words[1] == "auth"@ && words[2] == "status"@
            &&& words[3] == "--active"@ && words[4] == "--hostname"@ && words[5] == "github.com"@
            &&& seen.auth is None
        },
        (step matches VerifyStep::Done { result: Err(_), .. }) || (step matches VerifyStep::Done {
            result: Ok(()),
            ..
        }) ==> seen.auth is Some,
        (seen.auth matches Some(Ok(output)) && succeeded(output)) && (seen.verified matches Some(
            Ok(output),
        ) && !succeeded(output)) ==> (step matches VerifyStep::Done { result: Err(_), .. }),
        (seen.auth matches Some(Ok(output)) && succeeded(output)) && (seen.verified matches Some(
            Ok(output),
        ) && succeeded(output)) ==> (step matches VerifyStep::Done { result: Ok(()), .. }),
{
    assert(auth_command().len() == 6);
    assert(verify_command(artifact, signer, source_ref).len() == 11);
}

/// An attestation is asked for by the repository that signs and the digest it covers.
pub proof fn law_where_attestations_are(digest: Seq<char>, signer: Signer)
    ensures
        attestation_url_of(digest, signer) == "https://api.github.com/repos/"@ + signer.repository@
            + "/attestations/sha256:"@ + digest,
{
}

/// An unpacked archive is taken for a toolchain if it is one itself, or else if exactly one of its
/// entries is: that one.
pub proof fn law_the_only_toolchain_is_taken(
    staging: Seq<char>,
    staging_is_toolchain: bool,
    entries: Result<Vec<Entry>, String>,
    res: Result<String, String>,
)
    requires
        root_is(staging, staging_is_toolchain, entries, res),
    ensures
        staging_is_toolchain ==> (res matches Ok(path) && path@ == staging),
        !staging_is_toolchain && entries is Err ==> res is Err,
        !staging_is_toolchain && entries is Ok ==> (res is Ok <==> exists|i: int|
            is_the_only_one(entries->Ok_0@, i)),
        !staging_is_toolchain && entries is Ok ==> (forall|i: int| #[trigger]
            is_the_only_one(entries->Ok_0@, i) ==> (res matches Ok(path) && path@
                == entries->Ok_0@[i].path@)),
{
    if !staging_is_toolchain && entries is Ok {
        let all = entries->Ok_0@;
        lemma_the_only_one(all);
    }
}

/// Whether the entry at `i` is a toolchain and no other is.
pub open spec fn is_the_only_one(entries: Seq<Entry>, i: int) -> bool {
    &&& 0 <= i < entries.len()
    &&& entries[i].is_toolchain
    &&& forall|j: int|
        0 <= j < entries.len() && j != i ==> !(#[trigger] entries[j]).is_toolchain
}

proof fn lemma_the_only_one(entries: Seq<Entry>)
    ensures
        toolchains_in(entries).len() == 1 <==> exists|i: int| is_the_only_one(entries, i),
        forall|i: int| #[trigger]
            is_the_only_one(entries, i) ==> toolchains_in(entries).len() == 1 && toolchains_in(
                entries,
            )[0] == entries[i],
        toolchains_in(entries).len() == 0 <==> forall|j: int|
            0 <= j < entries.len() ==> !(#[trigger] entries[j]).is_toolchain,
    decreases entries.len(),
{
    let fits = |entry: Entry| entry.is_toolchain;
    if entries.len() == 0 {
        reveal(Seq::filter);
    } else {
        let front = entries.drop_last();
        let last = entries.len() - 1;
        lemma_the_only_one(front);
        crate::sort::lemma_filter_last(entries, fits);
        let found = toolchains_in(front);
        assert forall|j: int| 0 <= j < front.len() implies front[j] == #[trigger] entries[j] by {}
        if entries[last].is_toolchain {
            if found.len() == 0 {
                assert forall|j: int| 0 <= j < entries.len() && j != last implies !(
                #[trigger] entries[j]).is_toolchain by {
                    assert(front[j] == entries[j]);
                    assert(!front[j].is_toolchain);
                }
                assert(is_the_only_one(entries, last));
            } else {
                let j = choose|j: int| 0 <= j < front.len() && (#[trigger] front[j]).is_toolchain;
                assert(entries[j].is_toolchain);
                assert forall|i: int| !is_the_only_one(entries, i) by {
                    if is_the_only_one(entries, i) {
                        assert(i == j || !entries[j].is_toolchain);
                        assert(i == last || !entries[last].is_toolchain);
                    }
                }
            }
            assert forall|i: int| #[trigger] is_the_only_one(entries, i) implies toolchains_in(
                entries,
            ).len() == 1 && toolchains_in(entries)[0] == entries[i] by {
                assert(i == last || !entries[last].is_toolchain);
            }
        } else {
            assert forall|i: int| #[trigger] is_the_only_one(entries, i) implies is_the_only_one(
                front,
                i,
            ) by {
                assert(i != last);
                assert forall|j: int| 0 <= j < front.len() && j != i implies !(
                #[trigger] front[j]).is_toolchain by {
                    assert(!entries[j].is_toolchain);
                }
            }
            if exists|i: int| is_the_only_one(front, i) {
                let i = choose|i: int| is_the_only_one(front, i);
                assert forall|j: int| 0 <= j < entries.len() && j != i implies !(
                #[trigger] entries[j]).is_toolchain by {
                    if j < front.len() {
                        assert(front[j] == entries[j]);
                        assert(!front[j].is_toolchain);
                    }
                }
                assert(is_the_only_one(entries, i));
            }
            if found.len() == 0 {
                assert forall|j: int| 0 <= j < entries.len() implies !(
                #[trigger] entries[j]).is_toolchain by {
                    if j < front.len() {
                        assert(!front[j].is_toolchain);
                    }
                }
            } else {
                let j = choose|j: int| 0 <= j < front.len() && (#[trigger] front[j]).is_toolchain;
                assert(entries[j].is_toolchain);
            }
        }
    }
}

/// A directory is a toolchain if it has programs and the headers of a C++ library of its own.
pub proof fn law_what_makes_a_toolchain(platform: Platform, path: Seq<char>)
    ensures
        directories_of(platform, path).len() == 2,
        directories_of(platform, path).contains(joined_path(platform, path, "bin"@)),
        directories_of(platform, path).contains(libcxx_headers_of(platform, path)),
{
    let all = directories_of(platform, path);
    assert(all[0] == joined_path(platform, path, "bin"@));
    assert(all[1] == libcxx_headers_of(platform, path));
}

} // verus!
