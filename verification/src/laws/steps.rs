//! Laws of the flows that do outside work: what each step is about, and when a flow may end well.

use crate::build_env::{directory_step, error_message, DirectoryStep, Error};
use crate::path::{joined_path, Platform};
use crate::prebuilt;
use crate::process::{failure_of, succeeded, Outcome, Output};
use crate::rustup::{ensure_step, named_target, named_targets, target_list, Seen, Step};
use crate::command::min_api_error;
use crate::download::Release;
use crate::sdk::install;
use crate::sdk::Sdk;
use crate::target::{Arch, UnknownTarget};
use crate::sdk::release::{known_levels, no_api_message, Selection};
use crate::text::{decimal, has_slice, joined, line_seq, texts, trimmed, utf8_lossy};
use vstd::prelude::*;

verus! {

/// Each step of installing a toolchain is about the path it is meant for.
pub proof fn law_steps_of_installing_a_toolchain(
    root: Seq<char>,
    selection: prebuilt::Selection,
    paths: prebuilt::InstallPaths,
    seen: prebuilt::InstallSeen,
    step: prebuilt::InstallStep,
)
    requires
        prebuilt::install_step(root, selection, paths, seen, step),
    ensures
        step matches prebuilt::InstallStep::CreateRoot(path) ==> path@ == root,
        step matches prebuilt::InstallStep::Lock(path) ==> path@ == paths.lock@,
        step matches prebuilt::InstallStep::Inspect { install, marker } ==> install@ == paths.install@
            && marker@ == paths.marker@,
        step matches prebuilt::InstallStep::ClearStaging(path) ==> path@ == paths.staging@,
        step matches prebuilt::InstallStep::ClearArchive(path) ==> path@ == paths.archive@,
        step matches prebuilt::InstallStep::CreateStaging(path) ==> path@ == paths.staging@,
        step matches prebuilt::InstallStep::Extract { archive, staging } ==> archive@ == paths.archive@
            && staging@ == paths.staging@,
        step matches prebuilt::InstallStep::FindRoot(path) ==> path@ == paths.staging@,
        step matches prebuilt::InstallStep::CreateParent(path) ==> path@ == paths.parent@,
        step matches prebuilt::InstallStep::ClearInstall(path) ==> path@ == paths.install@,
        step matches prebuilt::InstallStep::Move { from, to } ==> (seen.found matches Some(Ok(found))
            && from@ == found@) && to@ == paths.install@,
        step matches prebuilt::InstallStep::Mark { path, text } ==> path@ == paths.marker@ && text@
            == selection.asset.name@ + "\n"@ + selection.sha256@ + "\n"@,
        step matches prebuilt::InstallStep::CleanUp { archive, staging } ==> archive@ == paths.archive@
            && staging@ == paths.staging@,
        step matches prebuilt::InstallStep::Authenticate(command) ==> texts(command@) == seq![
            "gh"@,
            "auth"@,
            "status"@,
            "--active"@,
            "--hostname"@,
            "github.com"@,
        ],
        step matches prebuilt::InstallStep::Done { result: Ok(dir), .. } ==> dir@ == paths.install@,
{
}

/// Installing a toolchain ends well only if it was there, marked with this very archive, or if every
/// step went well and nothing temporary is left; where `gh` can be used, that takes the verification.
pub proof fn law_a_toolchain_is_installed_or_not(
    root: Seq<char>,
    selection: prebuilt::Selection,
    paths: prebuilt::InstallPaths,
    seen: prebuilt::InstallSeen,
    step: prebuilt::InstallStep,
)
    requires
        prebuilt::install_step(root, selection, paths, seen, step),
        step matches prebuilt::InstallStep::Done { result: Ok(_), .. },
    ensures
        seen.locked matches Some(Ok(_)),
        ({
            ||| seen.existing matches Some((true, Some(text))) && text@ == selection.asset.name@ + "\n"@
                + selection.sha256@ + "\n"@
            ||| {
                &&& seen.downloaded matches Some(Ok(_))
                &&& (seen.auth matches Some(Ok(output)) && succeeded(output)) ==> (
                seen.verified matches Some(Ok(_)))
                &&& !(seen.auth matches Some(Err(error)) && !error.not_found)
                &&& seen.auth is Some
                &&& seen.extracted matches Some(Ok(_))
                &&& seen.found matches Some(Ok(_))
                &&& seen.install_cleared matches Some(Ok(_))
                &&& seen.moved matches Some(Ok(_))
                &&& seen.marked matches Some(Ok(_))
                &&& seen.cleaned
            }
        }),
{
}

/// Each step of installing an SDK is about the path it is meant for.
pub proof fn law_steps_of_installing_an_sdk(
    platform: Platform,
    root: Seq<char>,
    selection: Selection,
    asked: Option<Set<Seq<char>>>,
    paths: install::InstallPaths,
    seen: install::InstallSeen,
    step: install::InstallStep,
)
    requires
        install::install_step(platform, root, selection, asked, paths, seen, step),
    ensures
        step matches install::InstallStep::CreateRoot(path) ==> path@ == root,
        step matches install::InstallStep::Lock(path) ==> path@ == paths.lock@,
        step matches install::InstallStep::Inspect { marker, base } ==> marker@ == paths.marker@ && base@
            == paths.base@,
        step matches install::InstallStep::ClearStaging { announcement, path } ==> path@
            == paths.staging@,
        step matches install::InstallStep::ClearArchive(path) ==> path@ == paths.archive@,
        step matches install::InstallStep::Fetch(path) ==> path@ == paths.archive@,
        step matches install::InstallStep::CreateStaging(path) ==> path@ == paths.staging@,
        step matches install::InstallStep::ExtractHost { archive, staging, components } ==> archive@
            == paths.archive@ && staging@ == paths.staging@ && crate::sdk::components::covers_all(
            components@,
            asked,
        ),
        step matches install::InstallStep::DropArchive(path) ==> path@ == paths.archive@,
        step matches install::InstallStep::ExtractComponents(path) ==> path@ == paths.staging@,
        step matches install::InstallStep::Invalidate(path) ==> path@ == paths.marker@,
        step matches install::InstallStep::ClearBase(path) ==> path@ == paths.base@,
        step matches install::InstallStep::CreateBase(path) ==> path@ == paths.base@,
        step matches install::InstallStep::Move { from, to } ==> from@ == paths.staging@ && (
        seen.api matches Some(Ok(level)) && to@ == joined_path(
            platform,
            paths.base@,
            decimal(level as nat),
        )),
        step matches install::InstallStep::Mark { path, text } ==> path@ == paths.marker@,
        step matches install::InstallStep::CleanUp { archive, staging } ==> archive@ == paths.archive@
            && staging@ == paths.staging@,
{
    if let install::InstallStep::ExtractHost { archive, staging, components } = step {
        let existing = seen.existing->Some_0;
        let installed = install::installed_components(existing, selection);
        crate::sdk::components::law_covering_is_an_order(asked, asked, asked);
        if installed is Some {
            crate::sdk::components::law_union_adds(installed->Some_0, asked, asked);
        }
    }
}

/// Installing an SDK ends well only if it was there, with the components asked for, or if every step went
/// well and nothing temporary is left.
pub proof fn law_an_sdk_is_installed_or_not(
    platform: Platform,
    root: Seq<char>,
    selection: Selection,
    asked: Option<Set<Seq<char>>>,
    paths: install::InstallPaths,
    seen: install::InstallSeen,
    step: install::InstallStep,
)
    requires
        install::install_step(platform, root, selection, asked, paths, seen, step),
        step matches install::InstallStep::Done { result: Ok(_), .. },
    ensures
        seen.locked matches Some(Ok(_)),
        step matches install::InstallStep::Done { result: Ok(dir), .. } && {
            ||| seen.existing matches Some((Some(_), Some(found))) && dir@ == found@
            ||| {
                &&& seen.fetched matches Some(Ok(_))
                &&& seen.host_extracted matches Some(Ok(_))
                &&& seen.api matches Some(Ok(level))
                &&& dir@ == joined_path(platform, paths.base@, decimal(level as nat))
                &&& seen.invalidated matches Some(Ok(_))
                &&& seen.base_cleared matches Some(Ok(_))
                &&& seen.moved matches Some(Ok(_))
                &&& seen.marked matches Some(Ok(_))
                &&& seen.cleaned
            }
        },
{
}

/// Whether a rustc can compile for a target is found out from rustup, by these commands; a target is
/// only added by name.
pub proof fn law_what_rustup_is_asked(triple: Seq<char>, seen: Seen, step: Step)
    requires
        ensure_step(triple, seen, step),
    ensures
        step matches Step::ListInstalled(command) ==> texts(command@) == seq![
            "rustup"@,
            "target"@,
            "list"@,
            "--installed"@,
        ],
        step matches Step::ListAvailable(command) ==> texts(command@) == seq![
            "rustup"@,
            "target"@,
            "list"@,
        ],
        step matches Step::Add { announcement, command } ==> texts(command@) == seq![
            "rustup"@,
            "target"@,
            "add"@,
            triple,
        ],
        step matches Step::PrintLibdir(command) ==> texts(command@) == seq![
            "rustc"@,
            "--print"@,
            "target-libdir"@,
            "--target"@,
            triple,
        ],
        step matches Step::IsDirectory(path) ==> (seen.libdir matches Some(Ok(output)) && path@ == trimmed(
            utf8_lossy(output.stdout@),
        ) && path@.len() > 0),
        step is PrintLibdir || step is IsDirectory ==> (seen.installed matches Some(Err(error))
            && error.not_found),
        step is ListAvailable ==> (seen.installed matches Some(Ok(output)) && succeeded(output)
            && !target_list(output.stdout@).contains(triple)),
        (seen.installed matches Some(Ok(output)) && succeeded(output) && target_list(
            output.stdout@,
        ).contains(triple)) ==> (step matches Step::Done { result: Ok(()), .. }),
        seen.installed is None ==> step is ListInstalled,
        (seen.added matches Some(Ok(output)) && !succeeded(output)) && (
        seen.installed matches Some(Ok(output)) && succeeded(output) && !target_list(
            output.stdout@,
        ).contains(triple)) && (seen.available matches Some(Ok(output)) && succeeded(output)
            && target_list(output.stdout@).contains(triple)) ==> (step matches Step::Done {
            result: Err(_),
            ..
        }),
{
}

/// A list of targets has one on each line that is not blank, between whitespace; of one that is installed
/// it says so behind its name.
pub proof fn law_lists_of_targets(lines: Seq<Seq<char>>, name: Seq<char>)
    ensures
        named_targets(lines).contains(name) <==> exists|i: int|
            0 <= i < lines.len() && #[trigger] trimmed(lines[i]).len() > 0 && named_target(
                trimmed(lines[i]),
            ) == name,
        named_target(name + " (installed)"@) == name,
        !" (installed)"@.is_suffix_of(name) ==> named_target(name) == name,
    decreases lines.len(),
{
    reveal_strlit(" (installed)");
    let whole = name + " (installed)"@;
    assert(" (installed)"@.is_suffix_of(whole)) by {
        assert(whole.skip(whole.len() - 12) =~= " (installed)"@);
    }
    assert(whole.take(whole.len() - 12) =~= name);
    if lines.len() > 0 {
        let front = lines.drop_last();
        let last = trimmed(lines.last());
        law_lists_of_targets(front, name);
        let all = named_targets(lines);
        let some = named_targets(front);
        if last.len() > 0 {
            assert(all == some.push(named_target(last)));
            assert(all.contains(name) <==> some.contains(name) || named_target(last) == name) by {
                if some.contains(name) {
                    let k = choose|k: int| 0 <= k < some.len() && some[k] == name;
                    assert(all[k] == name);
                }
                if named_target(last) == name {
                    assert(all[some.len() as int] == name);
                }
                if all.contains(name) {
                    let k = choose|k: int| 0 <= k < all.len() && all[k] == name;
                    if k < some.len() {
                        assert(some[k] == name);
                    }
                }
            }
        }
        if all.contains(name) {
            if last.len() > 0 && named_target(last) == name {
                assert(trimmed(lines[lines.len() - 1]).len() > 0);
            } else {
                let i = choose|i: int|
                    0 <= i < front.len() && #[trigger] trimmed(front[i]).len() > 0 && named_target(
                        trimmed(front[i]),
                    ) == name;
                assert(front[i] == lines[i]);
                assert(trimmed(lines[i]).len() > 0);
            }
        }
        if exists|i: int|
            0 <= i < lines.len() && #[trigger] trimmed(lines[i]).len() > 0 && named_target(
                trimmed(lines[i]),
            ) == name {
            let i = choose|i: int|
                0 <= i < lines.len() && #[trigger] trimmed(lines[i]).len() > 0 && named_target(
                    trimmed(lines[i]),
                ) == name;
            if i < front.len() {
                assert(front[i] == lines[i]);
                assert(trimmed(front[i]).len() > 0);
            }
        }
    }
}

/// What a program printed is a list of targets by its lines.
pub proof fn law_printed_lists(stdout: Seq<u8>)
    ensures
        target_list(stdout) == named_targets(line_seq(utf8_lossy(stdout))),
{
}

/// Generated files go below the target directory, the user's choice of it or else the one cargo has for
/// the project; cargo is asked about the project that was named, if one was.
pub proof fn law_where_generated_files_go(
    platform: Platform,
    target_dir: Option<Seq<char>>,
    cargo: Option<Seq<char>>,
    manifest_path: Option<Seq<char>>,
    ran: Option<Outcome>,
    parsed: Option<Result<String, String>>,
    step: DirectoryStep,
)
    requires
        directory_step(platform, target_dir, cargo, manifest_path, ran, parsed, step),
    ensures
        target_dir matches Some(dir) ==> (step matches DirectoryStep::Done(Ok(path)) && path@
            == joined_path(platform, dir, "ohos-toolchain"@)),
        target_dir is None ==> (step matches DirectoryStep::Done(Ok(path)) ==> {
            &&& ran matches Some(Ok(output)) && succeeded(output)
            &&& parsed matches Some(Ok(dir)) && path@ == joined_path(platform, dir@, "ohos-toolchain"@)
        }),
        step matches DirectoryStep::RunMetadata(command) ==> {
            let words = texts(command@);
            &&& ran is None
            &&& words.len() == 5 + if manifest_path is Some {
                2int
            } else {
                0int
            }
            &&& cargo matches Some(program) ==> words[0] == program
            &&& cargo is None ==> words[0] == "cargo"@
            &&& words[1] == "metadata"@ && words[2] == "--format-version"@ && words[3] == "1"@ && words[4]
                == "--no-deps"@
            &&& manifest_path matches Some(path) ==> words[5] == "--manifest-path"@ && words[6] == path
        },
{
}

/// An error says what it is about: the path, the part or the reason, and of an SDK that was not found
/// every place that was tried.
pub proof fn law_errors_say_what_they_are_about(error: Error)
    ensures
        error matches Error::SdkNotFound { tried } ==> has_slice(
            error_message(error),
            joined(texts(tried@), "; "@),
        ),
        error matches Error::MissingTool { path } ==> has_slice(error_message(error), path@),
        error matches Error::InvalidToolchain { path } ==> has_slice(error_message(error), path@),
        error matches Error::MissingLibclang { path } ==> has_slice(error_message(error), path@),
        error matches Error::MissingRuntimeLibrary { path } ==> has_slice(error_message(error), path@),
        error matches Error::WhitespaceInCompilerValue { part } ==> has_slice(error_message(error), part@),
        error matches Error::Io { path, source } ==> has_slice(error_message(error), path@) && has_slice(
            error_message(error),
            source@,
        ),
        error matches Error::JoinPaths { source } ==> has_slice(error_message(error), source@),
        error matches Error::CargoMetadata { message } ==> has_slice(error_message(error), message@),
{
    let none = Seq::<char>::empty();
    let text = error_message(error);
    match error {
        Error::SdkNotFound { tried } => {
            let what = joined(texts(tried@), "; "@);
            lemma_slice_at_the_end(text, what);
        },
        Error::MissingTool { path } => {
            lemma_slice_at_the_end(text, path@);
        },
        Error::InvalidToolchain { path } => {
            lemma_slice_at(text, 0, path@);
        },
        Error::MissingLibclang { path } => {
            lemma_slice_at(text, "No libclang shared library found in "@.len() as int, path@);
        },
        Error::MissingRuntimeLibrary { path } => {
            lemma_slice_at(
                text,
                "The toolchain is missing the C++ runtime library "@.len() as int,
                path@,
            );
        },
        Error::WhitespaceInCompilerValue { part } => {
            lemma_slice_at(text, "`"@.len() as int, part@);
        },
        Error::Io { path, source } => {
            lemma_slice_at(text, 0, path@);
            lemma_slice_at_the_end(text, source@);
        },
        Error::JoinPaths { source } => {
            lemma_slice_at_the_end(text, source@);
        },
        Error::CargoMetadata { message } => {
            lemma_slice_at_the_end(text, message@);
        },
    }
}

proof fn lemma_slice_at(text: Seq<char>, at: int, part: Seq<char>)
    requires
        0 <= at <= text.len() - part.len(),
        text.subrange(at, at + part.len()) =~= part,
    ensures
        has_slice(text, part),
{
}

proof fn lemma_slice_at_the_end(text: Seq<char>, part: Seq<char>)
    requires
        part.len() <= text.len(),
        text.subrange(text.len() - part.len(), text.len() as int) =~= part,
    ensures
        has_slice(text, part),
{
    let at = text.len() - part.len();
    assert(text.subrange(at, at + part.len()) == part);
}

/// What is said of a program that failed begins with its name, and has what it printed.
pub proof fn law_failures_say_what_failed(name: Seq<char>, output: Output)
    ensures
        ("`"@ + name + "` failed"@).is_prefix_of(failure_of(name, output)),
        has_slice(failure_of(name, output), trimmed(utf8_lossy(output.stderr@))),
{
    let text = failure_of(name, output);
    let start = "`"@ + name + "` failed"@;
    assert(text.take(start.len() as int) =~= start);
    let printed = trimmed(utf8_lossy(output.stderr@));
    if printed.len() == 0 {
        assert(text.subrange(0, 0int + printed.len()) =~= printed);
    } else {
        lemma_slice_at_the_end(text, printed);
    }
}

/// A target that is not known is named, and so is every target that is.
pub proof fn law_unknown_targets_are_named(unknown: UnknownTarget, arch: Arch)
    ensures
        has_slice(unknown.text(), seq!['`'] + unknown.0@ + seq!['`']),
        has_slice(unknown.text(), crate::target::rust_triple_of(arch)),
{
    let text = unknown.text();
    let name = unknown.0@;
    reveal_strlit("`");
    reveal_strlit(
        "` is not a known OpenHarmony target. Expected one of `aarch64-unknown-linux-ohos`, `armv7-unknown-linux-ohos`, `x86_64-unknown-linux-ohos`, `loongarch64-unknown-linux-ohos`, or a short architecture name such as `aarch64`.",
    );
    reveal_strlit("aarch64-unknown-linux-ohos");
    reveal_strlit("armv7-unknown-linux-ohos");
    reveal_strlit("x86_64-unknown-linux-ohos");
    reveal_strlit("loongarch64-unknown-linux-ohos");
    lemma_slice_at(text, 0, seq!['`'] + name + seq!['`']);
    let start = 1 + name.len() as int;
    match arch {
        Arch::Aarch64 => {
            lemma_slice_at(text, start + 54, "aarch64-unknown-linux-ohos"@);
        },
        Arch::Armv7 => {
            lemma_slice_at(text, start + 84, "armv7-unknown-linux-ohos"@);
        },
        Arch::X86_64 => {
            lemma_slice_at(text, start + 112, "x86_64-unknown-linux-ohos"@);
        },
        Arch::LoongArch64 => {
            lemma_slice_at(text, start + 141, "loongarch64-unknown-linux-ohos"@);
        },
    }
}

/// An SDK whose level is too low is named, with its level and the one asked for.
pub proof fn law_levels_that_are_too_low_are_named(sdk: Sdk, least: u32, level: u32)
    requires
        sdk.api_version == Some(level),
        level < least,
    ensures
        min_api_error(sdk, Some(least)) matches Some(text) && has_slice(text, sdk.native_root@)
            && has_slice(text, decimal(level as nat)) && has_slice(text, decimal(least as nat)),
{
    let text = min_api_error(sdk, Some(least))->Some_0;
    let first = "The OpenHarmony SDK at "@;
    let second = " has API level "@;
    let third = ", but --min-api requires at least "@;
    let root = sdk.native_root@;
    let has = decimal(level as nat);
    let wants = decimal(least as nat);
    assert(text == first + root + second + has + third + wants);
    lemma_slice_at(text, first.len() as int, root);
    lemma_slice_at(text, (first.len() + root.len() + second.len()) as int, has);
    lemma_slice_at_the_end(text, wants);
}

/// Where no release provides a level, the level is named, and those that are provided are.
pub proof fn law_levels_that_are_not_provided_are_named(list: Seq<Release>, api: u32)
    ensures
        has_slice(no_api_message(list, api), decimal(api as nat)),
        has_slice(
            no_api_message(list, api),
            joined(known_levels(list).map_values(|level: u32| decimal(level as nat)), ", "@),
        ),
{
    let text = no_api_message(list, api);
    let first = "no OpenHarmony SDK release provides API level "@;
    let second = "; the mirror has "@;
    let asked = decimal(api as nat);
    let levels = joined(known_levels(list).map_values(|level: u32| decimal(level as nat)), ", "@);
    assert(crate::sdk::release::decimals(known_levels(list)) =~= known_levels(list).map_values(
        |level: u32| decimal(level as nat),
    ));
    lemma_slice_at(text, first.len() as int, asked);
    lemma_slice_at(text, (first.len() + asked.len() + second.len()) as int, levels);
}

} // verus!
