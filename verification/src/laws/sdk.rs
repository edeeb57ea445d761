//! Laws of finding an SDK that is installed.

use crate::build_env::Error;
use crate::download::{key_less, version_key_of};
use crate::path::{joined_path, program_of, Platform};
use crate::sdk::components::{components_named, covers_all, union_of, wants, Components};
use crate::sdk::discovery::{
    candidate_step, candidates_of, discover_step, first_loaded, is_newest, law_highest_entry,
    level_root, none_usable, plan_cache, plan_candidates, plan_tried, tried_of, CacheEntry,
    CandidateSeen, CandidateStep, DiscoverStep, DiscoverySeen, SdkEntry,
};
use crate::sdk::{
    download_step, load_is, loaded, package_level, refusal, sdk_paths_are, ApiValue,
    DownloadSeen, DownloadStep, Probe, Request, Sdk, SdkPaths, Selection, UniPackage,
};
use crate::sort::{first_index, lemma_first_index_bounds};
use crate::text::{decimal, opt_text, parsed_u32, texts, trimmed};
use vstd::prelude::*;

verus! {

/// An SDK that is loaded has its parts where SDKs have them, below its native directory, and those that
/// not every SDK has only if they are there.
pub proof fn law_the_parts_of_an_sdk(platform: Platform, probe: Probe, sdk: Sdk)
    requires
        loaded(platform, probe, sdk),
    ensures
        ({
            let root = probe.native_root@;
            let cmake = program_of(
                platform,
                joined_path(
                    platform,
                    joined_path(
                        platform,
                        joined_path(platform, joined_path(platform, root, "build-tools"@), "cmake"@),
                        "bin"@,
                    ),
                    "cmake"@,
                ),
            );
            let file = joined_path(
                platform,
                joined_path(platform, joined_path(platform, root, "build"@), "cmake"@),
                "ohos.toolchain.cmake"@,
            );
            &&& sdk.native_root@ == root
            &&& sdk.sysroot@ == joined_path(platform, root, "sysroot"@)
            &&& sdk.llvm_root@ == joined_path(platform, root, "llvm"@)
            &&& sdk.llvm_bin@ == joined_path(platform, joined_path(platform, root, "llvm"@), "bin"@)
            &&& probe.cmake_is_file ==> opt_text(sdk.cmake) == Some(cmake)
            &&& !probe.cmake_is_file ==> sdk.cmake is None
            &&& probe.cmake_toolchain_file_is_file ==> opt_text(sdk.cmake_toolchain_file) == Some(file)
            &&& !probe.cmake_toolchain_file_is_file ==> sdk.cmake_toolchain_file is None
            &&& probe.package matches Some(package) ==> sdk.version == package.version
            &&& probe.package is None ==> sdk.version is None && sdk.api_version is None
        }),
{
}

/// The level an SDK declares is a number, or a text that has one between whitespace.
pub proof fn law_declared_levels(package: UniPackage)
    ensures
        package.api_version is None ==> package_level(package) is None,
        package.api_version matches Some(ApiValue::Other) ==> package_level(package) is None,
        package.api_version matches Some(ApiValue::Number(n)) ==> (package_level(package) is Some <==> n
            <= u32::MAX) && (package_level(package) matches Some(level) ==> level == n),
        package.api_version matches Some(ApiValue::Text(text)) ==> package_level(package) == parsed_u32(
            trimmed(text@),
        ),
{
}

/// A component is wanted if it is named, or if all of them are; one set of components covers another if
/// it has every component the other wants; and both together want what either does.
pub proof fn law_components(
    names: Seq<Seq<char>>,
    a: Option<Set<Seq<char>>>,
    b: Option<Set<Seq<char>>>,
    name: Seq<char>,
)
    ensures
        names.contains("all"@) ==> wants(components_named(names), name),
        !names.contains("all"@) ==> (wants(components_named(names), name) <==> names.contains(name)),
        wants(union_of(a, b), name) <==> union_of(a, b) is None || wants(a, name) || wants(b, name),
        union_of(a, b) is None <==> a is None || b is None,
        a is Some && b is Some ==> (covers_all(a, b) <==> forall|n: Seq<char>| #[trigger]
            wants(b, n) ==> wants(a, n)),
        covers_all(None, b),
        a is Some ==> !covers_all(a, None),
{
    if !names.contains("all"@) {
        assert(names.to_set().contains(name) <==> names.contains(name));
    }
    if a is Some && b is Some {
        let have = a->Some_0;
        let asked = b->Some_0;
        if forall|n: Seq<char>| #[trigger] wants(b, n) ==> wants(a, n) {
            assert forall|n: Seq<char>| #[trigger] asked.contains(n) implies have.contains(n) by {
                assert(wants(b, n));
            }
            assert(asked.subset_of(have));
        }
        if covers_all(a, b) {
            assert forall|n: Seq<char>| #[trigger] wants(b, n) implies wants(a, n) by {
                assert(asked.contains(n));
            }
        }
    }
}

/// A request is served exactly if native code can be built with what it asks for and the version it
/// names could not lead elsewhere.
pub proof fn law_requests_that_are_served(request: Request, components: Option<Set<Seq<char>>>)
    ensures
        refusal(request, components) is None <==> (components matches Some(names) ==> names.contains(
            "native"@,
        )) && (request matches Request::Version(version) ==> crate::download::safe_component(version@)),
{
}

/// Downloading asks the mirror's list of releases, installs what is selected of it, and ends with the
/// SDK that is loaded from where it is installed.
pub proof fn law_downloading_an_sdk(
    request: Request,
    components: Option<Set<Seq<char>>>,
    os: Seq<char>,
    arch: Seq<char>,
    seen: DownloadSeen,
    step: DownloadStep,
)
    requires
        download_step(request, components, os, arch, seen, step),
    ensures
        refusal(request, components) is Some ==> (step matches DownloadStep::Done(Err(_))),
        step is FetchReleases <==> refusal(request, components) is None && seen is Nothing,
        step matches DownloadStep::FetchReleases { url, subdir } ==> {
            &&& url@ == "https://api.github.com/repos/openharmony-rs/ohos-sdk/releases?per_page=100"@
            &&& subdir@ == "ohos-sdk"@
        },
        step matches DownloadStep::Install(selection) ==> (seen matches DownloadSeen::Releases(
            Ok(releases),
        ) && crate::sdk::release::select_is(
            releases@,
            request,
            os,
            arch,
            Ok::<Selection, String>(selection),
        )),
        step matches DownloadStep::Load(path) ==> seen == DownloadSeen::Installed(
            Ok::<String, String>(path),
        ),
        step matches DownloadStep::Done(Ok(sdk)) ==> (seen matches DownloadSeen::Loaded {
            sdk: Some(found),
            ..
        } && found == sdk),
{
}

/// The value of a variable, if it is set.
pub open spec fn value_of(env: Map<Seq<char>, Seq<char>>, name: Seq<char>) -> Seq<Seq<char>> {
    if env.contains_key(name) {
        seq![env[name]]
    } else {
        seq![]
    }
}

/// The variable and its value, if it is set.
pub open spec fn place_of(env: Map<Seq<char>, Seq<char>>, name: Seq<char>) -> Seq<Seq<char>> {
    if env.contains_key(name) {
        seq!["$"@ + name + " = "@ + env[name]]
    } else {
        seq![]
    }
}

/// Without an SDK given, the places the variables name are tried in this order, and on macOS, unless the
/// last of them is set, where DevEco Studio installs its own; the cache is looked into only if no
/// variable is set. An SDK that is given is the only one tried.
pub proof fn law_where_an_sdk_is_looked_for(
    platform: Platform,
    explicit: Option<Seq<char>>,
    env: Map<Seq<char>, Seq<char>>,
    cache: Seq<char>,
)
    ensures
        ({
            let default = if platform == Platform::Macos && !env.contains_key("DEVECO_SDK_HOME"@) {
                seq!["/Applications/DevEco-Studio.app/Contents/sdk"@]
            } else {
                seq![]
            };
            let named = value_of(env, "OHOS_SDK_NATIVE"@) + value_of(env, "OHOS_NDK_HOME"@) + value_of(
                env,
                "OHOS_SDK_HOME"@,
            ) + value_of(env, "DEVECO_SDK_HOME"@);
            let tried = place_of(env, "OHOS_SDK_NATIVE"@) + place_of(env, "OHOS_NDK_HOME"@) + place_of(
                env,
                "OHOS_SDK_HOME"@,
            ) + place_of(env, "DEVECO_SDK_HOME"@);
            &&& explicit is None ==> plan_candidates(platform, explicit, env) == named + default
            &&& explicit is None && named.len() > 0 ==> plan_cache(explicit, env, cache) is None
                && plan_tried(platform, explicit, env, cache) == tried + default
            &&& explicit is None && named.len() == 0 ==> plan_cache(explicit, env, cache) == Some(cache)
                && plan_tried(platform, explicit, env, cache) == (if default.len() > 0 {
                default
            } else {
                seq![
                    "none of $OHOS_SDK_NATIVE, $OHOS_NDK_HOME, $OHOS_SDK_HOME, $DEVECO_SDK_HOME are set"@,
                ]
            }).push("no SDK downloaded into "@ + cache)
            &&& explicit matches Some(path) ==> {
                &&& plan_candidates(platform, explicit, env) == seq![path]
                &&& plan_cache(explicit, env, cache) is None
                &&& plan_tried(platform, explicit, env, cache) == seq![path]
            }
        }),
{
    let names = crate::sdk::discovery::env_candidates();
    let is_set = |name: Seq<char>| env.contains_key(name);
    let value = |name: Seq<char>| env[name];
    let place = |name: Seq<char>| "$"@ + name + " = "@ + env[name];
    let set = names.filter(is_set);
    assert(names[0] == "OHOS_SDK_NATIVE"@ && names[1] == "OHOS_NDK_HOME"@ && names[2]
        == "OHOS_SDK_HOME"@ && names[3] == "DEVECO_SDK_HOME"@);
    reveal_with_fuel(Seq::filter, 5);
    assert(names.take(0) =~= seq![]);
    assert(names.take(4) =~= names);
    assert(names.drop_last() =~= names.take(3));
    assert(names.take(3).drop_last() =~= names.take(2));
    assert(names.take(2).drop_last() =~= names.take(1));
    assert(names.take(1).drop_last() =~= names.take(0));
    assert(set.map_values(value) =~= value_of(env, names[0]) + value_of(env, names[1]) + value_of(
        env,
        names[2],
    ) + value_of(env, names[3]));
    assert(set.map_values(place) =~= place_of(env, names[0]) + place_of(env, names[1]) + place_of(
        env,
        names[2],
    ) + place_of(env, names[3]));
    assert(set.map_values(value).len() == set.len());
    let default = if platform == Platform::Macos && !env.contains_key("DEVECO_SDK_HOME"@) {
        seq!["/Applications/DevEco-Studio.app/Contents/sdk"@]
    } else {
        seq![]
    };
    assert(candidates_of(platform, env) =~= set.map_values(value) + default);
    if set.len() > 0 {
        assert(tried_of(platform, env, cache) =~= set.map_values(place) + default);
    } else {
        assert(set.map_values(place) + default =~= default);
    }
}

/// A candidate is the native directory itself, or the directory it is in, or a DevEco SDK that has one in
/// its own place, or a directory of SDKs; the first that can be loaded is used.
pub proof fn law_what_a_candidate_may_be(
    platform: Platform,
    path: Seq<char>,
    seen: CandidateSeen,
    step: CandidateStep,
)
    requires
        candidate_step(platform, path, seen, step),
    ensures
        ({
            let tried = seen.loads@.len();
            let openharmony = joined_path(
                platform,
                joined_path(platform, path, "default"@),
                "openharmony"@,
            );
            &&& step matches CandidateStep::Load(root) ==> {
                &&& tried == 0 ==> root@ == path
                &&& tried == 1 ==> root@ == joined_path(platform, path, "native"@)
                &&& tried == 2 ==> root@ == joined_path(platform, openharmony, "native"@)
                &&& tried == 3 ==> (seen.entries matches Some(Some(entries)) && level_root(
                    platform,
                    path,
                    entries@,
                ) == Some(root@))
                &&& tried <= 3
            }
            &&& step matches CandidateStep::List(dir) ==> dir@ == path && tried >= 3
            &&& step matches CandidateStep::Done(Some(sdk)) ==> first_loaded(seen.loads@) == Some(sdk)
            &&& step matches CandidateStep::Done(None) ==> tried >= 3 && first_loaded(seen.loads@) is None
        }),
{
}

/// The first that was loaded is the one in front of which none was.
pub proof fn law_the_first_that_is_loaded(outcomes: Seq<Option<Sdk>>)
    ensures
        first_loaded(outcomes) matches Some(sdk) ==> exists|i: int|
            0 <= i < outcomes.len() && #[trigger] outcomes[i] == Some(sdk) && forall|j: int|
                0 <= j < i ==> (#[trigger] outcomes[j]) is None,
        first_loaded(outcomes) is None ==> forall|j: int|
            0 <= j < outcomes.len() ==> (#[trigger] outcomes[j]) is None,
{
    let loads = |outcome: Option<Sdk>| outcome is Some;
    lemma_first_index_bounds(outcomes, loads);
    let at = first_index(outcomes, loads) as int;
    if at < outcomes.len() {
        assert(loads(outcomes[at]));
        assert(outcomes[at] == first_loaded(outcomes));
        assert forall|j: int| 0 <= j < at implies (#[trigger] outcomes[j]) is None by {
            assert(!loads(outcomes[j]));
        }
    } else {
        assert forall|j: int| 0 <= j < outcomes.len() implies (#[trigger] outcomes[j]) is None by {
            assert(!loads(outcomes[j]));
        }
    }
}

/// Of a directory of SDKs that of the highest level is used, and the one called `default` only where no
/// other has a level.
pub proof fn law_the_highest_level_is_used(
    platform: Platform,
    root: Seq<char>,
    entries: Seq<SdkEntry>,
    i: int,
    level: nat,
)
    requires
        0 <= i < entries.len(),
        entries[i].has_native,
        entries[i].name@ == decimal(level),
        level <= u32::MAX,
    ensures
        exists|k: int|
            {
                &&& 0 <= k < entries.len()
                &&& (#[trigger] entries[k]).has_native
                &&& parsed_u32(entries[k].name@) matches Some(highest)
                &&& highest >= level
                &&& level_root(platform, root, entries) == Some(
                    joined_path(platform, joined_path(platform, root, entries[k].name@), "native"@),
                )
            },
{
    crate::laws::text::law_numbers_are_read_back(level, seq![]);
    crate::text::lemma_decimal_is_read_back(level);
    reveal_strlit("default");
    assert("default"@[0] == 'd');
    assert(crate::text::is_digit(decimal(level)[0]));
    assert(crate::sdk::discovery::entry_level(entries[i]) == Some(level as u32));
    law_highest_entry(entries, i);
    let k = crate::sdk::discovery::highest_entry(entries);
    assert(crate::sdk::discovery::entry_level(entries[k]) is Some);
    assert(entries[k].has_native);
}

/// Where no entry has a level, the one called `default` is used if it is one; and without either none.
pub proof fn law_the_default_entry(
    platform: Platform,
    root: Seq<char>,
    entries: Seq<SdkEntry>,
)
    requires
        forall|i: int|
            0 <= i < entries.len() ==> !(#[trigger] entries[i]).has_native || parsed_u32(
                entries[i].name@,
            ) is None,
    ensures
        level_root(platform, root, entries) is Some <==> exists|i: int|
            0 <= i < entries.len() && (#[trigger] entries[i]).has_native && entries[i].name@ == "default"@,
        level_root(platform, root, entries) matches Some(path) ==> path == joined_path(
            platform,
            joined_path(platform, root, "default"@),
            "native"@,
        ),
{
    lemma_no_level(entries);
    let is_default = |e: SdkEntry| e.has_native && e.name@ == "default"@;
    lemma_last_index_bounds(entries, is_default);
    let at = crate::sort::last_index(entries, is_default);
    if at >= 0 {
        assert(is_default(entries[at]));
    } else {
        assert forall|i: int| 0 <= i < entries.len() implies !((#[trigger] entries[i]).has_native
            && entries[i].name@ == "default"@) by {
            assert(!is_default(entries[i]));
        }
    }
}

proof fn lemma_no_level(entries: Seq<SdkEntry>)
    requires
        forall|i: int|
            0 <= i < entries.len() ==> !(#[trigger] entries[i]).has_native || parsed_u32(
                entries[i].name@,
            ) is None,
    ensures
        crate::sdk::discovery::highest_entry(entries) == -1,
    decreases entries.len(),
{
    if entries.len() > 0 {
        let front = entries.drop_last();
        assert forall|i: int| 0 <= i < front.len() implies !(#[trigger] front[i]).has_native
            || parsed_u32(front[i].name@) is None by {
            assert(front[i] == entries[i]);
        }
        lemma_no_level(front);
        assert(!entries[entries.len() - 1].has_native || parsed_u32(
            entries[entries.len() - 1].name@,
        ) is None);
    }
}

pub proof fn lemma_last_index_bounds<A>(s: Seq<A>, p: spec_fn(A) -> bool)
    ensures
        -1 <= crate::sort::last_index(s, p) < s.len(),
        crate::sort::last_index(s, p) >= 0 ==> p(s[crate::sort::last_index(s, p)]),
        forall|i: int| crate::sort::last_index(s, p) < i < s.len() ==> !p(#[trigger] s[i]),
    decreases s.len(),
{
    if s.len() > 0 && !p(s.last()) {
        let front = s.drop_last();
        lemma_last_index_bounds(front, p);
        assert forall|i: int| crate::sort::last_index(s, p) < i < s.len() implies !p(
            #[trigger] s[i],
        ) by {
            if i < front.len() {
                assert(front[i] == s[i]);
            }
        }
    }
}

/// What an install is ordered by behind its level.
pub open spec fn version_numbers(sdk: Sdk) -> Seq<u64> {
    match sdk.version {
        Some(version) => version_key_of(version@),
        None => version_key_of(seq![]),
    }
}

/// Of a cache the newest install that was finished is used: none that was finished has a higher level,
/// and none of the same level a higher version.
pub proof fn law_the_newest_install_is_used(entries: Seq<CacheEntry>, i: int, j: int)
    requires
        is_newest(entries, i),
        0 <= j < entries.len(),
        entries[j].complete,
        entries[j].sdk is Some,
    ensures
        entries[i].complete,
        entries[i].sdk is Some,
        ({
            let used = entries[i].sdk->Some_0;
            let other = entries[j].sdk->Some_0;
            &&& other.api_version matches Some(level) ==> (used.api_version matches Some(highest)
                && highest >= level)
            &&& used.api_version == other.api_version ==> !key_less(
                version_numbers(used),
                version_numbers(other),
            )
        }),
{
    assert(crate::sdk::discovery::usable(entries[j]));
}

/// Nothing of a cache is used exactly if no install in it was finished.
pub proof fn law_nothing_finished_nothing_used(entries: Seq<CacheEntry>)
    ensures
        none_usable(entries) <==> forall|j: int|
            0 <= j < entries.len() ==> !((#[trigger] entries[j]).complete && entries[j].sdk is Some),
{
    if none_usable(entries) {
        assert forall|j: int| 0 <= j < entries.len() implies !((#[trigger] entries[j]).complete
            && entries[j].sdk is Some) by {
            assert(!crate::sdk::discovery::usable(entries[j]));
        }
    }
}

/// What is said of components is what they are: all of them, or those that are named.
pub proof fn law_components_say_what_they_are(components: Components, name: Seq<char>)
    ensures
        components is All ==> wants(components@, name),
        components matches Components::Only(names) ==> (wants(components@, name) <==> names@.contains(
            name,
        )),
        components is All <==> components@ is None,
{
}

/// The candidates are tried one after the other, each once those before it gave nothing, and the cache
/// once all of them gave nothing.
pub proof fn law_candidates_are_tried_in_order(
    candidates: Seq<Seq<char>>,
    cache: Option<Seq<char>>,
    tried: Seq<Seq<char>>,
    seen: DiscoverySeen,
    step: DiscoverStep,
)
    requires
        discover_step(candidates, cache, tried, seen, step),
    ensures
        step matches DiscoverStep::TryCandidate(path) ==> {
            &&& seen.outcomes@.len() < candidates.len()
            &&& path@ == candidates[seen.outcomes@.len() as int]
            &&& forall|j: int| 0 <= j < seen.outcomes@.len() ==> (#[trigger] seen.outcomes@[j]) is None
        },
        step matches DiscoverStep::TryCache(path) ==> cache == Some(path@) && seen.outcomes@.len()
            >= candidates.len() && seen.cached is None && forall|j: int|
            0 <= j < seen.outcomes@.len() ==> (#[trigger] seen.outcomes@[j]) is None,
        step matches DiscoverStep::Done(Err(Error::SdkNotFound { tried: places })) ==> texts(places@)
            == tried,
        step matches DiscoverStep::Done(Ok(sdk)) ==> first_loaded(seen.outcomes@) == Some(sdk) || (
        seen.cached == Some(Some(sdk)) && cache is Some),
        (seen.cached matches Some(Some(_))) && cache is Some && seen.outcomes@.len() >= candidates.len()
            ==> (step matches DiscoverStep::Done(Ok(_))),
{
    law_the_first_that_is_loaded(seen.outcomes@);
}

/// A directory is an SDK exactly if it has an LLVM toolchain and a sysroot.
pub proof fn law_what_makes_an_sdk(platform: Platform, probe: Probe, res: Option<Sdk>)
    requires
        load_is(platform, probe, res),
    ensures
        res is Some <==> probe.llvm_bin_is_dir && probe.sysroot_is_dir,
        res matches Some(sdk) ==> loaded(platform, probe, sdk),
        res matches Some(sdk) ==> (probe.package matches Some(package) ==> sdk.api_version
            == package_level(package) && sdk.version == package.version),
{
}

/// What is looked at to tell an SDK is what it is then used for: each path that is asked about is the one
/// the SDK has, and the level and the version come from the SDK's own description.
pub proof fn law_what_is_looked_at_is_used(
    platform: Platform,
    probe: Probe,
    sdk: Sdk,
    paths: SdkPaths,
)
    requires
        loaded(platform, probe, sdk),
        sdk_paths_are(platform, probe.native_root@, paths),
    ensures
        paths.llvm_root@ == sdk.llvm_root@,
        paths.llvm_bin@ == sdk.llvm_bin@,
        paths.sysroot@ == sdk.sysroot@,
        sdk.cmake matches Some(cmake) ==> cmake@ == paths.cmake@,
        sdk.cmake_toolchain_file matches Some(file) ==> file@ == paths.cmake_toolchain_file@,
        paths.metadata@ == joined_path(platform, sdk.native_root@, "oh-uni-package.json"@),
        paths.ninja@ == program_of(
            platform,
            joined_path(
                platform,
                joined_path(
                    platform,
                    joined_path(
                        platform,
                        joined_path(platform, sdk.native_root@, "build-tools"@),
                        "cmake"@,
                    ),
                    "bin"@,
                ),
                "ninja"@,
            ),
        ),
{
}

} // verus!
