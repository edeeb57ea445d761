//! Finding an SDK that is installed.

use crate::build_env::Error;
use crate::download::{
    key_is_less, key_less, lemma_key_less_asymmetric, lemma_key_less_irreflexive,
    lemma_key_less_transitive, version_key, version_key_of, COMPLETE_MARKER,
};
use crate::ordered::StringMap;
use crate::path::{join, join2, joined_path, Platform};
use crate::sdk::release::{os_dir_name, os_dir_of};
use crate::sdk::Sdk;
use crate::sort::{first_index, last_index, lemma_first_index, lemma_first_index_bounds};
use crate::text::{cat2, cat4, equal, opt_text, parse_u32, parsed_u32, texts};
use vstd::prelude::*;

verus! {

/// An entry of a directory of SDKs.
pub struct SdkEntry {
    pub name: String,
    /// Whether it holds a `native` directory.
    pub has_native: bool,
}

/// The API level an entry is named after.
pub open spec fn entry_level(entry: SdkEntry) -> Option<u32> {
    if entry.has_native && entry.name@ != "default"@ {
        parsed_u32(entry.name@)
    } else {
        None
    }
}

/// The index of the entry with the highest API level, the first of them if several have it; -1 if
/// none has a level.
pub open spec fn highest_entry(entries: Seq<SdkEntry>) -> int
    decreases entries.len(),
{
    if entries.len() == 0 {
        -1
    } else {
        let best = highest_entry(entries.drop_last());
        match entry_level(entries.last()) {
            Some(level) => if best < 0 || level > entry_level(entries[best])->Some_0 {
                entries.len() - 1
            } else {
                best
            },
            None => best,
        }
    }
}

/// The index of the entry to use: the one with the highest API level, or else the one called
/// `default`; -1 if there is neither.
pub open spec fn entry_to_use(entries: Seq<SdkEntry>) -> int {
    let best = highest_entry(entries);
    if best >= 0 {
        best
    } else {
        last_index(entries, |e: SdkEntry| e.has_native && e.name@ == "default"@)
    }
}

/// The native directory below `root` to use when `root` itself is not one.
pub open spec fn level_root(platform: Platform, root: Seq<char>, entries: Seq<SdkEntry>) -> Option<
    Seq<char>,
> {
    let at = entry_to_use(entries);
    if at >= 0 {
        Some(joined_path(platform, joined_path(platform, root, entries[at].name@), "native"@))
    } else {
        None
    }
}

/// The first SDK among the outcomes of some attempts.
pub open spec fn first_loaded(outcomes: Seq<Option<Sdk>>) -> Option<Sdk> {
    let at = first_index(outcomes, |outcome: Option<Sdk>| outcome is Some) as int;
    if at < outcomes.len() {
        outcomes[at]
    } else {
        None
    }
}

fn first_of(outcomes: &Vec<Option<Sdk>>) -> (res: Option<Sdk>)
    ensures
        res == first_loaded(outcomes@),
{
    let mut i: usize = 0;
    while i < outcomes.len() && outcomes[i].is_none()
        invariant
            i <= outcomes.len(),
            forall|k: int| 0 <= k < i ==> (#[trigger] outcomes@[k]) is None,
        decreases outcomes.len() - i,
    {
        i += 1;
    }
    proof {
        lemma_first_index(outcomes@, |outcome: Option<Sdk>| outcome is Some, i as int);
    }
    if i < outcomes.len() {
        match &outcomes[i] {
            Some(sdk) => Some(sdk.clone()),
            None => None,
        }
    } else {
        None
    }
}

/// The native directories a candidate may stand for, in the order in which they are tried. The
/// variables that point at SDKs point at different places relative to the native directory.
pub open spec fn candidate_roots(platform: Platform, path: Seq<char>) -> Seq<Seq<char>> {
    seq![
        path,
        joined_path(platform, path, "native"@),
        joined_path(
            platform,
            joined_path(platform, joined_path(platform, path, "default"@), "openharmony"@),
            "native"@,
        ),
    ]
}

/// What was seen so far of a candidate.
pub struct CandidateSeen {
    /// What the directories to load gave, in the order in which they were asked for.
    pub loads: Vec<Option<Sdk>>,
    /// The entries of the candidate, if they could be listed.
    pub entries: Option<Option<Vec<SdkEntry>>>,
}

/// What to do next to load a candidate.
pub enum CandidateStep {
    /// Load the SDK in this native directory: the next of `loads`.
    Load(String),
    /// List this directory: `entries`.
    List(String),
    Done(Option<Sdk>),
}

/// The step that follows `seen`: the places a candidate may stand for are tried in turn, and then,
/// if it is a directory of SDKs, the one of the highest API level.
pub open spec fn candidate_step(
    platform: Platform,
    path: Seq<char>,
    seen: CandidateSeen,
    step: CandidateStep,
) -> bool {
    let roots = candidate_roots(platform, path);
    let count = seen.loads@.len() as int;
    match first_loaded(seen.loads@) {
        Some(sdk) => step == CandidateStep::Done(Some(sdk)),
        None => if count < roots.len() {
            step matches CandidateStep::Load(root) && root@ == roots[count]
        } else {
            match seen.entries {
                None => step matches CandidateStep::List(dir) && dir@ == path,
                Some(None) => step matches CandidateStep::Done(None),
                Some(Some(entries)) => match level_root(platform, path, entries@) {
                    Some(last) if count == roots.len() => step matches CandidateStep::Load(root)
                        && root@ == last,
                    _ => step matches CandidateStep::Done(None),
                },
            }
        },
    }
}

/// The order of installs: by API level, and of those by version. One without a level comes first.
pub open spec fn sdk_less(a: Sdk, b: Sdk) -> bool {
    match (a.api_version, b.api_version) {
        (None, Some(_)) => true,
        (Some(_), None) => false,
        (Some(x), Some(y)) => x < y || (x == y && key_less(sdk_key(a), sdk_key(b))),
        (None, None) => key_less(sdk_key(a), sdk_key(b)),
    }
}

pub open spec fn sdk_key(sdk: Sdk) -> Seq<u64> {
    version_key_of(
        match sdk.version {
            Some(version) => version@,
            None => seq![],
        },
    )
}

/// An entry of the cache of downloaded SDKs.
pub struct CacheEntry {
    /// Whether it is marked as completely installed.
    pub complete: bool,
    /// The SDK in it, if there is one.
    pub sdk: Option<Sdk>,
}

/// Whether an entry of the cache can be used: an install that was not finished cannot.
pub open spec fn usable(entry: CacheEntry) -> bool {
    entry.complete && entry.sdk is Some
}

/// Whether the entry at `i` is the newest that can be used, the last of them if several are.
pub open spec fn is_newest(entries: Seq<CacheEntry>, i: int) -> bool {
    &&& 0 <= i < entries.len()
    &&& usable(entries[i])
    &&& forall|j: int|
        0 <= j < entries.len() && #[trigger] usable(entries[j]) ==> !sdk_less(
            entries[i].sdk->Some_0,
            entries[j].sdk->Some_0,
        ) && (i < j ==> sdk_less(entries[j].sdk->Some_0, entries[i].sdk->Some_0))
}

/// Whether no entry can be used.
pub open spec fn none_usable(entries: Seq<CacheEntry>) -> bool {
    forall|j: int| 0 <= j < entries.len() ==> !#[trigger] usable(entries[j])
}

/// Where an entry of the cache has the install for a host, and the file that marks it as complete.
pub struct CachePaths {
    pub base: String,
    pub marker: String,
}

/// Whether `paths` are those of the entry called `name`.
pub open spec fn cache_paths_are(
    platform: Platform,
    cache: Seq<char>,
    name: Seq<char>,
    os: Seq<char>,
    paths: CachePaths,
) -> bool {
    &&& paths.base@ == joined_path(platform, joined_path(platform, cache, name), os_dir_of(os))
    &&& paths.marker@ == joined_path(platform, paths.base@, ".cargo-ohos-complete"@)
}

/// The paths of the entry called `name`.
pub fn cache_paths(platform: Platform, cache: &str, name: &str, os: &str) -> (res: CachePaths)
    ensures
        cache_paths_are(platform, cache@, name@, os@, res),
{
    let base = join2(platform, cache, name, os_dir_name(os));
    let marker = join(platform, base.as_str(), COMPLETE_MARKER);
    CachePaths { base, marker }
}

/// The newest completely installed SDK of a cache: the highest API level, and of those the highest
/// SDK version.
pub fn newest_complete(entries: &Vec<CacheEntry>) -> (res: Option<usize>)
    ensures
        match res {
            Some(i) => is_newest(entries@, i as int),
            None => none_usable(entries@),
        },
{
    let mut best: Option<usize> = None;
    let mut i: usize = 0;
    while i < entries.len()
        invariant
            i <= entries.len(),
            match best {
                Some(at) => is_newest(entries@.take(i as int), at as int),
                None => none_usable(entries@.take(i as int)),
            },
        decreases entries.len() - i,
    {
        let ghost before = entries@.take(i as int);
        let ghost after = entries@.take(i + 1);
        let ghost old_best = best;
        if entries[i].complete {
            if let Some(sdk) = &entries[i].sdk {
                let keep = match best {
                    Some(at) => match &entries[at].sdk {
                        Some(newest) => sdk.older(newest),
                        None => false,
                    },
                    None => false,
                };
                if !keep {
                    best = Some(i);
                }
                proof {
                    lemma_sdk_order(*sdk, *sdk, *sdk);
                    if let Some(at) = old_best {
                        let newest = before[at as int].sdk->Some_0;
                        assert(after[at as int] == before[at as int]);
                        lemma_sdk_order(*sdk, newest, newest);
                        assert forall|j: int| 0 <= j < i && #[trigger] usable(after[j]) implies {
                            &&& !sdk_less(newest, after[j].sdk->Some_0)
                            &&& at < j ==> sdk_less(after[j].sdk->Some_0, newest)
                            &&& !keep ==> !sdk_less(*sdk, after[j].sdk->Some_0)
                        } by {
                            assert(after[j] == before[j]);
                            assert(usable(before[j]));
                            lemma_sdk_order(*sdk, newest, after[j].sdk->Some_0);
                        }
                    } else {
                        assert forall|j: int| 0 <= j < i implies !#[trigger] usable(after[j]) by {
                            assert(after[j] == before[j]);
                            assert(!usable(before[j]));
                        }
                    }
                }
            }
        }
        proof {
            if !usable(entries@[i as int]) {
                assert forall|j: int| 0 <= j < i implies #[trigger] after[j] == before[j] by {}
                if let Some(at) = best {
                    assert(after[at as int] == before[at as int]);
                    assert forall|j: int| 0 <= j < after.len() && #[trigger] usable(
                        after[j],
                    ) implies !sdk_less(
                        after[at as int].sdk->Some_0,
                        after[j].sdk->Some_0,
                    ) && (at < j ==> sdk_less(after[j].sdk->Some_0, after[at as int].sdk->Some_0)) by {
                        assert(after[j] == before[j]);
                        assert(usable(before[j]));
                    }
                } else {
                    assert forall|j: int| 0 <= j < after.len() implies !#[trigger] usable(
                        after[j],
                    ) by {
                        if j < i {
                            assert(!usable(before[j]));
                        }
                    }
                }
            }
        }
        i += 1;
    }
    proof {
        assert(entries@.take(i as int) =~= entries@);
    }
    best
}

/// The environment variables that may point at an SDK, in the order in which they are tried.
pub open spec fn env_candidates() -> Seq<Seq<char>> {
    seq!["OHOS_SDK_NATIVE"@, "OHOS_NDK_HOME"@, "OHOS_SDK_HOME"@, "DEVECO_SDK_HOME"@]
}

/// The variables among `names` that are set.
pub open spec fn set_variables(names: Seq<Seq<char>>, env: Map<Seq<char>, Seq<char>>) -> Seq<Seq<char>> {
    names.filter(|name: Seq<char>| env.contains_key(name))
}

/// How to look for an SDK: try the candidates in order, then the cache of downloaded SDKs if there is
/// one to try, and report what was tried if all of that fails.
pub struct Discovery {
    pub candidates: Vec<String>,
    pub cache: Option<String>,
    pub tried: Vec<String>,
}

/// Where DevEco Studio installs its SDKs on macOS.
pub const DEFAULT_DEVECO_SDK_HOME: &'static str = "/Applications/DevEco-Studio.app/Contents/sdk";

/// Whether the default location is tried: on macOS, unless the variable for it is set.
pub open spec fn tries_default(platform: Platform, env: Map<Seq<char>, Seq<char>>) -> bool {
    platform == Platform::Macos && !env.contains_key("DEVECO_SDK_HOME"@)
}

/// The candidates when none is given explicitly: the values of the variables that are set, and the
/// default location.
pub open spec fn candidates_of(platform: Platform, env: Map<Seq<char>, Seq<char>>) -> Seq<Seq<char>> {
    let values = set_variables(env_candidates(), env).map_values(|name: Seq<char>| env[name]);
    if tries_default(platform, env) {
        values.push("/Applications/DevEco-Studio.app/Contents/sdk"@)
    } else {
        values
    }
}

/// What is reported to have been tried when no candidate is given explicitly and nothing is found.
pub open spec fn tried_of(platform: Platform, env: Map<Seq<char>, Seq<char>>, cache: Seq<char>) -> Seq<
    Seq<char>,
> {
    let set = set_variables(env_candidates(), env);
    let values = set.map_values(|name: Seq<char>| "$"@ + name + " = "@ + env[name]);
    let places = if tries_default(platform, env) {
        values.push("/Applications/DevEco-Studio.app/Contents/sdk"@)
    } else {
        values
    };
    let named = if places.len() == 0 {
        seq![
            "none of $OHOS_SDK_NATIVE, $OHOS_NDK_HOME, $OHOS_SDK_HOME, $DEVECO_SDK_HOME are set"@,
        ]
    } else {
        places
    };
    if set.len() == 0 {
        named.push("no SDK downloaded into "@ + cache)
    } else {
        named
    }
}

fn push_variable(
    candidates: &mut Vec<String>,
    tried: &mut Vec<String>,
    name: &str,
    env: &StringMap,
) -> (res: bool)
    ensures
        res == env@.contains_key(name@),
        texts(final(candidates)@) == if env@.contains_key(name@) {
            texts(old(candidates)@).push(env@[name@])
        } else {
            texts(old(candidates)@)
        },
        texts(final(tried)@) == if env@.contains_key(name@) {
            texts(old(tried)@).push("$"@ + name@ + " = "@ + env@[name@])
        } else {
            texts(old(tried)@)
        },
{
    let ghost a = texts(candidates@);
    let ghost b = texts(tried@);
    match env.get(name) {
        Some(value) => {
            let place = cat4("$", name, " = ", value.as_str());
            tried.push(place);
            candidates.push(value);
            proof {
                assert(texts(candidates@) =~= a.push(env@[name@]));
                assert(texts(tried@) =~= b.push("$"@ + name@ + " = "@ + env@[name@]));
            }
            true
        },
        None => false,
    }
}

/// The candidates to try, given the one named explicitly.
pub open spec fn plan_candidates(
    platform: Platform,
    explicit: Option<Seq<char>>,
    env: Map<Seq<char>, Seq<char>>,
) -> Seq<Seq<char>> {
    match explicit {
        Some(path) => seq![path],
        None => candidates_of(platform, env),
    }
}

/// The cache to look into once no candidate was found, unless something is configured. A variable
/// that is set but wrong is a mistake to report, not a reason to quietly build with some other SDK.
pub open spec fn plan_cache(
    explicit: Option<Seq<char>>,
    env: Map<Seq<char>, Seq<char>>,
    cache: Seq<char>,
) -> Option<Seq<char>> {
    if explicit is None && set_variables(env_candidates(), env).len() == 0 {
        Some(cache)
    } else {
        None
    }
}

/// What is reported to have been tried if nothing is found.
pub open spec fn plan_tried(
    platform: Platform,
    explicit: Option<Seq<char>>,
    env: Map<Seq<char>, Seq<char>>,
    cache: Seq<char>,
) -> Seq<Seq<char>> {
    match explicit {
        Some(path) => seq![path],
        None => tried_of(platform, env, cache),
    }
}

impl Discovery {
    /// How to look for an SDK, given the one named explicitly, the environment, and the cache
    /// directory.
    pub fn new(platform: Platform, explicit: &Option<String>, env: &StringMap, cache: &str) -> (res:
        Self)
        ensures
            texts(res.candidates@) == plan_candidates(platform, opt_text(*explicit), env@),
            opt_text(res.cache) == plan_cache(opt_text(*explicit), env@, cache@),
            texts(res.tried@) == plan_tried(platform, opt_text(*explicit), env@, cache@),
    {
        let mut candidates: Vec<String> = Vec::new();
        let mut tried: Vec<String> = Vec::new();
        if let Some(path) = explicit {
            candidates.push(path.clone());
            tried.push(path.clone());
            proof {
                assert(texts(candidates@) =~= seq![path@]);
                assert(texts(tried@) =~= seq![path@]);
            }
            return Discovery { candidates, cache: None, tried };
        }
        let ghost is_set = |name: Seq<char>| env@.contains_key(name);
        let ghost value = |name: Seq<char>| env@[name];
        let ghost place = |name: Seq<char>| "$"@ + name + " = "@ + env@[name];
        let ghost names = env_candidates();
        let first = push_variable(&mut candidates, &mut tried, "OHOS_SDK_NATIVE", env);
        let second = push_variable(&mut candidates, &mut tried, "OHOS_NDK_HOME", env);
        let third = push_variable(&mut candidates, &mut tried, "OHOS_SDK_HOME", env);
        let fourth = push_variable(&mut candidates, &mut tried, "DEVECO_SDK_HOME", env);
        proof {
            assert(names.take(0) =~= seq![]);
            reveal_with_fuel(Seq::filter, 5);
            assert(names.take(4) =~= names);
            assert(names.drop_last() =~= names.take(3));
            assert(names.take(3).drop_last() =~= names.take(2));
            assert(names.take(2).drop_last() =~= names.take(1));
            assert(names.take(1).drop_last() =~= names.take(0));
            assert(texts(candidates@) =~= names.filter(is_set).map_values(value));
            assert(texts(tried@) =~= names.filter(is_set).map_values(place));
        }
        let misconfigured = first || second || third || fourth;
        if platform == Platform::Macos && !fourth {
            let ghost a = texts(candidates@);
            let ghost b = texts(tried@);
            candidates.push(DEFAULT_DEVECO_SDK_HOME.to_owned());
            tried.push(DEFAULT_DEVECO_SDK_HOME.to_owned());
            proof {
                assert(texts(candidates@) =~= a.push(
                    "/Applications/DevEco-Studio.app/Contents/sdk"@,
                ));
                assert(texts(tried@) =~= b.push("/Applications/DevEco-Studio.app/Contents/sdk"@));
            }
        }
        if tried.len() == 0 {
            tried.push(
                "none of $OHOS_SDK_NATIVE, $OHOS_NDK_HOME, $OHOS_SDK_HOME, $DEVECO_SDK_HOME are set".to_owned(),
            );
            proof {
                assert(texts(tried@) =~= seq![
                    "none of $OHOS_SDK_NATIVE, $OHOS_NDK_HOME, $OHOS_SDK_HOME, $DEVECO_SDK_HOME are set"@,
                ]);
            }
        }
        let mut found_cache: Option<String> = None;
        if !misconfigured {
            let ghost b = texts(tried@);
            tried.push(cat2("no SDK downloaded into ", cache));
            found_cache = Some(cache.to_owned());
            proof {
                assert(texts(tried@) =~= b.push("no SDK downloaded into "@ + cache@));
            }
        }
        Discovery { candidates, cache: found_cache, tried }
    }
}

/// What was seen so far while looking for an SDK.
pub struct DiscoverySeen {
    /// What the candidates gave, in order.
    pub outcomes: Vec<Option<Sdk>>,
    /// What the cache gave.
    pub cached: Option<Option<Sdk>>,
}

/// What to do next to find an SDK.
pub enum DiscoverStep {
    /// Load this candidate: the next of `outcomes`.
    TryCandidate(String),
    /// Look for a downloaded SDK in this directory: `cached`.
    TryCache(String),
    Done(Result<Sdk, Error>),
}

/// The step that follows `seen`: the first candidate that loads is used, or else a downloaded SDK if
/// the cache is to be looked into, or else it is reported what was tried.
pub open spec fn discover_step(
    candidates: Seq<Seq<char>>,
    cache: Option<Seq<char>>,
    tried: Seq<Seq<char>>,
    seen: DiscoverySeen,
    step: DiscoverStep,
) -> bool {
    let count = seen.outcomes@.len() as int;
    match first_loaded(seen.outcomes@) {
        Some(sdk) => step == DiscoverStep::Done(Ok(sdk)),
        None => if count < candidates.len() {
            step matches DiscoverStep::TryCandidate(path) && path@ == candidates[count]
        } else {
            match (cache, seen.cached) {
                (Some(dir), None) => step matches DiscoverStep::TryCache(path) && path@ == dir,
                (Some(_), Some(Some(sdk))) => step == DiscoverStep::Done(Ok(sdk)),
                _ => step matches DiscoverStep::Done(Err(Error::SdkNotFound { tried: places }))
                    && texts(places@) == tried,
            }
        },
    }
}

impl Sdk {
    /// Find the SDK to use: the one named explicitly, or one the environment points at, or a
    /// downloaded one. The result is the step that follows what was seen so far.
    pub fn discover(
        platform: Platform,
        explicit: &Option<String>,
        env: &StringMap,
        cache: &str,
        seen: &DiscoverySeen,
    ) -> (res: DiscoverStep)
        ensures
            discover_step(
                plan_candidates(platform, opt_text(*explicit), env@),
                plan_cache(opt_text(*explicit), env@, cache@),
                plan_tried(platform, opt_text(*explicit), env@, cache@),
                *seen,
                res,
            ),
    {
        let plan = Discovery::new(platform, explicit, env, cache);
        if let Some(sdk) = first_of(&seen.outcomes) {
            return DiscoverStep::Done(Ok(sdk));
        }
        let next = seen.outcomes.len();
        proof {
            assert(texts(plan.candidates@).len() == plan.candidates@.len());
        }
        if next < plan.candidates.len() {
            proof {
                assert(texts(plan.candidates@)[next as int] == plan.candidates@[next as int]@);
            }
            return DiscoverStep::TryCandidate(plan.candidates[next].clone());
        }
        match (plan.cache, &seen.cached) {
            (Some(dir), None) => DiscoverStep::TryCache(dir),
            (Some(_), Some(Some(sdk))) => DiscoverStep::Done(Ok(sdk.clone())),
            _ => DiscoverStep::Done(Err(Error::SdkNotFound { tried: plan.tried })),
        }
    }

    /// Load a candidate, in any of the places it may stand for: the step that follows what was seen
    /// so far.
    pub fn from_candidate(platform: Platform, path: &str, seen: &CandidateSeen) -> (res: CandidateStep)
        ensures
            candidate_step(platform, path@, *seen, res),
    {
        if let Some(sdk) = first_of(&seen.loads) {
            return CandidateStep::Done(Some(sdk));
        }
        match seen.loads.len() {
            0 => return CandidateStep::Load(path.to_owned()),
            1 => return CandidateStep::Load(join(platform, path, "native")),
            2 => {
                let openharmony = join2(platform, path, "default", "openharmony");
                return CandidateStep::Load(join(platform, openharmony.as_str(), "native"));
            },
            _ => {},
        }
        match &seen.entries {
            None => CandidateStep::List(path.to_owned()),
            Some(None) => CandidateStep::Done(None),
            Some(Some(entries)) => match Sdk::highest_api_level(platform, path, entries) {
                Some(root) => if seen.loads.len() == 3 {
                    CandidateStep::Load(root)
                } else {
                    CandidateStep::Done(None)
                },
                None => CandidateStep::Done(None),
            },
        }
    }

    /// The native directory below `root` to use when `root` itself is not one: that of the highest API
    /// level, or else the one called `default`.
    pub fn highest_api_level(platform: Platform, root: &str, entries: &Vec<SdkEntry>) -> (res: Option<
        String,
    >)
        ensures
            opt_text(res) == level_root(platform, root@, entries@),
    {
        let ghost is_default = |e: SdkEntry| e.has_native && e.name@ == "default"@;
        let mut best: Option<(u32, usize)> = None;
        let mut default: Option<usize> = None;
        let mut i: usize = 0;
        while i < entries.len()
            invariant
                i <= entries.len(),
                is_default == (|e: SdkEntry| e.has_native && e.name@ == "default"@),
                match best {
                    Some((level, at)) => at < i && highest_entry(entries@.take(i as int)) == at
                        && entry_level(entries@[at as int]) == Some(level),
                    None => highest_entry(entries@.take(i as int)) == -1,
                },
                match default {
                    Some(at) => at < i && last_index(entries@.take(i as int), is_default) == at,
                    None => last_index(entries@.take(i as int), is_default) == -1,
                },
            decreases entries.len() - i,
        {
            proof {
                assert(entries@.take(i + 1).drop_last() =~= entries@.take(i as int));
                assert(entries@.take(i + 1).last() == entries@[i as int]);
            }
            let entry = &entries[i];
            if entry.has_native {
                if equal(entry.name.as_str(), "default") {
                    default = Some(i);
                } else if let Some(level) = parse_u32(entry.name.as_str()) {
                    let better = match best {
                        Some((highest, _)) => level > highest,
                        None => true,
                    };
                    if better {
                        best = Some((level, i));
                    }
                }
            }
            i += 1;
        }
        proof {
            assert(entries@.take(i as int) =~= entries@);
        }
        let found = match best {
            Some((_, at)) => Some(at),
            None => default,
        };
        match found {
            Some(at) => Some(join2(platform, root, entries[at].name.as_str(), "native")),
            None => None,
        }
    }

    fn older(&self, other: &Sdk) -> (res: bool)
        ensures
            res == sdk_less(*self, *other),
    {
        match (self.api_version, other.api_version) {
            (None, Some(_)) => true,
            (Some(_), None) => false,
            (Some(a), Some(b)) => a < b || (a == b && key_is_less(&self.key(), &other.key())),
            (None, None) => key_is_less(&self.key(), &other.key()),
        }
    }

    fn key(&self) -> (res: Vec<u64>)
        ensures
            res@ == sdk_key(*self),
    {
        match &self.version {
            Some(version) => version_key(version.as_str()),
            None => {
                proof {
                    reveal_strlit("");
                    assert(""@ =~= seq![]);
                }
                version_key("")
            },
        }
    }

    /// The newest completely installed SDK among the entries of a cache.
    pub fn from_cache(entries: &Vec<CacheEntry>) -> (res: Option<Self>)
        ensures
            match res {
                Some(sdk) => exists|i: int| #[trigger]
                    is_newest(entries@, i) && entries@[i].sdk == Some(sdk),
                None => none_usable(entries@),
            },
    {
        match newest_complete(entries) {
            Some(i) => match &entries[i].sdk {
                Some(sdk) => {
                    proof {
                        assert(is_newest(entries@, i as int));
                    }
                    Some(sdk.clone())
                },
                None => None,
            },
            None => None,
        }
    }
}

/// The order of installs is one: none is older than itself, no two are older than each other, and if
/// the first is not older than the second and that not than the third, then the first is not older
/// than the third.
pub proof fn lemma_sdk_order(a: Sdk, b: Sdk, c: Sdk)
    ensures
        !sdk_less(a, a),
        sdk_less(a, b) ==> !sdk_less(b, a),
        !sdk_less(a, b) && !sdk_less(b, c) ==> !sdk_less(a, c),
{
    let (x, y, z) = (sdk_key(a), sdk_key(b), sdk_key(c));
    lemma_key_less_irreflexive(x);
    if key_less(x, y) {
        lemma_key_less_asymmetric(x, y);
    }
    if !key_less(x, y) && !key_less(y, z) {
        lemma_key_less_transitive(x, y, z);
    }
}

/// Only one entry of a cache is the one to use.
pub proof fn law_the_newest_is_unique(entries: Seq<CacheEntry>, i: int, j: int)
    requires
        is_newest(entries, i),
        is_newest(entries, j),
    ensures
        i == j,
{
    assert(usable(entries[i]) && usable(entries[j]));
}

/// It is reported that nothing was found only once every candidate, and the cache where it is to be
/// looked into, was tried; and a downloaded SDK is used only where nothing is configured and no
/// candidate loads.
pub proof fn law_everything_is_tried(
    platform: Platform,
    explicit: Option<Seq<char>>,
    env: Map<Seq<char>, Seq<char>>,
    cache: Seq<char>,
    seen: DiscoverySeen,
    step: DiscoverStep,
)
    requires
        discover_step(
            plan_candidates(platform, explicit, env),
            plan_cache(explicit, env, cache),
            plan_tried(platform, explicit, env, cache),
            seen,
            step,
        ),
    ensures
        step matches DiscoverStep::Done(Err(_)) ==> {
            &&& seen.outcomes@.len() >= plan_candidates(platform, explicit, env).len()
            &&& forall|i: int| 0 <= i < seen.outcomes@.len() ==> (#[trigger] seen.outcomes@[i]) is None
            &&& plan_cache(explicit, env, cache) is Some ==> (seen.cached matches Some(None))
        },
        step matches DiscoverStep::Done(Ok(sdk)) ==> {
            ||| first_loaded(seen.outcomes@) == Some(sdk)
            ||| {
                &&& seen.cached == Some(Some(sdk))
                &&& explicit is None
                &&& forall|name: Seq<char>| #[trigger]
                    env_candidates().contains(name) ==> !env.contains_key(name)
                &&& forall|i: int|
                    0 <= i < seen.outcomes@.len() ==> (#[trigger] seen.outcomes@[i]) is None
            }
        },
{
    let loads = |outcome: Option<Sdk>| outcome is Some;
    lemma_first_index_bounds(seen.outcomes@, loads);
    if plan_cache(explicit, env, cache) is Some {
        assert forall|name: Seq<char>| #[trigger]
            env_candidates().contains(name) implies !env.contains_key(name) by {
            if env.contains_key(name) {
                law_misconfiguration_is_reported(platform, env, cache, name);
            }
        }
    }
}

/// A variable that is set but does not point at an SDK is never papered over: if any is set, only the
/// places they name (and the default location on macOS) are tried, not the cache.
pub proof fn law_misconfiguration_is_reported(
    platform: Platform,
    env: Map<Seq<char>, Seq<char>>,
    cache: Seq<char>,
    name: Seq<char>,
)
    requires
        env_candidates().contains(name),
        env.contains_key(name),
    ensures
        set_variables(env_candidates(), env).len() > 0,
        candidates_of(platform, env).contains(env[name]),
        tried_of(platform, env, cache).contains("$"@ + name + " = "@ + env[name]),
{
    broadcast use vstd::seq_lib::group_filter_ensures;

    let names = env_candidates();
    let is_set = |n: Seq<char>| env.contains_key(n);
    let i = choose|i: int| 0 <= i < names.len() && names[i] == name;
    let set = set_variables(names, env);
    assert(is_set(names[i]));
    assert(set.contains(names[i]));
    let k = choose|k: int| 0 <= k < set.len() && set[k] == name;
    let value = |n: Seq<char>| env[n];
    let place = |n: Seq<char>| "$"@ + n + " = "@ + env[n];
    assert(candidates_of(platform, env)[k] == env[name]);
    assert(tried_of(platform, env, cache)[k] == "$"@ + name + " = "@ + env[name]);
}

/// The entry used has the highest API level there is.
pub proof fn law_highest_entry(entries: Seq<SdkEntry>, i: int)
    requires
        0 <= i < entries.len(),
    ensures
        highest_entry(entries) < entries.len(),
        entry_level(entries[i]) matches Some(level) ==> {
            &&& 0 <= highest_entry(entries)
            &&& entry_level(entries[highest_entry(entries)]) matches Some(highest)
            &&& level <= highest
        },
    decreases entries.len(),
{
    let front = entries.drop_last();
    reveal_with_fuel(highest_entry, 2);
    if front.len() > 0 {
        let best = highest_entry(front);
        if i < front.len() {
            law_highest_entry(front, i);
        } else {
            law_highest_entry(front, 0);
            if best >= 0 {
                lemma_highest_entry_has_a_level(front);
            }
        }
    }
}

proof fn lemma_highest_entry_has_a_level(entries: Seq<SdkEntry>)
    ensures
        -1 <= highest_entry(entries) < entries.len(),
        highest_entry(entries) >= 0 ==> entry_level(entries[highest_entry(entries)]) is Some,
    decreases entries.len(),
{
    if entries.len() > 0 {
        lemma_highest_entry_has_a_level(entries.drop_last());
    }
}

} // verus!
