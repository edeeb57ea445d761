//! Choosing the SDK release to install, and the files it consists of.

use crate::download::{
    chosen, is_safe_component, published, releases_in, safe_component, select_release,
    version_of, versions, versions_match, Asset, Release,
};
use crate::sort::{
    first_index, in_order, is_strict_weak_order, last_index, law_sorting_orders,
    lemma_filter_last, lemma_first_index, stably_sorted,
};
use crate::text::{
    ascii_lowered, cat2, cat3, cat5, chars_of, decimal, decimal_string, equal, is_lower, join,
    joined, less, lex_less, line_seq, lines, parse_u32, parsed_u32, split_once, split_once_of,
    starts_with, texts, to_ascii_lowercase, trim, trimmed,
};
use vstd::prelude::*;

verus! {

/// The API level each SDK release provides that was published before releases declared their own.
/// A release that neither declares a level nor is listed here can still be installed by version.
pub open spec fn listed_level(version: Seq<char>) -> Option<u32> {
    if version == "7.0"@ {
        Some(26u32)
    } else if version == "6.1"@ {
        Some(23u32)
    } else if version == "6.0.0.1"@ || version == "6.0"@ {
        Some(20u32)
    } else if version == "5.1.0"@ {
        Some(18u32)
    } else if version == "5.0.3"@ {
        Some(15u32)
    } else if version == "5.0.2"@ {
        Some(14u32)
    } else if version == "5.0.1"@ {
        Some(13u32)
    } else if version == "5.0.0"@ {
        Some(12u32)
    } else if version == "4.1"@ {
        Some(11u32)
    } else if version == "4.0"@ {
        Some(10u32)
    } else {
        None
    }
}

/// The level one line of the release notes declares: `API version: <level>`, in any case.
pub open spec fn level_in_line(line: Seq<char>) -> Option<u32> {
    match split_once_of(line, ':') {
        Some((label, value)) => if ascii_lowered(trimmed(label)) == "api version"@ {
            parsed_u32(trimmed(value))
        } else {
            None
        },
        None => None,
    }
}

/// The level the first line declares that declares one.
pub open spec fn level_in_lines(lines: Seq<Seq<char>>) -> Option<u32>
    decreases lines.len(),
{
    if lines.len() == 0 {
        None
    } else {
        match level_in_line(lines[0]) {
            Some(level) => Some(level),
            None => level_in_lines(lines.drop_first()),
        }
    }
}

pub open spec fn declared_level(release: Release) -> Option<u32> {
    match release.body {
        Some(body) => level_in_lines(line_seq(body@)),
        None => None,
    }
}

/// The API level of a release of the given version: what its notes declare, or else the table.
pub open spec fn level_of(release: Release, version: Seq<char>) -> Option<u32> {
    match declared_level(release) {
        Some(level) => Some(level),
        None => listed_level(version),
    }
}

/// The API level the table gives `version`.
pub fn api_for_version(version: &str) -> (res: Option<u32>)
    ensures
        res == listed_level(version@),
{
    if equal(version, "7.0") {
        Some(26)
    } else if equal(version, "6.1") {
        Some(23)
    } else if equal(version, "6.0.0.1") || equal(version, "6.0") {
        Some(20)
    } else if equal(version, "5.1.0") {
        Some(18)
    } else if equal(version, "5.0.3") {
        Some(15)
    } else if equal(version, "5.0.2") {
        Some(14)
    } else if equal(version, "5.0.1") {
        Some(13)
    } else if equal(version, "5.0.0") {
        Some(12)
    } else if equal(version, "4.1") {
        Some(11)
    } else if equal(version, "4.0") {
        Some(10)
    } else {
        None
    }
}

fn level_declared_in(line: &str) -> (res: Option<u32>)
    ensures
        res == level_in_line(line@),
{
    match split_once(line, ':') {
        Some((label, value)) => {
            let label = to_ascii_lowercase(trim(label.as_str()).as_str());
            if equal(label.as_str(), "api version") {
                parse_u32(trim(value.as_str()).as_str())
            } else {
                None
            }
        },
        None => None,
    }
}

/// The API level a release declares in its notes as `API version: <level>`.
pub fn declared_api_level(release: &Release) -> (res: Option<u32>)
    ensures
        res == declared_level(*release),
{
    let body = match &release.body {
        Some(body) => body,
        None => return None,
    };
    let all = lines(body.as_str());
    let ghost seqs = texts(all@);
    let mut i: usize = 0;
    proof {
        assert(seqs.skip(0) =~= seqs);
    }
    while i < all.len()
        invariant
            i <= all.len(),
            seqs == texts(all@),
            declared_level(*release) == level_in_lines(seqs.skip(i as int)),
        decreases all.len() - i,
    {
        proof {
            assert(seqs.skip(i as int)[0] == all@[i as int]@);
            assert(seqs.skip(i as int).drop_first() =~= seqs.skip(i + 1));
        }
        if let Some(level) = level_declared_in(all[i].as_str()) {
            return Some(level);
        }
        i += 1;
    }
    None
}

/// The API level of a release: what its notes declare, or the built-in table for the releases
/// published before the mirror declared it.
pub fn api_level(release: &Release, version: &str) -> (res: Option<u32>)
    ensures
        res == level_of(*release, version@),
{
    match declared_api_level(release) {
        Some(level) => Some(level),
        None => api_for_version(version),
    }
}

/// The published SDK releases, newest first.
pub open spec fn sdk_releases(releases: Seq<Release>) -> Seq<Release> {
    published(releases, "v"@)
}

/// The API level of a published SDK release.
pub open spec fn sdk_level(release: Release) -> Option<u32> {
    level_of(release, version_of(release, "v"@))
}

/// The SDK versions the mirror publishes, newest first, with the API level of each where it is
/// known.
pub fn available(releases: Vec<Release>) -> (res: Vec<(String, Option<u32>)>)
    ensures
        res.len() == sdk_releases(releases@).len(),
        forall|i: int|
            0 <= i < res.len() ==> (#[trigger] res@[i]).0@ == version_of(
                sdk_releases(releases@)[i],
                "v"@,
            ) && res@[i].1 == sdk_level(sdk_releases(releases@)[i]),
{
    let all = versions(releases, "v");
    let ghost list = releases_in(all@);
    let mut res: Vec<(String, Option<u32>)> = Vec::new();
    let mut i: usize = 0;
    while i < all.len()
        invariant
            i <= all.len(),
            list == releases_in(all@),
            versions_match(all@, "v"@),
            res.len() == i,
            forall|k: int|
                0 <= k < i ==> (#[trigger] res@[k]).0@ == version_of(list[k], "v"@) && res@[k].1
                    == sdk_level(list[k]),
        decreases all.len() - i,
    {
        let (release, version) = &all[i];
        proof {
            assert(list[i as int] == all@[i as int].0);
        }
        res.push((version.clone(), api_level(release, version.as_str())));
        i += 1;
    }
    res
}

/// Which SDK release to install.
pub enum Request {
    Version(String),
    Api(u32),
}

/// The release a request stands for.
pub open spec fn requested(list: Seq<Release>, request: Request) -> Option<Release> {
    match request {
        Request::Version(version) => chosen(list, "v"@, version@),
        Request::Api(api) => {
            let i = first_index(list, |r: Release| sdk_level(r) == Some(api)) as int;
            if i < list.len() {
                Some(list[i])
            } else {
                None
            }
        },
    }
}

/// An increasing list of levels with `level` in it.
pub open spec fn with_level(levels: Seq<u32>, level: u32) -> Seq<u32> {
    let at = first_index(levels, |x: u32| x >= level) as int;
    if at < levels.len() && levels[at] == level {
        levels
    } else {
        levels.insert(at, level)
    }
}

/// The API levels the releases provide, in increasing order.
pub open spec fn known_levels(list: Seq<Release>) -> Seq<u32>
    decreases list.len(),
{
    if list.len() == 0 {
        seq![]
    } else {
        match sdk_level(list.last()) {
            Some(level) => with_level(known_levels(list.drop_last()), level),
            None => known_levels(list.drop_last()),
        }
    }
}

pub open spec fn decimals(levels: Seq<u32>) -> Seq<Seq<char>> {
    levels.map_values(|level: u32| decimal(level as nat))
}

/// How it is reported that no release provides `api`.
pub open spec fn no_api_message(list: Seq<Release>, api: u32) -> Seq<char> {
    "no OpenHarmony SDK release provides API level "@ + decimal(api as nat) + "; the mirror has "@
        + joined(decimals(known_levels(list)), ", "@)
        + ". Any release can be installed with --version, see --list"@
}

fn insert_level(levels: &mut Vec<u32>, level: u32)
    ensures
        final(levels)@ == with_level(old(levels)@, level),
{
    let mut at: usize = 0;
    while at < levels.len() && levels[at] < level
        invariant
            at <= levels.len(),
            forall|k: int| 0 <= k < at ==> #[trigger] levels@[k] < level,
        decreases levels.len() - at,
    {
        at += 1;
    }
    proof {
        lemma_first_index(levels@, |x: u32| x >= level, at as int);
    }
    if !(at < levels.len() && levels[at] == level) {
        levels.insert(at, level);
    }
}

fn join_levels(levels: &Vec<u32>) -> (res: String)
    ensures
        res@ == joined(decimals(levels@), ", "@),
{
    let mut parts: Vec<String> = Vec::new();
    let mut i: usize = 0;
    while i < levels.len()
        invariant
            i <= levels.len(),
            parts.len() == i,
            forall|k: int| 0 <= k < i ==> (#[trigger] parts@[k])@ == decimal(levels@[k] as nat),
        decreases levels.len() - i,
    {
        parts.push(decimal_string(levels[i] as u64));
        i += 1;
    }
    proof {
        assert(texts(parts@) =~= decimals(levels@));
    }
    join(&parts, ", ")
}

/// The newest release providing API level `api`.
pub fn select_by_api(releases: Vec<Release>, api: u32) -> (res: Result<(Release, String), String>)
    ensures
        match res {
            Ok((release, version)) => {
                &&& requested(sdk_releases(releases@), Request::Api(api)) == Some(release)
                &&& version@ == version_of(release, "v"@)
            },
            Err(message) => {
                &&& requested(sdk_releases(releases@), Request::Api(api)) is None
                &&& message@ == no_api_message(sdk_releases(releases@), api)
            },
        },
{
    let mut all = versions(releases, "v");
    let ghost list = releases_in(all@);
    let ghost provides = |r: Release| sdk_level(r) == Some(api);
    let mut known: Vec<u32> = Vec::new();
    let mut i: usize = 0;
    proof {
        assert(list.take(0) =~= seq![]);
    }
    while i < all.len()
        invariant
            i <= all.len(),
            list == releases_in(all@),
            versions_match(all@, "v"@),
            provides == (|r: Release| sdk_level(r) == Some(api)),
            forall|k: int| 0 <= k < i ==> !provides(#[trigger] list[k]),
            list == sdk_releases(releases@),
            known@ == known_levels(list.take(i as int)),
        decreases all.len() - i,
    {
        proof {
            assert(list[i as int] == all@[i as int].0);
            assert(list.take(i + 1).drop_last() =~= list.take(i as int));
            assert(list.take(i + 1).last() == list[i as int]);
        }
        if let Some(level) = api_level(&all[i].0, all[i].1.as_str()) {
            if level == api {
                proof {
                    lemma_first_index(list, provides, i as int);
                }
                return Ok(all.remove(i));
            }
            insert_level(&mut known, level);
        }
        i += 1;
    }
    proof {
        lemma_first_index(list, provides, i as int);
        assert(list.take(i as int) =~= list);
    }
    Err(
        cat5(
            "no OpenHarmony SDK release provides API level ",
            decimal_string(api as u64).as_str(),
            "; the mirror has ",
            join_levels(&known).as_str(),
            ". Any release can be installed with --version, see --list",
        ),
    )
}

/// The levels reported as known are exactly those that some release provides, each once and in
/// increasing order.
pub proof fn law_known_levels(list: Seq<Release>)
    ensures
        forall|i: int, j: int|
            0 <= i < j < known_levels(list).len() ==> #[trigger] known_levels(list)[i]
                < #[trigger] known_levels(list)[j],
        forall|level: u32|
            known_levels(list).contains(level) <==> exists|i: int|
                0 <= i < list.len() && #[trigger] sdk_level(list[i]) == Some(level),
    decreases list.len(),
{
    if list.len() > 0 {
        let front = list.drop_last();
        let levels = known_levels(front);
        let all = known_levels(list);
        law_known_levels(front);
        if let Some(level) = sdk_level(list.last()) {
            let p = |x: u32| x >= level;
            let at = first_index(levels, p) as int;
            crate::sort::lemma_first_index_bounds(levels, p);
            assert forall|i: int| 0 <= i < at implies #[trigger] levels[i] < level by {
                assert(!p(levels[i]));
            }
            if at < levels.len() && levels[at] == level {
                assert(levels.contains(level));
            } else {
                assert(all == levels.insert(at, level));
                assert forall|i: int, j: int| 0 <= i < j < all.len() implies #[trigger] all[i]
                    < #[trigger] all[j] by {
                    if i < at && j > at {
                        assert(levels[i] < levels[j - 1]);
                    } else if i == at {
                        assert(at < j - 1 ==> levels[at] < levels[j - 1]);
                    } else if j < at {
                        assert(levels[i] < levels[j]);
                    } else if i > at {
                        assert(levels[i - 1] < levels[j - 1]);
                    }
                }
                assert forall|x: u32| all.contains(x) <==> (levels.contains(x) || x == level) by {
                    if levels.contains(x) {
                        let k = choose|k: int| 0 <= k < levels.len() && levels[k] == x;
                        assert(all[if k < at {
                            k
                        } else {
                            k + 1
                        }] == x);
                    }
                    if all.contains(x) {
                        let k = choose|k: int| 0 <= k < all.len() && all[k] == x;
                        if k < at {
                            assert(levels[k] == x);
                        } else if k > at {
                            assert(levels[k - 1] == x);
                        }
                    }
                    assert(all[at] == level);
                }
            }
        }
        assert forall|level: u32| all.contains(level) implies exists|i: int|
            0 <= i < list.len() && #[trigger] sdk_level(list[i]) == Some(level) by {
            if levels.contains(level) {
                let i = choose|i: int|
                    0 <= i < front.len() && #[trigger] sdk_level(front[i]) == Some(level);
                assert(sdk_level(list[i]) == Some(level));
            } else {
                assert(sdk_level(list[list.len() - 1]) == Some(level));
            }
        }
        assert forall|level: u32, i: int|
            0 <= i < list.len() && #[trigger] sdk_level(list[i]) == Some(level) implies #[trigger] all.contains(
            level,
        ) by {
            if i < front.len() {
                assert(sdk_level(front[i]) == Some(level));
                assert(levels.contains(level));
            }
        }
    }
}

/// The archive a host needs. Linux and Windows share one, which holds both; its binaries are x86-64
/// only: Windows on Arm runs them under emulation, Linux does not.
pub open spec fn archive_of(os: Seq<char>, arch: Seq<char>) -> Option<Seq<char>> {
    if os == "windows"@ || (os == "linux"@ && arch == "x86_64"@) {
        Some("ohos-sdk-windows_linux-public.tar.gz"@)
    } else if os == "macos"@ && arch == "aarch64"@ {
        Some("L2-SDK-MAC-M1-PUBLIC.tar.gz"@)
    } else if os == "macos"@ && arch == "x86_64"@ {
        Some("ohos-sdk-mac-public.tar.gz"@)
    } else {
        None
    }
}

pub fn host_archive_name(os: &str, arch: &str) -> (res: Option<&'static str>)
    ensures
        crate::text::opt_str(res) == archive_of(os@, arch@),
{
    proof {
        reveal_strlit("macos");
        reveal_strlit("linux");
        reveal_strlit("windows");
        assert("macos"@[0] != "linux"@[0] && "macos"@[0] != "windows"@[0]);
    }
    if equal(os, "windows") || (equal(os, "linux") && equal(arch, "x86_64")) {
        Some("ohos-sdk-windows_linux-public.tar.gz")
    } else if equal(os, "macos") && equal(arch, "aarch64") {
        Some("L2-SDK-MAC-M1-PUBLIC.tar.gz")
    } else if equal(os, "macos") && equal(arch, "x86_64") {
        Some("ohos-sdk-mac-public.tar.gz")
    } else {
        None
    }
}

/// The directory a host's components sit in.
pub open spec fn os_dir_of(os: Seq<char>) -> Seq<char> {
    if os == "macos"@ {
        "darwin"@
    } else if os == "windows"@ {
        "windows"@
    } else {
        "linux"@
    }
}

pub fn os_dir_name(os: &str) -> (res: &'static str)
    ensures
        res@ == os_dir_of(os@),
{
    if equal(os, "macos") {
        "darwin"
    } else if equal(os, "windows") {
        "windows"
    } else {
        "linux"
    }
}

/// Whether `name` is the archive itself or one of the parts `split` cuts it into: `<archive>.aa`,
/// `<archive>.ab` and so on.
pub open spec fn is_part(name: Seq<char>, archive: Seq<char>) -> bool {
    let n = archive.len() as int;
    ||| name == archive
    ||| archive.is_prefix_of(name) && name.len() == n + 3 && name[n] == '.' && is_lower(name[n + 1])
        && is_lower(name[n + 2])
}

pub fn is_archive_part(name: &str, archive_name: &str) -> (res: bool)
    ensures
        res == is_part(name@, archive_name@),
{
    if equal(name, archive_name) {
        return true;
    }
    let cs = chars_of(name);
    let n: usize = chars_of(archive_name).len();
    if !starts_with(name, archive_name) || cs.len() - n != 3 {
        return false;
    }
    cs[n] == '.' && 'a' <= cs[n + 1] && cs[n + 1] <= 'z' && 'a' <= cs[n + 2] && cs[n + 2] <= 'z'
}

/// The files to download for an SDK release.
pub struct Selection {
    pub version: String,
    pub archive_name: &'static str,
    pub os_dir_name: &'static str,
    /// The parts of the archive, in the order in which they are concatenated.
    pub parts: Vec<Asset>,
    pub sha256_asset: Asset,
}

pub open spec fn by_name() -> spec_fn(Asset, Asset) -> bool {
    |a: Asset, b: Asset| lex_less(a.name@, b.name@)
}

/// The assets that are the archive or parts of it.
pub open spec fn archive_parts(assets: Seq<Asset>, archive: Seq<char>) -> Seq<Asset> {
    assets.filter(|a: Asset| is_part(a.name@, archive))
}

pub open spec fn not_whole(archive: Seq<char>) -> spec_fn(Asset) -> bool {
    |a: Asset| a.name@ != archive
}

/// The parts without the whole archive, unless it is the only one. An archive published whole and
/// split would otherwise be concatenated with its own parts.
pub open spec fn split_parts(parts: Seq<Asset>, archive: Seq<char>) -> Seq<Asset> {
    if parts.len() > 1 {
        parts.filter(not_whole(archive))
    } else {
        parts
    }
}

/// The parts to download, by name.
pub open spec fn selected_parts(assets: Seq<Asset>, archive: Seq<char>) -> Seq<Asset> {
    stably_sorted(split_parts(archive_parts(assets, archive), archive), by_name())
}

/// The index of the asset with the checksum, or -1.
pub open spec fn checksum_index(assets: Seq<Asset>, archive: Seq<char>) -> int {
    last_index(assets, |a: Asset| a.name@ == archive + ".sha256"@)
}

/// What is selected of `release`, or why it cannot be used.
pub open spec fn selection_of(
    release: Release,
    archive: Seq<char>,
    os: Seq<char>,
    arch: Seq<char>,
    res: Result<Selection, String>,
) -> bool {
    let version = version_of(release, "v"@);
    let tag = release.tag_name@;
    let checksum = checksum_index(release.assets@, archive);
    if !safe_component(version) {
        res matches Err(message) && message@ == "release `"@ + tag + "` has an unsafe version name"@
    } else if archive_parts(release.assets@, archive).len() == 0 {
        res matches Err(message) && message@ == "release `"@ + tag + "` has no SDK archive for host "@
            + os + "-"@ + arch
    } else if checksum < 0 {
        res matches Err(message) && message@ == "release `"@ + tag + "` has no SHA-256 checksum for "@
            + archive
    } else {
        &&& res matches Ok(selection)
        &&& selection.version@ == version
        &&& selection.archive_name@ == archive
        &&& selection.os_dir_name@ == os_dir_of(os)
        &&& selection.parts@ == selected_parts(release.assets@, archive)
        &&& selection.sha256_asset == release.assets@[checksum]
    }
}

/// What a request selects for a host, or why it selects nothing.
pub open spec fn select_is(
    releases: Seq<Release>,
    request: Request,
    os: Seq<char>,
    arch: Seq<char>,
    res: Result<Selection, String>,
) -> bool {
    match archive_of(os, arch) {
        None => res matches Err(message) && message@
            == "OpenHarmony SDK archives are not available for host "@ + os + "-"@ + arch,
        Some(archive) => match requested(sdk_releases(releases), request) {
            None => res matches Err(message) && message@ == match request {
                Request::Version(version) => "no OpenHarmony SDK release matches version `"@ + version@
                    + "`"@,
                Request::Api(api) => no_api_message(sdk_releases(releases), api),
            },
            Some(release) => selection_of(release, archive, os, arch, res),
        },
    }
}

fn insert_by_name(sorted: &mut Vec<Asset>, asset: Asset)
    ensures
        final(sorted)@ == old(sorted)@.insert(
            first_index(old(sorted)@, |y: Asset| by_name()(asset, y)) as int,
            asset,
        ),
{
    let mut at: usize = 0;
    while at < sorted.len() && !less(asset.name.as_str(), sorted[at].name.as_str())
        invariant
            at <= sorted.len(),
            forall|k: int| 0 <= k < at ==> !lex_less(asset.name@, (#[trigger] sorted@[k]).name@),
        decreases sorted.len() - at,
    {
        at += 1;
    }
    proof {
        lemma_first_index(sorted@, |y: Asset| by_name()(asset, y), at as int);
    }
    sorted.insert(at, asset);
}

fn sort_by_name(assets: &Vec<Asset>) -> (res: Vec<Asset>)
    ensures
        res@ == stably_sorted(assets@, by_name()),
{
    let mut res: Vec<Asset> = Vec::new();
    let mut i: usize = 0;
    proof {
        assert(assets@.take(0) =~= seq![]);
        assert(res@ =~= stably_sorted(assets@.take(0), by_name()));
    }
    while i < assets.len()
        invariant
            i <= assets.len(),
            res@ == stably_sorted(assets@.take(i as int), by_name()),
        decreases assets.len() - i,
    {
        proof {
            assert(assets@.take(i + 1).drop_last() =~= assets@.take(i as int));
            assert(assets@.take(i + 1).last() == assets@[i as int]);
        }
        insert_by_name(&mut res, assets[i].clone());
        i += 1;
    }
    proof {
        assert(assets@.take(i as int) =~= assets@);
    }
    res
}

fn without_whole_archive(parts: &Vec<Asset>, archive: &str) -> (res: Vec<Asset>)
    ensures
        res@ == parts@.filter(not_whole(archive@)),
{
    let ghost keep = not_whole(archive@);
    let mut res: Vec<Asset> = Vec::new();
    let mut i: usize = 0;
    proof {
        reveal(Seq::filter);
        assert(parts@.take(0).filter(keep) =~= seq![]);
    }
    while i < parts.len()
        invariant
            i <= parts.len(),
            keep == not_whole(archive@),
            res@ == parts@.take(i as int).filter(keep),
        decreases parts.len() - i,
    {
        proof {
            assert(parts@.take(i + 1).drop_last() =~= parts@.take(i as int));
            lemma_filter_last(parts@.take(i + 1), keep);
        }
        if !equal(parts[i].name.as_str(), archive) {
            res.push(parts[i].clone());
        }
        i += 1;
    }
    proof {
        assert(parts@.take(i as int) =~= parts@);
    }
    res
}

fn select_assets(
    release: Release,
    version: String,
    archive_name: &'static str,
    os: &str,
    arch: &str,
) -> (res: Result<Selection, String>)
    requires
        version@ == version_of(release, "v"@),
    ensures
        selection_of(release, archive_name@, os@, arch@, res),
{
    let tag = release.tag_name.as_str();
    if !is_safe_component(version.as_str()) {
        return Err(cat3("release `", tag, "` has an unsafe version name"));
    }
    let checksum_name = cat2(archive_name, ".sha256");
    let assets = &release.assets;
    let ghost all = assets@;
    let ghost part = |a: Asset| is_part(a.name@, archive_name@);
    let ghost checksum = |a: Asset| a.name@ == archive_name@ + ".sha256"@;
    let mut parts: Vec<Asset> = Vec::new();
    let mut sha256_asset: Option<Asset> = None;
    let mut i: usize = 0;
    proof {
        reveal(Seq::filter);
        assert(all.take(0).filter(part) =~= seq![]);
        reveal_strlit(".sha256");
    }
    while i < assets.len()
        invariant
            i <= assets.len(),
            all == assets@,
            part == (|a: Asset| is_part(a.name@, archive_name@)),
            checksum == (|a: Asset| a.name@ == archive_name@ + ".sha256"@),
            checksum_name@ == archive_name@ + ".sha256"@,
            ".sha256"@.len() == 7,
            parts@ == all.take(i as int).filter(part),
            match sha256_asset {
                Some(asset) => last_index(all.take(i as int), checksum) >= 0 && asset
                    == all[last_index(all.take(i as int), checksum)],
                None => last_index(all.take(i as int), checksum) < 0,
            },
        decreases assets.len() - i,
    {
        proof {
            assert(all.take(i + 1).drop_last() =~= all.take(i as int));
            assert(all.take(i + 1).last() == all[i as int]);
            lemma_filter_last(all.take(i + 1), part);
        }
        let asset = &assets[i];
        if is_archive_part(asset.name.as_str(), archive_name) {
            parts.push(asset.clone());
        } else if equal(asset.name.as_str(), checksum_name.as_str()) {
            sha256_asset = Some(asset.clone());
        }
        i += 1;
    }
    proof {
        assert(all.take(i as int) =~= all);
    }
    if parts.len() == 0 {
        return Err(
            crate::text::cat6("release `", tag, "` has no SDK archive for host ", os, "-", arch),
        );
    }
    let sha256_asset = match sha256_asset {
        Some(asset) => asset,
        None => {
            return Err(
                crate::text::cat4("release `", tag, "` has no SHA-256 checksum for ", archive_name),
            );
        },
    };
    if parts.len() > 1 {
        parts = without_whole_archive(&parts, archive_name);
    }
    Ok(
        Selection {
            version,
            archive_name,
            os_dir_name: os_dir_name(os),
            parts: sort_by_name(&parts),
            sha256_asset,
        },
    )
}

/// The release a request stands for, and what to download of it on a host.
pub fn select(releases: Vec<Release>, request: &Request, os: &str, arch: &str) -> (res: Result<
    Selection,
    String,
>)
    ensures
        select_is(releases@, *request, os@, arch@, res),
{
    let archive_name = match host_archive_name(os, arch) {
        Some(name) => name,
        None => {
            return Err(
                crate::text::cat4(
                    "OpenHarmony SDK archives are not available for host ",
                    os,
                    "-",
                    arch,
                ),
            );
        },
    };
    let (release, version) = match request {
        Request::Version(requested) => match select_release(releases, "v", requested.as_str()) {
            Some(found) => found,
            None => {
                return Err(
                    cat3("no OpenHarmony SDK release matches version `", requested.as_str(), "`"),
                );
            },
        },
        Request::Api(api) => match select_by_api(releases, *api) {
            Ok(found) => found,
            Err(message) => return Err(message),
        },
    };
    select_assets(release, version, archive_name, os, arch)
}

pub proof fn lemma_by_name_is_an_order()
    ensures
        is_strict_weak_order(by_name()),
{
    let before = by_name();
    assert forall|a: Asset, b: Asset| #[trigger] before(a, b) implies !before(b, a) by {
        if before(b, a) {
            crate::text::lemma_lex_less_transitive(a.name@, b.name@, a.name@);
            crate::text::lemma_lex_less_irreflexive(a.name@);
        }
    }
    assert forall|a: Asset, b: Asset, c: Asset|
        #![trigger before(a, b), before(b, c)]
        !before(a, b) && !before(b, c) implies !before(a, c) by {
        crate::text::lemma_lex_less_total(a.name@, b.name@);
        crate::text::lemma_lex_less_total(b.name@, c.name@);
        if before(a, c) {
            if before(b, a) {
                crate::text::lemma_lex_less_transitive(b.name@, a.name@, c.name@);
            }
        }
    }
}

/// What is downloaded are parts of the archive that the release has, in the order of their names; a
/// whole archive is never mixed with the parts it was split into.
pub proof fn law_selected_parts(assets: Seq<Asset>, archive: Seq<char>)
    ensures
        in_order(selected_parts(assets, archive), by_name()),
        forall|a: Asset| #[trigger]
            selected_parts(assets, archive).contains(a) ==> assets.contains(a) && is_part(
                a.name@,
                archive,
            ),
        forall|a: Asset| #[trigger]
            selected_parts(assets, archive).contains(a) && a.name@ == archive ==> archive_parts(
                assets,
                archive,
            ) == seq![a],
{
    broadcast use {vstd::seq_lib::group_filter_ensures, vstd::seq_lib::group_to_multiset_ensures};

    let part = |a: Asset| is_part(a.name@, archive);
    let keep = not_whole(archive);
    let parts = archive_parts(assets, archive);
    let kept = split_parts(parts, archive);
    let all = selected_parts(assets, archive);
    assert(parts == assets.filter(part));
    lemma_by_name_is_an_order();
    law_sorting_orders(kept, by_name());
    assert forall|a: Asset| #[trigger] all.contains(a) implies kept.contains(a) by {
        assert(all.to_multiset().count(a) > 0);
        assert(kept.to_multiset().count(a) > 0);
    }
    assert forall|a: Asset| #[trigger] kept.contains(a) implies parts.contains(a) && (parts.len() > 1
        ==> keep(a)) by {
        if parts.len() > 1 {
            parts.lemma_filter_contains_rev(keep, a);
        }
    }
    assert forall|a: Asset| #[trigger] parts.contains(a) implies assets.contains(a) && part(a) by {
        assets.lemma_filter_contains_rev(part, a);
    }
    assert forall|a: Asset| #[trigger] all.contains(a) && a.name@ == archive implies parts == seq![
        a,
    ] by {
        assert(kept.contains(a));
        assert(parts.contains(a));
        assert(parts =~= seq![a]);
    }
}

} // verus!
