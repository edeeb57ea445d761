//! Laws of SDK releases: their levels, what is downloaded of them, and what is unpacked and installed.

use crate::attestation::Signer;
use crate::download::{published, version_of, Asset, Release};
use crate::laws::paths::law_parts_of_paths;
use crate::laws::releases::{
    dotted, is_digest, law_digests, law_numbers_are_compared_one_by_one,
    law_versions_are_ordered_by_their_numbers,
};
use crate::path::{joined_path, Platform};
use crate::sdk::extract::{
    component_archives, component_of, extract_step, first_level, host_of, is_unpacked, is_zip,
    missing_message, ExtractSeen, ExtractStep, HostFilter,
};
use crate::sdk::fetch::{
    checksum_digest, fetch_step, is_sdk_signer, must_be_attested, FetchSeen, FetchStep,
};
use crate::sdk::components::{components_named, Components};
use crate::sdk::install::{existing_is, paths_are, release_marker_of, terminated, InstallPaths};
use crate::sdk::release::{
    archive_of, archive_parts, declared_level, is_part, law_selected_parts, level_in_line,
    level_in_lines, level_of, listed_level, os_dir_of, requested, sdk_level, sdk_releases,
    select_is, selected_parts, Request, Selection,
};
use crate::sort::{first_index, law_sorting_orders, lemma_first_index_bounds};
use crate::text::{
    ascii_lowered, has_class, in_class, lex_less, line_seq, parsed_u32, pieces, split_once_of,
    trimmed, words, Class,
};
use vstd::prelude::*;

verus! {

/// The levels of the releases that do not declare theirs: these versions and no others.
pub proof fn law_levels_that_are_known(version: Seq<char>, level: u32)
    ensures
        listed_level(version) == Some(level) <==> {
            ||| version == "4.0"@ && level == 10
            ||| version == "4.1"@ && level == 11
            ||| version == "5.0.0"@ && level == 12
            ||| version == "5.0.1"@ && level == 13
            ||| version == "5.0.2"@ && level == 14
            ||| version == "5.0.3"@ && level == 15
            ||| version == "5.1.0"@ && level == 18
            ||| version == "6.0"@ && level == 20
            ||| version == "6.0.0.1"@ && level == 20
            ||| version == "6.1"@ && level == 23
            ||| version == "7.0"@ && level == 26
        },
{
    reveal_strlit("4.0");
    reveal_strlit("4.1");
    reveal_strlit("5.0.0");
    reveal_strlit("5.0.1");
    reveal_strlit("5.0.2");
    reveal_strlit("5.0.3");
    reveal_strlit("5.1.0");
    reveal_strlit("6.0");
    reveal_strlit("6.0.0.1");
    reveal_strlit("6.1");
    reveal_strlit("7.0");
    assert("4.0"@.len() == 3 && "4.1"@.len() == 3 && "6.0"@.len() == 3 && "6.1"@.len() == 3
        && "7.0"@.len() == 3);
    assert("5.0.0"@.len() == 5 && "5.0.1"@.len() == 5 && "5.0.2"@.len() == 5 && "5.0.3"@.len() == 5
        && "5.1.0"@.len() == 5 && "6.0.0.1"@.len() == 7);
    assert("4.0"@[0] == '4' && "4.0"@[2] == '0' && "4.1"@[0] == '4' && "4.1"@[2] == '1');
    assert("6.0"@[0] == '6' && "6.0"@[2] == '0' && "6.1"@[0] == '6' && "6.1"@[2] == '1');
    assert("7.0"@[0] == '7');
    assert("5.0.0"@[2] == '0' && "5.0.0"@[4] == '0' && "5.0.1"@[2] == '0' && "5.0.1"@[4] == '1');
    assert("5.0.2"@[2] == '0' && "5.0.2"@[4] == '2' && "5.0.3"@[2] == '0' && "5.0.3"@[4] == '3');
    assert("5.1.0"@[2] == '1');
}

/// A line of the notes declares a level if what is in front of its first colon says so, in whatever
/// case; the level is what is behind the colon.
pub proof fn law_lines_that_declare_a_level(label: Seq<char>, value: Seq<char>, line: Seq<char>)
    requires
        !label.contains(':'),
        !line.contains(':'),
    ensures
        ascii_lowered(trimmed(label)) == "api version"@ ==> level_in_line(label + seq![':'] + value)
            == parsed_u32(trimmed(value)),
        ascii_lowered(trimmed(label)) != "api version"@ ==> level_in_line(label + seq![':'] + value) is None,
        level_in_line(line) is None,
{
    crate::laws::text::law_cutting_in_two(line, ':', label, value);
    if split_once_of(line, ':') is Some {
        let class = Class::Is(':');
        crate::text::lemma_first_in(line, class);
        let i = crate::text::first_in(line, class) as int;
        assert(in_class(class, line[i]));
        assert(line.contains(':'));
    }
}

/// The level of a release is the first its notes declare, or else the one that is known of its version.
pub proof fn law_the_level_of_a_release(release: Release, version: Seq<char>, lines: Seq<Seq<char>>)
    ensures
        declared_level(release) matches Some(level) ==> level_of(release, version) == Some(level),
        declared_level(release) is None ==> level_of(release, version) == listed_level(version),
        release.body is None ==> declared_level(release) is None,
        release.body matches Some(body) ==> declared_level(release) == level_in_lines(line_seq(body@)),
        level_in_lines(lines) matches Some(level) ==> exists|i: int|
            0 <= i < lines.len() && #[trigger] level_in_line(lines[i]) == Some(level) && forall|j: int|
                0 <= j < i ==> (#[trigger] level_in_line(lines[j])) is None,
        level_in_lines(lines) is None ==> forall|j: int|
            0 <= j < lines.len() ==> (#[trigger] level_in_line(lines[j])) is None,
        sdk_level(release) == level_of(release, version_of(release, "v"@)),
{
    lemma_first_declared(lines);
}

proof fn lemma_first_declared(lines: Seq<Seq<char>>)
    ensures
        level_in_lines(lines) matches Some(level) ==> exists|i: int|
            0 <= i < lines.len() && #[trigger] level_in_line(lines[i]) == Some(level) && forall|j: int|
                0 <= j < i ==> (#[trigger] level_in_line(lines[j])) is None,
        level_in_lines(lines) is None ==> forall|j: int|
            0 <= j < lines.len() ==> (#[trigger] level_in_line(lines[j])) is None,
    decreases lines.len(),
{
    if lines.len() > 0 {
        if level_in_line(lines[0]) is None {
            let rest = lines.drop_first();
            lemma_first_declared(rest);
            if let Some(level) = level_in_lines(lines) {
                let i = choose|i: int|
                    0 <= i < rest.len() && #[trigger] level_in_line(rest[i]) == Some(level) && forall|
                        j: int,
                    |
                        0 <= j < i ==> (#[trigger] level_in_line(rest[j])) is None;
                assert(rest[i] == lines[i + 1]);
                assert forall|j: int| 0 <= j < i + 1 implies (#[trigger] level_in_line(
                    lines[j],
                )) is None by {
                    if j > 0 {
                        assert(rest[j - 1] == lines[j]);
                        assert(level_in_line(rest[j - 1]) is None);
                    }
                }
            } else {
                assert forall|j: int| 0 <= j < lines.len() implies (#[trigger] level_in_line(
                    lines[j],
                )) is None by {
                    if j > 0 {
                        assert(rest[j - 1] == lines[j]);
                        assert(level_in_line(rest[j - 1]) is None);
                    }
                }
            }
        } else {
            assert(level_in_lines(lines) == level_in_line(lines[0]));
        }
    }
}

/// What is asked for by level is the first of the list that provides it; what is asked for by version is
/// one that matches.
pub proof fn law_what_is_requested(list: Seq<Release>, api: u32)
    ensures
        requested(list, Request::Api(api)) matches Some(release) ==> exists|i: int|
            0 <= i < list.len() && #[trigger] list[i] == release && sdk_level(release) == Some(api)
                && forall|j: int| 0 <= j < i ==> sdk_level(#[trigger] list[j]) != Some(api),
        requested(list, Request::Api(api)) is None ==> forall|j: int|
            0 <= j < list.len() ==> sdk_level(#[trigger] list[j]) != Some(api),
{
    let provides = |r: Release| sdk_level(r) == Some(api);
    lemma_first_index_bounds(list, provides);
    let at = first_index(list, provides) as int;
    if at < list.len() {
        assert(provides(list[at]));
        assert forall|j: int| 0 <= j < at implies sdk_level(#[trigger] list[j]) != Some(api) by {
            assert(!provides(list[j]));
        }
        assert(list[at] == requested(list, Request::Api(api))->Some_0);
    } else {
        assert forall|j: int| 0 <= j < list.len() implies sdk_level(#[trigger] list[j]) != Some(api) by {
            assert(!provides(list[j]));
        }
    }
}

/// There is an archive for these hosts and no others; the one for Linux has what Windows needs too. What
/// is for a host is below the name the archive has for its system.
pub proof fn law_archives_of_hosts(os: Seq<char>, arch: Seq<char>)
    ensures
        archive_of(os, arch) is Some <==> os == "windows"@ || (os == "linux"@ && arch == "x86_64"@) || (os
            == "macos"@ && (arch == "aarch64"@ || arch == "x86_64"@)),
        os == "windows"@ || (os == "linux"@ && arch == "x86_64"@) ==> archive_of(os, arch) == Some(
            "ohos-sdk-windows_linux-public.tar.gz"@,
        ),
        os == "macos"@ && arch == "aarch64"@ ==> archive_of(os, arch) == Some(
            "L2-SDK-MAC-M1-PUBLIC.tar.gz"@,
        ),
        os == "macos"@ && arch == "x86_64"@ ==> archive_of(os, arch) == Some(
            "ohos-sdk-mac-public.tar.gz"@,
        ),
        os == "macos"@ ==> os_dir_of(os) == "darwin"@,
        os == "windows"@ ==> os_dir_of(os) == "windows"@,
        os != "macos"@ && os != "windows"@ ==> os_dir_of(os) == "linux"@,
{
    reveal_strlit("linux");
    reveal_strlit("macos");
    reveal_strlit("windows");
    reveal_strlit("x86_64");
    reveal_strlit("aarch64");
    assert("linux"@[0] == 'l' && "macos"@[0] == 'm' && "windows"@[0] == 'w');
    assert("x86_64"@[0] == 'x' && "aarch64"@[0] == 'a');
}

/// The name of a part of an archive that was split.
pub open spec fn split_name(archive: Seq<char>, a: char, b: char) -> Seq<char> {
    archive.push('.').push(a).push(b)
}

/// An asset is the archive, or a part of it, by its name: a part has two letters behind a dot.
pub proof fn law_parts_of_archives(name: Seq<char>, archive: Seq<char>)
    ensures
        is_part(name, archive) <==> name == archive || exists|a: char, b: char|
            'a' <= a <= 'z' && 'a' <= b <= 'z' && name == #[trigger] split_name(archive, a, b),
{
    let n = archive.len() as int;
    if is_part(name, archive) && name != archive {
        let a = name[n + 1];
        let b = name[n + 2];
        assert(name =~= split_name(archive, a, b));
    }
    if exists|a: char, b: char|
        'a' <= a <= 'z' && 'a' <= b <= 'z' && name == #[trigger] split_name(archive, a, b) {
        let (a, b) = choose|a: char, b: char|
            'a' <= a <= 'z' && 'a' <= b <= 'z' && name == #[trigger] split_name(archive, a, b);
        assert(name[n] == '.' && name[n + 1] == a && name[n + 2] == b);
        assert(archive.is_prefix_of(name));
    }
}

/// Every part of the archive is downloaded, in the order of their names; the whole archive only where it
/// is not split.
pub proof fn law_no_part_is_left_out(assets: Seq<Asset>, archive: Seq<char>, asset: Asset)
    requires
        assets.contains(asset),
        is_part(asset.name@, archive),
    ensures
        asset.name@ != archive ==> selected_parts(assets, archive).contains(asset),
        archive_parts(assets, archive).len() == 1 ==> selected_parts(assets, archive) == seq![asset],
        forall|i: int, j: int|
            0 <= i < j < selected_parts(assets, archive).len() ==> !lex_less(
                (#[trigger] selected_parts(assets, archive)[j]).name@,
                (#[trigger] selected_parts(assets, archive)[i]).name@,
            ),
{
    broadcast use {vstd::seq_lib::group_filter_ensures, vstd::seq_lib::group_to_multiset_ensures};

    let part = |a: Asset| is_part(a.name@, archive);
    let keep = crate::sdk::release::not_whole(archive);
    let parts = archive_parts(assets, archive);
    let kept = crate::sdk::release::split_parts(parts, archive);
    let all = selected_parts(assets, archive);
    let at = choose|i: int| 0 <= i < assets.len() && assets[i] == asset;
    assert(part(assets[at]));
    assert(parts.contains(assets[at]));
    law_selected_parts(assets, archive);
    let less = crate::sdk::release::by_name();
    assert forall|i: int, j: int| 0 <= i < j < all.len() implies !lex_less(
        (#[trigger] all[j]).name@,
        (#[trigger] all[i]).name@,
    ) by {
        assert(!less(all[j], all[i]));
    }
    crate::sdk::release::lemma_by_name_is_an_order();
    law_sorting_orders(kept, less);
    if asset.name@ != archive {
        let k = choose|i: int| 0 <= i < parts.len() && parts[i] == asset;
        assert(keep(parts[k]));
        assert(kept.contains(asset)) by {
            if parts.len() > 1 {
                assert(parts.filter(keep).contains(parts[k]));
            }
        }
        assert(kept.to_multiset().count(asset) > 0);
        assert(all.to_multiset().count(asset) > 0);
    }
    if parts.len() == 1 {
        assert(kept == parts);
        assert(parts[0] == asset);
        assert(all.len() == 1);
        assert(kept.to_multiset().count(asset) > 0);
        assert(all.to_multiset().count(asset) > 0);
        assert(all.contains(asset));
        assert(all =~= seq![asset]);
    }
}

/// What is selected for a host is the archive for it, with its parts and its checksum, of the release
/// that is requested.
pub proof fn law_a_selected_sdk(
    releases: Seq<Release>,
    request: Request,
    os: Seq<char>,
    arch: Seq<char>,
    selection: Selection,
)
    requires
        select_is(releases, request, os, arch, Ok::<Selection, String>(selection)),
    ensures
        archive_of(os, arch) == Some(selection.archive_name@),
        selection.os_dir_name@ == os_dir_of(os),
        crate::download::safe_component(selection.version@),
        requested(published(releases, "v"@), request) matches Some(release) && {
            &&& selection.version@ == version_of(release, "v"@)
            &&& selection.parts@ == selected_parts(release.assets@, selection.archive_name@)
            &&& release.assets@.contains(selection.sha256_asset)
            &&& selection.sha256_asset.name@ == selection.archive_name@ + ".sha256"@
            &&& exists|k: int|
                0 <= k < release.assets@.len() && #[trigger] release.assets@[k] == selection.sha256_asset
                    && forall|j: int|
                    k < j < release.assets@.len() ==> (#[trigger] release.assets@[j]).name@
                        != selection.archive_name@ + ".sha256"@
        },
{
    let archive = archive_of(os, arch)->Some_0;
    let release = requested(sdk_releases(releases), request)->Some_0;
    let named = |a: Asset| a.name@ == archive + ".sha256"@;
    crate::laws::sdk::lemma_last_index_bounds(release.assets@, named);
    let at = crate::sort::last_index(release.assets@, named);
    assert(named(release.assets@[at]));
    assert forall|j: int| at < j < release.assets@.len() implies (#[trigger] release.assets@[j]).name@
        != archive + ".sha256"@ by {
        assert(!named(release.assets@[j]));
    }
}

/// The archive of a component is told by its name and the directory it is in, at whatever depth: that is
/// the host it is for, and what its name has in front of the first `-` the component it holds.
pub proof fn law_archives_of_components(
    platform: Platform,
    dir: Seq<char>,
    host: Seq<char>,
    component: Seq<char>,
    rest: Seq<char>,
)
    requires
        platform != Platform::Windows,
        host.len() > 0,
        !host.contains('/'),
        host != "."@,
        host != ".."@,
        component.len() > 0,
        !component.contains('/'),
        !component.contains('-'),
        !rest.contains('/'),
    ensures
        host_of(platform, dir + seq!['/'] + host + seq!['/'] + (component + seq!['-'] + rest + ".zip"@))
            == Some(host),
        component_of(
            platform,
            dir + seq!['/'] + host + seq!['/'] + (component + seq!['-'] + rest + ".zip"@),
        ) == Some(component),
{
    reveal_strlit(".zip");
    reveal_strlit(".");
    reveal_strlit("..");
    let name = component + seq!['-'] + rest + ".zip"@;
    let above = dir + seq!['/'] + host;
    let path = above + seq!['/'] + name;
    assert(name.len() > 4);
    assert(name != "."@ && name != ".."@);
    assert(!name.contains('/')) by {
        assert forall|i: int| 0 <= i < name.len() implies #[trigger] name[i] != '/' by {
            if i < component.len() {
                assert(component.contains(component[i]));
                assert(name[i] == component[i]);
            } else if i > component.len() && i < component.len() + 1 + rest.len() {
                assert(rest.contains(rest[i - component.len() - 1]));
                assert(name[i] == rest[i - component.len() - 1]);
            }
        }
    }
    law_parts_of_paths(platform, above, name);
    law_parts_of_paths(platform, dir, host);
    let parts = crate::path::path_parts(platform, path);
    let outer = crate::path::path_parts(platform, above);
    assert(parts.last() == name);
    assert(parts.drop_last() =~= outer);
    assert(outer.last() == host);
    assert(".zip"@.is_suffix_of(name));
    let class = Class::Is('-');
    assert(!has_class(component, class)) by {
        assert forall|i: int| 0 <= i < component.len() implies !in_class(
            class,
            #[trigger] component[i],
        ) by {
            assert(component.contains(component[i]));
        }
    }
    crate::laws::text::lemma_first_piece(component, '-', rest + ".zip"@, class);
    assert(name =~= component + seq!['-'] + (rest + ".zip"@));
    assert(pieces(name, class)[0] == component);
}

/// Only archives are unpacked, and of these only those for the host whose component is wanted.
pub proof fn law_what_is_unpacked(
    platform: Platform,
    path: Seq<char>,
    os_dir: Seq<char>,
    components: Option<Set<Seq<char>>>,
)
    ensures
        is_unpacked(platform, path, os_dir, components) <==> {
            &&& host_of(platform, path) == Some(os_dir)
            &&& component_of(platform, path) matches Some(name)
            &&& components matches Some(names) ==> names.contains(name)
        },
        host_of(platform, path) is Some ==> {
            let parts = crate::path::path_parts(platform, path);
            &&& parts.len() >= 2
            &&& ".zip"@.is_suffix_of(parts.last())
            &&& parts.last().len() > 4
            &&& host_of(platform, path) == Some(parts[parts.len() - 2])
        },
        component_of(platform, path) matches Some(name) ==> !name.contains('-'),
{
    if let Some(name) = component_of(platform, path) {
        let parts = crate::path::path_parts(platform, path);
        crate::laws::text::law_pieces(parts.last(), '-');
        assert(!pieces(parts.last(), Class::Is('-'))[0].contains('-'));
    }
}

/// The archives that are unpacked are the files that are archives, each of them, by name.
pub proof fn law_archives_are_unpacked_by_name(names: Seq<Seq<char>>, name: Seq<char>)
    ensures
        component_archives(names).contains(name) <==> names.contains(name) && name.len() > 4
            && ".zip"@.is_suffix_of(name),
        forall|i: int, j: int|
            0 <= i < j < component_archives(names).len() ==> !lex_less(
                #[trigger] component_archives(names)[j],
                #[trigger] component_archives(names)[i],
            ),
{
    broadcast use {vstd::seq_lib::group_filter_ensures, vstd::seq_lib::group_to_multiset_ensures};

    let zip = |n: Seq<char>| is_zip(n);
    let kept = names.filter(zip);
    let less = crate::sdk::extract::by_text();
    let all = component_archives(names);
    assert(crate::sort::is_strict_weak_order(less)) by {
        assert forall|a: Seq<char>, b: Seq<char>| #[trigger] less(a, b) implies !less(b, a) by {
            if less(b, a) {
                crate::text::lemma_lex_less_transitive(a, b, a);
                crate::text::lemma_lex_less_irreflexive(a);
            }
        }
        assert forall|a: Seq<char>, b: Seq<char>, c: Seq<char>|
            #![trigger less(a, b), less(b, c)]
            !less(a, b) && !less(b, c) implies !less(a, c) by {
            crate::text::lemma_lex_less_total(a, b);
            crate::text::lemma_lex_less_total(b, c);
            if less(a, c) {
                if a != b {
                    crate::text::lemma_lex_less_transitive(b, a, c);
                }
            }
        }
    }
    law_sorting_orders(kept, less);
    assert forall|i: int, j: int| 0 <= i < j < all.len() implies !lex_less(
        #[trigger] all[j],
        #[trigger] all[i],
    ) by {
        assert(!less(all[j], all[i]));
    }
    assert(all.contains(name) == kept.contains(name)) by {
        assert(all.contains(name) <==> all.to_multiset().count(name) > 0);
        assert(kept.contains(name) <==> kept.to_multiset().count(name) > 0);
    }
    if kept.contains(name) {
        names.lemma_filter_contains_rev(zip, name);
    }
    if names.contains(name) && is_zip(name) {
        let i = choose|i: int| 0 <= i < names.len() && names[i] == name;
        assert(zip(names[i]));
        assert(kept.contains(names[i]));
    }
}

/// Unpacking goes from archive to archive, then reads the level of what was unpacked: the first that is
/// declared. It succeeds only with one, after every archive was unpacked.
pub proof fn law_unpacking_is_complete(
    platform: Platform,
    dir: Seq<char>,
    seen: ExtractSeen,
    step: ExtractStep,
)
    requires
        extract_step(platform, dir, seen, step),
    ensures
        step matches ExtractStep::Done(Ok(level)) ==> {
            &&& seen.listed matches Some(Ok(names)) && component_archives(
                crate::text::texts(names@),
            ).len() > 0 && seen.unpacked >= component_archives(crate::text::texts(names@)).len()
            &&& seen.levels matches Some(Ok(levels)) && first_level(levels@) == Some(level)
        },
        step matches ExtractStep::Unpack(path) ==> {
            &&& seen.failure is None
            &&& seen.listed matches Some(Ok(names)) && seen.unpacked < component_archives(
                crate::text::texts(names@),
            ).len() && path@ == joined_path(
                platform,
                dir,
                component_archives(crate::text::texts(names@))[seen.unpacked as int],
            )
        },
        step matches ExtractStep::List(path) ==> path@ == dir,
        step matches ExtractStep::ReadLevels(path) ==> path@ == dir,
{
}

/// The level of what was unpacked is the first that a component declares.
pub proof fn law_the_first_level(levels: Seq<Option<u32>>)
    ensures
        first_level(levels) matches Some(level) ==> exists|i: int|
            0 <= i < levels.len() && #[trigger] levels[i] == Some(level) && forall|j: int|
                0 <= j < i ==> (#[trigger] levels[j]) is None,
        first_level(levels) is None ==> forall|j: int|
            0 <= j < levels.len() ==> (#[trigger] levels[j]) is None,
{
    let declared = |level: Option<u32>| level is Some;
    lemma_first_index_bounds(levels, declared);
    let at = first_index(levels, declared) as int;
    if at < levels.len() {
        assert(declared(levels[at]));
        assert(levels[at] == first_level(levels));
        assert forall|j: int| 0 <= j < at implies (#[trigger] levels[j]) is None by {
            assert(!declared(levels[j]));
        }
    } else {
        assert forall|j: int| 0 <= j < levels.len() implies (#[trigger] levels[j]) is None by {
            assert(!declared(levels[j]));
        }
    }
}

/// Every release behind 7.0 is attested: one with a higher first number, or with 7 and more behind it
/// than a zero.
pub proof fn law_releases_that_are_attested(numbers: Seq<u64>)
    requires
        numbers.len() > 0,
    ensures
        must_be_attested(dotted(numbers)) <==> numbers[0] > 7 || (numbers[0] == 7 && numbers.len() > 1 && (
        numbers[1] > 0 || numbers.len() > 2)),
{
    let last = seq![7u64, 0u64];
    reveal_strlit("7.0");
    reveal_strlit("x");
    let other = "x"@;
    assert(crate::text::plain_number(other) is None) by {
        assert(!crate::text::is_digit(other[0]));
    }
    assert(!has_class(other, Class::VersionSeparator));
    law_versions_are_ordered_by_their_numbers(numbers, other);
    law_versions_are_ordered_by_their_numbers(last, other);
    assert(dotted(last) =~= "7.0"@) by {
        let parts = last.map_values(|n: u64| crate::text::decimal(n as nat));
        reveal_with_fuel(crate::text::joined, 3);
        crate::laws::text::law_decimal(0, 7);
        crate::laws::text::law_decimal(0, 0);
        assert(parts.drop_last() =~= seq![parts[0]]);
        assert(parts[0] =~= seq!['7']);
        assert(parts[1] =~= seq!['0']);
    }
    let none = Seq::<u64>::empty();
    if numbers[0] != 7 {
        law_numbers_are_compared_one_by_one(none, 7, numbers[0], seq![0u64], numbers.skip(1));
        assert(none + seq![7u64] + seq![0u64] =~= last);
        assert(none + seq![numbers[0]] + numbers.skip(1) =~= numbers);
    } else if numbers.len() == 1 {
        law_numbers_are_compared_one_by_one(seq![7u64], 0, 0, none, none);
        assert(seq![7u64] + seq![0u64] + none =~= last);
        assert(numbers =~= seq![7u64]);
    } else if numbers[1] != 0 {
        law_numbers_are_compared_one_by_one(seq![7u64], 0, numbers[1], none, numbers.skip(2));
        assert(seq![7u64] + seq![0u64] + none =~= last);
        assert(seq![7u64] + seq![numbers[1]] + numbers.skip(2) =~= numbers);
    } else if numbers.len() == 2 {
        law_numbers_are_compared_one_by_one(last, 0, 0, none, none);
        assert(numbers =~= last);
    } else {
        law_numbers_are_compared_one_by_one(last, numbers[2], 0, numbers.skip(3), none);
        assert(last + seq![numbers[2]] + numbers.skip(3) =~= numbers);
    }
}

/// A checksum file begins with the digest; what is behind it, such as the name of the file, says nothing.
pub proof fn law_checksum_files(hex: Seq<char>, space: char, more: Seq<char>)
    requires
        is_digest(hex),
        in_class(Class::Whitespace, space),
    ensures
        checksum_digest(hex + seq![space] + more) == Some(ascii_lowered(hex)),
        checksum_digest(hex) == Some(ascii_lowered(hex)),
{
    let class = Class::Whitespace;
    let keep = |piece: Seq<char>| piece.len() > 0;
    law_digests(hex);
    assert(!has_class(hex, class)) by {
        assert forall|i: int| 0 <= i < hex.len() implies !in_class(class, #[trigger] hex[i]) by {
            assert('0' <= hex[i] <= '9' || 'a' <= hex[i] <= 'f' || 'A' <= hex[i] <= 'F');
        }
    }
    crate::laws::text::lemma_first_piece(hex, space, more, class);
    let one = seq![hex];
    assert forall|i: int| 0 <= i < one.len() implies keep(#[trigger] one[i]) by {}
    crate::laws::text::lemma_filter_keeps_all(one, keep);
    Seq::<Seq<char>>::filter_distributes_over_add(one, pieces(more, class), keep);
    assert(words(hex + seq![space] + more) == one + pieces(more, class).filter(keep));
    assert(words(hex + seq![space] + more)[0] == hex);
    assert(words(hex) == one);
}

/// A digest that is none is not taken: nothing is downloaded without one.
pub proof fn law_nothing_is_fetched_without_a_digest(
    selection: Selection,
    archive: Seq<char>,
    seen: FetchSeen,
    step: FetchStep,
)
    requires
        fetch_step(selection, archive, seen, step),
    ensures
        step matches FetchStep::FetchChecksum(url) ==> url@
            == selection.sha256_asset.browser_download_url@ && seen.checksum is None,
        step matches FetchStep::QueryAttestation(url) ==> (seen.checksum matches Some(Ok(text))
            && checksum_digest(text@) matches Some(digest) && url@
            == "https://api.github.com/repos/openharmony-rs/ohos-sdk/attestations/sha256:"@ + digest),
        step matches FetchStep::Download { expected, .. } ==> is_digest(expected@),
        (seen.checksum matches Some(Ok(text)) && checksum_digest(text@) is None) ==> (
        step matches FetchStep::Done(Err(_))),
        step is Verify ==> (seen.downloaded matches Some(Ok(_))) && (seen.attested matches Some(Ok(status))
            && status < 400),
{
    if let FetchStep::Download { note, parts, path, expected } = step {
        let text = seen.checksum->Some_0->Ok_0@;
        let found = words(text);
        law_digests(found[0]);
        assert(expected@ == ascii_lowered(found[0]));
        assert forall|i: int| 0 <= i < expected@.len() implies '0' <= #[trigger] expected@[i] <= '9'
            || 'a' <= expected@[i] <= 'f' || 'A' <= expected@[i] <= 'F' by {
            crate::laws::text::law_case(found[0], i);
            assert('0' <= found[0][i] <= '9' || 'a' <= found[0][i] <= 'f' || 'A' <= found[0][i] <= 'F');
        }
    }
}

/// An SDK is kept in a directory of its version and host, below the cache; its marker is in it, and what
/// is temporary is beside it.
pub proof fn law_where_sdks_are_kept(
    platform: Platform,
    root: Seq<char>,
    selection: Selection,
    paths: InstallPaths,
)
    requires
        paths_are(platform, root, selection, paths),
    ensures
        paths.base@ == joined_path(
            platform,
            joined_path(platform, root, selection.version@),
            selection.os_dir_name@,
        ),
        paths.marker@ == joined_path(platform, paths.base@, ".cargo-ohos-complete"@),
        paths.lock@ == joined_path(
            platform,
            root,
            selection.version@ + "-"@ + selection.os_dir_name@ + ".lock"@,
        ),
        paths.archive@ == joined_path(
            platform,
            root,
            ".download-sdk-"@ + (selection.version@ + "-"@ + selection.os_dir_name@) + ".tar.gz"@,
        ),
        paths.staging@ == joined_path(
            platform,
            root,
            ".extract-sdk-"@ + (selection.version@ + "-"@ + selection.os_dir_name@),
        ),
{
}

/// An install is recognised exactly if it is there and its marker begins with the lines of the release;
/// it has the components the rest of the marker names.
pub proof fn law_installs_that_are_recognised(
    marker: Option<Seq<char>>,
    dir: Option<Seq<char>>,
    selection: Selection,
    res: Option<(Components, String)>,
)
    requires
        existing_is(marker, dir, selection, res),
    ensures
        res is Some <==> dir is Some && (marker matches Some(text) && release_marker_of(
            selection,
        ).is_prefix_of(text)),
        res matches Some((components, path)) ==> dir == Some(path@) && components@ == components_named(
            line_seq(marker->Some_0.skip(release_marker_of(selection).len() as int)),
        ),
{
}

/// The lines of a release are its version, its archive and the parts of that, and then an empty one.
pub proof fn law_lines_of_a_release(selection: Selection)
    ensures
        release_marker_of(selection) == terminated(
            seq![selection.version@, selection.archive_name@] + selection.parts@.map_values(
                |asset: Asset| asset.name@,
            ) + seq![Seq::<char>::empty()],
        ),
{
    let lines = seq![selection.version@, selection.archive_name@] + selection.parts@.map_values(
        |asset: Asset| asset.name@,
    );
    let none = Seq::<char>::empty();
    let all = lines + seq![none];
    assert(crate::sdk::install::release_lines(selection) =~= lines);
    assert(all.drop_last() =~= lines);
    assert(all.last() == none);
    assert(terminated(all) =~= terminated(lines) + "\n"@);
}

/// An archive passes exactly if it has something for the host, and every component that was asked for by
/// name.
pub proof fn law_archives_that_pass(filter: HostFilter, selection: Selection, components: Components)
    ensures
        missing_message(filter, selection, components) is None <==> filter.hosts@.contains(
            selection.os_dir_name@,
        ) && (components@ matches Some(names) ==> names.subset_of(filter.available@)),
{
}

/// SDKs are signed by a workflow of the repository that releases them.
pub proof fn law_who_signs_sdks(signer: Signer)
    requires
        is_sdk_signer(signer),
    ensures
        signer.repository@ == "openharmony-rs/ohos-sdk"@,
        signer.workflow@ == signer.repository@ + "/.github/workflows/Release.yml"@,
{
    reveal_strlit("openharmony-rs/ohos-sdk");
    reveal_strlit("/.github/workflows/Release.yml");
    reveal_strlit("openharmony-rs/ohos-sdk/.github/workflows/Release.yml");
    assert(signer.workflow@ =~= signer.repository@ + "/.github/workflows/Release.yml"@);
}

} // verus!
