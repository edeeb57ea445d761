//! Installing an SDK release into the cache.

use crate::download::{asset_names, safe_char, COMPLETE_MARKER};
use crate::ordered::sorted;
use crate::path::{join, join2, joined_path, Platform};
use crate::sdk::components::{components_named, covers_all, union_of, ALL_COMPONENTS, Components};
use crate::sdk::discovery::{
    cache_paths_are, entry_level, highest_entry, level_root, CachePaths, SdkEntry,
};
use crate::sdk::release::{
    archive_of, is_part, law_selected_parts, os_dir_of, selected_parts, selection_of, Selection,
};
use crate::text::{
    after_prefix, cat2, cat3, cat4, cat5, decimal, decimal_string, first_in, has_class,
    in_class, is_digit, lemma_decimal_is_read_back, lemma_first_in, lemma_first_in_concat,
    line_seq, lines, opt_text, strip_prefix, texts, Class,
};
use vstd::prelude::*;

verus! {

/// The lines, each with the newline that ends it.
pub open spec fn terminated(lines: Seq<Seq<char>>) -> Seq<char>
    decreases lines.len(),
{
    if lines.len() == 0 {
        seq![]
    } else {
        terminated(lines.drop_last()) + lines.last() + "\n"@
    }
}

/// What identifies the release an install was made from.
pub open spec fn release_lines(selection: Selection) -> Seq<Seq<char>> {
    seq![selection.version@, selection.archive_name@] + asset_names(selection.parts@)
}

/// The release an install was made from, as the first lines of its marker up to a blank line.
pub open spec fn release_marker_of(selection: Selection) -> Seq<char> {
    terminated(release_lines(selection)) + "\n"@
}

/// The components as the marker lists them.
pub open spec fn component_lines(components: Components) -> Seq<Seq<char>> {
    match components {
        Components::All => seq!["all"@],
        Components::Only(names) => names.members(),
    }
}

/// The marker of a completed install: its release, then the components it holds.
pub open spec fn marker_of(selection: Selection, components: Components) -> Seq<char> {
    release_marker_of(selection) + terminated(component_lines(components))
}

fn append_lines(text: &mut String, lines: &Vec<String>)
    ensures
        final(text)@ == old(text)@ + terminated(texts(lines@)),
{
    let ghost before = text@;
    let mut i: usize = 0;
    proof {
        assert(texts(lines@).take(0) =~= seq![]);
        assert(before + terminated(texts(lines@).take(0)) =~= before);
    }
    while i < lines.len()
        invariant
            i <= lines.len(),
            text@ == before + terminated(texts(lines@).take(i as int)),
        decreases lines.len() - i,
    {
        proof {
            let next = texts(lines@).take(i + 1);
            assert(next.drop_last() =~= texts(lines@).take(i as int));
            assert(next.last() == lines@[i as int]@);
            assert(before + terminated(next) =~= before + terminated(texts(lines@).take(i as int))
                + lines@[i as int]@ + "\n"@);
        }
        text.append(lines[i].as_str());
        text.append("\n");
        i += 1;
    }
    proof {
        assert(texts(lines@).take(i as int) =~= texts(lines@));
    }
}

/// The release an install was made from, as the first lines of its marker up to a blank line, so
/// that a release with fewer parts is not a prefix of it.
pub fn release_marker(selection: &Selection) -> (res: String)
    ensures
        res@ == release_marker_of(*selection),
{
    let mut all: Vec<String> = Vec::new();
    all.push(selection.version.clone());
    all.push(selection.archive_name.to_owned());
    let mut i: usize = 0;
    while i < selection.parts.len()
        invariant
            i <= selection.parts.len(),
            all.len() == i + 2,
            all@[0]@ == selection.version@,
            all@[1]@ == selection.archive_name@,
            forall|k: int| 0 <= k < i ==> (#[trigger] all@[k + 2])@ == selection.parts@[k].name@,
        decreases selection.parts.len() - i,
    {
        all.push(selection.parts[i].name.clone());
        i += 1;
    }
    proof {
        assert forall|k: int| 0 <= k < all.len() implies #[trigger] texts(all@)[k] == release_lines(
            *selection,
        )[k] by {
            if k >= 2 {
                assert(all@[(k - 2) + 2]@ == selection.parts@[k - 2].name@);
            }
        }
        assert(texts(all@) =~= release_lines(*selection));
    }
    let mut marker = String::new();
    append_lines(&mut marker, &all);
    proof {
        assert(Seq::<char>::empty() + terminated(texts(all@)) =~= terminated(texts(all@)));
    }
    marker.append("\n");
    marker
}

/// Whether `text` is the marker of an install of `selection` with these components: its release,
/// then the names in their order.
pub open spec fn marks(
    selection: Selection,
    components: Option<Set<Seq<char>>>,
    text: Seq<char>,
) -> bool {
    match components {
        None => text == release_marker_of(selection) + terminated(seq!["all"@]),
        Some(names) => exists|lines: Seq<Seq<char>>| #[trigger]
            sorted(lines) && lines.to_set() == names && text == release_marker_of(selection)
                + terminated(lines),
    }
}

/// The marker of a completed install: its release, then the components it holds.
pub fn selection_marker(selection: &Selection, components: &Components) -> (res: String)
    ensures
        res@ == marker_of(*selection, *components),
        marks(*selection, components@, res@),
{
    let mut marker = release_marker(selection);
    let names = match components {
        Components::All => {
            let mut names: Vec<String> = Vec::new();
            names.push(ALL_COMPONENTS.to_owned());
            proof {
                assert(texts(names@) =~= seq!["all"@]);
            }
            names
        },
        Components::Only(set) => {
            let names = set.to_vec();
            proof {
                assert(sorted(set.members()));
            }
            names
        },
    };
    append_lines(&mut marker, &names);
    marker
}

/// The components and the API level directory of a completed install of this very release, from the
/// marker's text and a directory in the install.
pub open spec fn existing_is(
    marker: Option<Seq<char>>,
    dir: Option<Seq<char>>,
    selection: Selection,
    res: Option<(Components, String)>,
) -> bool {
    match marker {
        Some(text) => match (after_prefix(text, release_marker_of(selection)), dir) {
            (Some(rest), Some(dir)) => {
                &&& res matches Some((components, found))
                &&& components@ == components_named(line_seq(rest))
                &&& found@ == dir
            },
            _ => res is None,
        },
        None => res is None,
    }
}

/// The components a completed install of this very release holds, and its API level directory.
/// `marker` is the text of the marker and `dir` a directory in the install, where there are any.
pub fn existing_install(marker: &Option<String>, dir: &Option<String>, selection: &Selection) -> (res:
    Option<(Components, String)>)
    ensures
        existing_is(opt_text(*marker), opt_text(*dir), *selection, res),
{
    match (marker, dir) {
        (Some(text), Some(dir)) => {
            match strip_prefix(text.as_str(), release_marker(selection).as_str()) {
                Some(rest) => Some((Components::new(lines(rest.as_str())), dir.clone())),
                None => None,
            }
        },
        _ => None,
    }
}

/// A line that reads as it was written: without a line break in it or a part of one at its end.
pub open spec fn unbroken_line(line: Seq<char>) -> bool {
    !has_class(line, Class::Is('\n')) && (line.len() > 0 ==> line.last() != '\r')
}

pub open spec fn unbroken_lines(lines: Seq<Seq<char>>) -> bool {
    forall|i: int| 0 <= i < lines.len() ==> unbroken_line(#[trigger] lines[i])
}

/// A line that cannot be taken for a blank one.
pub open spec fn plain_line(line: Seq<char>) -> bool {
    line.len() > 0 && !has_class(line, Class::Is('\n'))
}

pub open spec fn plain_lines(lines: Seq<Seq<char>>) -> bool {
    forall|i: int| 0 <= i < lines.len() ==> plain_line(#[trigger] lines[i])
}

proof fn lemma_terminated_front(lines: Seq<Seq<char>>)
    requires
        lines.len() > 0,
    ensures
        terminated(lines) == lines[0] + "\n"@ + terminated(lines.drop_first()),
    decreases lines.len(),
{
    let rest = lines.drop_first();
    if lines.len() == 1 {
        assert(lines.drop_last() =~= seq![]);
        assert(rest =~= seq![]);
        assert(terminated(lines) =~= lines[0] + "\n"@ + terminated(rest));
    } else {
        lemma_terminated_front(lines.drop_last());
        assert(lines.drop_last().drop_first() =~= rest.drop_last());
        assert(rest.last() == lines.last());
        assert(terminated(lines) =~= lines[0] + "\n"@ + terminated(rest));
    }
}

/// The first line of `line + "\n" + rest`.
proof fn lemma_first_line(line: Seq<char>, rest: Seq<char>)
    requires
        !has_class(line, Class::Is('\n')),
    ensures
        first_in(line + "\n"@ + rest, Class::Is('\n')) == line.len(),
        (line + "\n"@ + rest).take(line.len() as int) == line,
        (line + "\n"@ + rest).skip(line.len() as int + 1) == rest,
{
    reveal_strlit("\n");
    let tail = "\n"@ + rest;
    lemma_first_in_concat(line, tail, Class::Is('\n'));
    assert(line + tail =~= line + "\n"@ + rest);
    assert(tail[0] == '\n');
    assert((line + "\n"@ + rest).take(line.len() as int) =~= line);
    assert((line + "\n"@ + rest).skip(line.len() as int + 1) =~= rest);
}

/// Reading lines undoes writing them.
pub proof fn law_lines_are_read_back(lines: Seq<Seq<char>>)
    requires
        unbroken_lines(lines),
    ensures
        line_seq(terminated(lines)) == lines,
    decreases lines.len(),
{
    if lines.len() == 0 {
        assert(line_seq(terminated(lines)) =~= lines);
    } else {
        let rest = lines.drop_first();
        assert forall|i: int| 0 <= i < rest.len() implies unbroken_line(#[trigger] rest[i]) by {
            assert(rest[i] == lines[i + 1]);
        }
        law_lines_are_read_back(rest);
        lemma_terminated_front(lines);
        assert(unbroken_line(lines[0]));
        lemma_first_line(lines[0], terminated(rest));
        reveal_strlit("\n");
        assert(line_seq(terminated(lines)) == seq![lines[0]] + line_seq(terminated(rest)));
        assert(seq![lines[0]] + rest =~= lines);
    }
}

/// Names that are read back from a marker as they were written.
pub open spec fn readable(components: Option<Set<Seq<char>>>) -> bool {
    components matches Some(names) ==> !names.contains("all"@) && forall|name: Seq<char>| #[trigger]
        names.contains(name) ==> unbroken_line(name)
}

/// The marker of an install gives back the components it was written with: what is installed is
/// neither forgotten nor overstated.
pub proof fn law_marker_gives_back_components(
    selection: Selection,
    components: Option<Set<Seq<char>>>,
    text: Seq<char>,
)
    requires
        readable(components),
        marks(selection, components, text),
    ensures
        after_prefix(text, release_marker_of(selection)) matches Some(rest) && components_named(
            line_seq(rest),
        ) == components,
{
    let head = release_marker_of(selection);
    let lines = match components {
        None => seq!["all"@],
        Some(names) => choose|lines: Seq<Seq<char>>| #[trigger]
            sorted(lines) && lines.to_set() == names && text == head + terminated(lines),
    };
    assert(text == head + terminated(lines));
    assert(head.is_prefix_of(text));
    assert(text.skip(head.len() as int) =~= terminated(lines));
    assert forall|i: int| 0 <= i < lines.len() implies unbroken_line(#[trigger] lines[i]) by {
        match components {
            None => {
                reveal_strlit("all");
                assert(!has_class("all"@, Class::Is('\n')));
            },
            Some(names) => {
                assert(lines.to_set().contains(lines[i]));
            },
        }
    }
    law_lines_are_read_back(lines);
    match components {
        None => {
            assert(lines[0] == "all"@);
        },
        Some(names) => {
            if lines.contains("all"@) {
                assert(lines.to_set().contains("all"@));
            }
        },
    }
}

proof fn lemma_marker_lines_agree(a: Seq<Seq<char>>, b: Seq<Seq<char>>, rest: Seq<char>)
    requires
        plain_lines(a),
        plain_lines(b),
        (terminated(a) + "\n"@).is_prefix_of(terminated(b) + "\n"@ + rest),
    ensures
        a == b,
    decreases a.len(),
{
    reveal_strlit("\n");
    let class = Class::Is('\n');
    let whole = terminated(b) + "\n"@ + rest;
    let part = terminated(a) + "\n"@;
    assert(part =~= whole.take(part.len() as int));
    if a.len() == 0 {
        if b.len() > 0 {
            lemma_terminated_front(b);
            assert(plain_line(b[0]));
            assert(whole[0] == b[0][0]);
            assert(whole[0] == part[0]);
            assert(in_class(class, b[0][0]));
        }
        assert(a =~= b);
    } else {
        let more_a = terminated(a.drop_first()) + "\n"@;
        lemma_terminated_front(a);
        assert(plain_line(a[0]));
        assert(part =~= a[0] + "\n"@ + more_a);
        lemma_first_line(a[0], more_a);
        lemma_first_in(part, class);
        if b.len() == 0 {
            assert(whole[0] == '\n');
            assert(part[0] == a[0][0]);
            assert(in_class(class, a[0][0]));
        } else {
            let more_b = terminated(b.drop_first()) + "\n"@ + rest;
            lemma_terminated_front(b);
            assert(plain_line(b[0]));
            assert(whole =~= b[0] + "\n"@ + more_b);
            lemma_first_line(b[0], more_b);
            lemma_first_in(whole, class);
            let i = first_in(part, class) as int;
            let j = first_in(whole, class) as int;
            assert(part[i] == whole[i]);
            assert(j <= i);
            assert(part[j] == whole[j]);
            assert(i <= j);
            assert(a[0] =~= part.take(i));
            assert(b[0] =~= whole.take(i));
            assert(a[0] == b[0]);
            assert(more_a =~= part.skip(i + 1));
            assert(more_b =~= whole.skip(i + 1));
            assert(more_a =~= more_b.take(more_a.len() as int));
            let ra = a.drop_first();
            let rb = b.drop_first();
            assert forall|k: int| 0 <= k < ra.len() implies plain_line(#[trigger] ra[k]) by {
                assert(ra[k] == a[k + 1]);
            }
            assert forall|k: int| 0 <= k < rb.len() implies plain_line(#[trigger] rb[k]) by {
                assert(rb[k] == b[k + 1]);
            }
            lemma_marker_lines_agree(ra, rb, rest);
            assert(a =~= seq![a[0]] + ra);
            assert(b =~= seq![b[0]] + rb);
        }
    }
}

/// An install is recognised only by the release it was made from: a marker that starts with the
/// lines of one selection was written for the same version, archive and parts.
pub proof fn law_marker_names_its_release(
    wanted: Selection,
    installed: Selection,
    components: Components,
)
    requires
        plain_lines(release_lines(wanted)),
        plain_lines(release_lines(installed)),
        release_marker_of(wanted).is_prefix_of(marker_of(installed, components)),
    ensures
        wanted.version@ == installed.version@,
        wanted.archive_name@ == installed.archive_name@,
        asset_names(wanted.parts@) == asset_names(installed.parts@),
{
    let a = release_lines(wanted);
    let b = release_lines(installed);
    lemma_marker_lines_agree(a, b, terminated(component_lines(components)));
    assert(a[0] == b[0] && a[1] == b[1]);
    assert(asset_names(wanted.parts@) =~= a.skip(2));
    assert(asset_names(installed.parts@) =~= b.skip(2));
}

/// What is selected of a release always has a marker by which the install is recognised.
pub proof fn law_selections_have_plain_markers(
    release: crate::download::Release,
    archive: Seq<char>,
    os: Seq<char>,
    arch: Seq<char>,
    selection: Selection,
)
    requires
        archive_of(os, arch) == Some(archive),
        selection_of(release, archive, os, arch, Ok::<Selection, String>(selection)),
    ensures
        plain_lines(release_lines(selection)),
{
    let class = Class::Is('\n');
    let lines = release_lines(selection);
    reveal_strlit("ohos-sdk-windows_linux-public.tar.gz");
    reveal_strlit("L2-SDK-MAC-M1-PUBLIC.tar.gz");
    reveal_strlit("ohos-sdk-mac-public.tar.gz");
    assert(plain_line(archive)) by {
        assert forall|i: int| 0 <= i < archive.len() implies !in_class(class, #[trigger] archive[i]) by {
        }
    }
    assert forall|i: int| 0 <= i < selection.version@.len() implies !in_class(
        class,
        #[trigger] selection.version@[i],
    ) by {
        assert(safe_char(selection.version@[i]));
    }
    law_selected_parts(release.assets@, archive);
    assert forall|k: int| 0 <= k < lines.len() implies plain_line(#[trigger] lines[k]) by {
        if k >= 2 {
            let asset = selection.parts@[k - 2];
            let name = asset.name@;
            assert(lines[k] == name);
            assert(selected_parts(release.assets@, archive).contains(asset));
            assert(is_part(name, archive));
            assert forall|i: int| 0 <= i < name.len() implies !in_class(class, #[trigger] name[i]) by {
                if i < archive.len() {
                    assert(name[i] == archive[i]);
                    assert(!in_class(class, archive[i]));
                }
            }
        }
    }
}

/// Where an install of `selection` happens.
pub struct InstallPaths {
    pub lock: String,
    /// The install itself.
    pub base: String,
    pub marker: String,
    /// The downloaded archive.
    pub archive: String,
    /// Where the archive is unpacked.
    pub staging: String,
}

/// The paths of an install below the cache directory `root`.
pub open spec fn paths_are(
    platform: Platform,
    root: Seq<char>,
    selection: Selection,
    paths: InstallPaths,
) -> bool {
    let name = selection.version@ + "-"@ + selection.os_dir_name@;
    &&& paths.lock@ == joined_path(platform, root, name + ".lock"@)
    &&& paths.base@ == joined_path(
        platform,
        joined_path(platform, root, selection.version@),
        selection.os_dir_name@,
    )
    &&& paths.marker@ == joined_path(platform, paths.base@, ".cargo-ohos-complete"@)
    &&& paths.archive@ == joined_path(platform, root, ".download-sdk-"@ + name + ".tar.gz"@)
    &&& paths.staging@ == joined_path(platform, root, ".extract-sdk-"@ + name)
}

pub fn install_paths(platform: Platform, root: &str, selection: &Selection) -> (res: InstallPaths)
    ensures
        paths_are(platform, root@, *selection, res),
{
    let name = cat3(selection.version.as_str(), "-", selection.os_dir_name);
    let base = join2(platform, root, selection.version.as_str(), selection.os_dir_name);
    let marker = join(platform, base.as_str(), COMPLETE_MARKER);
    InstallPaths {
        lock: join(platform, root, cat2(name.as_str(), ".lock").as_str()),
        base,
        marker,
        archive: join(
            platform,
            root,
            cat3(".download-sdk-", name.as_str(), ".tar.gz").as_str(),
        ),
        staging: join(platform, root, cat2(".extract-sdk-", name.as_str()).as_str()),
    }
}

/// What was seen so far during an install: the results of the steps, each recorded under the name
/// its step gives.
pub struct InstallSeen {
    pub root_created: Option<Result<(), String>>,
    pub locked: Option<Result<(), String>>,
    /// The text of the marker, if it can be read, and a directory in the install, if there is one.
    pub existing: Option<(Option<String>, Option<String>)>,
    pub staging_cleared: Option<Result<(), String>>,
    pub archive_cleared: Option<Result<(), String>>,
    pub fetched: Option<Result<(), String>>,
    pub staging_created: Option<Result<(), String>>,
    pub host_extracted: Option<Result<(), String>>,
    pub archive_dropped: Option<Result<(), String>>,
    pub api: Option<Result<u32, String>>,
    pub invalidated: Option<Result<(), String>>,
    pub base_cleared: Option<Result<(), String>>,
    pub base_created: Option<Result<(), String>>,
    pub moved: Option<Result<(), String>>,
    pub marked: Option<Result<(), String>>,
    pub cleaned: bool,
}

/// What to do next during an install.
pub enum InstallStep {
    /// Create the directory and those above it: `root_created`.
    CreateRoot(String),
    /// Lock this file until the end: `locked`.
    Lock(String),
    /// Look for an install: `existing`.
    Inspect { marker: String, base: String },
    /// Print the note and remove the directory if it exists: `staging_cleared`.
    ClearStaging { announcement: String, path: String },
    /// Remove the file if it exists: `archive_cleared`.
    ClearArchive(String),
    /// Fetch and verify the archive: `fetched`.
    Fetch(String),
    /// Create the directory: `staging_created`.
    CreateStaging(String),
    /// Unpack the archives of these components: `host_extracted`.
    ExtractHost { archive: String, staging: String, components: Components },
    /// Remove the file if it exists: `archive_dropped`.
    DropArchive(String),
    /// Unpack the components and tell their API level: `api`.
    ExtractComponents(String),
    /// Remove the marker if it exists: `invalidated`.
    Invalidate(String),
    /// Remove the directory if it exists: `base_cleared`.
    ClearBase(String),
    /// Create the directory and those above it: `base_created`.
    CreateBase(String),
    /// Rename: `moved`.
    Move { from: String, to: String },
    /// Write the marker: `marked`.
    Mark { path: String, text: String },
    /// Remove what is left of the archive and of what was unpacked, whether or not that works:
    /// `cleaned`.
    CleanUp { archive: String, staging: String },
    /// Print the note, and end with the directory of the install.
    Done { note: Option<String>, result: Result<String, String> },
}

/// The components of the install found, if it is one of this very release.
pub open spec fn installed_components(
    existing: (Option<String>, Option<String>),
    selection: Selection,
) -> Option<Option<Set<Seq<char>>>> {
    match (opt_text(existing.0), opt_text(existing.1)) {
        (Some(text), Some(_)) => match after_prefix(text, release_marker_of(selection)) {
            Some(rest) => Some(components_named(line_seq(rest))),
            None => None,
        },
        _ => None,
    }
}

/// The components to install: those asked for, added to what an earlier install of the release holds
/// rather than narrowing it.
pub open spec fn merged(
    installed: Option<Option<Set<Seq<char>>>>,
    asked: Option<Set<Seq<char>>>,
) -> Option<Set<Seq<char>>> {
    match installed {
        Some(have) => union_of(have, asked),
        None => asked,
    }
}

pub open spec fn install_fails(step: InstallStep, message: Seq<char>) -> bool {
    step matches InstallStep::Done { note: None, result: Err(error) } && error@ == message
}

pub open spec fn not_removed(path: String, error: String) -> Seq<char> {
    "could not remove "@ + path@ + ": "@ + error@
}

pub open spec fn not_created(path: String, error: String) -> Seq<char> {
    "could not create "@ + path@ + ": "@ + error@
}

/// The end of an install that got as far as the archive: clean up, then report.
pub open spec fn install_ends(paths: InstallPaths, seen: InstallSeen, step: InstallStep) -> bool {
    !seen.cleaned ==> (step matches InstallStep::CleanUp { archive, staging } && archive@
        == paths.archive@ && staging@ == paths.staging@)
}

pub open spec fn install_breaks(
    paths: InstallPaths,
    seen: InstallSeen,
    step: InstallStep,
    message: Seq<char>,
) -> bool {
    install_ends(paths, seen, step) && (seen.cleaned ==> install_fails(step, message))
}

/// What follows once the components are unpacked: the earlier install is invalidated before it is
/// touched, and the new one is marked last.
pub open spec fn commit_step(
    platform: Platform,
    selection: Selection,
    components: Option<Set<Seq<char>>>,
    paths: InstallPaths,
    api: u32,
    seen: InstallSeen,
    step: InstallStep,
) -> bool {
    let to = joined_path(platform, paths.base@, decimal(api as nat));
    match seen.invalidated {
        None => step matches InstallStep::Invalidate(path) && path@ == paths.marker@,
        Some(Err(error)) => install_breaks(paths, seen, step, not_removed(paths.marker, error)),
        Some(Ok(_)) => match seen.base_cleared {
            None => step matches InstallStep::ClearBase(path) && path@ == paths.base@,
            Some(Err(error)) => install_breaks(paths, seen, step, not_removed(paths.base, error)),
            Some(Ok(_)) => match seen.base_created {
                None => step matches InstallStep::CreateBase(path) && path@ == paths.base@,
                Some(Err(error)) => install_breaks(paths, seen, step, not_created(paths.base, error)),
                Some(Ok(_)) => match seen.moved {
                    None => step matches InstallStep::Move { from, to: target } && from@
                        == paths.staging@ && target@ == to,
                    Some(Err(error)) => install_breaks(
                        paths,
                        seen,
                        step,
                        "could not install SDK into "@ + to + ": "@ + error@,
                    ),
                    Some(Ok(_)) => match seen.marked {
                        None => step matches InstallStep::Mark { path, text } && path@
                            == paths.marker@ && marks(selection, components, text@),
                        Some(Err(error)) => install_breaks(
                            paths,
                            seen,
                            step,
                            "could not mark "@ + paths.base@ + " complete: "@ + error@,
                        ),
                        Some(Ok(_)) => install_ends(paths, seen, step) && (seen.cleaned ==> (
                        step matches InstallStep::Done { note: None, result: Ok(dir) } && dir@ == to)),
                    },
                },
            },
        },
    }
}

/// What follows once an install was decided on.
pub open spec fn unpack_step(
    platform: Platform,
    selection: Selection,
    components: Option<Set<Seq<char>>>,
    paths: InstallPaths,
    seen: InstallSeen,
    step: InstallStep,
) -> bool {
    match seen.staging_cleared {
        None => step matches InstallStep::ClearStaging { announcement, path } && path@
            == paths.staging@ && announcement@ == "note: installing OpenHarmony SDK "@
            + selection.version@ + " from `"@ + selection.archive_name@ + "`"@,
        Some(Err(error)) => install_fails(step, not_removed(paths.staging, error)),
        Some(Ok(_)) => match seen.archive_cleared {
            None => step matches InstallStep::ClearArchive(path) && path@ == paths.archive@,
            Some(Err(error)) => install_fails(step, not_removed(paths.archive, error)),
            Some(Ok(_)) => match seen.fetched {
                None => step matches InstallStep::Fetch(path) && path@ == paths.archive@,
                Some(Err(error)) => install_breaks(paths, seen, step, error@),
                Some(Ok(_)) => match seen.staging_created {
                    None => step matches InstallStep::CreateStaging(path) && path@ == paths.staging@,
                    Some(Err(error)) => install_breaks(
                        paths,
                        seen,
                        step,
                        not_created(paths.staging, error),
                    ),
                    Some(Ok(_)) => match seen.host_extracted {
                        None => {
                            &&& step matches InstallStep::ExtractHost {
                                archive,
                                staging,
                                components: asked,
                            }
                            &&& archive@ == paths.archive@
                            &&& staging@ == paths.staging@
                            &&& asked@ == components
                        },
                        Some(Err(error)) => install_breaks(paths, seen, step, error@),
                        Some(Ok(_)) => match seen.archive_dropped {
                            None => step matches InstallStep::DropArchive(path) && path@
                                == paths.archive@,
                            Some(Err(error)) => install_breaks(
                                paths,
                                seen,
                                step,
                                not_removed(paths.archive, error),
                            ),
                            Some(Ok(_)) => match seen.api {
                                None => step matches InstallStep::ExtractComponents(path) && path@
                                    == paths.staging@,
                                Some(Err(error)) => install_breaks(paths, seen, step, error@),
                                Some(Ok(api)) => commit_step(
                                    platform,
                                    selection,
                                    components,
                                    paths,
                                    api,
                                    seen,
                                    step,
                                ),
                            },
                        },
                    },
                },
            },
        },
    }
}

/// The step that follows `seen`: an install that has the components already is used as it is.
pub open spec fn install_step(
    platform: Platform,
    root: Seq<char>,
    selection: Selection,
    asked: Option<Set<Seq<char>>>,
    paths: InstallPaths,
    seen: InstallSeen,
    step: InstallStep,
) -> bool {
    match seen.root_created {
        None => step matches InstallStep::CreateRoot(path) && path@ == root,
        Some(Err(error)) => install_fails(step, "could not create "@ + root + ": "@ + error@),
        Some(Ok(_)) => match seen.locked {
            None => step matches InstallStep::Lock(path) && path@ == paths.lock@,
            Some(Err(error)) => install_fails(step, error@),
            Some(Ok(_)) => match seen.existing {
                None => step matches InstallStep::Inspect { marker, base } && marker@
                    == paths.marker@ && base@ == paths.base@,
                Some(existing) => {
                    let installed = installed_components(existing, selection);
                    if installed is Some && covers_all(installed->Some_0, asked) {
                        let dir = existing.1->Some_0@;
                        &&& step matches InstallStep::Done { note: Some(note), result: Ok(found) }
                        &&& found@ == dir
                        &&& note@ == "note: OpenHarmony SDK "@ + selection.version@
                            + " with the requested components is already installed at "@ + dir
                    } else {
                        unpack_step(
                            platform,
                            selection,
                            merged(installed, asked),
                            paths,
                            seen,
                            step,
                        )
                    }
                },
            },
        },
    }
}

fn fails(message: String) -> (res: InstallStep)
    ensures
        install_fails(res, message@),
{
    InstallStep::Done { note: None, result: Err(message) }
}

fn breaks(paths: &InstallPaths, seen: &InstallSeen, message: String) -> (res: InstallStep)
    ensures
        install_breaks(*paths, *seen, res, message@),
{
    if seen.cleaned {
        fails(message)
    } else {
        InstallStep::CleanUp { archive: paths.archive.clone(), staging: paths.staging.clone() }
    }
}

fn removal_failed(path: &String, error: &String) -> (res: String)
    ensures
        res@ == not_removed(*path, *error),
{
    cat4("could not remove ", path.as_str(), ": ", error.as_str())
}

fn creation_failed(path: &String, error: &String) -> (res: String)
    ensures
        res@ == not_created(*path, *error),
{
    cat4("could not create ", path.as_str(), ": ", error.as_str())
}

fn commit(
    platform: Platform,
    selection: &Selection,
    components: &Components,
    paths: &InstallPaths,
    api: u32,
    seen: &InstallSeen,
) -> (res: InstallStep)
    ensures
        commit_step(platform, *selection, components@, *paths, api, *seen, res),
{
    match &seen.invalidated {
        None => return InstallStep::Invalidate(paths.marker.clone()),
        Some(Err(error)) => return breaks(paths, seen, removal_failed(&paths.marker, error)),
        Some(Ok(_)) => {},
    }
    match &seen.base_cleared {
        None => return InstallStep::ClearBase(paths.base.clone()),
        Some(Err(error)) => return breaks(paths, seen, removal_failed(&paths.base, error)),
        Some(Ok(_)) => {},
    }
    match &seen.base_created {
        None => return InstallStep::CreateBase(paths.base.clone()),
        Some(Err(error)) => return breaks(paths, seen, creation_failed(&paths.base, error)),
        Some(Ok(_)) => {},
    }
    let to = join(platform, paths.base.as_str(), decimal_string(api as u64).as_str());
    match &seen.moved {
        None => return InstallStep::Move { from: paths.staging.clone(), to },
        Some(Err(error)) => {
            let message = cat4("could not install SDK into ", to.as_str(), ": ", error.as_str());
            return breaks(paths, seen, message);
        },
        Some(Ok(_)) => {},
    }
    match &seen.marked {
        None => InstallStep::Mark {
            path: paths.marker.clone(),
            text: selection_marker(selection, components),
        },
        Some(Err(error)) => {
            let message = cat4(
                "could not mark ",
                paths.base.as_str(),
                " complete: ",
                error.as_str(),
            );
            breaks(paths, seen, message)
        },
        Some(Ok(_)) => if seen.cleaned {
            InstallStep::Done { note: None, result: Ok(to) }
        } else {
            InstallStep::CleanUp { archive: paths.archive.clone(), staging: paths.staging.clone() }
        },
    }
}

fn unpack(
    platform: Platform,
    selection: &Selection,
    components: Components,
    paths: &InstallPaths,
    seen: &InstallSeen,
) -> (res: InstallStep)
    ensures
        unpack_step(platform, *selection, components@, *paths, *seen, res),
{
    match &seen.staging_cleared {
        None => {
            let announcement = cat5(
                "note: installing OpenHarmony SDK ",
                selection.version.as_str(),
                " from `",
                selection.archive_name,
                "`",
            );
            return InstallStep::ClearStaging { announcement, path: paths.staging.clone() };
        },
        Some(Err(error)) => return fails(removal_failed(&paths.staging, error)),
        Some(Ok(_)) => {},
    }
    match &seen.archive_cleared {
        None => return InstallStep::ClearArchive(paths.archive.clone()),
        Some(Err(error)) => return fails(removal_failed(&paths.archive, error)),
        Some(Ok(_)) => {},
    }
    match &seen.fetched {
        None => return InstallStep::Fetch(paths.archive.clone()),
        Some(Err(error)) => return breaks(paths, seen, error.clone()),
        Some(Ok(_)) => {},
    }
    match &seen.staging_created {
        None => return InstallStep::CreateStaging(paths.staging.clone()),
        Some(Err(error)) => return breaks(paths, seen, creation_failed(&paths.staging, error)),
        Some(Ok(_)) => {},
    }
    match &seen.host_extracted {
        None => return InstallStep::ExtractHost {
            archive: paths.archive.clone(),
            staging: paths.staging.clone(),
            components,
        },
        Some(Err(error)) => return breaks(paths, seen, error.clone()),
        Some(Ok(_)) => {},
    }
    match &seen.archive_dropped {
        None => return InstallStep::DropArchive(paths.archive.clone()),
        Some(Err(error)) => return breaks(paths, seen, removal_failed(&paths.archive, error)),
        Some(Ok(_)) => {},
    }
    match &seen.api {
        None => InstallStep::ExtractComponents(paths.staging.clone()),
        Some(Err(error)) => breaks(paths, seen, error.clone()),
        Some(Ok(api)) => commit(platform, selection, &components, paths, *api, seen),
    }
}

/// Install the selected release with these components into the cache directory `root`: the step that
/// follows what was seen so far.
pub fn install(
    platform: Platform,
    root: &str,
    selection: &Selection,
    components: &Components,
    seen: &InstallSeen,
) -> (res: InstallStep)
    ensures
        exists|paths: InstallPaths| #[trigger]
            paths_are(platform, root@, *selection, paths) && install_step(
                platform,
                root@,
                *selection,
                components@,
                paths,
                *seen,
                res,
            ),
{
    let paths = install_paths(platform, root, selection);
    match &seen.root_created {
        None => return InstallStep::CreateRoot(root.to_owned()),
        Some(Err(error)) => return fails(cat4("could not create ", root, ": ", error.as_str())),
        Some(Ok(_)) => {},
    }
    match &seen.locked {
        None => return InstallStep::Lock(paths.lock),
        Some(Err(error)) => return fails(error.clone()),
        Some(Ok(_)) => {},
    }
    let (marker, dir) = match &seen.existing {
        None => return InstallStep::Inspect { marker: paths.marker, base: paths.base },
        Some(existing) => (&existing.0, &existing.1),
    };
    let wanted = match existing_install(marker, dir, selection) {
        Some((installed, dir)) => {
            if installed.covers(components) {
                let note = cat4(
                    "note: OpenHarmony SDK ",
                    selection.version.as_str(),
                    " with the requested components is already installed at ",
                    dir.as_str(),
                );
                return InstallStep::Done { note: Some(note), result: Ok(dir) };
            }
            installed.union(components)
        },
        None => components.clone(),
    };
    unpack(platform, selection, wanted, &paths, seen)
}

/// An earlier install is not touched before the new components are fetched, verified and unpacked,
/// and not before its marker is gone; the new install is marked only once it is in place.
pub proof fn law_installs_are_marked_last(
    platform: Platform,
    root: Seq<char>,
    selection: Selection,
    asked: Option<Set<Seq<char>>>,
    paths: InstallPaths,
    seen: InstallSeen,
    step: InstallStep,
)
    requires
        install_step(platform, root, selection, asked, paths, seen, step),
    ensures
        step is Invalidate || step is ClearBase || step is CreateBase || step is Move || step is Mark
            ==> (seen.locked matches Some(Ok(_))) && (seen.fetched matches Some(Ok(_))) && (
        seen.host_extracted matches Some(Ok(_))) && (seen.api matches Some(Ok(_))),
        step is ClearBase || step is CreateBase || step is Move || step is Mark ==> (
        seen.invalidated matches Some(Ok(_))),
        step is Mark ==> (seen.base_cleared matches Some(Ok(_))) && (
        seen.base_created matches Some(Ok(_))) && (seen.moved matches Some(Ok(_))),
{
}

/// An install that succeeds holds every component asked for: either it was there with them, or the
/// marker that lists them, and everything installed before, was written.
pub proof fn law_installs_hold_what_was_asked(
    platform: Platform,
    root: Seq<char>,
    selection: Selection,
    asked: Option<Set<Seq<char>>>,
    paths: InstallPaths,
    seen: InstallSeen,
    step: InstallStep,
)
    requires
        install_step(platform, root, selection, asked, paths, seen, step),
    ensures
        step matches InstallStep::Done { result: Ok(_), .. } ==> {
            ||| (seen.marked matches Some(Ok(_)))
            ||| (seen.existing matches Some(existing) && installed_components(existing, selection)
                matches Some(have) && covers_all(have, asked))
        },
        step matches InstallStep::Mark { text, .. } ==> (seen.existing matches Some(existing)
            && exists|components: Option<Set<Seq<char>>>| #[trigger]
            marks(selection, components, text@) && covers_all(components, asked) && (
            installed_components(existing, selection) matches Some(have) ==> covers_all(
                components,
                have,
            ))),
{
    if let Some(existing) = seen.existing {
        let installed = installed_components(existing, selection);
        let components = merged(installed, asked);
        crate::sdk::components::law_covering_is_an_order(asked, asked, asked);
        if installed is Some {
            crate::sdk::components::law_union_adds(installed->Some_0, asked, asked);
        }
        if let InstallStep::Mark { text, .. } = step {
            assert(marks(selection, components, text@));
        }
    }
}

/// Installing what is installed does nothing: once the marker of an install lists the components asked
/// for, the install is used as it is.
pub proof fn law_installing_again_reuses(
    platform: Platform,
    root: Seq<char>,
    selection: Selection,
    asked: Option<Set<Seq<char>>>,
    installed: Option<Set<Seq<char>>>,
    paths: InstallPaths,
    seen: InstallSeen,
    step: InstallStep,
)
    requires
        install_step(platform, root, selection, asked, paths, seen, step),
        seen.root_created matches Some(Ok(_)),
        seen.locked matches Some(Ok(_)),
        seen.existing matches Some((Some(text), Some(_))) && marks(selection, installed, text@),
        readable(installed),
        covers_all(installed, asked),
    ensures
        step matches InstallStep::Done { result: Ok(dir), .. } && dir@
            == seen.existing->Some_0.1->Some_0@,
{
    let text = seen.existing->Some_0.0->Some_0@;
    law_marker_gives_back_components(selection, installed, text);
    assert(installed_components(seen.existing->Some_0, selection) == Some(installed));
}

/// An install is put where a later search looks for it: its marker is the one that is looked for in
/// the cache, and the native directory of its API level, if the install has that component, is the one
/// that is loaded.
pub proof fn law_installs_are_found(
    platform: Platform,
    root: Seq<char>,
    selection: Selection,
    os: Seq<char>,
    asked: Option<Set<Seq<char>>>,
    paths: InstallPaths,
    seen: InstallSeen,
    step: InstallStep,
    places: CachePaths,
)
    requires
        paths_are(platform, root, selection, paths),
        install_step(platform, root, selection, asked, paths, seen, step),
        selection.os_dir_name@ == os_dir_of(os),
        cache_paths_are(platform, root, selection.version@, os, places),
    ensures
        step matches InstallStep::Mark { path, text } ==> path@ == places.marker@,
        step matches InstallStep::Move { from, to } ==> {
            &&& seen.api matches Some(Ok(api))
            &&& to@ == joined_path(platform, places.base@, decimal(api as nat))
            &&& forall|entry: SdkEntry|
                entry.has_native && entry.name@ == decimal(api as nat) ==> #[trigger] level_root(
                    platform,
                    places.base@,
                    seq![entry],
                ) == Some(joined_path(platform, to@, "native"@))
        },
{
    if let InstallStep::Move { from, to } = step {
        let api = seen.api->Some_0->Ok_0;
        let name = decimal(api as nat);
        lemma_decimal_is_read_back(api as nat);
        reveal_strlit("default");
        assert("default"@[0] == 'd' && is_digit(name[0]));
        assert forall|entry: SdkEntry|
            entry.has_native && entry.name@ == name implies #[trigger] level_root(
            platform,
            places.base@,
            seq![entry],
        ) == Some(joined_path(platform, to@, "native"@)) by {
            assert(entry_level(entry) == Some(api));
            reveal_with_fuel(highest_entry, 2);
            assert(seq![entry].drop_last() =~= seq![]);
            assert(highest_entry(seq![entry]) == 0);
        }
    }
}

/// Nothing is done twice: each step asks for something that was not seen yet, so that carrying out the
/// steps comes to an end.
pub proof fn law_every_step_is_new(
    platform: Platform,
    root: Seq<char>,
    selection: Selection,
    asked: Option<Set<Seq<char>>>,
    paths: InstallPaths,
    seen: InstallSeen,
    step: InstallStep,
)
    requires
        install_step(platform, root, selection, asked, paths, seen, step),
    ensures
        step is CreateRoot ==> seen.root_created is None,
        step is Lock ==> seen.locked is None,
        step is Inspect ==> seen.existing is None,
        step is ClearStaging ==> seen.staging_cleared is None,
        step is ClearArchive ==> seen.archive_cleared is None,
        step is Fetch ==> seen.fetched is None,
        step is CreateStaging ==> seen.staging_created is None,
        step is ExtractHost ==> seen.host_extracted is None,
        step is DropArchive ==> seen.archive_dropped is None,
        step is ExtractComponents ==> seen.api is None,
        step is Invalidate ==> seen.invalidated is None,
        step is ClearBase ==> seen.base_cleared is None,
        step is CreateBase ==> seen.base_created is None,
        step is Move ==> seen.moved is None,
        step is Mark ==> seen.marked is None,
        step is CleanUp ==> !seen.cleaned,
{
}

} // verus!
