//! Taking the components to install out of an SDK archive.

use crate::ordered::StringSet;
use crate::path::{
    join as join_path, joined_path, last_name, name_at, path_parts, split_path, Platform,
};
use crate::sdk::components::{wants, Components};
use crate::sdk::release::Selection;
use crate::sort::{first_index, lemma_filter_last, lemma_first_index, stably_sorted};
use crate::text::{
    cat2, cat4, cat7, chars_of, ends_with, equal, join, joined, less, lex_less, opt_text,
    pieces, split, texts, Class,
};
use vstd::prelude::*;

verus! {

/// Whether a file name has the extension `zip`.
pub open spec fn is_zip(name: Seq<char>) -> bool {
    name.len() > 4 && ".zip"@.is_suffix_of(name)
}

/// The directory a component archive sits in; none if `path` is not such an archive.
pub open spec fn host_of(platform: Platform, path: Seq<char>) -> Option<Seq<char>> {
    let parts = path_parts(platform, path);
    match last_name(parts) {
        Some(name) => if is_zip(name) {
            last_name(parts.drop_last())
        } else {
            None
        },
        None => None,
    }
}

/// The component an archive holds: its file name up to the first `-`.
pub open spec fn component_of(platform: Platform, path: Seq<char>) -> Option<Seq<char>> {
    match last_name(path_parts(platform, path)) {
        Some(name) => Some(pieces(name, Class::Is('-'))[0]),
        None => None,
    }
}

fn has_zip_extension(name: &str) -> (res: bool)
    ensures
        res == is_zip(name@),
{
    chars_of(name).len() > 4 && ends_with(name, ".zip")
}

/// The directory a component archive sits in, for example `linux` for
/// `ohos-sdk/linux/native-linux-x64-6.0.0.48-Release.zip`. Its depth in the archive differs between
/// releases and hosts, its name does not.
pub fn component_host(platform: Platform, path: &str) -> (res: Option<String>)
    ensures
        opt_text(res) == host_of(platform, path@),
{
    let parts = split_path(platform, path);
    proof {
        assert(texts(parts@).take(parts.len() as int) =~= texts(parts@));
    }
    match name_at(&parts, parts.len()) {
        Some(name) => if has_zip_extension(name.as_str()) {
            proof {
                assert(texts(parts@).take(parts.len() - 1) =~= texts(parts@).drop_last());
            }
            name_at(&parts, parts.len() - 1)
        } else {
            None
        },
        None => None,
    }
}

/// The component an archive holds, for example `native` for `native-linux-x64-6.0.0.48-Release.zip`.
pub fn component_name(platform: Platform, path: &str) -> (res: Option<String>)
    ensures
        opt_text(res) == component_of(platform, path@),
{
    let parts = split_path(platform, path);
    proof {
        assert(texts(parts@).take(parts.len() as int) =~= texts(parts@));
    }
    match name_at(&parts, parts.len()) {
        Some(name) => {
            let cut = split(name.as_str(), Class::Is('-'));
            proof {
                assert(texts(cut@).len() > 0);
                assert(texts(cut@)[0] == cut@[0]@);
            }
            Some(cut[0].clone())
        },
        None => None,
    }
}

/// What has been found in an archive so far.
pub struct HostFilter {
    /// The hosts it has component archives for.
    pub hosts: StringSet,
    /// The components it has for the host to install for.
    pub available: StringSet,
}

/// Whether a path of the archive is unpacked: it is a component archive of the host and holds a
/// component that is wanted.
pub open spec fn is_unpacked(
    platform: Platform,
    path: Seq<char>,
    os_dir: Seq<char>,
    components: Option<Set<Seq<char>>>,
) -> bool {
    host_of(platform, path) == Some(os_dir) && component_of(platform, path) is Some && wants(
        components,
        component_of(platform, path)->Some_0,
    )
}

/// How the archive is reported to lack what was asked for; none if it does not.
pub open spec fn missing_message(
    filter: HostFilter,
    selection: Selection,
    components: Components,
) -> Option<Seq<char>> {
    let os_dir = selection.os_dir_name@;
    if !filter.hosts@.contains(os_dir) {
        Some(
            "the archive of release `v"@ + selection.version@
                + "` has no OpenHarmony SDK components for host `"@ + os_dir + "` (it has: "@ + joined(
                filter.hosts.members(),
                ", "@,
            ) + ")"@,
        )
    } else {
        match components {
            Components::Only(names) => {
                let available = filter.available@;
                let missing = names.members().filter(|name: Seq<char>| !available.contains(name));
                if names@.subset_of(available) {
                    None
                } else {
                    Some(
                        "release `v"@ + selection.version@ + "` has no SDK component `"@ + joined(
                            missing,
                            "`, `"@,
                        ) + "` for host `"@ + os_dir + "` (it has: "@ + joined(
                            filter.available.members(),
                            ", "@,
                        ) + ")"@,
                    )
                }
            },
            Components::All => None,
        }
    }
}

impl HostFilter {
    pub fn new() -> (res: Self)
        ensures
            res.hosts@ == Set::<Seq<char>>::empty(),
            res.available@ == Set::<Seq<char>>::empty(),
    {
        HostFilter { hosts: StringSet::new(), available: StringSet::new() }
    }

    /// Looks at the next path of the archive; the result tells whether to unpack it.
    pub fn accept(
        &mut self,
        platform: Platform,
        path: &str,
        os_dir_name: &str,
        components: &Components,
    ) -> (res: bool)
        ensures
            res == is_unpacked(platform, path@, os_dir_name@, components@),
            final(self).hosts@ == match host_of(platform, path@) {
                Some(host) => old(self).hosts@.insert(host),
                None => old(self).hosts@,
            },
            final(self).available@ == if host_of(platform, path@) == Some(os_dir_name@)
                && component_of(platform, path@) is Some {
                old(self).available@.insert(component_of(platform, path@)->Some_0)
            } else {
                old(self).available@
            },
            res ==> final(self).hosts@.contains(os_dir_name@),
            res ==> exists|name: Seq<char>| #[trigger]
                final(self).available@.contains(name) && wants(components@, name),
            old(self).hosts@.subset_of(final(self).hosts@),
            old(self).available@.subset_of(final(self).available@),
    {
        let host = match component_host(platform, path) {
            Some(host) => host,
            None => return false,
        };
        let same = equal(host.as_str(), os_dir_name);
        self.hosts.insert(host);
        if !same {
            return false;
        }
        match component_name(platform, path) {
            Some(name) => {
                let wanted = components.includes(name.as_str());
                let ghost held = name@;
                self.available.insert(name);
                proof {
                    assert(self.available@.contains(held));
                }
                wanted
            },
            None => false,
        }
    }

    /// Whether the archive had what was asked for.
    pub fn finish(&self, selection: &Selection, components: &Components) -> (res: Result<(), String>)
        ensures
            match res {
                Ok(()) => missing_message(*self, *selection, *components) is None,
                Err(message) => missing_message(*self, *selection, *components) == Some(message@),
            },
    {
        let os_dir = selection.os_dir_name;
        if !self.hosts.contains(os_dir) {
            return Err(
                cat7(
                    "the archive of release `v",
                    selection.version.as_str(),
                    "` has no OpenHarmony SDK components for host `",
                    os_dir,
                    "` (it has: ",
                    join(&self.hosts.to_vec(), ", ").as_str(),
                    ")",
                ),
            );
        }
        if let Components::Only(names) = components {
            let missing = names.difference(&self.available);
            if missing.len() > 0 {
                let mut message = cat7(
                    "release `v",
                    selection.version.as_str(),
                    "` has no SDK component `",
                    join(&missing, "`, `").as_str(),
                    "` for host `",
                    os_dir,
                    "` (it has: ",
                );
                message.append(join(&self.available.to_vec(), ", ").as_str());
                message.append(")");
                return Err(message);
            }
        }
        Ok(())
    }
}

/// The hosts the given paths have component archives for.
pub open spec fn hosts_in(platform: Platform, paths: Seq<Seq<char>>) -> Set<Seq<char>>
    decreases paths.len(),
{
    if paths.len() == 0 {
        Set::empty()
    } else {
        match host_of(platform, paths.last()) {
            Some(host) => hosts_in(platform, paths.drop_last()).insert(host),
            None => hosts_in(platform, paths.drop_last()),
        }
    }
}

/// The components the given paths hold for a host.
pub open spec fn components_in(
    platform: Platform,
    paths: Seq<Seq<char>>,
    os_dir: Seq<char>,
) -> Set<Seq<char>>
    decreases paths.len(),
{
    if paths.len() == 0 {
        Set::empty()
    } else if host_of(platform, paths.last()) == Some(os_dir) && component_of(
        platform,
        paths.last(),
    ) is Some {
        components_in(platform, paths.drop_last(), os_dir).insert(
            component_of(platform, paths.last())->Some_0,
        )
    } else {
        components_in(platform, paths.drop_last(), os_dir)
    }
}

proof fn lemma_found_component(
    platform: Platform,
    paths: Seq<Seq<char>>,
    os_dir: Seq<char>,
    name: Seq<char>,
)
    requires
        components_in(platform, paths, os_dir).contains(name),
    ensures
        exists|i: int|
            0 <= i < paths.len() && host_of(platform, #[trigger] paths[i]) == Some(os_dir) && component_of(
                platform,
                paths[i],
            ) == Some(name),
    decreases paths.len(),
{
    let last = paths.len() - 1;
    if host_of(platform, paths[last]) == Some(os_dir) && component_of(platform, paths[last]) == Some(name) {
    } else {
        let front = paths.drop_last();
        lemma_found_component(platform, front, os_dir, name);
        let i = choose|i: int|
            0 <= i < front.len() && host_of(platform, #[trigger] front[i]) == Some(os_dir) && component_of(
                platform,
                front[i],
            ) == Some(name);
        assert(paths[i] == front[i]);
    }
}

/// An archive that passes had every component asked for by name, and unpacked it: a filter that looked
/// at the paths of an archive lets it pass only if each of those components is in one of them.
pub proof fn law_passed_archives_had_what_was_asked(
    platform: Platform,
    filter: HostFilter,
    selection: Selection,
    components: Components,
    paths: Seq<Seq<char>>,
    name: Seq<char>,
)
    requires
        filter.available@ == components_in(platform, paths, selection.os_dir_name@),
        missing_message(filter, selection, components) is None,
        components@ matches Some(names) && names.contains(name),
    ensures
        exists|i: int|
            0 <= i < paths.len() && #[trigger] is_unpacked(
                platform,
                paths[i],
                selection.os_dir_name@,
                components@,
            ) && component_of(platform, paths[i]) == Some(name),
{
    lemma_found_component(platform, paths, selection.os_dir_name@, name);
    let i = choose|i: int|
        0 <= i < paths.len() && host_of(platform, #[trigger] paths[i]) == Some(selection.os_dir_name@)
            && component_of(platform, paths[i]) == Some(name);
    assert(is_unpacked(platform, paths[i], selection.os_dir_name@, components@));
}

/// An archive without anything for the host never passes.
pub proof fn law_foreign_archives_do_not_pass(
    platform: Platform,
    filter: HostFilter,
    selection: Selection,
    components: Components,
    paths: Seq<Seq<char>>,
)
    requires
        filter.hosts@ == hosts_in(platform, paths),
        forall|i: int| 0 <= i < paths.len() ==> host_of(platform, #[trigger] paths[i]) != Some(
            selection.os_dir_name@,
        ),
    ensures
        missing_message(filter, selection, components) is Some,
{
    lemma_no_host(platform, paths, selection.os_dir_name@);
}

proof fn lemma_no_host(platform: Platform, paths: Seq<Seq<char>>, os_dir: Seq<char>)
    requires
        forall|i: int| 0 <= i < paths.len() ==> host_of(platform, #[trigger] paths[i]) != Some(os_dir),
    ensures
        !hosts_in(platform, paths).contains(os_dir),
    decreases paths.len(),
{
    if paths.len() > 0 {
        let front = paths.drop_last();
        assert forall|i: int| 0 <= i < front.len() implies host_of(platform, #[trigger] front[i]) != Some(
            os_dir,
        ) by {
            assert(front[i] == paths[i]);
        }
        lemma_no_host(platform, front, os_dir);
        assert(host_of(platform, paths[paths.len() - 1]) != Some(os_dir));
    }
}

/// The order of file names.
pub open spec fn by_text() -> spec_fn(Seq<char>, Seq<char>) -> bool {
    |a: Seq<char>, b: Seq<char>| lex_less(a, b)
}

/// The component archives among the files of a directory, by name.
pub open spec fn component_archives(names: Seq<Seq<char>>) -> Seq<Seq<char>> {
    stably_sorted(names.filter(|name: Seq<char>| is_zip(name)), by_text())
}

fn insert_name(names: &mut Vec<String>, name: String)
    ensures
        texts(final(names)@) == texts(old(names)@).insert(
            first_index(texts(old(names)@), |y: Seq<char>| by_text()(name@, y)) as int,
            name@,
        ),
{
    let ghost before = texts(names@);
    let mut at: usize = 0;
    while at < names.len() && !less(name.as_str(), names[at].as_str())
        invariant
            at <= names.len(),
            before == texts(names@),
            forall|k: int| 0 <= k < at ==> !lex_less(name@, #[trigger] before[k]),
        decreases names.len() - at,
    {
        proof {
            assert(before[at as int] == names@[at as int]@);
        }
        at += 1;
    }
    proof {
        if at < names.len() {
            assert(before[at as int] == names@[at as int]@);
        }
        lemma_first_index(before, |y: Seq<char>| by_text()(name@, y), at as int);
    }
    names.insert(at, name);
    proof {
        assert(texts(names@) =~= before.insert(at as int, name@));
    }
}

/// The component archives among the files of a directory, by name.
pub fn zip_files(names: &Vec<String>) -> (res: Vec<String>)
    ensures
        texts(res@) == component_archives(texts(names@)),
{
    let ghost zip = |name: Seq<char>| is_zip(name);
    let ghost seqs = texts(names@);
    let mut res: Vec<String> = Vec::new();
    let mut i: usize = 0;
    proof {
        reveal(Seq::filter);
        assert(seqs.take(0).filter(zip) =~= seq![]);
        assert(texts(res@) =~= stably_sorted(seqs.take(0).filter(zip), by_text()));
    }
    while i < names.len()
        invariant
            i <= names.len(),
            seqs == texts(names@),
            zip == (|name: Seq<char>| is_zip(name)),
            texts(res@) == stably_sorted(seqs.take(i as int).filter(zip), by_text()),
        decreases names.len() - i,
    {
        proof {
            let kept = seqs.take(i + 1).filter(zip);
            assert(seqs.take(i + 1).drop_last() =~= seqs.take(i as int));
            assert(seqs.take(i + 1).last() == names@[i as int]@);
            lemma_filter_last(seqs.take(i + 1), zip);
            if zip(names@[i as int]@) {
                assert(kept.drop_last() =~= seqs.take(i as int).filter(zip));
            }
        }
        if has_zip_extension(names[i].as_str()) {
            insert_name(&mut res, names[i].clone());
        }
        i += 1;
    }
    proof {
        assert(seqs.take(i as int) =~= seqs);
    }
    res
}

/// Why an archive could not be unpacked.
pub enum UnpackError {
    Open(String),
    Read(String),
    Extract(String),
    Remove(String),
}

/// What was seen so far while unpacking component archives.
pub struct ExtractSeen {
    /// The names of the files in the directory.
    pub listed: Option<Result<Vec<String>, String>>,
    /// How many archives have been unpacked and removed.
    pub unpacked: usize,
    /// Why the next one could not be.
    pub failure: Option<UnpackError>,
    /// The API level that each entry of the directory declares after that.
    pub levels: Option<Result<Vec<Option<u32>>, String>>,
}

/// What to do next to unpack component archives.
pub enum ExtractStep {
    /// List the directory: `listed`.
    List(String),
    /// Unpack this archive into the directory it is in, and remove it: `unpacked` or `failure`.
    Unpack(String),
    /// Read the metadata in each entry of the directory: `levels`.
    ReadLevels(String),
    Done(Result<u32, String>),
}

pub open spec fn extract_fails(step: ExtractStep, message: Seq<char>) -> bool {
    step matches ExtractStep::Done(Err(error)) && error@ == message
}

/// How the failure to unpack `path` is reported.
pub open spec fn unpack_message(path: Seq<char>, failure: UnpackError) -> Seq<char> {
    match failure {
        UnpackError::Open(error) => "could not open "@ + path + ": "@ + error@,
        UnpackError::Read(error) => "could not read "@ + path + ": "@ + error@,
        UnpackError::Extract(error) => "could not extract "@ + path + ": "@ + error@,
        UnpackError::Remove(error) => "could not remove "@ + path + ": "@ + error@,
    }
}

/// The first level there is.
pub open spec fn first_level(levels: Seq<Option<u32>>) -> Option<u32> {
    let i = first_index(levels, |level: Option<u32>| level is Some) as int;
    if i < levels.len() {
        levels[i]
    } else {
        None
    }
}

/// The step that follows `seen`: every component archive is unpacked, and the API level is the first
/// one that the components declare.
pub open spec fn extract_step(
    platform: Platform,
    dir: Seq<char>,
    seen: ExtractSeen,
    step: ExtractStep,
) -> bool {
    match seen.listed {
        None => step matches ExtractStep::List(path) && path@ == dir,
        Some(Err(error)) => extract_fails(step, "could not inspect "@ + dir + ": "@ + error@),
        Some(Ok(names)) => {
            let archives = component_archives(texts(names@));
            if archives.len() == 0 {
                extract_fails(step, "no OpenHarmony SDK components found in "@ + dir)
            } else if seen.unpacked < archives.len() {
                let path = joined_path(platform, dir, archives[seen.unpacked as int]);
                match seen.failure {
                    None => step matches ExtractStep::Unpack(archive) && archive@ == path,
                    Some(failure) => extract_fails(step, unpack_message(path, failure)),
                }
            } else {
                match seen.levels {
                    None => step matches ExtractStep::ReadLevels(path) && path@ == dir,
                    Some(Err(error)) => extract_fails(
                        step,
                        "could not inspect "@ + dir + ": "@ + error@,
                    ),
                    Some(Ok(levels)) => match first_level(levels@) {
                        Some(level) => step matches ExtractStep::Done(Ok(found)) && found == level,
                        None => extract_fails(
                            step,
                            "could not determine the API version of the OpenHarmony SDK in "@ + dir,
                        ),
                    },
                }
            }
        },
    }
}

fn find_level(levels: &Vec<Option<u32>>) -> (res: Option<u32>)
    ensures
        res == first_level(levels@),
{
    let mut i: usize = 0;
    while i < levels.len() && levels[i].is_none()
        invariant
            i <= levels.len(),
            forall|k: int| 0 <= k < i ==> (#[trigger] levels@[k]) is None,
        decreases levels.len() - i,
    {
        i += 1;
    }
    proof {
        lemma_first_index(levels@, |level: Option<u32>| level is Some, i as int);
    }
    if i < levels.len() {
        levels[i]
    } else {
        None
    }
}

/// Unpack the component archives in `dir` in place, leaving just the components, and tell the API
/// level they provide: the step that follows what was seen so far.
pub fn extract_components(platform: Platform, dir: &str, seen: &ExtractSeen) -> (res: ExtractStep)
    ensures
        extract_step(platform, dir@, *seen, res),
{
    let names = match &seen.listed {
        None => return ExtractStep::List(dir.to_owned()),
        Some(Err(error)) => {
            return ExtractStep::Done(Err(cat4("could not inspect ", dir, ": ", error.as_str())));
        },
        Some(Ok(names)) => names,
    };
    let archives = zip_files(names);
    if archives.len() == 0 {
        return ExtractStep::Done(Err(cat2("no OpenHarmony SDK components found in ", dir)));
    }
    if seen.unpacked < archives.len() {
        proof {
            assert(texts(archives@)[seen.unpacked as int] == archives@[seen.unpacked as int]@);
        }
        let path = join_path(platform, dir, archives[seen.unpacked].as_str());
        let path_text = path.as_str();
        return match &seen.failure {
            None => ExtractStep::Unpack(path),
            Some(UnpackError::Open(error)) => ExtractStep::Done(
                Err(cat4("could not open ", path_text, ": ", error.as_str())),
            ),
            Some(UnpackError::Read(error)) => ExtractStep::Done(
                Err(cat4("could not read ", path_text, ": ", error.as_str())),
            ),
            Some(UnpackError::Extract(error)) => ExtractStep::Done(
                Err(cat4("could not extract ", path_text, ": ", error.as_str())),
            ),
            Some(UnpackError::Remove(error)) => ExtractStep::Done(
                Err(cat4("could not remove ", path_text, ": ", error.as_str())),
            ),
        };
    }
    match &seen.levels {
        None => ExtractStep::ReadLevels(dir.to_owned()),
        Some(Err(error)) => ExtractStep::Done(
            Err(cat4("could not inspect ", dir, ": ", error.as_str())),
        ),
        Some(Ok(levels)) => match find_level(levels) {
            Some(level) => ExtractStep::Done(Ok(level)),
            None => ExtractStep::Done(
                Err(cat2("could not determine the API version of the OpenHarmony SDK in ", dir)),
            ),
        },
    }
}

} // verus!
