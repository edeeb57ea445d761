//! Releases on GitHub: choosing one, checking what was downloaded, and where it is cached.

use crate::digest::{
    absorbed, hasher_finalize, hasher_new, hasher_update, hex, hex_of, sha256_of, sha256_text, Hasher,
};
use crate::ordered::StringMap;
use crate::sort::{
    first_index, is_strict_weak_order, law_sorting_is_stable, law_sorting_orders,
    lemma_filter_last, lemma_first_index, lemma_first_index_bounds, stably_sorted,
};
use crate::path::{
    absolute, is_absolute, is_name, is_part, is_separator, is_verbatim, join, join2,
    joined_path, path_parts, prefix_len, separator_of, separators_of, walked, Platform,
};
use crate::text::{
    after_prefix, cat2, cat4, cat6, chars_of, copy_of, decimal, decimal_string, equal, first_in,
    is_alphanumeric, joined, lemma_first_in, opt_text, parse_plain_number, pieces, plain_number,
    split, starts_with, strip_prefix, text_pairs, texts, Class,
};
use vstd::prelude::*;

pub use crate::digest::parse_sha256;

verus! {

/// The file whose presence marks an install as complete.
pub const COMPLETE_MARKER: &'static str = ".cargo-ohos-complete";

/// How long release metadata is taken from the cache without asking again.
pub const RELEASE_CACHE_TTL_SECONDS: u64 = 3600;

#[derive(Debug)]
pub struct Asset {
    pub name: String,
    pub browser_download_url: String,
    pub digest: Option<String>,
    pub size: u64,
}

#[derive(Debug)]
pub struct Release {
    pub tag_name: String,
    pub draft: bool,
    /// The release notes.
    pub body: Option<String>,
    pub assets: Vec<Asset>,
}

impl Clone for Asset {
    fn clone(&self) -> (res: Self)
        ensures
            res == *self,
    {
        Asset {
            name: self.name.clone(),
            browser_download_url: self.browser_download_url.clone(),
            digest: copy_of(&self.digest),
            size: self.size,
        }
    }
}

/// A copy of the list.
pub fn asset_copies(assets: &Vec<Asset>) -> (res: Vec<Asset>)
    ensures
        res@ == assets@,
{
    let mut res: Vec<Asset> = Vec::new();
    let mut i: usize = 0;
    while i < assets.len()
        invariant
            i <= assets.len(),
            res@ == assets@.take(i as int),
        decreases assets.len() - i,
    {
        res.push(assets[i].clone());
        proof {
            assert(assets@.take(i + 1) =~= assets@.take(i as int).push(assets@[i as int]));
        }
        i += 1;
    }
    proof {
        assert(assets@.take(i as int) =~= assets@);
    }
    res
}

/// The numbers at the start of `parts`, up to the first part that is not a plain number.
pub open spec fn leading_numbers(parts: Seq<Seq<char>>) -> Seq<u64>
    decreases parts.len(),
{
    if parts.len() == 0 {
        seq![]
    } else {
        match plain_number(parts[0]) {
            Some(n) => seq![n] + leading_numbers(parts.drop_first()),
            None => seq![],
        }
    }
}

/// What a version is ordered by: its leading numeric components.
pub open spec fn version_key_of(version: Seq<char>) -> Seq<u64> {
    leading_numbers(pieces(version, Class::VersionSeparator))
}

/// The order of version keys: by the first component in which they differ, a prefix first.
pub open spec fn key_less(a: Seq<u64>, b: Seq<u64>) -> bool
    decreases a.len(),
{
    if b.len() == 0 {
        false
    } else if a.len() == 0 {
        true
    } else if a[0] != b[0] {
        a[0] < b[0]
    } else {
        key_less(a.drop_first(), b.drop_first())
    }
}

/// The order in which releases are told apart: `6.0.1.112` is newer than `6.0` and older than
/// `6.1`. A component that is not a number ends the key.
pub fn version_key(version: &str) -> (res: Vec<u64>)
    ensures
        res@ == version_key_of(version@),
{
    let parts = split(version, Class::VersionSeparator);
    let mut res: Vec<u64> = Vec::new();
    let mut i: usize = 0;
    proof {
        assert(texts(parts@).skip(0) =~= texts(parts@));
    }
    while i < parts.len()
        invariant
            i <= parts.len(),
            version_key_of(version@) == res@ + leading_numbers(texts(parts@).skip(i as int)),
        decreases parts.len() - i,
    {
        let ghost rest = texts(parts@).skip(i as int);
        proof {
            assert(rest[0] == parts@[i as int]@);
            assert(rest.drop_first() =~= texts(parts@).skip(i + 1));
        }
        match parse_plain_number(parts[i].as_str()) {
            Some(n) => {
                let ghost before = res@;
                res.push(n);
                proof {
                    assert(before + (seq![n] + leading_numbers(rest.drop_first())) =~= res@
                        + leading_numbers(rest.drop_first()));
                }
            },
            None => {
                proof {
                    assert(res@ + leading_numbers(rest) =~= res@);
                }
                return res;
            },
        }
        i += 1;
    }
    proof {
        assert(texts(parts@).skip(i as int).len() == 0);
        assert(res@ + leading_numbers(texts(parts@).skip(i as int)) =~= res@);
    }
    res
}

/// Whether version key `a` is older than `b`.
pub fn key_is_less(a: &Vec<u64>, b: &Vec<u64>) -> (res: bool)
    ensures
        res == key_less(a@, b@),
{
    let mut i: usize = 0;
    proof {
        assert(a@.skip(0) =~= a@);
        assert(b@.skip(0) =~= b@);
    }
    while i < a.len() && i < b.len() && a[i] == b[i]
        invariant
            i <= a.len(),
            i <= b.len(),
            key_less(a@, b@) == key_less(a@.skip(i as int), b@.skip(i as int)),
        decreases a.len() - i,
    {
        proof {
            assert(a@.skip(i as int).drop_first() =~= a@.skip(i + 1));
            assert(b@.skip(i as int).drop_first() =~= b@.skip(i + 1));
        }
        i += 1;
    }
    if i >= b.len() {
        false
    } else if i >= a.len() {
        true
    } else {
        a[i] < b[i]
    }
}

pub proof fn lemma_key_less_irreflexive(a: Seq<u64>)
    ensures
        !key_less(a, a),
    decreases a.len(),
{
    if a.len() > 0 {
        lemma_key_less_irreflexive(a.drop_first());
    }
}

pub proof fn lemma_key_less_transitive(a: Seq<u64>, b: Seq<u64>, c: Seq<u64>)
    requires
        !key_less(a, b),
        !key_less(b, c),
    ensures
        !key_less(a, c),
    decreases c.len(),
{
    if a.len() > 0 && b.len() > 0 && c.len() > 0 && a[0] == b[0] && b[0] == c[0] {
        lemma_key_less_transitive(a.drop_first(), b.drop_first(), c.drop_first());
    }
}

pub proof fn lemma_key_less_asymmetric(a: Seq<u64>, b: Seq<u64>)
    requires
        key_less(a, b),
    ensures
        !key_less(b, a),
    decreases a.len(),
{
    if a.len() > 0 && b.len() > 0 && a[0] == b[0] {
        lemma_key_less_asymmetric(a.drop_first(), b.drop_first());
    }
}

/// Whether the release takes part: it is published and its tag starts with `tag_prefix`.
pub open spec fn publishes(release: Release, tag_prefix: Seq<char>) -> bool {
    !release.draft && tag_prefix.is_prefix_of(release.tag_name@)
}

/// The version a release publishes: its tag without the prefix.
pub open spec fn version_of(release: Release, tag_prefix: Seq<char>) -> Seq<char> {
    release.tag_name@.skip(tag_prefix.len() as int)
}

pub open spec fn release_key(release: Release, tag_prefix: Seq<char>) -> Seq<u64> {
    version_key_of(version_of(release, tag_prefix))
}

/// The order in which releases are listed: the newer version first.
pub open spec fn newer(tag_prefix: Seq<char>) -> spec_fn(Release, Release) -> bool {
    |a: Release, b: Release| key_less(release_key(b, tag_prefix), release_key(a, tag_prefix))
}

/// The releases ordered from the newest version to the oldest. Equal versions keep their order.
pub open spec fn newest_first(list: Seq<Release>, tag_prefix: Seq<char>) -> Seq<Release> {
    stably_sorted(list, newer(tag_prefix))
}

/// The published releases under `tag_prefix`, newest first.
pub open spec fn published(releases: Seq<Release>, tag_prefix: Seq<char>) -> Seq<Release> {
    newest_first(releases.filter(|r: Release| publishes(r, tag_prefix)), tag_prefix)
}

/// The releases without the versions paired with them.
pub open spec fn releases_in(pairs: Seq<(Release, String)>) -> Seq<Release> {
    pairs.map_values(|pair: (Release, String)| pair.0)
}

/// Whether every release is paired with its version.
pub open spec fn versions_match(pairs: Seq<(Release, String)>, tag_prefix: Seq<char>) -> bool {
    forall|i: int|
        0 <= i < pairs.len() ==> (#[trigger] pairs[i]).1@ == version_of(pairs[i].0, tag_prefix)
}

/// The non-draft releases whose tag starts with `tag_prefix`, each with its version (the tag with
/// the prefix removed), newest first.
pub fn versions(releases: Vec<Release>, tag_prefix: &str) -> (res: Vec<(Release, String)>)
    ensures
        releases_in(res@) == published(releases@, tag_prefix@),
        versions_match(res@, tag_prefix@),
{
    broadcast use vstd::seq_lib::group_filter_ensures;

    let ghost all = releases@;
    let ghost takes_part = |r: Release| publishes(r, tag_prefix@);
    proof {
        assert(all.take(0) =~= seq![]);
        assert(all.take(0).filter(takes_part) =~= seq![]);
    }
    let mut res: Vec<(Release, String)> = Vec::new();
    let mut keys: Vec<Vec<u64>> = Vec::new();
    let mut rest = releases;
    let ghost mut n: int = 0;
    while rest.len() > 0
        invariant
            0 <= n <= all.len(),
            all.skip(n) == rest@,
            takes_part == (|r: Release| publishes(r, tag_prefix@)),
            releases_in(res@) == newest_first(all.take(n).filter(takes_part), tag_prefix@),
            versions_match(res@, tag_prefix@),
            keys.len() == res.len(),
            forall|i: int|
                0 <= i < keys.len() ==> (#[trigger] keys@[i])@ == release_key(res@[i].0, tag_prefix@),
        decreases rest.len(),
    {
        let release = rest.remove(0);
        proof {
            assert(all[n] == release);
            assert(all.skip(n + 1) =~= rest@);
            assert(all.take(n + 1).drop_last() =~= all.take(n));
            assert(all.take(n + 1).last() == release);
            lemma_filter_last(all.take(n + 1), takes_part);
        }
        let version = strip_prefix(release.tag_name.as_str(), tag_prefix);
        match version {
            Some(version) if !release.draft => {
                let key = version_key(version.as_str());
                let mut at: usize = 0;
                while at < keys.len() && !key_is_less(&keys[at], &key)
                    invariant
                        at <= keys.len(),
                        keys.len() == res.len(),
                        forall|i: int|
                            0 <= i < keys.len() ==> (#[trigger] keys@[i])@ == release_key(
                                res@[i].0,
                                tag_prefix@,
                            ),
                        forall|i: int|
                            0 <= i < at ==> !key_less((#[trigger] keys@[i])@, key@),
                    decreases keys.len() - at,
                {
                    at += 1;
                }
                proof {
                    let front = releases_in(res@);
                    assert(version@ == version_of(release, tag_prefix@));
                    let later = |y: Release| newer(tag_prefix@)(release, y);
                    assert forall|i: int| 0 <= i < at implies !later(#[trigger] front[i]) by {
                        assert(keys@[i]@ == release_key(res@[i].0, tag_prefix@));
                    }
                    if at < keys.len() {
                        assert(keys@[at as int]@ == release_key(res@[at as int].0, tag_prefix@));
                    }
                    lemma_first_index(front, later, at as int);
                    let part = all.take(n + 1).filter(takes_part);
                    assert(part.drop_last() =~= all.take(n).filter(takes_part));
                    assert(part.last() == release);
                    assert(newest_first(part, tag_prefix@) == front.insert(at as int, release));
                    assert(releases_in(res@.insert(at as int, (release, version)))
                        =~= front.insert(at as int, release));
                }
                keys.insert(at, key);
                res.insert(at, (release, version));
            },
            _ => {
                proof {
                    assert(!takes_part(release));
                }
            },
        }
        proof {
            n = n + 1;
        }
    }
    proof {
        assert(all.skip(n).len() == 0);
        assert(all.take(n) =~= all);
    }
    res
}

proof fn lemma_newer_is_an_order(tag_prefix: Seq<char>)
    ensures
        is_strict_weak_order(newer(tag_prefix)),
{
    let less = newer(tag_prefix);
    assert forall|a: Release, b: Release| #[trigger] less(a, b) implies !less(b, a) by {
        lemma_key_less_asymmetric(release_key(b, tag_prefix), release_key(a, tag_prefix));
    }
    assert forall|a: Release, b: Release, c: Release|
        #![trigger less(a, b), less(b, c)]
        !less(a, b) && !less(b, c) implies !less(a, c) by {
        lemma_key_less_transitive(
            release_key(c, tag_prefix),
            release_key(b, tag_prefix),
            release_key(a, tag_prefix),
        );
    }
}

/// Releases ordered from the newest to the oldest.
pub open spec fn is_newest_first(list: Seq<Release>, tag_prefix: Seq<char>) -> bool {
    forall|i: int, j: int|
        0 <= i < j < list.len() ==> !key_less(
            #[trigger] release_key(list[i], tag_prefix),
            #[trigger] release_key(list[j], tag_prefix),
        )
}

/// Ordering releases leaves none out, invents none, and puts no release behind an older one.
pub proof fn law_newest_first_sorts(list: Seq<Release>, tag_prefix: Seq<char>)
    ensures
        is_newest_first(newest_first(list, tag_prefix), tag_prefix),
        newest_first(list, tag_prefix).to_multiset() == list.to_multiset(),
        newest_first(list, tag_prefix).len() == list.len(),
{
    lemma_newer_is_an_order(tag_prefix);
    law_sorting_orders(list, newer(tag_prefix));
    let all = newest_first(list, tag_prefix);
    assert forall|i: int, j: int| 0 <= i < j < all.len() implies !key_less(
        #[trigger] release_key(all[i], tag_prefix),
        #[trigger] release_key(all[j], tag_prefix),
    ) by {
        assert(!newer(tag_prefix)(all[j], all[i]));
    }
}

/// Releases of one version stay in the order in which they are listed.
pub proof fn law_newest_first_is_stable(list: Seq<Release>, tag_prefix: Seq<char>, key: Seq<u64>)
    ensures
        newest_first(list, tag_prefix).filter(|r: Release| release_key(r, tag_prefix) == key)
            == list.filter(|r: Release| release_key(r, tag_prefix) == key),
{
    lemma_newer_is_an_order(tag_prefix);
    lemma_key_less_irreflexive(key);
    law_sorting_is_stable(
        list,
        newer(tag_prefix),
        |r: Release| release_key(r, tag_prefix) == key,
    );
}

/// Whether `candidate` equals `requested` or continues it at a component boundary.
pub open spec fn matches_version(requested: Seq<char>, candidate: Seq<char>) -> bool {
    ||| candidate == requested
    ||| requested.is_prefix_of(candidate) && candidate.len() > requested.len() && (
    candidate[requested.len() as int] == '.' || candidate[requested.len() as int] == '-')
}

/// The release that `requested` stands for among `list`: the first of exactly that version, or else
/// the first whose version continues it.
pub open spec fn chosen(list: Seq<Release>, tag_prefix: Seq<char>, requested: Seq<char>) -> Option<
    Release,
> {
    let exact = first_index(list, |r: Release| version_of(r, tag_prefix) == requested) as int;
    let prefix = first_index(
        list,
        |r: Release| matches_version(requested, version_of(r, tag_prefix)),
    ) as int;
    if exact < list.len() {
        Some(list[exact])
    } else if prefix < list.len() {
        Some(list[prefix])
    } else {
        None
    }
}

/// Whether `candidate` is equal to `requested` or has `requested` as a component-prefix (the
/// following character is `.` or `-`).
pub fn version_matches(requested: &str, candidate: &str) -> (res: bool)
    ensures
        res == matches_version(requested@, candidate@),
{
    let r = chars_of(requested);
    let c = chars_of(candidate);
    if !starts_with(candidate, requested) {
        return false;
    }
    if r.len() == c.len() {
        proof {
            assert(requested@ =~= candidate@);
        }
        return true;
    }
    c[r.len()] == '.' || c[r.len()] == '-'
}

/// The newest non-draft release whose version (the tag with `tag_prefix` removed) matches
/// `requested`, together with that version. An exact match wins over a prefix match regardless of
/// order, so a release like `v6.0` stays reachable next to the newer `v6.0.0.1`.
pub fn select_release(releases: Vec<Release>, tag_prefix: &str, requested: &str) -> (res: Option<
    (Release, String),
>)
    ensures
        match res {
            Some((release, version)) => {
                &&& chosen(published(releases@, tag_prefix@), tag_prefix@, requested@) == Some(release)
                &&& version@ == version_of(release, tag_prefix@)
            },
            None => chosen(published(releases@, tag_prefix@), tag_prefix@, requested@) is None,
        },
{
    let mut all = versions(releases, tag_prefix);
    let ghost list = releases_in(all@);
    let ghost exact = |r: Release| version_of(r, tag_prefix@) == requested@;
    let ghost prefix = |r: Release| matches_version(requested@, version_of(r, tag_prefix@));
    let mut i: usize = 0;
    while i < all.len() && !equal(all[i].1.as_str(), requested)
        invariant
            i <= all.len(),
            list == releases_in(all@),
            versions_match(all@, tag_prefix@),
            exact == (|r: Release| version_of(r, tag_prefix@) == requested@),
            forall|k: int| 0 <= k < i ==> !exact(#[trigger] list[k]),
        decreases all.len() - i,
    {
        proof {
            assert(list[i as int] == all@[i as int].0);
        }
        i += 1;
    }
    proof {
        if i < all.len() {
            assert(list[i as int] == all@[i as int].0);
        }
        lemma_first_index(list, exact, i as int);
    }
    if i < all.len() {
        return Some(all.remove(i));
    }
    let mut j: usize = 0;
    while j < all.len() && !version_matches(requested, all[j].1.as_str())
        invariant
            j <= all.len(),
            list == releases_in(all@),
            versions_match(all@, tag_prefix@),
            prefix == (|r: Release| matches_version(requested@, version_of(r, tag_prefix@))),
            forall|k: int| 0 <= k < j ==> !prefix(#[trigger] list[k]),
        decreases all.len() - j,
    {
        proof {
            assert(list[j as int] == all@[j as int].0);
        }
        j += 1;
    }
    proof {
        if j < all.len() {
            assert(list[j as int] == all@[j as int].0);
        }
        lemma_first_index(list, prefix, j as int);
    }
    if j < all.len() {
        Some(all.remove(j))
    } else {
        None
    }
}

/// A selected release is one of those given, is published, and matches what was asked for. If any
/// published release has exactly the requested version, so has the selected one; otherwise no
/// matching release is newer.
pub proof fn law_selected_release(releases: Seq<Release>, tag_prefix: Seq<char>, requested: Seq<char>)
    ensures
        match chosen(published(releases, tag_prefix), tag_prefix, requested) {
            Some(release) => {
                &&& releases.contains(release)
                &&& publishes(release, tag_prefix)
                &&& matches_version(requested, version_of(release, tag_prefix))
                &&& (exists|r: Release| #[trigger]
                    releases.contains(r) && publishes(r, tag_prefix) && version_of(r, tag_prefix)
                        == requested) ==> version_of(release, tag_prefix) == requested
                &&& version_of(release, tag_prefix) != requested ==> forall|r: Release| #[trigger]
                    releases.contains(r) && publishes(r, tag_prefix) && matches_version(
                        requested,
                        version_of(r, tag_prefix),
                    ) ==> !key_less(release_key(release, tag_prefix), release_key(r, tag_prefix))
            },
            None => forall|r: Release| #[trigger]
                releases.contains(r) && publishes(r, tag_prefix) ==> !matches_version(
                    requested,
                    version_of(r, tag_prefix),
                ),
        },
{
    broadcast use vstd::seq_lib::group_filter_ensures;

    let takes_part = |r: Release| publishes(r, tag_prefix);
    let kept = releases.filter(takes_part);
    let list = published(releases, tag_prefix);
    let exact = |r: Release| version_of(r, tag_prefix) == requested;
    let prefix = |r: Release| matches_version(requested, version_of(r, tag_prefix));
    law_newest_first_sorts(kept, tag_prefix);
    lemma_first_index_bounds(list, exact);
    lemma_first_index_bounds(list, prefix);
    assert forall|r: Release| list.contains(r) == kept.contains(r) by {
        broadcast use vstd::seq_lib::group_to_multiset_ensures;

        assert(list.contains(r) <==> list.to_multiset().count(r) > 0);
        assert(kept.contains(r) <==> kept.to_multiset().count(r) > 0);
    }
    assert forall|r: Release| kept.contains(r) implies releases.contains(r) && publishes(
        r,
        tag_prefix,
    ) by {
        releases.lemma_filter_contains_rev(takes_part, r);
    }
    assert forall|r: Release|
        releases.contains(r) && publishes(r, tag_prefix) implies list.contains(r) by {
        let i = choose|i: int| 0 <= i < releases.len() && releases[i] == r;
        assert(kept.contains(releases[i]));
    }
    match chosen(list, tag_prefix, requested) {
        Some(release) => {
            let at = if first_index(list, exact) < list.len() {
                first_index(list, exact) as int
            } else {
                first_index(list, prefix) as int
            };
            assert(release == list[at]);
            assert(list.contains(list[at]));
            assert forall|r: Release|
                list.contains(r) && matches_version(requested, version_of(r, tag_prefix))
                    && version_of(release, tag_prefix) != requested implies !key_less(
                release_key(release, tag_prefix),
                release_key(r, tag_prefix),
            ) by {
                let i = choose|i: int| 0 <= i < list.len() && list[i] == r;
                assert(prefix(list[i]));
                lemma_key_less_irreflexive(release_key(release, tag_prefix));
                if at < i {
                    assert(!key_less(
                        release_key(list[at], tag_prefix),
                        release_key(list[i], tag_prefix),
                    ));
                }
            }
            assert forall|r: Release|
                list.contains(r) && version_of(r, tag_prefix) == requested implies version_of(
                release,
                tag_prefix,
            ) == requested by {
                let i = choose|i: int| 0 <= i < list.len() && list[i] == r;
                assert(exact(list[i]));
            }
        },
        None => {
            assert forall|r: Release| list.contains(r) implies !matches_version(
                requested,
                version_of(r, tag_prefix),
            ) by {
                let i = choose|i: int| 0 <= i < list.len() && list[i] == r;
                assert(!prefix(list[i]));
            }
        },
    }
}

/// Whether `value` is a single path component of letters, digits, `.`, `-` and `_`.
pub open spec fn safe_component(value: Seq<char>) -> bool {
    value.len() > 0 && forall|i: int| 0 <= i < value.len() ==> safe_char(#[trigger] value[i])
}

pub open spec fn safe_char(c: char) -> bool {
    is_alphanumeric(c) || c == '.' || c == '-' || c == '_'
}

/// Whether `value` is safe to use as a path component (alphanumeric, `.`, `-`, `_`).
pub fn is_safe_component(value: &str) -> (res: bool)
    ensures
        res == safe_component(value@),
{
    let cs = chars_of(value);
    let mut i: usize = 0;
    while i < cs.len()
        invariant
            i <= cs.len(),
            cs@ == value@,
            forall|k: int| 0 <= k < i ==> safe_char(#[trigger] value@[k]),
        decreases cs.len() - i,
    {
        let c = cs[i];
        if !(crate::text::char_is_alphanumeric(c) || c == '.' || c == '-' || c == '_') {
            return false;
        }
        i += 1;
    }
    cs.len() > 0
}

/// A safe component is appended to the directory it is joined to, on every platform: it is neither
/// absolute nor holds a separator, so the result is the directory, at most a separator, and the
/// component. Below a directory that is taken to the letter its parts are spelled anew, and the
/// component is the last of them unless it leads nowhere or upwards.
pub proof fn law_safe_components_are_appended(
    platform: Platform,
    base: Seq<char>,
    component: Seq<char>,
)
    requires
        safe_component(component),
    ensures
        forall|i: int|
            0 <= i < component.len() ==> !is_separator(platform, #[trigger] component[i]),
        ({
            let whole = joined_path(platform, base, component);
            if is_verbatim(platform, base) {
                is_name(component) ==> whole == base.take(prefix_len(platform, base)) + "\\"@ + joined(
                    path_parts(platform, base).push(component),
                    "\\"@,
                )
            } else {
                whole == base + component || whole == base + separator_of(platform) + component
            }
        }),
{
    assert forall|i: int| 0 <= i < component.len() implies !is_separator(
        platform,
        #[trigger] component[i],
    ) by {
        assert(safe_char(component[i]));
    }
    assert(safe_char(component[0]));
    if component.len() > 1 {
        assert(safe_char(component[1]));
    }
    if is_verbatim(platform, base) && is_name(component) {
        reveal(crate::path::verbatim_joined);
        let class = separators_of(platform, component);
        lemma_first_in(component, class);
        assert(first_in(component, class) == component.len());
        assert(component.skip(0) =~= component);
        let cut = pieces(component, class);
        assert(cut =~= seq![component]);
        let says = is_part(false);
        lemma_filter_last(cut, says);
        reveal(Seq::filter);
        assert(cut.drop_last() =~= seq![]);
        assert(path_parts(platform, component) =~= seq![component]);
        reveal_with_fuel(walked, 2);
        assert(seq![component].drop_first() =~= seq![]);
    }
}

/// The digest an asset declares, if it is a well-formed SHA-256 one.
pub open spec fn digest_of(asset: Asset) -> Option<Seq<char>> {
    match opt_text(asset.digest) {
        Some(digest) => match after_prefix(digest, "sha256:"@) {
            Some(hex) => sha256_text(hex),
            None => None,
        },
        None => None,
    }
}

/// The asset's SHA-256 digest, if GitHub reports a well-formed one. Releases created before GitHub
/// added the field do not have it.
pub fn sha256_digest(asset: &Asset) -> (res: Option<String>)
    ensures
        opt_text(res) == digest_of(*asset),
{
    match &asset.digest {
        Some(digest) => match strip_prefix(digest.as_str(), "sha256:") {
            Some(hex) => parse_sha256(hex.as_str()),
            None => None,
        },
        None => None,
    }
}

/// Whether a resource exists, from the HTTP status the request for it was answered with: a missing
/// one is answered with 404, and every other error status is a failure of the request.
pub open spec fn exists_is(
    url: Seq<char>,
    response: Result<u16, String>,
    res: Result<bool, String>,
) -> bool {
    match response {
        Ok(status) => if status < 400 {
            res == Ok::<bool, String>(true)
        } else if status == 404 {
            res == Ok::<bool, String>(false)
        } else {
            res matches Err(message) && message@ == "request to "@ + url + " failed: http status: "@
                + decimal(status as nat)
        },
        Err(error) => res matches Err(message) && message@ == "request to "@ + url + " failed: "@
            + error@,
    }
}

/// Whether the resource at `url` exists; `response` is the status its request was answered with, or
/// why it was not answered.
pub fn resource_exists(url: &str, response: &Result<u16, String>) -> (res: Result<bool, String>)
    ensures
        exists_is(url@, *response, res),
{
    match response {
        Ok(status) => if *status < 400 {
            Ok(true)
        } else if *status == 404 {
            Ok(false)
        } else {
            Err(
                cat4(
                    "request to ",
                    url,
                    " failed: http status: ",
                    decimal_string(*status as u64).as_str(),
                ),
            )
        },
        Err(error) => Err(cat4("request to ", url, " failed: ", error.as_str())),
    }
}

/// The value of variable `name`, if it is an absolute path.
pub open spec fn absolute_env_path(
    platform: Platform,
    env: Map<Seq<char>, Seq<char>>,
    name: Seq<char>,
) -> Option<Seq<char>> {
    if env.contains_key(name) && absolute(platform, env[name]) {
        Some(env[name])
    } else {
        None
    }
}

/// The user's cache directory, if the environment names one.
pub open spec fn user_cache(platform: Platform, os: Seq<char>, env: Map<Seq<char>, Seq<char>>) -> Option<
    Seq<char>,
> {
    let home = absolute_env_path(platform, env, "HOME"@);
    let local = absolute_env_path(platform, env, "LOCALAPPDATA"@);
    match absolute_env_path(platform, env, "XDG_CACHE_HOME"@) {
        Some(path) => Some(path),
        None => if os == "windows"@ && local is Some {
            local
        } else if home is Some {
            Some(
                joined_path(
                    platform,
                    home->Some_0,
                    if os == "macos"@ {
                        "Library/Caches"@
                    } else {
                        ".cache"@
                    },
                ),
            )
        } else {
            None
        },
    }
}

/// The cache directory `subdir`: below the user's cache directory, or else in the project's own
/// target directory.
pub open spec fn cache_root_of(
    platform: Platform,
    subdir: Seq<char>,
    os: Seq<char>,
    env: Map<Seq<char>, Seq<char>>,
) -> Seq<char> {
    match user_cache(platform, os, env) {
        Some(base) => joined_path(platform, joined_path(platform, base, "cargo-ohos"@), subdir),
        None => joined_path(
            platform,
            if env.contains_key("CARGO_TARGET_DIR"@) {
                env["CARGO_TARGET_DIR"@]
            } else {
                "target"@
            },
            subdir,
        ),
    }
}

/// An absolute `XDG_CACHE_HOME` takes precedence on every platform, and a relative one is ignored.
pub proof fn law_cache_home_takes_precedence(
    platform: Platform,
    subdir: Seq<char>,
    os: Seq<char>,
    env: Map<Seq<char>, Seq<char>>,
)
    requires
        env.contains_key("XDG_CACHE_HOME"@),
    ensures
        absolute(platform, env["XDG_CACHE_HOME"@]) ==> cache_root_of(platform, subdir, os, env)
            == joined_path(
            platform,
            joined_path(platform, env["XDG_CACHE_HOME"@], "cargo-ohos"@),
            subdir,
        ),
        !absolute(platform, env["XDG_CACHE_HOME"@]) ==> cache_root_of(platform, subdir, os, env)
            == cache_root_of(platform, subdir, os, env.remove("XDG_CACHE_HOME"@)),
{
    reveal_strlit("XDG_CACHE_HOME");
    reveal_strlit("HOME");
    reveal_strlit("LOCALAPPDATA");
    reveal_strlit("CARGO_TARGET_DIR");
    assert("XDG_CACHE_HOME"@.len() == 14 && "HOME"@.len() == 4);
    assert("LOCALAPPDATA"@.len() == 12 && "CARGO_TARGET_DIR"@.len() == 16);
}

fn absolute_variable(platform: Platform, env: &StringMap, name: &str) -> (res: Option<String>)
    ensures
        opt_text(res) == absolute_env_path(platform, env@, name@),
{
    match env.get(name) {
        Some(path) => if is_absolute(platform, path.as_str()) {
            Some(path)
        } else {
            None
        },
        None => None,
    }
}

/// Where `subdir` is cached on `os`, given the environment. `platform` decides how paths are read
/// and joined.
pub fn cache_root_with(platform: Platform, subdir: &str, os: &str, env: &StringMap) -> (res: String)
    ensures
        res@ == cache_root_of(platform, subdir@, os@, env@),
{
    let base = match absolute_variable(platform, env, "XDG_CACHE_HOME") {
        Some(path) => Some(path),
        None => {
            let local = if equal(os, "windows") {
                absolute_variable(platform, env, "LOCALAPPDATA")
            } else {
                None
            };
            match local {
                Some(path) => Some(path),
                None => match absolute_variable(platform, env, "HOME") {
                    Some(home) => {
                        let below = if equal(os, "macos") {
                            "Library/Caches"
                        } else {
                            ".cache"
                        };
                        Some(join(platform, home.as_str(), below))
                    },
                    None => None,
                },
            }
        },
    };
    match base {
        Some(base) => join2(platform, base.as_str(), "cargo-ohos", subdir),
        None => {
            let target = match env.get("CARGO_TARGET_DIR") {
                Some(path) => path,
                None => "target".to_owned(),
            };
            join(platform, target.as_str(), subdir)
        },
    }
}

/// The headers a request carries. The token is only ever sent to the GitHub API.
pub open spec fn headers_of(url: Seq<char>, token: Option<Seq<char>>, version: Seq<char>) -> Seq<
    (Seq<char>, Seq<char>),
> {
    let common = seq![
        ("User-Agent"@, "cargo-ohos/"@ + version),
        ("Accept"@, "application/vnd.github+json"@),
        ("X-GitHub-Api-Version"@, "2022-11-28"@),
    ];
    match token {
        Some(token) => if token.len() > 0 && "https://api.github.com/"@.is_prefix_of(url) {
            common.push(("Authorization"@, "Bearer "@ + token))
        } else {
            common
        },
        None => common,
    }
}

/// The headers of a request for `url` by this version of the tool; `token` is the user's GitHub
/// token.
pub fn request_headers(url: &str, token: &Option<String>, version: &str) -> (res: Vec<
    (String, String),
>)
    ensures
        text_pairs(res@) == headers_of(url@, opt_text(*token), version@),
{
    let mut res: Vec<(String, String)> = Vec::new();
    res.push(("User-Agent".to_owned(), cat2("cargo-ohos/", version)));
    res.push(("Accept".to_owned(), "application/vnd.github+json".to_owned()));
    res.push(("X-GitHub-Api-Version".to_owned(), "2022-11-28".to_owned()));
    if let Some(token) = token {
        if !token.as_str().is_empty() && starts_with(url, "https://api.github.com/") {
            res.push(("Authorization".to_owned(), cat2("Bearer ", token.as_str())));
        }
    }
    proof {
        assert(text_pairs(res@) =~= headers_of(url@, opt_text(*token), version@));
    }
    res
}

/// A request to anything but the GitHub API carries the same headers whether or not the user has a
/// token: the token stays home.
pub proof fn law_token_only_goes_to_the_api(
    url: Seq<char>,
    token: Option<Seq<char>>,
    version: Seq<char>,
)
    requires
        !"https://api.github.com/"@.is_prefix_of(url),
    ensures
        headers_of(url, token, version) == headers_of(url, None, version),
{
}

/// Whether what was received is what was expected: it has that digest.
pub open spec fn arrived(received: Seq<u8>, expected: Seq<char>) -> bool {
    hex_of(sha256_of(received)) == expected
}

/// A download in progress. Several assets may be parts of one archive: their contents are received
/// one after the other, and the digest is that of the whole.
pub struct Transfer {
    hasher: Hasher,
}

/// The names of the assets.
pub open spec fn asset_names(assets: Seq<Asset>) -> Seq<Seq<char>> {
    assets.map_values(|asset: Asset| asset.name@)
}

impl Transfer {
    /// The bytes received so far.
    pub closed spec fn received(self) -> Seq<u8> {
        absorbed(self.hasher)
    }

    pub fn new() -> (res: Self)
        ensures
            res.received() == Seq::<u8>::empty(),
    {
        Transfer { hasher: hasher_new() }
    }

    /// Takes the next bytes, which have been written to the destination.
    pub fn receive(&mut self, bytes: &[u8])
        ensures
            final(self).received() == old(self).received() + bytes@,
    {
        hasher_update(&mut self.hasher, bytes);
    }

    /// Ends the transfer of `assets`: it succeeds exactly if the bytes received have the SHA-256
    /// digest `expected`.
    pub fn finish(self, assets: &Vec<Asset>, expected: &str) -> (res: Result<(), String>)
        ensures
            match res {
                Ok(()) => hex_of(sha256_of(self.received())) == expected@,
                Err(message) => {
                    let actual = hex_of(sha256_of(self.received()));
                    &&& actual != expected@
                    &&& message@ == "SHA-256 mismatch for `"@ + joined(
                        asset_names(assets@),
                        "` + `"@,
                    ) + "`: expected "@ + expected@ + ", got "@ + actual
                },
            },
            res is Ok <==> arrived(self.received(), expected@),
    {
        let actual = hex(&hasher_finalize(self.hasher));
        if equal(actual.as_str(), expected) {
            return Ok(());
        }
        let names = names_of(assets);
        Err(
            cat6(
                "SHA-256 mismatch for `",
                crate::text::join(&names, "` + `").as_str(),
                "`: expected ",
                expected,
                ", got ",
                actual.as_str(),
            ),
        )
    }
}

fn names_of(assets: &Vec<Asset>) -> (res: Vec<String>)
    ensures
        texts(res@) == asset_names(assets@),
{
    let mut res: Vec<String> = Vec::new();
    let mut i: usize = 0;
    while i < assets.len()
        invariant
            i <= assets.len(),
            res.len() == i,
            forall|k: int| 0 <= k < i ==> (#[trigger] res@[k])@ == assets@[k].name@,
        decreases assets.len() - i,
    {
        res.push(assets[i].name.clone());
        i += 1;
    }
    proof {
        assert(texts(res@) =~= asset_names(assets@));
    }
    res
}

/// Whether cached metadata of this age (seconds and nanoseconds) is still fresh; an age that could
/// not be told is not.
pub open spec fn fresh(age: Option<(u64, u32)>) -> bool {
    age matches Some((seconds, nanos)) && (seconds < RELEASE_CACHE_TTL_SECONDS || seconds
        == RELEASE_CACHE_TTL_SECONDS && nanos == 0)
}

pub fn cache_is_fresh(age: Option<(u64, u32)>) -> (res: bool)
    ensures
        res == fresh(age),
{
    match age {
        Some((seconds, nanos)) => seconds < RELEASE_CACHE_TTL_SECONDS || (seconds
            == RELEASE_CACHE_TTL_SECONDS && nanos == 0),
        None => false,
    }
}

/// What was seen so far while getting release metadata.
pub struct ReleasesSeen {
    pub created: Option<Result<(), String>>,
    pub locked: Option<Result<(), String>>,
    /// The age of the cached metadata, if it can be told.
    pub age: Option<Option<(u64, u32)>>,
    /// Whether the cached metadata was read and understood.
    pub cached: Option<bool>,
    /// The text at the address.
    pub fetched: Option<Result<String, String>>,
    /// Whether what was fetched was understood.
    pub parsed: Option<Result<(), String>>,
    pub written: Option<Result<(), String>>,
}

/// What to do next to get release metadata.
pub enum ReleasesStep {
    CreateDirectory(String),
    /// Lock this file until the end, and record the result as `locked`.
    Lock(String),
    /// Record the age of this file.
    Age(String),
    /// Read and parse this file, and record whether that worked as `cached`.
    ReadCached(String),
    Fetch(String),
    /// Parse this text.
    Parse(String),
    /// Write this text to this file.
    Write { path: String, text: String },
    /// End with the metadata that was fetched.
    UseFetched,
    /// End with the cached metadata, after this warning.
    UseCached(Option<String>),
    Fail(String),
}

pub open spec fn fails_with(step: ReleasesStep, message: Seq<char>) -> bool {
    step matches ReleasesStep::Fail(error) && error@ == message
}

/// What follows once the network has to be asked.
pub open spec fn ask_network(
    cache: Seq<char>,
    url: Seq<char>,
    seen: ReleasesSeen,
    step: ReleasesStep,
) -> bool {
    match seen.fetched {
        None => step matches ReleasesStep::Fetch(asked) && asked@ == url,
        Some(Ok(text)) => match seen.parsed {
            None => step == ReleasesStep::Parse(text),
            Some(Err(error)) => fails_with(
                step,
                "invalid release metadata from "@ + url + ": "@ + error@,
            ),
            Some(Ok(())) => match seen.written {
                None => step matches ReleasesStep::Write { path, text: kept } && path@ == cache
                    && kept == text,
                Some(Err(error)) => fails_with(step, "could not write "@ + cache + ": "@ + error@),
                Some(Ok(())) => step is UseFetched,
            },
        },
        Some(Err(error)) => match seen.cached {
            None => step matches ReleasesStep::ReadCached(path) && path@ == cache,
            Some(true) => step matches ReleasesStep::UseCached(Some(warning)) && warning@
                == "warning: "@ + error@ + "; using cached GitHub release metadata from "@ + cache,
            Some(false) => fails_with(step, error@),
        },
    }
}

/// The step that follows `seen`: fresh cached metadata is used as it is, other metadata is fetched
/// and cached, and where that fails the cache is better than nothing.
pub open spec fn releases_step(
    platform: Platform,
    root: Seq<char>,
    url: Seq<char>,
    seen: ReleasesSeen,
    step: ReleasesStep,
) -> bool {
    let cache = joined_path(platform, root, "releases.json"@);
    match seen.created {
        None => step matches ReleasesStep::CreateDirectory(path) && path@ == root,
        Some(Err(error)) => fails_with(step, "could not create "@ + root + ": "@ + error@),
        Some(Ok(())) => match seen.locked {
            None => step matches ReleasesStep::Lock(path) && path@ == joined_path(
                platform,
                root,
                "releases.lock"@,
            ),
            Some(Err(error)) => fails_with(step, error@),
            Some(Ok(())) => match seen.age {
                None => step matches ReleasesStep::Age(path) && path@ == cache,
                Some(age) => if fresh(age) && seen.cached is None {
                    step matches ReleasesStep::ReadCached(path) && path@ == cache
                } else if fresh(age) && seen.cached == Some(true) {
                    step matches ReleasesStep::UseCached(None)
                } else {
                    ask_network(cache, url, seen, step)
                },
            },
        },
    }
}

fn fetch_releases(cache: String, url: &str, seen: &ReleasesSeen) -> (res: ReleasesStep)
    ensures
        ask_network(cache@, url@, *seen, res),
{
    match &seen.fetched {
        None => ReleasesStep::Fetch(url.to_owned()),
        Some(Ok(text)) => match &seen.parsed {
            None => ReleasesStep::Parse(text.clone()),
            Some(Err(error)) => ReleasesStep::Fail(
                cat4("invalid release metadata from ", url, ": ", error.as_str()),
            ),
            Some(Ok(())) => match &seen.written {
                None => ReleasesStep::Write { path: cache, text: text.clone() },
                Some(Err(error)) => ReleasesStep::Fail(
                    cat4("could not write ", cache.as_str(), ": ", error.as_str()),
                ),
                Some(Ok(())) => ReleasesStep::UseFetched,
            },
        },
        Some(Err(error)) => match seen.cached {
            None => ReleasesStep::ReadCached(cache),
            Some(true) => ReleasesStep::UseCached(
                Some(
                    cat4(
                        "warning: ",
                        error.as_str(),
                        "; using cached GitHub release metadata from ",
                        cache.as_str(),
                    ),
                ),
            ),
            Some(false) => ReleasesStep::Fail(error.clone()),
        },
    }
}

/// Get the GitHub release metadata at `url`, cached in the directory `root`: the step that follows
/// what was seen so far.
pub fn releases(platform: Platform, root: &str, url: &str, seen: &ReleasesSeen) -> (res: ReleasesStep)
    ensures
        releases_step(platform, root@, url@, *seen, res),
{
    match &seen.created {
        None => return ReleasesStep::CreateDirectory(root.to_owned()),
        Some(Err(error)) => return ReleasesStep::Fail(
            cat4("could not create ", root, ": ", error.as_str()),
        ),
        Some(Ok(())) => {},
    }
    match &seen.locked {
        None => return ReleasesStep::Lock(join(platform, root, "releases.lock")),
        Some(Err(error)) => return ReleasesStep::Fail(error.clone()),
        Some(Ok(())) => {},
    }
    let cache = join(platform, root, "releases.json");
    match seen.age {
        None => ReleasesStep::Age(cache),
        Some(age) => {
            if cache_is_fresh(age) {
                match seen.cached {
                    None => return ReleasesStep::ReadCached(cache),
                    Some(true) => return ReleasesStep::UseCached(None),
                    Some(false) => {},
                }
            }
            fetch_releases(cache, url, seen)
        },
    }
}

/// Nothing is read, fetched or written before the lock is held, and the cache is written only with
/// metadata that was fetched and understood.
pub proof fn law_releases_are_fetched_under_the_lock(
    platform: Platform,
    root: Seq<char>,
    url: Seq<char>,
    seen: ReleasesSeen,
    step: ReleasesStep,
)
    requires
        releases_step(platform, root, url, seen, step),
    ensures
        !(step is CreateDirectory || step is Lock || step is Fail) ==> (seen.locked matches Some(
            Ok(_),
        )),
        step is Write || step is UseFetched ==> (seen.fetched matches Some(Ok(_))) && (
        seen.parsed matches Some(Ok(_))),
        step matches ReleasesStep::Write { path, text } ==> seen.fetched == Some(
            Ok::<String, String>(text),
        ),
{
}

/// Metadata that is in the cache is not lost to a failing network.
pub proof fn law_cached_releases_survive_network_errors(
    platform: Platform,
    root: Seq<char>,
    url: Seq<char>,
    seen: ReleasesSeen,
    step: ReleasesStep,
)
    requires
        releases_step(platform, root, url, seen, step),
        seen.created matches Some(Ok(_)),
        seen.locked matches Some(Ok(_)),
        seen.age is Some,
        seen.cached == Some(true),
        seen.fetched matches Some(Err(_)),
    ensures
        step is UseCached,
{
}

/// Nothing is done twice: each step asks for something that was not seen yet, so that carrying out the
/// steps comes to an end.
pub proof fn law_every_step_is_new(
    platform: Platform,
    root: Seq<char>,
    url: Seq<char>,
    seen: ReleasesSeen,
    step: ReleasesStep,
)
    requires
        releases_step(platform, root, url, seen, step),
    ensures
        step is CreateDirectory ==> seen.created is None,
        step is Lock ==> seen.locked is None,
        step is Age ==> seen.age is None,
        step is ReadCached ==> seen.cached is None,
        step is Fetch ==> seen.fetched is None,
        step is Parse ==> seen.parsed is None,
        step is Write ==> seen.written is None,
{
}

} // verus!
