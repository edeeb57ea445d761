//! Laws of releases: versions and their order, what is published, and how it is fetched and checked.

use crate::digest::{hex_of, is_sha256, sha256_of, sha256_text};
use crate::download::{
    arrived, cache_root_of, digest_of, exists_is, fresh, headers_of, key_less,
    law_newest_first_sorts, leading_numbers, matches_version, published, publishes, releases_in,
    releases_step, safe_component, version_key_of, version_of, versions_match, Asset, Release,
    ReleasesSeen, ReleasesStep,
};
use crate::laws::text::{law_numbers_are_read_back, lemma_cutting_undoes_joining};
use crate::path::{absolute, joined_path, Platform};
use crate::text::{
    ascii_lowered, decimal, has_class, in_class, is_digit, joined, lemma_decimal_is_read_back,
    lemma_first_in, opt_text, pieces, plain_number, Class,
};
use vstd::prelude::*;

verus! {

/// Numbers with a dot between each two of them.
pub open spec fn dotted(numbers: Seq<u64>) -> Seq<char> {
    joined(numbers.map_values(|n: u64| decimal(n as nat)), seq!['.'])
}

proof fn lemma_digits_separate_nothing(n: nat)
    ensures
        !has_class(decimal(n), Class::VersionSeparator),
{
    lemma_decimal_is_read_back(n);
    assert forall|i: int| 0 <= i < decimal(n).len() implies !in_class(
        Class::VersionSeparator,
        #[trigger] decimal(n)[i],
    ) by {
        assert(is_digit(decimal(n)[i]));
    }
}

proof fn lemma_leading_numbers(numbers: Seq<u64>, more: Seq<Seq<char>>)
    requires
        more.len() == 0 || plain_number(more[0]) is None,
    ensures
        leading_numbers(numbers.map_values(|n: u64| decimal(n as nat)) + more) == numbers,
    decreases numbers.len(),
{
    let parts = numbers.map_values(|n: u64| decimal(n as nat));
    let all = parts + more;
    if numbers.len() == 0 {
        assert(all =~= more);
        assert(leading_numbers(all) =~= numbers);
    } else {
        let rest = numbers.drop_first();
        lemma_leading_numbers(rest, more);
        assert(all[0] == decimal(numbers[0] as nat));
        law_numbers_are_read_back(numbers[0] as nat, seq![]);
        assert(all.drop_first() =~= rest.map_values(|n: u64| decimal(n as nat)) + more);
        assert(seq![numbers[0]] + rest =~= numbers);
    }
}

/// Cutting goes on behind each character that a text is cut at.
pub proof fn lemma_pieces_of_both(a: Seq<char>, c: char, b: Seq<char>, class: Class)
    requires
        in_class(class, c),
    ensures
        pieces(a + seq![c] + b, class) == pieces(a, class) + pieces(b, class),
    decreases a.len(),
{
    lemma_first_in(a, class);
    let at = crate::text::first_in(a, class) as int;
    let head = a.take(at);
    assert(!has_class(head, class)) by {
        assert forall|i: int| 0 <= i < head.len() implies !in_class(class, #[trigger] head[i]) by {
            assert(head[i] == a[i]);
        }
    }
    if at == a.len() {
        assert(head =~= a);
        crate::laws::text::lemma_first_piece(a, c, b, class);
    } else {
        let rest = a.skip(at + 1);
        lemma_pieces_of_both(rest, c, b, class);
        crate::laws::text::lemma_first_piece(head, a[at], rest + seq![c] + b, class);
        crate::laws::text::lemma_first_piece(head, a[at], rest, class);
        assert(a + seq![c] + b =~= head + seq![a[at]] + (rest + seq![c] + b));
        assert(a =~= head + seq![a[at]] + rest);
        assert(seq![head] + (pieces(rest, class) + pieces(b, class)) =~= seq![head] + pieces(rest, class)
            + pieces(b, class));
    }
}

/// The numbers of a version are what it is ordered by, up to the first part that is no number.
pub proof fn law_versions_are_ordered_by_their_numbers(numbers: Seq<u64>, name: Seq<char>)
    requires
        numbers.len() > 0,
        !has_class(name, Class::VersionSeparator),
        plain_number(name) is None,
    ensures
        version_key_of(dotted(numbers)) == numbers,
        version_key_of(dotted(numbers) + seq!['-'] + name) == numbers,
        version_key_of(dotted(numbers) + seq!['.'] + name) == numbers,
        version_key_of(name) == Seq::<u64>::empty(),
{
    let class = Class::VersionSeparator;
    let parts = numbers.map_values(|n: u64| decimal(n as nat));
    assert forall|i: int| 0 <= i < parts.len() implies !has_class(#[trigger] parts[i], class) by {
        lemma_digits_separate_nothing(numbers[i] as nat);
    }
    lemma_cutting_undoes_joining(parts, '.', class);
    lemma_leading_numbers(numbers, seq![]);
    assert(parts + Seq::<Seq<char>>::empty() =~= parts);
    crate::laws::text::lemma_first_piece(name, '.', seq![], class);
    lemma_leading_numbers(numbers, seq![name]);
    lemma_pieces_of_both(dotted(numbers), '-', name, class);
    lemma_pieces_of_both(dotted(numbers), '.', name, class);
    assert(seq![name][0] == name);
    assert(version_key_of(name) =~= seq![]);
}

/// Numbers are compared one by one: the first that differs decides, and fewer of them come first.
pub proof fn law_numbers_are_compared_one_by_one(
    start: Seq<u64>,
    x: u64,
    y: u64,
    a: Seq<u64>,
    b: Seq<u64>,
)
    ensures
        x != y ==> key_less(start + seq![x] + a, start + seq![y] + b) == (x < y),
        key_less(start, start + seq![x] + a),
        !key_less(start + seq![x] + a, start),
        !key_less(start, start),
    decreases start.len(),
{
    let one = start + seq![x] + a;
    let two = start + seq![y] + b;
    if start.len() > 0 {
        let rest = start.drop_first();
        law_numbers_are_compared_one_by_one(rest, x, y, a, b);
        assert(one.drop_first() =~= rest + seq![x] + a);
        assert(two.drop_first() =~= rest + seq![y] + b);
        assert(one[0] == start[0] && two[0] == start[0]);
    } else {
        assert(one[0] == x && two[0] == y);
    }
}

/// A version matches what is asked for if it is just that, or that and more behind a separator; a
/// version that only begins with the same characters is another.
pub proof fn law_matching_versions(requested: Seq<char>, c: char, more: Seq<char>, other: Seq<char>)
    ensures
        matches_version(requested, requested),
        matches_version(requested, requested + seq![c] + more) == (c == '.' || c == '-'),
        matches_version(requested, other) ==> requested.is_prefix_of(other),
{
    let whole = requested + seq![c] + more;
    assert(whole[requested.len() as int] == c);
    assert(requested.is_prefix_of(whole));
    assert(whole.len() > requested.len());
}

/// A release is among those to choose from exactly if it is one of those listed, is no draft, and has
/// the prefix in its tag, in front of its version.
pub proof fn law_published_releases(releases: Seq<Release>, tag_prefix: Seq<char>, release: Release)
    ensures
        published(releases, tag_prefix).contains(release) <==> releases.contains(release)
            && !release.draft && tag_prefix.is_prefix_of(release.tag_name@),
        tag_prefix.is_prefix_of(release.tag_name@) ==> release.tag_name@ == tag_prefix + version_of(
            release,
            tag_prefix,
        ),
{
    broadcast use vstd::seq_lib::group_filter_ensures;

    let takes_part = |r: Release| publishes(r, tag_prefix);
    let kept = releases.filter(takes_part);
    let list = published(releases, tag_prefix);
    law_newest_first_sorts(kept, tag_prefix);
    assert(list.contains(release) == kept.contains(release)) by {
        broadcast use vstd::seq_lib::group_to_multiset_ensures;

        assert(list.contains(release) <==> list.to_multiset().count(release) > 0);
        assert(kept.contains(release) <==> kept.to_multiset().count(release) > 0);
    }
    if kept.contains(release) {
        releases.lemma_filter_contains_rev(takes_part, release);
    }
    if releases.contains(release) && publishes(release, tag_prefix) {
        let i = choose|i: int| 0 <= i < releases.len() && releases[i] == release;
        assert(takes_part(releases[i]));
        assert(kept.contains(releases[i]));
    }
    if tag_prefix.is_prefix_of(release.tag_name@) {
        assert(release.tag_name@ =~= tag_prefix + version_of(release, tag_prefix));
    }
}

/// Beside each of the releases to choose from stands its version: what its tag has behind the prefix.
pub proof fn law_versions_stand_beside_their_releases(
    releases: Seq<Release>,
    tag_prefix: Seq<char>,
    pairs: Seq<(Release, String)>,
    i: int,
)
    requires
        releases_in(pairs) == published(releases, tag_prefix),
        versions_match(pairs, tag_prefix),
        0 <= i < pairs.len(),
    ensures
        releases.contains(pairs[i].0),
        pairs[i].0.tag_name@ == tag_prefix + pairs[i].1@,
{
    let release = pairs[i].0;
    assert(releases_in(pairs)[i] == release);
    assert(published(releases, tag_prefix).contains(release));
    law_published_releases(releases, tag_prefix, release);
}

/// A name is safe in a path exactly if it is not empty and all letters, digits, `.`, `-` and `_`.
pub proof fn law_safe_names(value: Seq<char>)
    ensures
        safe_component(value) <==> value.len() > 0 && forall|i: int|
            0 <= i < value.len() ==> 'a' <= #[trigger] value[i] <= 'z' || 'A' <= value[i] <= 'Z' || '0'
                <= value[i] <= '9' || value[i] == '.' || value[i] == '-' || value[i] == '_',
{
    if safe_component(value) {
        assert forall|i: int| 0 <= i < value.len() implies 'a' <= #[trigger] value[i] <= 'z' || 'A'
            <= value[i] <= 'Z' || '0' <= value[i] <= '9' || value[i] == '.' || value[i] == '-'
            || value[i] == '_' by {
            assert(crate::download::safe_char(value[i]));
        }
    } else if value.len() > 0 {
        let i = choose|i: int|
            0 <= i < value.len() && !crate::download::safe_char(#[trigger] value[i]);
        assert(!crate::download::safe_char(value[i]));
    }
}

/// Whether a text is 64 hexadecimal digits.
pub open spec fn is_digest(s: Seq<char>) -> bool {
    s.len() == 64 && forall|i: int|
        0 <= i < s.len() ==> '0' <= #[trigger] s[i] <= '9' || 'a' <= s[i] <= 'f' || 'A' <= s[i] <= 'F'
}

/// A digest is 64 hexadecimal digits, which are compared in lower case.
pub proof fn law_digests(s: Seq<char>)
    ensures
        sha256_text(s) is Some <==> is_digest(s),
        is_digest(s) ==> sha256_text(s) == Some(ascii_lowered(s)),
{
    if is_sha256(s) {
        assert forall|i: int| 0 <= i < s.len() implies '0' <= #[trigger] s[i] <= '9' || 'a' <= s[i]
            <= 'f' || 'A' <= s[i] <= 'F' by {
            assert(crate::text::is_hex_digit(s[i]));
        }
    }
    if is_digest(s) {
        assert forall|i: int| 0 <= i < s.len() implies crate::text::is_hex_digit(#[trigger] s[i]) by {}
    }
}

/// The digest of an asset is what GitHub reports behind `sha256:`, if that is one.
pub proof fn law_digests_of_assets(asset: Asset, hex: Seq<char>)
    ensures
        opt_text(asset.digest) == Some("sha256:"@ + hex) ==> digest_of(asset) == sha256_text(hex),
        digest_of(asset) is Some ==> (opt_text(asset.digest) matches Some(text)
            && "sha256:"@.is_prefix_of(text)),
{
    let whole = "sha256:"@ + hex;
    assert("sha256:"@.is_prefix_of(whole));
    assert(whole.skip("sha256:"@.len() as int) =~= hex);
}

/// The value of a hexadecimal digit.
pub open spec fn digit_value(c: char) -> int {
    if '0' <= c <= '9' {
        c as int - '0' as int
    } else {
        c as int - 'a' as int + 10
    }
}

/// Each byte is spelled with two digits, the higher first.
pub proof fn law_bytes_are_spelled_with_two_digits(bytes: Seq<u8>, i: int)
    requires
        0 <= i < bytes.len(),
    ensures
        hex_of(bytes).len() == 2 * bytes.len(),
        digit_value(hex_of(bytes)[2 * i]) * 16 + digit_value(hex_of(bytes)[2 * i + 1]) == bytes[i],
        '0' <= hex_of(bytes)[2 * i] <= '9' || 'a' <= hex_of(bytes)[2 * i] <= 'f',
        '0' <= hex_of(bytes)[2 * i + 1] <= '9' || 'a' <= hex_of(bytes)[2 * i + 1] <= 'f',
    decreases bytes.len(),
{
    let front = bytes.drop_last();
    crate::digest::lemma_hex_length(front);
    crate::digest::lemma_hex_length(bytes);
    if i < front.len() {
        law_bytes_are_spelled_with_two_digits(front, i);
        assert(hex_of(bytes)[2 * i] == hex_of(front)[2 * i]);
        assert(hex_of(bytes)[2 * i + 1] == hex_of(front)[2 * i + 1]);
    } else {
        let b = bytes.last() as int;
        assert(b == (b / 16) * 16 + b % 16);
        assert(hex_of(bytes)[2 * i] == crate::digest::hex_char((bytes.last() / 16) as nat));
        assert(hex_of(bytes)[2 * i + 1] == crate::digest::hex_char((bytes.last() % 16) as nat));
    }
}

/// A request that is answered shows whether what it asks for exists: 404 says that it does not, and an
/// error that nothing is known.
pub proof fn law_answers(url: Seq<char>, response: Result<u16, String>, res: Result<bool, String>)
    requires
        exists_is(url, response, res),
    ensures
        res == Ok::<bool, String>(true) <==> (response matches Ok(status) && status < 400),
        res == Ok::<bool, String>(false) <==> (response matches Ok(status) && status == 404),
{
}

/// Where downloads are kept: below an absolute cache home; or else below the directory the system has
/// for such files, which is one of Windows' own, or one of the user's home; or else among the build's
/// files.
pub proof fn law_where_downloads_are_kept(
    platform: Platform,
    subdir: Seq<char>,
    os: Seq<char>,
    env: Map<Seq<char>, Seq<char>>,
)
    ensures
        ({
            let root = cache_root_of(platform, subdir, os, env);
            let xdg = "XDG_CACHE_HOME"@;
            let local = "LOCALAPPDATA"@;
            let home = "HOME"@;
            let has_xdg = env.contains_key(xdg) && absolute(platform, env[xdg]);
            let has_local = os == "windows"@ && env.contains_key(local) && absolute(
                platform,
                env[local],
            );
            let has_home = env.contains_key(home) && absolute(platform, env[home]);
            &&& has_xdg ==> root == joined_path(
                platform,
                joined_path(platform, env[xdg], "cargo-ohos"@),
                subdir,
            )
            &&& !has_xdg && has_local ==> root == joined_path(
                platform,
                joined_path(platform, env[local], "cargo-ohos"@),
                subdir,
            )
            &&& !has_xdg && !has_local && has_home && os == "macos"@ ==> root == joined_path(
                platform,
                joined_path(
                    platform,
                    joined_path(platform, env[home], "Library/Caches"@),
                    "cargo-ohos"@,
                ),
                subdir,
            )
            &&& !has_xdg && !has_local && has_home && os != "macos"@ ==> root == joined_path(
                platform,
                joined_path(platform, joined_path(platform, env[home], ".cache"@), "cargo-ohos"@),
                subdir,
            )
            &&& !has_xdg && !has_local && !has_home && env.contains_key("CARGO_TARGET_DIR"@) ==> root
                == joined_path(platform, env["CARGO_TARGET_DIR"@], subdir)
            &&& !has_xdg && !has_local && !has_home && !env.contains_key("CARGO_TARGET_DIR"@) ==> root
                == joined_path(platform, "target"@, subdir)
        }),
{
}

/// A request says which program makes it and what it reads, and where it goes to the API of GitHub and
/// there is a token, it has that; a token goes nowhere else.
pub proof fn law_requests(url: Seq<char>, token: Option<Seq<char>>, version: Seq<char>)
    ensures
        ({
            let headers = headers_of(url, token, version);
            let authorized = token matches Some(secret) && secret.len() > 0
                && "https://api.github.com/"@.is_prefix_of(url);
            &&& headers.contains(("User-Agent"@, "cargo-ohos/"@ + version))
            &&& headers.contains(("Accept"@, "application/vnd.github+json"@))
            &&& headers.contains(("X-GitHub-Api-Version"@, "2022-11-28"@))
            &&& authorized ==> headers.len() == 4 && headers.contains(
                ("Authorization"@, "Bearer "@ + token->Some_0),
            )
            &&& !authorized ==> headers.len() == 3
        }),
{
    let headers = headers_of(url, token, version);
    assert(headers[0] == ("User-Agent"@, "cargo-ohos/"@ + version));
    assert(headers[1] == ("Accept"@, "application/vnd.github+json"@));
    assert(headers[2] == ("X-GitHub-Api-Version"@, "2022-11-28"@));
    if token matches Some(secret) && secret.len() > 0 && "https://api.github.com/"@.is_prefix_of(url) {
        assert(headers[3] == ("Authorization"@, "Bearer "@ + token->Some_0));
    }
}

/// What was fetched is fresh for one hour; of a file whose age cannot be told it is not known.
pub proof fn law_fresh_for_one_hour(age: Option<(u64, u32)>)
    ensures
        fresh(age) <==> (age matches Some((seconds, nanos)) && (seconds < 3600 || (seconds == 3600 && nanos
            == 0))),
{
}

/// Fresh metadata is not fetched again, unless it cannot be read; other metadata is, before the cache is
/// used; and what is read is the file that is written.
pub proof fn law_fresh_metadata_is_not_fetched(
    platform: Platform,
    root: Seq<char>,
    url: Seq<char>,
    seen: ReleasesSeen,
    step: ReleasesStep,
)
    requires
        releases_step(platform, root, url, seen, step),
    ensures
        ({
            let cache = joined_path(platform, root, "releases.json"@);
            let is_fresh = seen.age matches Some(Some((seconds, _))) && seconds < 3600;
            let is_old = seen.age matches Some(age) && (age matches Some((seconds, _)) ==> seconds
                > 3600);
            &&& is_fresh && seen.cached != Some(false) ==> !(step is Fetch || step is Write
                || step is UseFetched)
            &&& is_old ==> !(step matches ReleasesStep::UseCached(None))
            &&& is_old && seen.fetched is None ==> !(step is ReadCached || step is UseCached)
            &&& step matches ReleasesStep::ReadCached(path) ==> path@ == cache
            &&& step matches ReleasesStep::Age(path) ==> path@ == cache
            &&& step matches ReleasesStep::Write { path, text } ==> path@ == cache && seen.fetched
                == Some(Ok::<String, String>(text))
            &&& step matches ReleasesStep::Fetch(asked) ==> asked@ == url
            &&& step matches ReleasesStep::CreateDirectory(path) ==> path@ == root
            &&& step matches ReleasesStep::Lock(path) ==> path@ == joined_path(
                platform,
                root,
                "releases.lock"@,
            )
            &&& step is UseFetched ==> (seen.written matches Some(Ok(_)))
            &&& step is UseCached ==> seen.cached == Some(true)
        }),
{
    if let Some(understood) = seen.cached {
        assert(seen.cached == Some(true) || seen.cached == Some(false)) by {
            if understood {
                assert(seen.cached == Some(true));
            } else {
                assert(seen.cached == Some(false));
            }
        }
    }
}

/// A transfer is accepted exactly if the digest of what was received is the one expected, byte by byte:
/// spelled as this crate does it, that of any other digest is refused.
pub proof fn law_only_what_was_expected_arrives(received: Seq<u8>, digest: Seq<u8>)
    ensures
        arrived(received, hex_of(digest)) <==> sha256_of(received) == digest,
{
    if arrived(received, hex_of(digest)) {
        crate::digest::law_hex_is_injective(sha256_of(received), digest);
    }
}

} // verus!
