//! Paths as text: joining, and the spellings the tool emits.

use crate::sort::{last_index, lemma_filter_last};
use crate::text::{
    char_in, chars_of, equal, find_from, first_in, in_class, is_digit, join as join_texts,
    joined, pieces, replace_char, replaced, split, string_of, texts, Class,
};
use vstd::prelude::*;

verus! {

/// The host, as far as its rules differ.
#[derive(Debug, Clone, Copy, PartialEq, Eq, Structural)]
pub enum Platform {
    /// Linux, and every other system without rules of its own.
    Linux,
    Macos,
    Windows,
}

pub open spec fn is_separator(platform: Platform, c: char) -> bool {
    c == '/' || (platform == Platform::Windows && c == '\\')
}

/// Whether `path` begins with a separator.
pub open spec fn is_rooted(platform: Platform, path: Seq<char>) -> bool {
    path.len() > 0 && is_separator(platform, path[0])
}

/// What a Windows path may begin with.
#[derive(Debug, Clone, Copy, PartialEq, Eq, Structural)]
pub enum PrefixKind {
    /// `C:`
    Drive,
    /// `\\server\share`
    Share,
    /// `\\.\device`
    Device,
    /// `\\?\name`, `\\?\C:` or `\\?\UNC\server\share`. What follows is taken to the letter: only `\`
    /// separates its parts, and `.` is one of them.
    Verbatim,
}

/// Whether `path` begins with a drive letter and a colon.
pub open spec fn has_drive(path: Seq<char>) -> bool {
    path.len() >= 2 && path[1] == ':' && crate::text::is_alphanumeric(path[0]) && !is_digit(path[0])
}

/// Where the part of `path` that begins at `from` ends.
pub open spec fn part_end(path: Seq<char>, from: int, class: Class) -> int {
    from + first_in(path.skip(from), class)
}

/// Where the part that follows the one which ends at `end` ends; the same place if none follows.
pub open spec fn next_end(path: Seq<char>, end: int, class: Class) -> int {
    if end < path.len() {
        part_end(path, end + 1, class)
    } else {
        end
    }
}

/// The kind and the length of the prefix of a path that begins with two separators.
#[verifier::opaque]
pub open spec fn network_prefix(path: Seq<char>) -> Option<(PrefixKind, int)> {
    let both = Class::PathSeparator;
    let own = Class::Is('\\');
    if "\\\\?\\"@.is_prefix_of(path) {
        if path.len() >= 8 && path.subrange(4, 7) == "UNC"@ && in_class(both, path[7]) {
            let server = part_end(path, 8, own);
            let share = next_end(path, server, own);
            Some(
                (
                    PrefixKind::Verbatim,
                    if share > server + 1 {
                        share
                    } else {
                        server
                    },
                ),
            )
        } else if has_drive(path.skip(4)) && (path.len() == 6 || in_class(both, path[6])) {
            Some((PrefixKind::Verbatim, 6))
        } else {
            Some((PrefixKind::Verbatim, part_end(path, 4, own)))
        }
    } else if path.len() >= 4 && path[2] == '.' && in_class(both, path[3]) {
        Some((PrefixKind::Device, part_end(path, 4, both)))
    } else {
        let server = part_end(path, 2, both);
        let share = next_end(path, server, both);
        if server > 2 && share > server + 1 {
            Some((PrefixKind::Share, share))
        } else {
            None
        }
    }
}

/// The kind and the length of the prefix of a path. Only Windows has them.
pub open spec fn prefix_of(platform: Platform, path: Seq<char>) -> Option<(PrefixKind, int)> {
    if platform != Platform::Windows {
        None
    } else if is_rooted(platform, path) && is_rooted(platform, path.skip(1)) {
        network_prefix(path)
    } else if has_drive(path) {
        Some((PrefixKind::Drive, 2))
    } else {
        None
    }
}

/// The length of the prefix of a path.
pub open spec fn prefix_len(platform: Platform, path: Seq<char>) -> int {
    match prefix_of(platform, path) {
        Some((_, len)) => len,
        None => 0,
    }
}

/// Whether a path is taken to the letter.
pub open spec fn is_verbatim(platform: Platform, path: Seq<char>) -> bool {
    prefix_of(platform, path) matches Some((PrefixKind::Verbatim, _))
}

/// Whether `path` does not depend on the working directory. On Windows that takes a prefix, and behind
/// a drive a separator too.
pub open spec fn absolute(platform: Platform, path: Seq<char>) -> bool {
    if platform == Platform::Windows {
        match prefix_of(platform, path) {
            Some((PrefixKind::Drive, _)) => is_rooted(platform, path.skip(2)),
            Some(_) => true,
            None => false,
        }
    } else {
        is_rooted(platform, path)
    }
}

/// What separates the parts of a path.
pub open spec fn separators_of(platform: Platform, path: Seq<char>) -> Class {
    if is_verbatim(platform, path) {
        Class::Is('\\')
    } else if platform == Platform::Windows {
        Class::PathSeparator
    } else {
        Class::Is('/')
    }
}

/// The length of what comes before the first part: the prefix, and a separator behind it.
pub open spec fn head_len(platform: Platform, path: Seq<char>) -> int {
    let len = prefix_len(platform, path);
    if is_rooted(platform, path.skip(len)) {
        len + 1
    } else {
        len
    }
}

/// Whether a piece of a path is a part of it: empty pieces say nothing, nor does `.` unless the path is
/// taken to the letter.
pub open spec fn is_part(verbatim: bool) -> spec_fn(Seq<char>) -> bool {
    |piece: Seq<char>| piece.len() > 0 && (verbatim || piece != "."@)
}

/// The parts of a path.
pub open spec fn path_parts(platform: Platform, path: Seq<char>) -> Seq<Seq<char>> {
    pieces(path.skip(head_len(platform, path)), separators_of(platform, path)).filter(
        is_part(is_verbatim(platform, path)),
    )
}

/// Whether a part is a name, rather than a way to stay or to lead upwards.
pub open spec fn is_name(part: Seq<char>) -> bool {
    part != "."@ && part != ".."@
}

/// The last of the parts, if it is a name.
pub open spec fn last_name(parts: Seq<Seq<char>>) -> Option<Seq<char>> {
    if parts.len() > 0 && is_name(parts.last()) {
        Some(parts.last())
    } else {
        None
    }
}

pub open spec fn separator_of(platform: Platform) -> Seq<char> {
    if platform == Platform::Windows {
        "\\"@
    } else {
        "/"@
    }
}

/// Where `step` leads from the directory with these parts.
pub open spec fn stepped(parts: Seq<Seq<char>>, step: Seq<char>) -> Seq<Seq<char>> {
    if step != ".."@ {
        parts.push(step)
    } else if last_name(parts) is Some {
        parts.drop_last()
    } else {
        parts
    }
}

/// Where the steps lead, one after the other.
pub open spec fn walked(parts: Seq<Seq<char>>, steps: Seq<Seq<char>>) -> Seq<Seq<char>>
    decreases steps.len(),
{
    if steps.len() == 0 {
        parts
    } else {
        walked(stepped(parts, steps[0]), steps.drop_first())
    }
}

/// `part` below a `base` that is taken to the letter: what leads upwards in `part` is resolved, since
/// it would not be later.
#[verifier::opaque]
pub open spec fn verbatim_joined(base: Seq<char>, part: Seq<char>) -> Seq<char> {
    let windows = Platform::Windows;
    let prefix = base.take(prefix_len(windows, base));
    let from = if is_rooted(windows, part) {
        seq![]
    } else {
        path_parts(windows, base)
    };
    let parts = walked(from, path_parts(windows, part));
    if parts.len() > 0 || is_rooted(windows, part) || base.len() > prefix.len() {
        prefix + "\\"@ + joined(parts, "\\"@)
    } else {
        prefix
    }
}

/// `part` below `base`. An absolute `part` replaces `base`; on Windows every `part` with a prefix does,
/// and one that only begins with a separator keeps the prefix of `base`.
pub open spec fn joined_path(platform: Platform, base: Seq<char>, part: Seq<char>) -> Seq<char> {
    if absolute(platform, part) || prefix_of(platform, part) is Some {
        part
    } else if is_verbatim(platform, base) && part.len() > 0 {
        verbatim_joined(base, part)
    } else if is_rooted(platform, part) {
        base.take(prefix_len(platform, base)) + part
    } else if base.len() == 0 || is_separator(platform, base.last()) || prefix_of(platform, base)
        == Some((PrefixKind::Drive, base.len() as int)) {
        base + part
    } else {
        base + separator_of(platform) + part
    }
}

/// `path` with forward slashes.
pub open spec fn posix_of(path: Seq<char>) -> Seq<char> {
    replaced(path, '\\', "/"@)
}

/// `s` without the separators, and the `.` parts, at its end.
pub open spec fn without_tail(s: Seq<char>, verbatim: bool, class: Class) -> Seq<char>
    decreases s.len(),
{
    if s.len() == 0 {
        s
    } else if in_class(class, s.last()) || (!verbatim && s.last() == '.' && (s.len() == 1
        || in_class(class, s[s.len() - 2]))) {
        without_tail(s.drop_last(), verbatim, class)
    } else {
        s
    }
}

/// The length of a file name without its extension.
pub open spec fn stem_len(name: Seq<char>) -> int {
    let dot = last_index(name, |c: char| c == '.');
    if dot > 0 {
        dot
    } else {
        name.len() as int
    }
}

/// `path` with the extension of programs: on Windows `exe` takes the place of the extension of its file
/// name, if it has a file name.
#[verifier::opaque]
pub open spec fn program_of(platform: Platform, path: Seq<char>) -> Seq<char> {
    let class = separators_of(platform, path);
    let head = head_len(platform, path);
    let body = without_tail(path.skip(head), is_verbatim(platform, path), class);
    let start = last_index(body, |c: char| in_class(class, c)) + 1;
    let name = body.skip(start);
    if platform != Platform::Windows || body.len() == 0 || !is_name(name) {
        path
    } else {
        path.take(head + start + stem_len(name)) + ".exe"@
    }
}

fn char_is_separator(platform: Platform, c: char) -> (res: bool)
    ensures
        res == is_separator(platform, c),
{
    c == '/' || (platform == Platform::Windows && c == '\\')
}

fn drive_at(cs: &Vec<char>, from: usize) -> (res: bool)
    requires
        from <= cs.len(),
    ensures
        res == has_drive(cs@.skip(from as int)),
{
    cs.len() - from >= 2 && cs[from + 1] == ':' && crate::text::char_is_alphanumeric(cs[from])
        && !crate::text::char_is_digit(cs[from])
}

fn network(cs: &Vec<char>) -> (res: Option<(PrefixKind, usize)>)
    requires
        cs.len() >= 2,
    ensures
        match res {
            Some((kind, len)) => network_prefix(cs@) == Some((kind, len as int)) && len <= cs.len(),
            None => network_prefix(cs@) is None,
        },
{
    let both = Class::PathSeparator;
    let own = Class::Is('\\');
    proof {
        reveal(network_prefix);
        reveal_strlit("\\\\?\\");
        reveal_strlit("UNC");
    }
    if cs.len() >= 4 && cs[0] == '\\' && cs[1] == '\\' && cs[2] == '?' && cs[3] == '\\' {
        proof {
            assert("\\\\?\\"@.is_prefix_of(cs@));
        }
        if cs.len() >= 8 && cs[4] == 'U' && cs[5] == 'N' && cs[6] == 'C' && char_in(both, cs[7]) {
            proof {
                assert(cs@.subrange(4, 7) =~= "UNC"@);
            }
            let server = find_from(cs, 8, own);
            let share = if server < cs.len() {
                find_from(cs, server + 1, own)
            } else {
                server
            };
            return Some(
                (
                    PrefixKind::Verbatim,
                    if share > server && share - server > 1 {
                        share
                    } else {
                        server
                    },
                ),
            );
        }
        proof {
            if cs.len() >= 8 && cs@.subrange(4, 7) == "UNC"@ {
                assert(cs@[4] == cs@.subrange(4, 7)[0]);
                assert(cs@[5] == cs@.subrange(4, 7)[1]);
                assert(cs@[6] == cs@.subrange(4, 7)[2]);
            }
        }
        if drive_at(cs, 4) && (cs.len() == 6 || char_in(both, cs[6])) {
            return Some((PrefixKind::Verbatim, 6));
        }
        return Some((PrefixKind::Verbatim, find_from(cs, 4, own)));
    }
    proof {
        if "\\\\?\\"@.is_prefix_of(cs@) {
            assert(cs@[0] == "\\\\?\\"@[0] && cs@[1] == "\\\\?\\"@[1] && cs@[2] == "\\\\?\\"@[2]
                && cs@[3] == "\\\\?\\"@[3]);
        }
    }
    if cs.len() >= 4 && cs[2] == '.' && char_in(both, cs[3]) {
        return Some((PrefixKind::Device, find_from(cs, 4, both)));
    }
    let server = find_from(cs, 2, both);
    let share = if server < cs.len() {
        find_from(cs, server + 1, both)
    } else {
        server
    };
    if server > 2 && share > server && share - server > 1 {
        Some((PrefixKind::Share, share))
    } else {
        None
    }
}

fn prefix(platform: Platform, cs: &Vec<char>) -> (res: Option<(PrefixKind, usize)>)
    ensures
        match res {
            Some((kind, len)) => prefix_of(platform, cs@) == Some((kind, len as int)) && len
                <= cs.len(),
            None => prefix_of(platform, cs@) is None,
        },
{
    if platform != Platform::Windows {
        return None;
    }
    if cs.len() >= 2 && char_is_separator(platform, cs[0]) && char_is_separator(platform, cs[1]) {
        return network(cs);
    }
    proof {
        assert(cs@.skip(0) =~= cs@);
    }
    if drive_at(cs, 0) {
        Some((PrefixKind::Drive, 2))
    } else {
        None
    }
}

fn rooted_at(platform: Platform, cs: &Vec<char>, from: usize) -> (res: bool)
    requires
        from <= cs.len(),
    ensures
        res == is_rooted(platform, cs@.skip(from as int)),
{
    from < cs.len() && char_is_separator(platform, cs[from])
}

pub fn is_absolute(platform: Platform, path: &str) -> (res: bool)
    ensures
        res == absolute(platform, path@),
{
    let cs = chars_of(path);
    match prefix(platform, &cs) {
        Some((PrefixKind::Drive, _)) => rooted_at(platform, &cs, 2),
        Some(_) => true,
        None => {
            proof {
                assert(cs@.skip(0) =~= cs@);
            }
            platform != Platform::Windows && rooted_at(platform, &cs, 0)
        },
    }
}

/// How a path is cut into its parts: whether it is taken to the letter, what separates the parts, and
/// how much comes before them.
fn layout(platform: Platform, cs: &Vec<char>) -> (res: (bool, Class, usize))
    ensures
        res.0 == is_verbatim(platform, cs@),
        res.1 == separators_of(platform, cs@),
        res.2 == head_len(platform, cs@),
        res.2 <= cs.len(),
{
    let (kind, len) = match prefix(platform, cs) {
        Some((kind, len)) => (Some(kind), len),
        None => (None, 0usize),
    };
    let verbatim = match kind {
        Some(PrefixKind::Verbatim) => true,
        _ => false,
    };
    let class = if verbatim {
        Class::Is('\\')
    } else if platform == Platform::Windows {
        Class::PathSeparator
    } else {
        Class::Is('/')
    };
    if rooted_at(platform, cs, len) {
        (verbatim, class, len + 1)
    } else {
        (verbatim, class, len)
    }
}

/// Cuts a path into its parts.
pub fn split_path(platform: Platform, path: &str) -> (res: Vec<String>)
    ensures
        texts(res@) == path_parts(platform, path@),
{
    let cs = chars_of(path);
    let (verbatim, class, head) = layout(platform, &cs);
    let body = string_of(&cs, head, cs.len());
    let ghost says = is_part(verbatim);
    let all = split(body.as_str(), class);
    let ghost seqs = texts(all@);
    let mut res: Vec<String> = Vec::new();
    let mut i: usize = 0;
    proof {
        assert(body@ =~= path@.skip(head as int));
        reveal(Seq::filter);
        assert(seqs.take(0).filter(says) =~= seq![]);
        assert(texts(res@) =~= seq![]);
    }
    while i < all.len()
        invariant
            i <= all.len(),
            seqs == texts(all@),
            says == is_part(verbatim),
            texts(res@) == seqs.take(i as int).filter(says),
        decreases all.len() - i,
    {
        let ghost before = texts(res@);
        proof {
            assert(seqs.take(i + 1).drop_last() =~= seqs.take(i as int));
            assert(seqs.take(i + 1).last() == all@[i as int]@);
            lemma_filter_last(seqs.take(i + 1), says);
        }
        let piece = all[i].as_str();
        if !piece.is_empty() && (verbatim || !equal(piece, ".")) {
            res.push(piece.to_owned());
            proof {
                assert(texts(res@) =~= before.push(piece@));
            }
        }
        i += 1;
    }
    proof {
        assert(seqs.take(i as int) =~= seqs);
    }
    res
}

/// The last of the first `count` parts, if it is a name.
pub fn name_at(parts: &Vec<String>, count: usize) -> (res: Option<String>)
    requires
        count <= parts.len(),
    ensures
        crate::text::opt_text(res) == last_name(texts(parts@).take(count as int)),
{
    if count == 0 || equal(parts[count - 1].as_str(), "..") || equal(parts[count - 1].as_str(), ".") {
        None
    } else {
        Some(parts[count - 1].clone())
    }
}

fn step(parts: &mut Vec<String>, to: &String)
    ensures
        texts(final(parts)@) == stepped(texts(old(parts)@), to@),
{
    let ghost before = texts(parts@);
    if !equal(to.as_str(), "..") {
        parts.push(to.clone());
        proof {
            assert(texts(parts@) =~= before.push(to@));
        }
        return;
    }
    proof {
        assert(before.take(before.len() as int) =~= before);
    }
    if name_at(parts, parts.len()).is_some() {
        parts.pop();
        proof {
            assert(texts(parts@) =~= before.drop_last());
        }
    }
}

fn join_verbatim(base: &str, part: &str) -> (res: String)
    ensures
        res@ == verbatim_joined(base@, part@),
{
    proof {
        reveal(verbatim_joined);
    }
    let windows = Platform::Windows;
    let b = chars_of(base);
    let len = match prefix(windows, &b) {
        Some((_, len)) => len,
        None => 0usize,
    };
    let rooted = rooted_at(windows, &chars_of(part), 0);
    proof {
        assert(part@.skip(0) =~= part@);
    }
    let mut parts = if rooted {
        Vec::new()
    } else {
        split_path(windows, base)
    };
    let steps = split_path(windows, part);
    let ghost from = texts(parts@);
    let ghost all = texts(steps@);
    let mut i: usize = 0;
    proof {
        assert(rooted ==> from =~= seq![]);
        assert(all.skip(0) =~= all);
    }
    while i < steps.len()
        invariant
            i <= steps.len(),
            all == texts(steps@),
            walked(from, all) == walked(texts(parts@), all.skip(i as int)),
        decreases steps.len() - i,
    {
        proof {
            assert(all.skip(i as int)[0] == steps@[i as int]@);
            assert(all.skip(i as int).drop_first() =~= all.skip(i + 1));
        }
        step(&mut parts, &steps[i]);
        i += 1;
    }
    let mut res = string_of(&b, 0, len);
    proof {
        assert(res@ =~= base@.take(len as int));
        assert(all.skip(i as int) =~= seq![]);
        assert(texts(parts@).len() == parts@.len());
    }
    if parts.len() > 0 || rooted || b.len() > len {
        res.append("\\");
        res.append(join_texts(&parts, "\\").as_str());
    }
    res
}

/// Joins two paths.
pub fn join(platform: Platform, base: &str, part: &str) -> (res: String)
    ensures
        res@ == joined_path(platform, base@, part@),
{
    let b = chars_of(base);
    let p = chars_of(part);
    if is_absolute(platform, part) || prefix(platform, &p).is_some() {
        return part.to_owned();
    }
    let (kind, len) = match prefix(platform, &b) {
        Some((kind, len)) => (Some(kind), len),
        None => (None, 0usize),
    };
    if let Some(PrefixKind::Verbatim) = kind {
        if p.len() > 0 {
            return join_verbatim(base, part);
        }
    }
    proof {
        assert(p@.skip(0) =~= p@);
    }
    if rooted_at(platform, &p, 0) {
        let mut res = string_of(&b, 0, len);
        res.append(part);
        proof {
            assert(base@.subrange(0, len as int) =~= base@.take(len as int));
        }
        return res;
    }
    let bare_drive = match kind {
        Some(PrefixKind::Drive) => b.len() == len,
        _ => false,
    };
    let mut res = base.to_owned();
    if !(b.len() == 0 || char_is_separator(platform, b[b.len() - 1]) || bare_drive) {
        res.append(
            if platform == Platform::Windows {
                "\\"
            } else {
                "/"
            },
        );
    }
    res.append(part);
    res
}

/// Joins two parts below `base`.
pub fn join2(platform: Platform, base: &str, first: &str, second: &str) -> (res: String)
    ensures
        res@ == joined_path(platform, joined_path(platform, base@, first@), second@),
{
    join(platform, join(platform, base, first).as_str(), second)
}

/// `path` with forward slashes, as the build tools take it on every platform.
pub fn posix(path: &str) -> (res: String)
    ensures
        res@ == posix_of(path@),
{
    replace_char(path, '\\', "/")
}

/// The length of a file name, from `start` to `end`, without its extension.
fn stem_length(cs: &Vec<char>, start: usize, end: usize) -> (res: usize)
    requires
        start <= end <= cs.len(),
    ensures
        res == stem_len(cs@.subrange(start as int, end as int)),
        res <= end - start,
{
    let ghost name = cs@.subrange(start as int, end as int);
    let ghost is_dot = |c: char| c == '.';
    let mut i: usize = end;
    proof {
        assert(name.take(name.len() as int) =~= name);
    }
    while i > start && cs[i - 1] != '.'
        invariant
            start <= i <= end <= cs.len(),
            name == cs@.subrange(start as int, end as int),
            is_dot == (|c: char| c == '.'),
            last_index(name, is_dot) == last_index(name.take(i - start), is_dot),
        decreases i,
    {
        proof {
            assert(name.take(i - start).drop_last() =~= name.take(i - start - 1));
            assert(name.take(i - start).last() == cs@[i - 1]);
        }
        i -= 1;
    }
    proof {
        if i > start {
            assert(name.take(i - start).last() == cs@[i - 1]);
        } else {
            assert(name.take(0) =~= seq![]);
        }
    }
    if i > start && i - start > 1 {
        i - start - 1
    } else {
        end - start
    }
}

/// The path of a program: with the extension programs have on the platform.
pub fn program_path(platform: Platform, path: &str) -> (res: String)
    ensures
        res@ == program_of(platform, path@),
{
    proof {
        reveal(program_of);
    }
    if platform != Platform::Windows {
        return path.to_owned();
    }
    let cs = chars_of(path);
    let (verbatim, class, head) = layout(platform, &cs);
    let ghost rest = path@.skip(head as int);
    let mut end: usize = cs.len();
    proof {
        assert(rest.take(rest.len() as int) =~= rest);
    }
    while end > head && (char_in(class, cs[end - 1]) || (!verbatim && cs[end - 1] == '.' && (end - head
        == 1 || char_in(class, cs[end - 2]))))
        invariant
            head <= end <= cs.len(),
            cs@ == path@,
            rest == path@.skip(head as int),
            without_tail(rest, verbatim, class) == without_tail(
                rest.take(end - head),
                verbatim,
                class,
            ),
        decreases end,
    {
        proof {
            let tail = rest.take(end - head);
            assert(tail.drop_last() =~= rest.take(end - head - 1));
            assert(tail.last() == cs@[end - 1]);
            if end - head > 1 {
                assert(tail[tail.len() - 2] == cs@[end - 2]);
            }
        }
        end -= 1;
    }
    let ghost body = rest.take(end - head);
    proof {
        if end > head {
            assert(body.last() == cs@[end - 1]);
            if end - head > 1 {
                assert(body[body.len() - 2] == cs@[end - 2]);
            }
        }
        assert(without_tail(rest, verbatim, class) == body);
    }
    if end == head {
        return path.to_owned();
    }
    let ghost cuts = |c: char| in_class(class, c);
    let mut start: usize = end;
    proof {
        assert(body.take(body.len() as int) =~= body);
    }
    while start > head && !char_in(class, cs[start - 1])
        invariant
            head <= start <= end <= cs.len(),
            cs@ == path@,
            rest == path@.skip(head as int),
            body == rest.take(end - head),
            cuts == (|c: char| in_class(class, c)),
            last_index(body, cuts) == last_index(body.take(start - head), cuts),
        decreases start,
    {
        proof {
            assert(body.take(start - head).drop_last() =~= body.take(start - head - 1));
            assert(body.take(start - head).last() == cs@[start - 1]);
        }
        start -= 1;
    }
    proof {
        if start > head {
            assert(body.take(start - head).last() == cs@[start - 1]);
        } else {
            assert(body.take(0) =~= seq![]);
        }
        assert(last_index(body, cuts) + 1 == start - head);
    }
    let name = string_of(&cs, start, end);
    proof {
        assert(name@ =~= body.skip(start - head));
    }
    if equal(name.as_str(), ".") || equal(name.as_str(), "..") {
        return path.to_owned();
    }
    let stem = stem_length(&cs, start, end);
    let mut res = string_of(&cs, 0, start + stem);
    proof {
        assert(res@ =~= path@.take(start + stem));
    }
    res.append(".exe");
    res
}

proof fn lemma_last_index(s: Seq<char>, p: spec_fn(char) -> bool, n: int)
    requires
        -1 <= n < s.len(),
        n >= 0 ==> p(s[n]),
        forall|i: int| n < i < s.len() ==> !p(#[trigger] s[i]),
    ensures
        last_index(s, p) == n,
    decreases s.len(),
{
    if s.len() > 0 && n < s.len() - 1 {
        let front = s.drop_last();
        assert(!p(s[s.len() - 1]));
        assert forall|i: int| n < i < front.len() implies !p(#[trigger] front[i]) by {
            assert(front[i] == s[i]);
        }
        lemma_last_index(front, p, n);
    }
}

proof fn lemma_joined_on_a_drive(dir: Seq<char>, name: Seq<char>)
    requires
        name.len() > 0,
        !is_separator(Platform::Windows, name[0]),
        !has_drive(name),
        has_drive(dir),
    ensures
        ({
            let path = joined_path(Platform::Windows, dir, name);
            let front = path.len() - name.len();
            &&& path == path.take(front) + name
            &&& path.take(dir.len() as int) == dir
            &&& dir.len() <= front
            &&& front == 2 || is_separator(Platform::Windows, path[front - 1])
            &&& prefix_of(Platform::Windows, path) == Some((PrefixKind::Drive, 2int))
        }),
{
    let windows = Platform::Windows;
    let path = joined_path(windows, dir, name);
    reveal_strlit("\\");
    assert(prefix_of(windows, name) is None);
    assert(prefix_of(windows, dir) == Some((PrefixKind::Drive, 2int)));
    if dir.len() == 2 || is_separator(windows, dir.last()) {
        assert(path == dir + name);
    } else {
        assert(path == dir + "\\"@ + name);
    }
    let front = path.len() - name.len();
    assert(path =~= path.take(front) + name);
    assert(path.take(dir.len() as int) =~= dir);
    assert(path[0] == dir[0] && path[1] == dir[1]);
}

/// A program in a directory on a drive has its name, with the extension of programs in place of its own,
/// at the end of its path; elsewhere than on Windows it has just its name.
pub proof fn law_programs_have_their_extension(
    platform: Platform,
    dir: Seq<char>,
    name: Seq<char>,
)
    requires
        name.len() > 0,
        is_name(name),
        forall|i: int| 0 <= i < name.len() ==> !is_separator(platform, #[trigger] name[i]),
        !has_drive(name),
    ensures
        ({
            let path = joined_path(platform, dir, name);
            let program = program_of(platform, path);
            &&& platform != Platform::Windows ==> program == path
            &&& platform == Platform::Windows && has_drive(dir) ==> program == path.take(
                path.len() - name.len() + stem_len(name),
            ) + ".exe"@
        }),
{
    reveal(program_of);
    if platform == Platform::Windows && has_drive(dir) {
        let path = joined_path(platform, dir, name);
        let class = Class::PathSeparator;
        assert(!is_separator(platform, name[0]));
        lemma_joined_on_a_drive(dir, name);
        let front = path.len() - name.len();
        assert(path.skip(front) =~= name);
        assert(path[front] == name[0]);
        assert(path.skip(2)[0] == path[2]);
        let head = head_len(platform, path);
        assert(head <= front);
        let body = path.skip(head);
        let last = name.len() - 1;
        assert(body.last() == name[last]);
        assert(!is_separator(platform, name[last]));
        reveal_strlit(".");
        if body.last() == '.' {
            if name.len() == 1 {
                assert(name =~= "."@);
            }
            assert(body[body.len() - 2] == name[last - 1]);
            assert(!is_separator(platform, name[last - 1]));
        }
        assert(without_tail(body, false, class) == body);
        let cuts = |c: char| in_class(class, c);
        let at = front - head;
        assert forall|i: int| at <= i < body.len() implies !cuts(#[trigger] body[i]) by {
            assert(body[i] == name[i - at]);
            assert(!is_separator(platform, name[i - at]));
        }
        if at > 0 {
            assert(body[at - 1] == path[front - 1]);
            assert(cuts(body[at - 1]));
        }
        lemma_last_index(body, cuts, at - 1);
        assert(body.skip(at) =~= name);
    }
}

} // verus!
