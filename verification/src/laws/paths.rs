//! Laws of paths.

use crate::download::safe_component;
use crate::path::{
    absolute, has_drive, is_verbatim, joined_path, last_name, path_parts, prefix_of, Platform,
    PrefixKind,
};
use vstd::prelude::*;

verus! {

/// A path that does not depend on the working directory begins with `/`; on Windows with a drive and a
/// separator, or with a server and a share.
pub proof fn law_absolute_paths(platform: Platform, path: Seq<char>)
    ensures
        platform != Platform::Windows ==> (absolute(platform, path) <==> path.len() > 0 && path[0] == '/'),
        platform == Platform::Windows && has_drive(path) ==> (absolute(platform, path) <==> path.len() > 2
            && (path[2] == '/' || path[2] == '\\')),
        platform == Platform::Windows && path.len() > 0 && path[0] != '/' && path[0] != '\\'
            && !has_drive(path) ==> !absolute(platform, path),
        platform == Platform::Windows && path.len() == 1 ==> !absolute(platform, path),
        has_drive(path) <==> path.len() >= 2 && path[1] == ':' && ('a' <= path[0] <= 'z' || 'A'
            <= path[0] <= 'Z'),
{
    if path.len() > 2 {
        assert(path.skip(2)[0] == path[2]);
    }
    if path.len() > 1 {
        assert(path.skip(1)[0] == path[1]);
    }
}

/// An absolute path stays what it is below every directory; a name is appended to the directory, with
/// one separator between them where the directory has none at its end.
pub proof fn law_joining_paths(platform: Platform, base: Seq<char>, part: Seq<char>)
    ensures
        absolute(platform, part) ==> joined_path(platform, base, part) == part,
        platform != Platform::Windows && !(part.len() > 0 && part[0] == '/') ==> {
            &&& base.len() == 0 || base.last() == '/' ==> joined_path(platform, base, part) == base + part
            &&& base.len() > 0 && base.last() != '/' ==> joined_path(platform, base, part) == base + seq![
                '/',
            ] + part
        },
        platform == Platform::Windows && safe_component(part) && !is_verbatim(platform, base) ==> {
            &&& base.len() > 0 && (base.last() == '/' || base.last() == '\\') ==> joined_path(
                platform,
                base,
                part,
            ) == base + part
            &&& base.len() > 2 && base.last() != '/' && base.last() != '\\' ==> joined_path(
                platform,
                base,
                part,
            ) == base + seq!['\\'] + part
            &&& base.len() == 2 && has_drive(base) ==> joined_path(platform, base, part) == base + part
            &&& base.len() == 0 ==> joined_path(platform, base, part) == part
        },
{
    reveal_strlit("/");
    reveal_strlit("\\");
    assert("/"@ =~= seq!['/']);
    assert("\\"@ =~= seq!['\\']);
    if safe_component(part) {
        assert(crate::download::safe_char(part[0]));
        if part.len() > 1 {
            assert(crate::download::safe_char(part[1]));
        }
        assert(prefix_of(platform, part) is None);
    }
    if base.len() == 0 {
        assert(base + part =~= part);
    }
    if platform == Platform::Windows && prefix_of(platform, base) == Some(
        (PrefixKind::Drive, base.len() as int),
    ) {
        reveal(crate::path::network_prefix);
        assert(base.len() == 2);
    }
}

/// The name of a file is the last part of its path, if that is one: `.` and `..` are none.
pub proof fn law_names_of_files(parts: Seq<Seq<char>>)
    ensures
        last_name(parts) is Some <==> parts.len() > 0 && parts.last() != "."@ && parts.last() != ".."@,
        last_name(parts) is Some ==> last_name(parts) == Some(parts.last()),
{
}

proof fn lemma_parts_of_a_name(name: Seq<char>)
    requires
        name.len() > 0,
        !name.contains('/'),
        name != "."@,
    ensures
        crate::text::pieces(name, crate::text::Class::Is('/')).filter(crate::path::is_part(false))
            == seq![name],
{
    let class = crate::text::Class::Is('/');
    assert(!crate::text::has_class(name, class)) by {
        assert forall|i: int| 0 <= i < name.len() implies !crate::text::in_class(
            class,
            #[trigger] name[i],
        ) by {
            assert(name.contains(name[i]));
        }
    }
    crate::laws::text::lemma_first_piece(name, '/', seq![], class);
    let says = crate::path::is_part(false);
    assert forall|i: int| 0 <= i < seq![name].len() implies says(#[trigger] seq![name][i]) by {}
    crate::laws::text::lemma_filter_keeps_all(seq![name], says);
}

/// What is behind the last separator of a path is its last part, and what is in front has the others.
pub proof fn law_parts_of_paths(platform: Platform, dir: Seq<char>, name: Seq<char>)
    requires
        platform != Platform::Windows,
        name.len() > 0,
        !name.contains('/'),
        name != "."@,
    ensures
        path_parts(platform, dir + seq!['/'] + name) == path_parts(platform, dir) + seq![name],
        path_parts(platform, name) == seq![name],
{
    let class = crate::text::Class::Is('/');
    let says = crate::path::is_part(false);
    let whole = dir + seq!['/'] + name;
    lemma_parts_of_a_name(name);
    assert(name.contains(name[0]));
    assert(name.skip(0) =~= name);
    assert(path_parts(platform, name) =~= seq![name]);
    assert(whole.skip(0) =~= whole);
    assert(dir.skip(0) =~= dir);
    if dir.len() == 0 {
        assert(whole[0] == '/');
        assert(whole.skip(1) =~= name);
        lemma_no_parts();
        assert(dir =~= Seq::<char>::empty());
        assert(path_parts(platform, dir) =~= seq![]);
        assert(seq![] + seq![name] =~= seq![name]);
    } else if dir[0] == '/' {
        assert(whole[0] == '/');
        let rest = dir.skip(1);
        assert(whole.skip(1) =~= rest + seq!['/'] + name);
        crate::laws::releases::lemma_pieces_of_both(rest, '/', name, class);
        Seq::<Seq<char>>::filter_distributes_over_add(
            crate::text::pieces(rest, class),
            crate::text::pieces(name, class),
            says,
        );
    } else {
        assert(whole[0] == dir[0]);
        crate::laws::releases::lemma_pieces_of_both(dir, '/', name, class);
        Seq::<Seq<char>>::filter_distributes_over_add(
            crate::text::pieces(dir, class),
            crate::text::pieces(name, class),
            says,
        );
    }
}

proof fn lemma_no_parts()
    ensures
        crate::text::pieces(Seq::<char>::empty(), crate::text::Class::Is('/')).filter(
            crate::path::is_part(false),
        ) == Seq::<Seq<char>>::empty(),
{
    let class = crate::text::Class::Is('/');
    let none = Seq::<char>::empty();
    let says = crate::path::is_part(false);
    assert(!crate::text::has_class(none, class));
    crate::laws::text::lemma_first_piece(none, '/', seq![], class);
    assert forall|i: int| 0 <= i < seq![none].len() implies !says(#[trigger] seq![none][i]) by {}
    crate::laws::text::lemma_filter_keeps_none(seq![none], says);
}

/// On Windows a server and a share make a path absolute, and stay where only what is below them is
/// replaced; a server alone does not.
pub proof fn law_shares(server: Seq<char>, share: Seq<char>, part: Seq<char>)
    requires
        server.len() > 0,
        share.len() > 0,
        !server.contains('/'),
        !server.contains('\\'),
        !share.contains('/'),
        !share.contains('\\'),
        server != seq!['?'],
        server != seq!['.'],
        prefix_of(Platform::Windows, seq!['\\'] + part) is None,
    ensures
        ({
            let windows = Platform::Windows;
            let base = seq!['\\', '\\'] + server + seq!['\\'] + share;
            &&& absolute(windows, base)
            &&& joined_path(windows, base, seq!['\\'] + part) == base + (seq!['\\'] + part)
            &&& !absolute(windows, seq!['\\', '\\'] + server)
        }),
{
    reveal(crate::path::network_prefix);
    let windows = Platform::Windows;
    let both = crate::text::Class::PathSeparator;
    let base = seq!['\\', '\\'] + server + seq!['\\'] + share;
    let alone = seq!['\\', '\\'] + server;
    lemma_holds_no_separator(server);
    lemma_holds_no_separator(share);
    lemma_not_verbatim(server, seq!['\\'] + share);
    lemma_not_verbatim(server, seq![]);
    assert(base =~= seq!['\\', '\\'] + server + (seq!['\\'] + share));
    assert(alone =~= seq!['\\', '\\'] + server + seq![]);
    assert(base.skip(1)[0] == '\\');
    assert(alone.skip(1)[0] == '\\');
    let end = 2 + server.len() as int;
    assert(base.skip(2) =~= server + (seq!['\\'] + share));
    crate::text::lemma_first_in_concat(server, seq!['\\'] + share, both);
    assert((seq!['\\'] + share)[0] == '\\');
    assert(crate::path::part_end(base, 2, both) == end);
    assert(base.skip(end + 1) =~= share);
    crate::text::lemma_first_in_concat(share, seq![], both);
    assert(share + seq![] =~= share);
    assert(crate::path::next_end(base, end, both) == base.len());
    assert(prefix_of(windows, base) == Some((PrefixKind::Share, base.len() as int)));
    assert(base.take(base.len() as int) =~= base);
    assert(alone.skip(2) =~= server);
    crate::text::lemma_first_in_concat(server, seq![], both);
    assert(server + seq![] =~= server);
    assert(crate::path::part_end(alone, 2, both) == alone.len());
}

proof fn lemma_holds_no_separator(s: Seq<char>)
    requires
        !s.contains('/'),
        !s.contains('\\'),
    ensures
        !crate::text::has_class(s, crate::text::Class::PathSeparator),
{
    assert forall|i: int| 0 <= i < s.len() implies !crate::text::in_class(
        crate::text::Class::PathSeparator,
        #[trigger] s[i],
    ) by {
        assert(s.contains(s[i]));
    }
}

proof fn lemma_not_verbatim(server: Seq<char>, rest: Seq<char>)
    requires
        server.len() > 0,
        !server.contains('/'),
        !server.contains('\\'),
        server != seq!['?'],
        server != seq!['.'],
        rest.len() == 0 || rest[0] == '\\',
    ensures
        ({
            let path = seq!['\\', '\\'] + server + rest;
            &&& !"\\\\?\\"@.is_prefix_of(path)
            &&& !(path.len() >= 4 && path[2] == '.' && (path[3] == '/' || path[3] == '\\'))
        }),
{
    reveal_strlit("\\\\?\\");
    let path = seq!['\\', '\\'] + server + rest;
    assert(path[2] == server[0]);
    if "\\\\?\\"@.is_prefix_of(path) {
        assert(path[2] == "\\\\?\\"@[2] && path[3] == "\\\\?\\"@[3]);
        if server.len() == 1 {
            assert(server =~= seq!['?']);
        } else {
            assert(path[3] == server[1]);
            assert(server.contains(server[1]));
        }
    }
    if path.len() >= 4 && path[2] == '.' && (path[3] == '/' || path[3] == '\\') {
        if server.len() == 1 {
            assert(server =~= seq!['.']);
        } else {
            assert(path[3] == server[1]);
            assert(server.contains(server[1]));
        }
    }
}

} // verus!
