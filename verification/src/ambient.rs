//! Composing the tool's flags with those the user has set.

use crate::build_env::BuildEnv;
use crate::ordered::StringMap;
use crate::shell::{resolved, FLAG_SEPARATOR};
use crate::text::{
    cat2, cat3, cat7, contains, copies, equal, has_class, has_slice, join, joined,
    lemma_split_undoes_join, pieces, split, split_whitespace, texts, words, Class,
};
use vstd::prelude::*;

verus! {

/// The flags for rustc the user has set: the encoded form wins over the plain one.
pub open spec fn ambient_rustflags_of(ambient: Map<Seq<char>, Seq<char>>) -> Seq<Seq<char>> {
    if ambient.contains_key("CARGO_ENCODED_RUSTFLAGS"@) {
        encoded_flags(ambient["CARGO_ENCODED_RUSTFLAGS"@])
    } else if ambient.contains_key("RUSTFLAGS"@) {
        words(ambient["RUSTFLAGS"@])
    } else {
        seq![]
    }
}

/// The flags of an encoded list; empty ones are left out.
pub open spec fn encoded_flags(list: Seq<char>) -> Seq<Seq<char>> {
    pieces(list, Class::Is('\u{1f}')).filter(|flag: Seq<char>| flag.len() > 0)
}

/// Whether `needle` occurs in `haystack` without a gap.
pub open spec fn has_sequence(haystack: Seq<Seq<char>>, needle: Seq<Seq<char>>) -> bool {
    exists|i: int|
        0 <= i <= haystack.len() - needle.len() && #[trigger] haystack.subrange(
            i,
            i + needle.len(),
        ) == needle
}

/// The tool's flags, then the user's; the user's alone where they have the tool's in them already.
pub open spec fn composed(tool: Seq<Seq<char>>, user: Seq<Seq<char>>) -> Seq<Seq<char>> {
    if has_sequence(user, tool) {
        user
    } else {
        tool + user
    }
}

fn split_encoded(list: &str) -> (res: Vec<String>)
    ensures
        texts(res@) == encoded_flags(list@),
{
    let ghost keep = |flag: Seq<char>| flag.len() > 0;
    let all = split(list, Class::Is('\u{1f}'));
    let ghost seqs = texts(all@);
    let mut res: Vec<String> = Vec::new();
    let mut i: usize = 0;
    proof {
        reveal(Seq::filter);
        assert(seqs.take(0).filter(keep) =~= seq![]);
        assert(texts(res@) =~= seq![]);
    }
    while i < all.len()
        invariant
            i <= all.len(),
            seqs == texts(all@),
            keep == (|flag: Seq<char>| flag.len() > 0),
            texts(res@) == seqs.take(i as int).filter(keep),
        decreases all.len() - i,
    {
        let ghost before = texts(res@);
        proof {
            assert(seqs.take(i + 1).drop_last() =~= seqs.take(i as int));
            assert(seqs.take(i + 1).last() == all@[i as int]@);
            crate::sort::lemma_filter_last(seqs.take(i + 1), keep);
        }
        if !all[i].as_str().is_empty() {
            res.push(all[i].clone());
            proof {
                assert(texts(res@) =~= before.push(all@[i as int]@));
            }
        }
        i += 1;
    }
    proof {
        assert(seqs.take(i as int) =~= seqs);
    }
    res
}

/// The flags for rustc the user has set.
pub fn ambient_rustflags(ambient: &StringMap) -> (res: Vec<String>)
    ensures
        texts(res@) == ambient_rustflags_of(ambient@),
{
    if let Some(encoded) = ambient.get("CARGO_ENCODED_RUSTFLAGS") {
        split_encoded(encoded.as_str())
    } else if let Some(plain) = ambient.get("RUSTFLAGS") {
        split_whitespace(plain.as_str())
    } else {
        let none: Vec<String> = Vec::new();
        proof {
            assert(texts(none@) =~= seq![]);
        }
        none
    }
}

fn sequence_at(haystack: &Vec<String>, at: usize, needle: &Vec<String>) -> (res: bool)
    requires
        at + needle.len() <= haystack.len(),
    ensures
        res == (texts(haystack@).subrange(at as int, at + needle.len()) == texts(needle@)),
{
    let ghost window = texts(haystack@).subrange(at as int, at + needle.len());
    let mut k: usize = 0;
    while k < needle.len()
        invariant
            k <= needle.len(),
            at + needle.len() <= haystack.len(),
            window == texts(haystack@).subrange(at as int, at + needle.len()),
            forall|j: int| 0 <= j < k ==> #[trigger] window[j] == texts(needle@)[j],
        decreases needle.len() - k,
    {
        proof {
            assert(window[k as int] == haystack@[at + k]@);
            assert(texts(needle@)[k as int] == needle@[k as int]@);
        }
        if !equal(haystack[at + k].as_str(), needle[k].as_str()) {
            return false;
        }
        k += 1;
    }
    proof {
        assert(window =~= texts(needle@));
    }
    true
}

/// Whether `needle` occurs in `haystack` without a gap.
pub fn contains_sequence(haystack: &Vec<String>, needle: &Vec<String>) -> (res: bool)
    ensures
        res == has_sequence(texts(haystack@), texts(needle@)),
{
    let ghost all = texts(haystack@);
    let ghost part = texts(needle@);
    if needle.len() > haystack.len() {
        return false;
    }
    let last: usize = haystack.len() - needle.len();
    let mut i: usize = 0;
    while i < last
        invariant
            i <= last,
            last == haystack.len() - needle.len(),
            all == texts(haystack@),
            part == texts(needle@),
            forall|k: int| 0 <= k < i ==> #[trigger] all.subrange(k, k + part.len()) != part,
        decreases last - i,
    {
        if sequence_at(haystack, i, needle) {
            proof {
                assert(all.subrange(i as int, i + part.len()) == part);
            }
            return true;
        }
        i += 1;
    }
    proof {
        assert(all.subrange(last as int, last + part.len()) == part || forall|k: int|
            0 <= k <= last ==> #[trigger] all.subrange(k, k + part.len()) != part);
    }
    sequence_at(haystack, last, needle)
}

fn compose(tool: &Vec<String>, user: Vec<String>) -> (res: Vec<String>)
    ensures
        texts(res@) == composed(texts(tool@), texts(user@)),
{
    if contains_sequence(&user, tool) {
        return user;
    }
    let mut res = copies(tool);
    let ghost front = texts(tool@);
    let mut i: usize = 0;
    proof {
        assert(front + texts(user@).take(0) =~= front);
    }
    while i < user.len()
        invariant
            i <= user.len(),
            texts(res@) == front + texts(user@).take(i as int),
        decreases user.len() - i,
    {
        let ghost was = texts(res@);
        res.push(user[i].clone());
        proof {
            assert(texts(res@) =~= was.push(user@[i as int]@));
            assert(texts(user@).take(i + 1) =~= texts(user@).take(i as int).push(user@[i as int]@));
            assert(front + texts(user@).take(i + 1) =~= was.push(user@[i as int]@));
        }
        i += 1;
    }
    proof {
        assert(texts(user@).take(i as int) =~= texts(user@));
    }
    res
}

/// The value of a variable that is set to something.
pub open spec fn set_value(env: Map<Seq<char>, Seq<char>>, name: Seq<char>) -> Option<Seq<char>> {
    if env.contains_key(name) && env[name].len() > 0 {
        Some(env[name])
    } else {
        None
    }
}

/// The tool's flags followed by the user's; the user's alone where they have the tool's in them
/// already.
pub open spec fn folded(tool: Seq<char>, user: Seq<char>) -> Seq<char> {
    if has_slice(user, tool) {
        user
    } else {
        tool + " "@ + user
    }
}

/// The environment with what the user has set `name` to folded in, if the tool sets it.
pub open spec fn fold_one(
    env: Map<Seq<char>, Seq<char>>,
    ambient: Map<Seq<char>, Seq<char>>,
    name: Seq<char>,
) -> Map<Seq<char>, Seq<char>> {
    match set_value(ambient, name) {
        Some(user) => if env.contains_key(name) {
            env.insert(name, folded(env[name], user))
        } else {
            env
        },
        None => env,
    }
}

/// The warning that flags of the user have no effect.
pub open spec fn masked_warning(name: Seq<char>, plain: Seq<char>) -> Seq<char> {
    "$"@ + plain + " is set, but `cargo ohos` sets $"@ + name
        + " and build scripts use the most specific variable only; put the flags in $"@ + name
        + " to compose"@
}

/// What is warned about for one variable: that the general variable `plain` is set, and masked by
/// the one the tool sets.
pub open spec fn warn_one(
    env: Map<Seq<char>, Seq<char>>,
    ambient: Map<Seq<char>, Seq<char>>,
    name: Seq<char>,
    plain: Seq<char>,
) -> Seq<Seq<char>> {
    if env.contains_key(name) && set_value(ambient, name) is None && set_value(ambient, plain)
        is Some {
        seq![masked_warning(name, plain)]
    } else {
        seq![]
    }
}

/// The environment with the user's flags folded in.
pub open spec fn fold_all(
    env: Map<Seq<char>, Seq<char>>,
    ambient: Map<Seq<char>, Seq<char>>,
    bindgen_var: Seq<char>,
) -> Map<Seq<char>, Seq<char>> {
    let c = fold_one(env, ambient, "TARGET_CFLAGS"@);
    let cxx = fold_one(c, ambient, "TARGET_CXXFLAGS"@);
    let cpp = fold_one(cxx, ambient, "TARGET_CPPFLAGS"@);
    fold_one(cpp, ambient, bindgen_var)
}

/// What is warned about when the user's flags are folded in.
pub open spec fn warn_all(
    env: Map<Seq<char>, Seq<char>>,
    ambient: Map<Seq<char>, Seq<char>>,
    bindgen_var: Seq<char>,
) -> Seq<Seq<char>> {
    warn_one(env, ambient, "TARGET_CFLAGS"@, "CFLAGS"@) + warn_one(
        env,
        ambient,
        "TARGET_CXXFLAGS"@,
        "CXXFLAGS"@,
    ) + warn_one(env, ambient, "TARGET_CPPFLAGS"@, "CPPFLAGS"@) + warn_one(
        env,
        ambient,
        bindgen_var,
        "BINDGEN_EXTRA_CLANG_ARGS"@,
    )
}

fn set_in(env: &StringMap, name: &str) -> (res: Option<String>)
    ensures
        crate::text::opt_text(res) == set_value(env@, name@),
{
    match env.get(name) {
        Some(value) => if value.as_str().is_empty() {
            None
        } else {
            Some(value)
        },
        None => None,
    }
}

fn fold_variable(
    env: &mut StringMap,
    warnings: &mut Vec<String>,
    ambient: &StringMap,
    name: &str,
    plain: &str,
)
    ensures
        final(env)@ == fold_one(old(env)@, ambient@, name@),
        texts(final(warnings)@) == texts(old(warnings)@) + warn_one(
            old(env)@,
            ambient@,
            name@,
            plain@,
        ),
        final(env)@.dom() == old(env)@.dom(),
{
    let ghost before = texts(warnings@);
    proof {
        assert(before + Seq::<Seq<char>>::empty() =~= before);
    }
    let tool = match env.get(name) {
        Some(tool) => tool,
        None => return,
    };
    match set_in(ambient, name) {
        Some(user) => {
            let value = if contains(user.as_str(), tool.as_str()) {
                user
            } else {
                cat3(tool.as_str(), " ", user.as_str())
            };
            let ghost old_dom = env@.dom();
            env.insert(name.to_owned(), value);
            proof {
                assert(env@.dom() =~= old_dom);
            }
        },
        None => {
            if set_in(ambient, plain).is_some() {
                warnings.push(
                    cat7(
                        "$",
                        plain,
                        " is set, but `cargo ohos` sets $",
                        name,
                        " and build scripts use the most specific variable only; put the flags in $",
                        name,
                        " to compose",
                    ),
                );
                proof {
                    assert(texts(warnings@) =~= before + seq![masked_warning(name@, plain@)]);
                }
            }
        },
    }
}

/// Folds the flags the user has set into the environment; the result is what to warn about.
/// Flags of the user override defaults where order matters, so they come last.
pub fn fold_ambient_flags(env: &mut StringMap, bindgen_var: &str, ambient: &StringMap) -> (res: Vec<
    String,
>)
    ensures
        final(env)@ == fold_all(old(env)@, ambient@, bindgen_var@),
        texts(res@) == warn_all(old(env)@, ambient@, bindgen_var@),
{
    let ghost start = env@;
    let mut warnings: Vec<String> = Vec::new();
    proof {
        assert(texts(warnings@) =~= seq![]);
    }
    fold_variable(env, &mut warnings, ambient, "TARGET_CFLAGS", "CFLAGS");
    proof {
        assert(texts(warnings@) =~= warn_one(start, ambient@, "TARGET_CFLAGS"@, "CFLAGS"@));
    }
    fold_variable(env, &mut warnings, ambient, "TARGET_CXXFLAGS", "CXXFLAGS");
    fold_variable(env, &mut warnings, ambient, "TARGET_CPPFLAGS", "CPPFLAGS");
    fold_variable(env, &mut warnings, ambient, bindgen_var, "BINDGEN_EXTRA_CLANG_ARGS");
    proof {
        let e1 = fold_one(start, ambient@, "TARGET_CFLAGS"@);
        let e2 = fold_one(e1, ambient@, "TARGET_CXXFLAGS"@);
        let e3 = fold_one(e2, ambient@, "TARGET_CPPFLAGS"@);
        assert(e1.dom() =~= start.dom());
        assert(e2.dom() =~= start.dom());
        assert(e3.dom() =~= start.dom());
    }
    warnings
}

/// The environment cargo is run with.
pub open spec fn passthrough(
    env: Map<Seq<char>, Seq<char>>,
    rustflags: Seq<Seq<char>>,
    bindgen_var: Seq<char>,
    ambient: Map<Seq<char>, Seq<char>>,
) -> Map<Seq<char>, Seq<char>> {
    fold_all(
        resolved(env, composed(rustflags, ambient_rustflags_of(ambient))),
        ambient,
        bindgen_var,
    )
}

pub open spec fn bindgen_variable(build_env: BuildEnv) -> Seq<char> {
    "BINDGEN_EXTRA_CLANG_ARGS_"@ + build_env.target.rust_underscored()
}

/// The environment cargo is run with: `env` and the flags for rustc, with the user's flags folded in.
/// The second part is what to warn about.
pub fn passthrough_env(build_env: &BuildEnv, env: StringMap, ambient: &StringMap) -> (res: (
    StringMap,
    Vec<String>,
))
    ensures
        res.0@ == passthrough(
            env@,
            texts(build_env.flags.rustflags@),
            bindgen_variable(*build_env),
            ambient@,
        ),
        texts(res.1@) == warn_all(
            resolved(env@, texts(build_env.flags.rustflags@)),
            ambient@,
            bindgen_variable(*build_env),
        ),
{
    let ghost start = env@;
    let mut all = env;
    let rustflags = compose(&build_env.flags.rustflags, ambient_rustflags(ambient));
    all.insert("CARGO_ENCODED_RUSTFLAGS".to_owned(), join(&rustflags, FLAG_SEPARATOR));
    proof {
        let tool = texts(build_env.flags.rustflags@);
        assert(all@ == resolved(start, composed(tool, ambient_rustflags_of(ambient@))));
        assert(all@.dom() =~= resolved(start, tool).dom());
    }
    let bindgen_var = cat2(
        "BINDGEN_EXTRA_CLANG_ARGS_",
        build_env.target.rust_triple_underscored().as_str(),
    );
    proof {
        let tool = texts(build_env.flags.rustflags@);
        lemma_same_warnings(all@, resolved(start, tool), ambient@, bindgen_var@);
    }
    let warnings = fold_ambient_flags(&mut all, bindgen_var.as_str(), ambient);
    (all, warnings)
}

/// What is warned about depends only on which variables the tool sets.
proof fn lemma_same_warnings(
    a: Map<Seq<char>, Seq<char>>,
    b: Map<Seq<char>, Seq<char>>,
    ambient: Map<Seq<char>, Seq<char>>,
    bindgen_var: Seq<char>,
)
    requires
        a.dom() == b.dom(),
    ensures
        warn_all(a, ambient, bindgen_var) == warn_all(b, ambient, bindgen_var),
{
    assert forall|name: Seq<char>| #[trigger] a.contains_key(name) == b.contains_key(name) by {
        assert(a.dom().contains(name) == b.dom().contains(name));
    }
}

/// Composing flags twice is composing them once: an environment that went through the tool already,
/// such as that of a build script which runs it again, is not added to.
pub proof fn law_composing_is_idempotent(tool: Seq<Seq<char>>, user: Seq<Seq<char>>)
    ensures
        composed(tool, composed(tool, user)) == composed(tool, user),
{
    if !has_sequence(user, tool) {
        let all = tool + user;
        assert(all.subrange(0, 0int + tool.len()) =~= tool);
        assert(has_sequence(all, tool));
    }
}

/// The tool's flags come first and the user's last, unless the user's have the tool's in them; either
/// way none of them is lost.
pub proof fn law_composed_flags_hold_both(tool: Seq<Seq<char>>, user: Seq<Seq<char>>)
    ensures
        user.is_suffix_of(composed(tool, user)),
        has_sequence(composed(tool, user), tool),
{
    let all = composed(tool, user);
    if has_sequence(user, tool) {
        assert(user.is_suffix_of(user));
    } else {
        assert(all.subrange(0, 0int + tool.len()) =~= tool);
        assert(all.subrange(all.len() - user.len(), all.len() as int) =~= user);
    }
}

/// Folding twice is folding once, and the result ends with what the user has set and holds what the
/// tool sets.
pub proof fn law_folding_is_idempotent(tool: Seq<char>, user: Seq<char>)
    ensures
        folded(tool, folded(tool, user)) == folded(tool, user),
        user.is_suffix_of(folded(tool, user)),
        has_slice(folded(tool, user), tool),
{
    let all = folded(tool, user);
    if has_slice(user, tool) {
        assert(user.is_suffix_of(user));
    } else {
        assert(all.subrange(0, 0int + tool.len()) =~= tool);
        assert(has_slice(all, tool));
        assert(all.subrange(all.len() - user.len(), all.len() as int) =~= user);
    }
}

/// The encoded list of flags reads as the flags it was made of, as long as none is empty or holds the
/// separator.
pub proof fn law_encoded_flags_are_read_back(flags: Seq<Seq<char>>)
    requires
        forall|i: int|
            0 <= i < flags.len() ==> (#[trigger] flags[i]).len() > 0 && !has_class(
                flags[i],
                Class::Is('\u{1f}'),
            ),
    ensures
        encoded_flags(joined(flags, "\u{1f}"@)) == flags,
{
    broadcast use vstd::seq_lib::group_filter_ensures;

    let keep = |flag: Seq<char>| flag.len() > 0;
    reveal_strlit("\u{1f}");
    assert("\u{1f}"@ =~= seq!['\u{1f}']);
    if flags.len() == 0 {
        let none = joined(flags, "\u{1f}"@);
        assert(none =~= seq![]);
        let cut = pieces(none, Class::Is('\u{1f}'));
        assert(cut =~= seq![none]);
        reveal(Seq::filter);
        assert(cut.drop_last() =~= seq![]);
        assert(cut.drop_last().filter(keep) =~= seq![]);
        assert(cut.filter(keep) =~= seq![]);
        assert(flags =~= seq![]);
    } else {
        lemma_split_undoes_join(flags, '\u{1f}');
        lemma_filter_all(flags, keep);
    }
}

proof fn lemma_filter_all(s: Seq<Seq<char>>, p: spec_fn(Seq<char>) -> bool)
    requires
        forall|i: int| 0 <= i < s.len() ==> p(#[trigger] s[i]),
    ensures
        s.filter(p) == s,
    decreases s.len(),
{
    if s.len() > 0 {
        let front = s.drop_last();
        assert forall|i: int| 0 <= i < front.len() implies p(#[trigger] front[i]) by {
            assert(front[i] == s[i]);
        }
        lemma_filter_all(front, p);
        crate::sort::lemma_filter_last(s, p);
        assert(p(s[s.len() - 1]));
        assert(front.push(s.last()) =~= s);
    } else {
        reveal(Seq::filter);
        assert(s.filter(p) =~= s);
    }
}

/// Folding touches only the variables it is about, and sets none that the tool does not set.
pub proof fn law_folding_sets_no_new_variables(
    env: Map<Seq<char>, Seq<char>>,
    ambient: Map<Seq<char>, Seq<char>>,
    bindgen_var: Seq<char>,
    name: Seq<char>,
)
    ensures
        fold_all(env, ambient, bindgen_var).contains_key(name) == env.contains_key(name),
        name != "TARGET_CFLAGS"@ && name != "TARGET_CXXFLAGS"@ && name != "TARGET_CPPFLAGS"@ && name
            != bindgen_var ==> fold_all(env, ambient, bindgen_var)[name] == env[name],
{
}

/// The general variables are not considered: what they are set to does not change the environment.
pub proof fn law_general_variables_are_not_considered(
    env: Map<Seq<char>, Seq<char>>,
    rustflags: Seq<Seq<char>>,
    bindgen_var: Seq<char>,
    ambient: Map<Seq<char>, Seq<char>>,
    plain: Seq<char>,
    value: Seq<char>,
)
    requires
        plain == "CFLAGS"@ || plain == "CXXFLAGS"@ || plain == "CPPFLAGS"@ || plain
            == "BINDGEN_EXTRA_CLANG_ARGS"@,
        bindgen_var != plain,
    ensures
        passthrough(env, rustflags, bindgen_var, ambient.insert(plain, value)) == passthrough(
            env,
            rustflags,
            bindgen_var,
            ambient,
        ),
{
    reveal_strlit("CFLAGS");
    reveal_strlit("CXXFLAGS");
    reveal_strlit("CPPFLAGS");
    reveal_strlit("BINDGEN_EXTRA_CLANG_ARGS");
    reveal_strlit("TARGET_CFLAGS");
    reveal_strlit("TARGET_CXXFLAGS");
    reveal_strlit("TARGET_CPPFLAGS");
    reveal_strlit("CARGO_ENCODED_RUSTFLAGS");
    reveal_strlit("RUSTFLAGS");
    assert(plain[0] != 'T' && plain[0] != 'R');
    assert("TARGET_CFLAGS"@[0] == 'T' && "TARGET_CXXFLAGS"@[0] == 'T');
    assert("TARGET_CPPFLAGS"@[0] == 'T' && "RUSTFLAGS"@[0] == 'R');
    assert("CARGO_ENCODED_RUSTFLAGS"@.len() == 23);
    let more = ambient.insert(plain, value);
    assert(ambient_rustflags_of(more) == ambient_rustflags_of(ambient));
    assert(set_value(more, "TARGET_CFLAGS"@) == set_value(ambient, "TARGET_CFLAGS"@));
    assert(set_value(more, "TARGET_CXXFLAGS"@) == set_value(ambient, "TARGET_CXXFLAGS"@));
    assert(set_value(more, "TARGET_CPPFLAGS"@) == set_value(ambient, "TARGET_CPPFLAGS"@));
    assert(set_value(more, bindgen_var) == set_value(ambient, bindgen_var));
}

} // verus!
