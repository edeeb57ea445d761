//! Laws of composing the user's flags with the tool's own.

use crate::ambient::{composed, fold_all, has_sequence, masked_warning, passthrough, warn_all};
use crate::text::{has_slice, joined};
use vstd::prelude::*;

verus! {

/// Whether `name` is one of the variables that are composed.
pub open spec fn is_composed(name: Seq<char>, bindgen_var: Seq<char>) -> bool {
    ||| name == "TARGET_CFLAGS"@
    ||| name == "TARGET_CXXFLAGS"@
    ||| name == "TARGET_CPPFLAGS"@
    ||| name == bindgen_var
}

proof fn lemma_composed_names_differ()
    ensures
        "TARGET_CFLAGS"@ != "TARGET_CXXFLAGS"@,
        "TARGET_CFLAGS"@ != "TARGET_CPPFLAGS"@,
        "TARGET_CXXFLAGS"@ != "TARGET_CPPFLAGS"@,
        "TARGET_CFLAGS"@ != "CARGO_ENCODED_RUSTFLAGS"@,
        "TARGET_CXXFLAGS"@ != "CARGO_ENCODED_RUSTFLAGS"@,
        "TARGET_CPPFLAGS"@ != "CARGO_ENCODED_RUSTFLAGS"@,
{
    reveal_strlit("TARGET_CFLAGS");
    reveal_strlit("TARGET_CXXFLAGS");
    reveal_strlit("TARGET_CPPFLAGS");
    reveal_strlit("CARGO_ENCODED_RUSTFLAGS");
    assert("TARGET_CFLAGS"@[8] == 'F' && "TARGET_CXXFLAGS"@[8] == 'X' && "TARGET_CPPFLAGS"@[8] == 'P');
    assert("CARGO_ENCODED_RUSTFLAGS"@[0] == 'C' && "TARGET_CFLAGS"@[0] == 'T'
        && "TARGET_CXXFLAGS"@[0] == 'T' && "TARGET_CPPFLAGS"@[0] == 'T');
}

/// Each of the composed variables that the tool sets and the user sets too has the tool's flags, a
/// space, and the user's; unless the user's have the tool's in them already, which then are all. A
/// variable the user leaves unset or empty is the tool's, and every other variable too.
pub proof fn law_the_users_flags_come_last(
    env: Map<Seq<char>, Seq<char>>,
    ambient: Map<Seq<char>, Seq<char>>,
    bindgen_var: Seq<char>,
    name: Seq<char>,
)
    requires
        env.contains_key(name),
        bindgen_var != "TARGET_CFLAGS"@,
        bindgen_var != "TARGET_CXXFLAGS"@,
        bindgen_var != "TARGET_CPPFLAGS"@,
    ensures
        ({
            let all = fold_all(env, ambient, bindgen_var);
            let user = ambient[name];
            let given = is_composed(name, bindgen_var) && ambient.contains_key(name) && user.len() > 0;
            &&& all.contains_key(name)
            &&& !given ==> all[name] == env[name]
            &&& given && has_slice(user, env[name]) ==> all[name] == user
            &&& given && !has_slice(user, env[name]) ==> all[name] == env[name] + seq![' '] + user
        }),
{
    lemma_composed_names_differ();
    reveal_strlit(" ");
    assert(" "@ =~= seq![' ']);
}

/// The flags for rustc are the tool's and behind them the user's, unless the user's have the tool's in
/// them already, one after the other.
pub proof fn law_the_users_flags_for_rustc_come_last(
    tool: Seq<Seq<char>>,
    user: Seq<Seq<char>>,
    before: Seq<Seq<char>>,
    after: Seq<Seq<char>>,
)
    ensures
        !has_sequence(user, tool) ==> composed(tool, user) == tool + user,
        has_sequence(user, tool) ==> composed(tool, user) == user,
        has_sequence(before + tool + after, tool),
        has_sequence(user, tool) ==> exists|a: Seq<Seq<char>>, b: Seq<Seq<char>>|
            user == #[trigger] (a + tool + b),
{
    let all = before + tool + after;
    let at = before.len() as int;
    assert(all.subrange(at, at + tool.len()) =~= tool);
    if has_sequence(user, tool) {
        let i = choose|i: int|
            0 <= i <= user.len() - tool.len() && #[trigger] user.subrange(i, i + tool.len()) == tool;
        let a = user.take(i);
        let b = user.skip(i + tool.len());
        assert(user =~= a + tool + b);
    }
}

/// The environment cargo is given has the composed flags for rustc in the encoded variable, and each
/// variable of the build, composed where it is one that is.
pub proof fn law_cargo_is_given_composed_flags(
    env: Map<Seq<char>, Seq<char>>,
    rustflags: Seq<Seq<char>>,
    bindgen_var: Seq<char>,
    ambient: Map<Seq<char>, Seq<char>>,
    name: Seq<char>,
)
    requires
        bindgen_var != "CARGO_ENCODED_RUSTFLAGS"@,
    ensures
        ({
            let given = passthrough(env, rustflags, bindgen_var, ambient);
            let encoded = "CARGO_ENCODED_RUSTFLAGS"@;
            &&& given.contains_key(encoded)
            &&& given[encoded] == joined(
                composed(rustflags, crate::ambient::ambient_rustflags_of(ambient)),
                seq!['\u{1f}'],
            )
            &&& name != encoded ==> given.contains_key(name) == env.contains_key(name)
            &&& name != encoded && env.contains_key(name) ==> given[name] == fold_all(
                env,
                ambient,
                bindgen_var,
            )[name]
        }),
{
    lemma_composed_names_differ();
    reveal_strlit("\u{1f}");
    assert("\u{1f}"@ =~= seq!['\u{1f}']);
}

/// A general variable that is set, where the tool sets the one for the target and the user does not, is
/// masked: then there is a warning that names both, and otherwise there is none.
pub proof fn law_masked_variables_are_warned_about(
    env: Map<Seq<char>, Seq<char>>,
    ambient: Map<Seq<char>, Seq<char>>,
    bindgen_var: Seq<char>,
)
    ensures
        ({
            let warnings = warn_all(env, ambient, bindgen_var);
            let c = is_masked(env, ambient, "TARGET_CFLAGS"@, "CFLAGS"@);
            let cxx = is_masked(env, ambient, "TARGET_CXXFLAGS"@, "CXXFLAGS"@);
            let cpp = is_masked(env, ambient, "TARGET_CPPFLAGS"@, "CPPFLAGS"@);
            let bindgen = is_masked(env, ambient, bindgen_var, "BINDGEN_EXTRA_CLANG_ARGS"@);
            &&& c ==> warnings.contains(masked_warning("TARGET_CFLAGS"@, "CFLAGS"@))
            &&& cxx ==> warnings.contains(masked_warning("TARGET_CXXFLAGS"@, "CXXFLAGS"@))
            &&& cpp ==> warnings.contains(masked_warning("TARGET_CPPFLAGS"@, "CPPFLAGS"@))
            &&& bindgen ==> warnings.contains(
                masked_warning(bindgen_var, "BINDGEN_EXTRA_CLANG_ARGS"@),
            )
            &&& warnings.len() == count(c) + count(cxx) + count(cpp) + count(bindgen)
        }),
{
    let warnings = warn_all(env, ambient, bindgen_var);
    let one = crate::ambient::warn_one(env, ambient, "TARGET_CFLAGS"@, "CFLAGS"@);
    let two = crate::ambient::warn_one(env, ambient, "TARGET_CXXFLAGS"@, "CXXFLAGS"@);
    let three = crate::ambient::warn_one(env, ambient, "TARGET_CPPFLAGS"@, "CPPFLAGS"@);
    let four = crate::ambient::warn_one(env, ambient, bindgen_var, "BINDGEN_EXTRA_CLANG_ARGS"@);
    assert(warnings == one + two + three + four);
    if one.len() > 0 {
        assert(warnings[0] == one[0]);
    }
    if two.len() > 0 {
        assert(warnings[one.len() as int] == two[0]);
    }
    if three.len() > 0 {
        assert(warnings[(one.len() + two.len()) as int] == three[0]);
    }
    if four.len() > 0 {
        assert(warnings[(one.len() + two.len() + three.len()) as int] == four[0]);
    }
}

/// Whether the general variable `plain` is set where only the tool sets the one for the target.
pub open spec fn is_masked(
    env: Map<Seq<char>, Seq<char>>,
    ambient: Map<Seq<char>, Seq<char>>,
    name: Seq<char>,
    plain: Seq<char>,
) -> bool {
    &&& env.contains_key(name)
    &&& !(ambient.contains_key(name) && ambient[name].len() > 0)
    &&& ambient.contains_key(plain)
    &&& ambient[plain].len() > 0
}

pub open spec fn count(it_is: bool) -> nat {
    if it_is {
        1
    } else {
        0
    }
}

/// A warning about a masked variable names it and the one that masks it.
pub proof fn law_warnings_name_both_variables(name: Seq<char>, plain: Seq<char>)
    ensures
        has_slice(masked_warning(name, plain), seq!['$'] + plain + seq![' ']),
        has_slice(masked_warning(name, plain), seq!['$'] + name + seq![' ']),
{
    reveal_strlit("$");
    reveal_strlit(" is set, but `cargo ohos` sets $");
    reveal_strlit(
        " and build scripts use the most specific variable only; put the flags in $",
    );
    reveal_strlit(" to compose");
    let text = masked_warning(name, plain);
    let first = seq!['$'] + plain + seq![' '];
    let second = seq!['$'] + name + seq![' '];
    assert(text.subrange(0int, 0int + first.len()) =~= first);
    let at = 1 + plain.len() + " is set, but `cargo ohos` sets $"@.len() - 1;
    assert(text.subrange(at, at + second.len()) =~= second);
}

} // verus!
