//! Laws of what a shell is given.

use crate::build_env::BuildEnv;
use crate::shell::{
    assignment, has_spaced_flag, is_identifier, law_powershell_reads_values_back,
    law_sh_reads_values_back, powershell_text, quoted, script_is, sets, sh_word, shown, Script,
    Shell,
};
use crate::text::{has_class, lex_less, texts, words, Class};
use vstd::prelude::*;

verus! {

/// A shell is given a variable of the build exactly if its name is one that shells can set, with the
/// value it has; but the flags for rustc it is given as `RUSTFLAGS`, and not encoded.
pub proof fn law_shells_are_given_the_build(
    env: Map<Seq<char>, Seq<char>>,
    rustflags: Seq<Seq<char>>,
    name: Seq<char>,
)
    requires
        name != "RUSTFLAGS"@,
    ensures
        shown(env, rustflags).contains_key(name) <==> env.contains_key(name) && name
            != "CARGO_ENCODED_RUSTFLAGS"@ && is_settable(name),
        shown(env, rustflags).contains_key(name) ==> shown(env, rustflags)[name] == env[name],
{
    law_settable_names(name);
}

/// Whether shells can set a variable of this name.
pub open spec fn is_settable(name: Seq<char>) -> bool {
    &&& name.len() > 0
    &&& !('0' <= name[0] <= '9')
    &&& forall|i: int|
        0 <= i < name.len() ==> 'a' <= #[trigger] name[i] <= 'z' || 'A' <= name[i] <= 'Z' || '0'
            <= name[i] <= '9' || name[i] == '_'
}

/// Shells can set a variable exactly if its name is made of letters, digits and `_`, and begins with no
/// digit.
pub proof fn law_settable_names(name: Seq<char>)
    ensures
        is_identifier(name) <==> is_settable(name),
{
    if is_identifier(name) {
        assert forall|i: int| 0 <= i < name.len() implies 'a' <= #[trigger] name[i] <= 'z' || 'A'
            <= name[i] <= 'Z' || '0' <= name[i] <= '9' || name[i] == '_' by {
            assert(crate::shell::is_identifier_char(name[i]));
        }
    }
    if is_settable(name) {
        assert forall|i: int| 0 <= i < name.len() implies crate::shell::is_identifier_char(
            #[trigger] name[i],
        ) by {}
    }
}

/// Each line sets one variable, whatever its value holds: `export`, the name, `=`, and a word that a
/// POSIX shell reads as the value; or `$env:`, the name, ` = ` and a quoted text that PowerShell reads
/// as the value.
pub proof fn law_lines_set_variables(name: Seq<char>, value: Seq<char>)
    ensures
        exists|word: Seq<char>|
            assignment(Shell::Sh, name, value) == #[trigger] ("export "@ + name + "="@ + word)
                && sh_word(word, false) == value,
        exists|text: Seq<char>|
            assignment(Shell::Powershell, name, value) == #[trigger] ("$env:"@ + name + " = '"@ + text
                + "'"@) && powershell_text(text) == value && quotes_are_doubled(text),
{
    law_sh_reads_values_back(value);
    law_powershell_reads_values_back(value);
    reveal_strlit("='");
    reveal_strlit("=");
    reveal_strlit("'");
    let word = "'"@ + quoted(Shell::Sh, value) + "'"@;
    assert(assignment(Shell::Sh, name, value) =~= "export "@ + name + "="@ + word);
    let text = quoted(Shell::Powershell, value);
    lemma_quotes_are_doubled(value);
    assert(assignment(Shell::Powershell, name, value) == "$env:"@ + name + " = '"@ + text + "'"@);
}

/// Whether no quotation mark in a text ends it early: each is followed by another.
pub open spec fn quotes_are_doubled(text: Seq<char>) -> bool
    decreases text.len(),
{
    if text.len() == 0 {
        true
    } else if text[0] == '\'' {
        text.len() > 1 && text[1] == '\'' && quotes_are_doubled(text.skip(2))
    } else {
        quotes_are_doubled(text.drop_first())
    }
}

proof fn lemma_quotes_are_doubled(value: Seq<char>)
    ensures
        quotes_are_doubled(quoted(Shell::Powershell, value)),
    decreases value.len(),
{
    reveal_strlit("''");
    if value.len() > 0 {
        let rest = value.drop_first();
        let text = quoted(Shell::Powershell, value);
        let after = quoted(Shell::Powershell, rest);
        lemma_quotes_are_doubled(rest);
        crate::laws::text::law_replacing(seq![value[0]], rest, value[0], '\'', "''"@);
        assert(seq![value[0]] + rest =~= value);
        if value[0] == '\'' {
            assert(text =~= "''"@ + after);
            assert(text.skip(2) =~= after);
        } else {
            assert(text =~= seq![value[0]] + after);
            assert(text.drop_first() =~= after);
        }
    }
}

/// A script has one line for each variable, and no two for the same; the lines are ordered by name.
pub proof fn law_each_variable_is_set_once(
    shell: Shell,
    env: Map<Seq<char>, Seq<char>>,
    lines: Seq<Seq<char>>,
)
    requires
        sets(shell, env, lines),
    ensures
        exists|names: Seq<Seq<char>>|
            {
                &&& #[trigger] names.no_duplicates()
                &&& names.len() == lines.len()
                &&& forall|i: int|
                    0 <= i < names.len() ==> env.contains_key(#[trigger] names[i]) && lines[i]
                        == assignment(shell, names[i], env[names[i]])
                &&& forall|name: Seq<char>| #[trigger]
                    env.contains_key(name) ==> names.contains(name)
                &&& forall|i: int, j: int|
                    0 <= i < j < names.len() ==> lex_less(#[trigger] names[i], #[trigger] names[j])
            },
{
    let keys = choose|keys: Seq<Seq<char>>| #[trigger]
        crate::ordered::sorted(keys) && keys.to_set() == env.dom() && lines == keys.map_values(
            |name: Seq<char>| assignment(shell, name, env[name]),
        );
    assert(keys.no_duplicates()) by {
        assert forall|i: int, j: int| 0 <= i < keys.len() && 0 <= j < keys.len() && i != j implies keys[i]
            != keys[j] by {
            crate::text::lemma_lex_less_irreflexive(keys[i]);
            if i < j {
                assert(lex_less(keys[i], keys[j]));
            } else {
                assert(lex_less(keys[j], keys[i]));
            }
        }
    }
    assert forall|i: int| 0 <= i < keys.len() implies env.contains_key(#[trigger] keys[i]) && lines[i]
        == assignment(shell, keys[i], env[keys[i]]) by {
        assert(keys.to_set().contains(keys[i]));
    }
    assert forall|name: Seq<char>| #[trigger] env.contains_key(name) implies keys.contains(name) by {
        assert(keys.to_set().contains(name));
    }
}

/// Flags with whitespace in them cannot be told to a shell: it is such flags that are warned about.
pub proof fn law_spaced_flags(flags: Seq<Seq<char>>)
    ensures
        !has_spaced_flag(flags) <==> forall|i: int|
            0 <= i < flags.len() ==> !has_class(#[trigger] flags[i], Class::Whitespace),
{
}

/// A script sets each variable of the build that a shell can set, and the flags for rustc, which it reads
/// back as these flags unless it is warned that it cannot; it never sets the encoded flags.
pub proof fn law_scripts_set_up_the_build(build_env: BuildEnv, shell: Shell, script: Script)
    requires
        script_is(build_env, shell, script),
    ensures
        sets(
            shell,
            shown(build_env.env@, texts(build_env.flags.rustflags@)),
            texts(script.lines@),
        ),
        shown(build_env.env@, texts(build_env.flags.rustflags@)).contains_key("RUSTFLAGS"@),
        !shown(build_env.env@, texts(build_env.flags.rustflags@)).contains_key(
            "CARGO_ENCODED_RUSTFLAGS"@,
        ),
        script.warnings@.len() == 0 && (forall|i: int|
            0 <= i < build_env.flags.rustflags@.len() ==> (
            #[trigger] build_env.flags.rustflags@[i])@.len() > 0) ==> words(
            shown(build_env.env@, texts(build_env.flags.rustflags@))["RUSTFLAGS"@],
        ) == texts(build_env.flags.rustflags@),
        script.warnings@.len() > 0 <==> exists|i: int|
            0 <= i < build_env.flags.rustflags@.len() && has_class(
                (#[trigger] build_env.flags.rustflags@[i])@,
                Class::Whitespace,
            ),
{
    let flags = texts(build_env.flags.rustflags@);
    let list = build_env.flags.rustflags@;
    assert forall|i: int| 0 <= i < list.len() implies flags[i] == (#[trigger] list[i])@ by {}
    reveal_strlit("RUSTFLAGS");
    reveal_strlit("CARGO_ENCODED_RUSTFLAGS");
    assert("RUSTFLAGS"@.len() == 9 && "CARGO_ENCODED_RUSTFLAGS"@.len() == 23);
    if script.warnings@.len() > 0 {
        let i = choose|i: int|
            0 <= i < flags.len() && has_class(#[trigger] flags[i], Class::Whitespace);
        assert(has_class(list[i]@, Class::Whitespace));
    } else {
        assert forall|i: int| 0 <= i < list.len() implies !has_class(
            (#[trigger] list[i])@,
            Class::Whitespace,
        ) by {
            assert(!has_class(flags[i], Class::Whitespace));
        }
        if forall|i: int| 0 <= i < list.len() ==> (#[trigger] list[i])@.len() > 0 {
            assert forall|i: int| 0 <= i < flags.len() implies (#[trigger] flags[i]).len() > 0
                && !has_class(flags[i], Class::Whitespace) by {
                assert(list[i]@.len() > 0);
            }
            crate::laws::text::law_words_are_read_back(flags);
        }
    }
}

} // verus!
