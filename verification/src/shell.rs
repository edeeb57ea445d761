//! The environment as commands for a shell.

use crate::build_env::BuildEnv;
use crate::ordered::{sorted, StringMap};
use crate::text::{
    cat5, chars_of, equal, has_char_in, has_class, is_alphanumeric, is_digit, join, joined,
    replace_char, replaced, texts, Class,
};
use vstd::prelude::*;

verus! {

/// What separates the flags in the encoded form.
pub const FLAG_SEPARATOR: &'static str = "\u{1f}";

/// A shell whose commands set the environment.
#[derive(Debug, Clone, Copy, PartialEq, Eq, Structural)]
pub enum Shell {
    Sh,
    Powershell,
}

/// The environment with the flags for rustc.
pub open spec fn resolved(
    env: Map<Seq<char>, Seq<char>>,
    rustflags: Seq<Seq<char>>,
) -> Map<Seq<char>, Seq<char>> {
    env.insert("CARGO_ENCODED_RUSTFLAGS"@, joined(rustflags, "\u{1f}"@))
}

/// Only the tool's own values, independent of the ambient environment, so that they can be cached or
/// evaluated repeatedly.
pub fn resolved_env(build_env: &BuildEnv) -> (res: StringMap)
    ensures
        res@ == resolved(build_env.env@, texts(build_env.flags.rustflags@)),
{
    let mut env = build_env.env.clone();
    env.insert(
        "CARGO_ENCODED_RUSTFLAGS".to_owned(),
        join(&build_env.flags.rustflags, FLAG_SEPARATOR),
    );
    env
}

/// Whether `name` can be the name of a shell variable.
pub open spec fn is_identifier(name: Seq<char>) -> bool {
    &&& name.len() > 0
    &&& !is_digit(name[0])
    &&& forall|i: int| 0 <= i < name.len() ==> is_identifier_char(#[trigger] name[i])
}

pub open spec fn is_identifier_char(c: char) -> bool {
    is_alphanumeric(c) || c == '_'
}

fn identifier(name: &str) -> (res: bool)
    ensures
        res == is_identifier(name@),
{
    let cs = chars_of(name);
    if cs.len() == 0 || crate::text::char_is_digit(cs[0]) {
        return false;
    }
    let mut i: usize = 0;
    while i < cs.len()
        invariant
            i <= cs.len(),
            cs@ == name@,
            forall|k: int| 0 <= k < i ==> is_identifier_char(#[trigger] name@[k]),
        decreases cs.len() - i,
    {
        if !(crate::text::char_is_alphanumeric(cs[i]) || cs[i] == '_') {
            return false;
        }
        i += 1;
    }
    true
}

/// Whether a variable is given to a shell: the encoded flags cannot be, nor can a name that is not
/// an identifier.
pub open spec fn is_shown(name: Seq<char>) -> bool {
    name != "CARGO_ENCODED_RUSTFLAGS"@ && is_identifier(name)
}

/// The environment a shell is given: plain flags in place of the encoded ones.
pub open spec fn shown(
    env: Map<Seq<char>, Seq<char>>,
    rustflags: Seq<Seq<char>>,
) -> Map<Seq<char>, Seq<char>> {
    Map::new(
        |name: Seq<char>| env.contains_key(name) && is_shown(name),
        |name: Seq<char>| env[name],
    ).insert("RUSTFLAGS"@, joined(rustflags, " "@))
}

/// The environment a shell is given.
pub fn shell_env(build_env: &BuildEnv) -> (res: StringMap)
    ensures
        res@ == shown(
            resolved(build_env.env@, texts(build_env.flags.rustflags@)),
            texts(build_env.flags.rustflags@),
        ),
{
    let all = resolved_env(build_env);
    let count = all.len();
    let ghost keys = all.key_seq();
    let mut env = StringMap::new();
    let mut i: usize = 0;
    while i < count
        invariant
            i <= count,
            count == keys.len(),
            keys == all.key_seq(),
            sorted(keys),
            keys.to_set() == all@.dom(),
            forall|name: Seq<char>| #[trigger]
                env@.contains_key(name) <==> is_shown(name) && keys.take(i as int).contains(name),
            forall|name: Seq<char>| #[trigger] env@.contains_key(name) ==> env@[name] == all@[name],
        decreases count - i,
    {
        let (name, value) = all.entry(i);
        let ghost before = env@;
        let ghost key = name@;
        if !equal(name.as_str(), "CARGO_ENCODED_RUSTFLAGS") && identifier(name.as_str()) {
            env.insert(name, value);
        }
        proof {
            assert forall|n: Seq<char>| #[trigger] env@.contains_key(n) <==> is_shown(n)
                && keys.take(i + 1).contains(n) by {
                let next = keys.take(i + 1);
                let front = keys.take(i as int);
                assert(next =~= front.push(key));
                if front.contains(n) {
                    let k = choose|k: int| 0 <= k < front.len() && front[k] == n;
                    assert(next[k] == n);
                }
                if n == key {
                    assert(next[i as int] == n);
                }
                if next.contains(n) && n != key {
                    let k = choose|k: int| 0 <= k < next.len() && next[k] == n;
                    assert(front[k] == n);
                }
                assert(before.contains_key(n) <==> is_shown(n) && front.contains(n));
            }
        }
        i += 1;
    }
    env.insert("RUSTFLAGS".to_owned(), join(&build_env.flags.rustflags, " "));
    proof {
        assert(keys.take(i as int) =~= keys);
        let goal = shown(
            resolved(build_env.env@, texts(build_env.flags.rustflags@)),
            texts(build_env.flags.rustflags@),
        );
        assert forall|n: Seq<char>| all@.contains_key(n) <==> #[trigger] keys.contains(n) by {
            assert(keys.to_set().contains(n) <==> keys.contains(n));
        }
        assert(env@ =~= goal);
    }
    env
}

/// A value as it stands between single quotes.
pub open spec fn quoted(shell: Shell, value: Seq<char>) -> Seq<char> {
    match shell {
        Shell::Sh => replaced(value, '\'', "'\\''"@),
        Shell::Powershell => replaced(value, '\'', "''"@),
    }
}

/// The command that sets a variable.
pub open spec fn assignment(shell: Shell, name: Seq<char>, value: Seq<char>) -> Seq<char> {
    match shell {
        Shell::Sh => "export "@ + name + "='"@ + quoted(shell, value) + "'"@,
        Shell::Powershell => "$env:"@ + name + " = '"@ + quoted(shell, value) + "'"@,
    }
}

fn assign(shell: Shell, name: &str, value: &str) -> (res: String)
    ensures
        res@ == assignment(shell, name@, value@),
{
    match shell {
        Shell::Sh => cat5("export ", name, "='", replace_char(value, '\'', "'\\''").as_str(), "'"),
        Shell::Powershell => cat5(
            "$env:",
            name,
            " = '",
            replace_char(value, '\'', "''").as_str(),
            "'",
        ),
    }
}

/// What is printed for a shell: the commands, by the names of the variables, and the warnings.
pub struct Script {
    pub warnings: Vec<String>,
    pub lines: Vec<String>,
}

/// Whether one of the flags cannot stand in a plain list of flags.
pub open spec fn has_spaced_flag(flags: Seq<Seq<char>>) -> bool {
    exists|i: int| 0 <= i < flags.len() && has_class(#[trigger] flags[i], Class::Whitespace)
}

/// Whether `lines` are the commands that set `env`, by name.
pub open spec fn sets(shell: Shell, env: Map<Seq<char>, Seq<char>>, lines: Seq<Seq<char>>) -> bool {
    exists|keys: Seq<Seq<char>>| #[trigger]
        sorted(keys) && keys.to_set() == env.dom() && lines == keys.map_values(
            |name: Seq<char>| assignment(shell, name, env[name]),
        )
}

fn spaced_flag(flags: &Vec<String>) -> (res: bool)
    ensures
        res == has_spaced_flag(texts(flags@)),
{
    let mut i: usize = 0;
    while i < flags.len()
        invariant
            i <= flags.len(),
            forall|k: int| 0 <= k < i ==> !has_class(#[trigger] texts(flags@)[k], Class::Whitespace),
        decreases flags.len() - i,
    {
        if has_char_in(flags[i].as_str(), Class::Whitespace) {
            proof {
                assert(has_class(texts(flags@)[i as int], Class::Whitespace));
            }
            return true;
        }
        i += 1;
    }
    false
}

/// The script for an environment: a line for each variable, and a warning exactly if a flag cannot be
/// told to a shell.
pub open spec fn script_is(build_env: BuildEnv, shell: Shell, script: Script) -> bool {
    let rustflags = texts(build_env.flags.rustflags@);
    &&& sets(shell, shown(build_env.env@, rustflags), texts(script.lines@))
    &&& script.warnings@.len() > 0 <==> has_spaced_flag(rustflags)
}

/// The environment as commands for a shell.
pub fn emit(build_env: &BuildEnv, shell: Shell) -> (res: Script)
    ensures
        sets(
            shell,
            shown(
                resolved(build_env.env@, texts(build_env.flags.rustflags@)),
                texts(build_env.flags.rustflags@),
            ),
            texts(res.lines@),
        ),
        texts(res.warnings@) == if has_spaced_flag(texts(build_env.flags.rustflags@)) {
            seq![
                "A compiler flag contains whitespace, which `RUSTFLAGS` cannot represent. Use `--format json` and `CARGO_ENCODED_RUSTFLAGS` instead."@,
            ]
        } else {
            seq![]
        },
        script_is(*build_env, shell, res),
{
    let env = shell_env(build_env);
    let mut warnings: Vec<String> = Vec::new();
    if spaced_flag(&build_env.flags.rustflags) {
        warnings.push(
            "A compiler flag contains whitespace, which `RUSTFLAGS` cannot represent. Use `--format json` and `CARGO_ENCODED_RUSTFLAGS` instead.".to_owned(),
        );
    }
    proof {
        assert(texts(warnings@) =~= if has_spaced_flag(texts(build_env.flags.rustflags@)) {
            seq![
                "A compiler flag contains whitespace, which `RUSTFLAGS` cannot represent. Use `--format json` and `CARGO_ENCODED_RUSTFLAGS` instead."@,
            ]
        } else {
            seq![]
        });
    }
    let count = env.len();
    let ghost keys = env.key_seq();
    let mut lines: Vec<String> = Vec::new();
    let mut i: usize = 0;
    while i < count
        invariant
            i <= count,
            count == keys.len(),
            keys == env.key_seq(),
            lines.len() == i,
            forall|k: int|
                0 <= k < i ==> (#[trigger] lines@[k])@ == assignment(shell, keys[k], env@[keys[k]]),
        decreases count - i,
    {
        let (name, value) = env.entry(i);
        lines.push(assign(shell, name.as_str(), value.as_str()));
        i += 1;
    }
    proof {
        assert(sorted(keys));
        let envv = env@;
        assert(texts(lines@) =~= keys.map_values(
            |name: Seq<char>| assignment(shell, name, envv[name]),
        ));
        let rustflags = texts(build_env.flags.rustflags@);
        assert(shown(resolved(build_env.env@, rustflags), rustflags) =~= shown(
            build_env.env@,
            rustflags,
        ));
        assert(texts(warnings@).len() == warnings@.len());
    }
    Script { warnings, lines }
}

/// What a shell reads of a word in the syntax of `sh`, made of quoted stretches and of characters
/// behind a backslash; `inside` tells whether a quote is open.
pub open spec fn sh_word(s: Seq<char>, inside: bool) -> Seq<char>
    decreases s.len(),
{
    if s.len() == 0 {
        seq![]
    } else if s[0] == '\'' {
        sh_word(s.drop_first(), !inside)
    } else if !inside && s[0] == '\\' && s.len() > 1 {
        seq![s[1]] + sh_word(s.skip(2), inside)
    } else {
        seq![s[0]] + sh_word(s.drop_first(), inside)
    }
}

/// What PowerShell reads between single quotes: two of them stand for one.
pub open spec fn powershell_text(s: Seq<char>) -> Seq<char>
    decreases s.len(),
{
    if s.len() == 0 {
        seq![]
    } else if s[0] == '\'' && s.len() > 1 {
        seq!['\''] + powershell_text(s.skip(2))
    } else {
        seq![s[0]] + powershell_text(s.drop_first())
    }
}

proof fn lemma_replaced_front(s: Seq<char>, from: char, to: Seq<char>)
    requires
        s.len() > 0,
    ensures
        replaced(s, from, to) == (if s[0] == from {
            to
        } else {
            seq![s[0]]
        }) + replaced(s.drop_first(), from, to),
    decreases s.len(),
{
    let first = if s[0] == from {
        to
    } else {
        seq![s[0]]
    };
    if s.len() == 1 {
        assert(s.drop_last() =~= seq![]);
        assert(s.drop_first() =~= seq![]);
        assert(replaced(s.drop_last(), from, to) =~= seq![]);
        assert(replaced(s, from, to) =~= first);
        assert(first + replaced(s.drop_first(), from, to) =~= first);
    } else {
        lemma_replaced_front(s.drop_last(), from, to);
        assert(s.drop_last().drop_first() =~= s.drop_first().drop_last());
        assert(s.drop_first().last() == s.last());
        assert(replaced(s, from, to) =~= first + replaced(s.drop_first(), from, to));
    }
}

/// A shell reads back the value that was written for it, whatever it holds.
pub proof fn law_sh_reads_values_back(value: Seq<char>)
    ensures
        sh_word(quoted(Shell::Sh, value) + "'"@, true) == value,
        sh_word("'"@ + quoted(Shell::Sh, value) + "'"@, false) == value,
    decreases value.len(),
{
    reveal_strlit("'");
    reveal_strlit("'\\''");
    let text = quoted(Shell::Sh, value) + "'"@;
    if value.len() == 0 {
        assert(text =~= seq!['\'']);
        assert(text.drop_first() =~= seq![]);
        assert(sh_word(text.drop_first(), false) =~= seq![]);
        assert(value =~= seq![]);
    } else {
        let rest = value.drop_first();
        let after = quoted(Shell::Sh, rest) + "'"@;
        law_sh_reads_values_back(rest);
        lemma_replaced_front(value, '\'', "'\\''"@);
        if value[0] == '\'' {
            assert(text =~= seq!['\'', '\\', '\'', '\''] + after);
            let one = text.drop_first();
            assert(one =~= seq!['\\', '\'', '\''] + after);
            let three = one.skip(2);
            assert(three =~= seq!['\''] + after);
            assert(three.drop_first() =~= after);
            assert(sh_word(three, false) == sh_word(after, true));
            assert(sh_word(one, false) == seq!['\''] + sh_word(three, false));
            assert(sh_word(text, true) == sh_word(one, false));
            assert(seq!['\''] + rest =~= value);
        } else {
            assert(text =~= seq![value[0]] + after);
            assert(text.drop_first() =~= after);
            assert(sh_word(text, true) == seq![value[0]] + sh_word(after, true));
            assert(seq![value[0]] + rest =~= value);
        }
    }
    let whole = "'"@ + quoted(Shell::Sh, value) + "'"@;
    assert(whole[0] == '\'');
    assert(whole.drop_first() =~= text);
    assert(sh_word(whole, false) == sh_word(whole.drop_first(), true));
}

/// PowerShell reads back the value that was written for it, whatever it holds.
pub proof fn law_powershell_reads_values_back(value: Seq<char>)
    ensures
        powershell_text(quoted(Shell::Powershell, value)) == value,
    decreases value.len(),
{
    reveal_strlit("''");
    let text = quoted(Shell::Powershell, value);
    if value.len() == 0 {
        assert(text =~= seq![]);
        assert(value =~= seq![]);
    } else {
        let rest = value.drop_first();
        let after = quoted(Shell::Powershell, rest);
        law_powershell_reads_values_back(rest);
        lemma_replaced_front(value, '\'', "''"@);
        if value[0] == '\'' {
            assert(text =~= seq!['\'', '\''] + after);
            assert(text.skip(2) =~= after);
            assert(seq!['\''] + rest =~= value);
        } else {
            assert(text =~= seq![value[0]] + after);
            assert(text.drop_first() =~= after);
            assert(seq![value[0]] + rest =~= value);
        }
    }
}

/// What a shell is given never holds the encoded flags, and every name it is given is one it can set.
pub proof fn law_shells_get_settable_variables(
    env: Map<Seq<char>, Seq<char>>,
    rustflags: Seq<Seq<char>>,
    name: Seq<char>,
)
    requires
        shown(env, rustflags).contains_key(name),
    ensures
        is_identifier(name),
        name != "CARGO_ENCODED_RUSTFLAGS"@,
{
    reveal_strlit("RUSTFLAGS");
    reveal_strlit("CARGO_ENCODED_RUSTFLAGS");
    assert("RUSTFLAGS"@.len() == 9 && "CARGO_ENCODED_RUSTFLAGS"@.len() == 23);
    if name == "RUSTFLAGS"@ {
        assert forall|i: int| 0 <= i < name.len() implies is_identifier_char(#[trigger] name[i]) by {}
    }
}

} // verus!
