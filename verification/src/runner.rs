//! The program that runs what was built on a connected device.

use crate::build_env::environment::{is_join_error, listable, path_list, path_list_of};
use crate::build_env::Error;
use crate::command::{asks_for_help, before_separator, is_running, runs_target_binaries};
use crate::ordered::StringSet;
use crate::path::{
    join as join_path, joined_path, last_name, name_at, path_parts, program_of, program_path,
    split_path, Platform,
};
use crate::process::{argv, succeeded, Outcome};
use crate::sort::{first_index, lemma_filter_last, lemma_first_index};
use crate::target::Target;
use crate::text::{
    cat3, cat5, cat7, decimal, decimal_string, equal, from_utf8_lossy, has_class, in_class,
    is_digit, joined, lemma_decimal_is_read_back, lemma_split_undoes_join, line_seq, lines,
    opt_text, parse_plain_number, pieces, plain_number, split, split_whitespace, texts,
    utf8_lossy, words, Class,
};
use crate::toolchain::RuntimeLibrary;
use vstd::prelude::*;

verus! {

/// The tool's own runner.
pub const TEST_RUNNER: &'static str = "ohos-test-runner";

/// The variable that tells the runner which libraries to send along.
pub const RUNTIME_LIBRARIES_VARIABLE: &'static str = "OHOS_TEST_RUNNER_RUNTIME_LIBRARIES";

/// The variable that tells cargo the runner of a target.
pub open spec fn runner_variable_of(target: Target) -> Seq<char> {
    "CARGO_TARGET_"@ + target.rust_upper() + "_RUNNER"@
}

pub fn runner_variable(target: &Target) -> (res: String)
    ensures
        res@ == runner_variable_of(*target),
{
    cat3("CARGO_TARGET_", target.rust_triple_upper().as_str(), "_RUNNER")
}

/// Where the program `name` may be, given the directories of the search path.
pub open spec fn program_candidates(platform: Platform, dirs: Seq<Seq<char>>, name: Seq<char>) -> Seq<
    Seq<char>,
> {
    dirs.filter(|dir: Seq<char>| dir.len() > 0).map_values(
        |dir: Seq<char>| program_of(platform, joined_path(platform, dir, name)),
    )
}

/// Where the program `name` may be, in the order in which it is looked for; an empty entry of the
/// search path is passed over.
pub fn path_candidates(platform: Platform, dirs: &Vec<String>, name: &str) -> (res: Vec<String>)
    ensures
        texts(res@) == program_candidates(platform, texts(dirs@), name@),
{
    let ghost named = |dir: Seq<char>| dir.len() > 0;
    let ghost place = |dir: Seq<char>| program_of(platform, joined_path(platform, dir, name@));
    let ghost seqs = texts(dirs@);
    let mut res: Vec<String> = Vec::new();
    let mut i: usize = 0;
    proof {
        reveal(Seq::filter);
        assert(seqs.take(0).filter(named) =~= seq![]);
        assert(texts(res@) =~= seqs.take(0).filter(named).map_values(place));
    }
    while i < dirs.len()
        invariant
            i <= dirs.len(),
            seqs == texts(dirs@),
            named == (|dir: Seq<char>| dir.len() > 0),
            place == (|dir: Seq<char>| program_of(platform, joined_path(platform, dir, name@))),
            texts(res@) == seqs.take(i as int).filter(named).map_values(place),
        decreases dirs.len() - i,
    {
        let ghost before = texts(res@);
        proof {
            assert(seqs.take(i + 1).drop_last() =~= seqs.take(i as int));
            assert(seqs.take(i + 1).last() == dirs@[i as int]@);
            lemma_filter_last(seqs.take(i + 1), named);
        }
        let dir = dirs[i].as_str();
        if !dir.is_empty() {
            res.push(program_path(platform, join_path(platform, dir, name).as_str()));
            proof {
                assert(texts(res@) =~= before.push(place(dir@)));
                assert(seqs.take(i + 1).filter(named).map_values(place) =~= before.push(place(dir@)));
            }
        }
        i += 1;
    }
    proof {
        assert(seqs.take(i as int) =~= seqs);
    }
    res
}

/// The first of the places that is a file.
pub open spec fn first_file(places: Seq<Seq<char>>, files: Set<Seq<char>>) -> Option<Seq<char>> {
    let at = first_index(places, |place: Seq<char>| files.contains(place)) as int;
    if at < places.len() {
        Some(places[at])
    } else {
        None
    }
}

/// Where the program `name` is, given the directories of the search path and which of the places it
/// may be in are files.
pub fn find_in_path(platform: Platform, dirs: &Vec<String>, name: &str, files: &StringSet) -> (res:
    Option<String>)
    ensures
        opt_text(res) == first_file(
            program_candidates(platform, texts(dirs@), name@),
            files@,
        ),
{
    let places = path_candidates(platform, dirs, name);
    let ghost seqs = texts(places@);
    let mut i: usize = 0;
    while i < places.len() && !files.contains(places[i].as_str())
        invariant
            i <= places.len(),
            seqs == texts(places@),
            forall|k: int| 0 <= k < i ==> !files@.contains(#[trigger] seqs[k]),
        decreases places.len() - i,
    {
        proof {
            assert(seqs[i as int] == places@[i as int]@);
        }
        i += 1;
    }
    proof {
        if i < places.len() {
            assert(seqs[i as int] == places@[i as int]@);
        }
        lemma_first_index(seqs, |place: Seq<char>| files@.contains(place), i as int);
    }
    if i < places.len() {
        Some(places[i].clone())
    } else {
        None
    }
}

/// A version of the runner.
#[derive(Debug, Clone, Copy, PartialEq, Eq, Structural)]
pub struct Version {
    pub major: u64,
    pub minor: u64,
    pub patch: u64,
}

/// Whether a version is at least the one that is needed, 0.1.5.
pub open spec fn recent_enough(version: Version) -> bool {
    ||| version.major > 0
    ||| version.minor > 1
    ||| version.minor == 1 && version.patch >= 5
}

/// The version dotted numbers spell; the third may be missing.
pub open spec fn dotted(parts: Seq<Seq<char>>) -> Option<Version> {
    let patch = if parts.len() > 2 {
        plain_number(parts[2])
    } else {
        Some(0u64)
    };
    if (parts.len() == 2 || parts.len() == 3) && plain_number(parts[0]) is Some && plain_number(
        parts[1],
    ) is Some && patch is Some {
        Some(
            Version {
                major: plain_number(parts[0])->Some_0,
                minor: plain_number(parts[1])->Some_0,
                patch: patch->Some_0,
            },
        )
    } else {
        None
    }
}

/// The version a program prints: the last word of its first line, without what follows a `-` or a
/// `+`.
pub open spec fn printed_version(text: Seq<char>) -> Option<Version> {
    let all = line_seq(text);
    if all.len() == 0 || words(all[0]).len() == 0 {
        None
    } else {
        let word = words(all[0]).last();
        let release = pieces(pieces(word, Class::Is('-'))[0], Class::Is('+'))[0];
        dotted(pieces(release, Class::Is('.')))
    }
}

fn first_piece(s: &str, class: Class) -> (res: String)
    ensures
        res@ == pieces(s@, class)[0],
{
    let cut = split(s, class);
    proof {
        assert(texts(cut@).len() > 0);
        assert(texts(cut@)[0] == cut@[0]@);
    }
    cut[0].clone()
}

/// The version in what a program printed.
pub fn parse_version(text: &str) -> (res: Option<Version>)
    ensures
        res == printed_version(text@),
{
    let all = lines(text);
    if all.len() == 0 {
        return None;
    }
    proof {
        assert(texts(all@)[0] == all@[0]@);
    }
    let found = split_whitespace(all[0].as_str());
    if found.len() == 0 {
        return None;
    }
    proof {
        assert(texts(found@).last() == found@[found.len() - 1]@);
    }
    let word = found[found.len() - 1].as_str();
    let release = first_piece(first_piece(word, Class::Is('-')).as_str(), Class::Is('+'));
    let parts = split(release.as_str(), Class::Is('.'));
    let ghost seqs = texts(parts@);
    if parts.len() != 2 && parts.len() != 3 {
        return None;
    }
    proof {
        assert(seqs[0] == parts@[0]@ && seqs[1] == parts@[1]@);
        assert(parts.len() == 3 ==> seqs[2] == parts@[2]@);
    }
    let patch = if parts.len() > 2 {
        parse_plain_number(parts[2].as_str())
    } else {
        Some(0)
    };
    match (parse_plain_number(parts[0].as_str()), parse_plain_number(parts[1].as_str()), patch) {
        (Some(major), Some(minor), Some(patch)) => Some(Version { major, minor, patch }),
        _ => None,
    }
}

impl Version {
    pub fn is_recent_enough(&self) -> (res: bool)
        ensures
            res == recent_enough(*self),
    {
        self.major > 0 || self.minor > 1 || (self.minor == 1 && self.patch >= 5)
    }

    /// The version as it is written.
    pub open spec fn text(self) -> Seq<char> {
        decimal(self.major as nat) + "."@ + decimal(self.minor as nat) + "."@ + decimal(
            self.patch as nat,
        )
    }

    pub fn to_text(&self) -> (res: String)
        ensures
            res@ == self.text(),
    {
        cat5(
            decimal_string(self.major).as_str(),
            ".",
            decimal_string(self.minor).as_str(),
            ".",
            decimal_string(self.patch).as_str(),
        )
    }
}

/// Whether a program is the tool's own runner.
pub open spec fn is_test_runner(platform: Platform, program: Seq<char>) -> bool {
    match last_name(path_parts(platform, program)) {
        Some(name) => name == "ohos-test-runner"@ || (platform == Platform::Windows && name
            == "ohos-test-runner.exe"@),
        None => false,
    }
}

fn test_runner(platform: Platform, program: &str) -> (res: bool)
    ensures
        res == is_test_runner(platform, program@),
{
    let parts = split_path(platform, program);
    proof {
        assert(texts(parts@).take(parts.len() as int) =~= texts(parts@));
    }
    match name_at(&parts, parts.len()) {
        Some(name) => equal(name.as_str(), TEST_RUNNER) || (platform == Platform::Windows && equal(
            name.as_str(),
            "ohos-test-runner.exe",
        )),
        None => false,
    }
}

/// What was seen so far while choosing a runner.
pub struct RunnerSeen {
    /// The runner on the search path, if there is one.
    pub found: Option<Option<String>>,
    /// What asking for its version gave.
    pub version: Option<Outcome>,
}

/// What to do next to choose a runner.
pub enum RunnerStep {
    /// Nothing is going to be run.
    NotNeeded,
    /// Look for this program on the search path: `found`.
    Find(&'static str),
    /// Run this command: `version`.
    AskVersion(Vec<String>),
    /// Use the runner that is configured.
    UseConfigured,
    /// Configure this runner.
    Configure(String),
    Fail(String),
}

/// The version a runner reported, if it did.
pub open spec fn reported_version(outcome: Outcome) -> Option<Version> {
    match outcome {
        Ok(output) => if succeeded(output) {
            printed_version(utf8_lossy(output.stdout@))
        } else {
            None
        },
        Err(_) => None,
    }
}

/// What becomes of the runner `program` once its version was asked: none if it may be used, else the
/// next step.
pub open spec fn version_step(
    name: Seq<char>,
    program: Seq<char>,
    version: Option<Outcome>,
    step: RunnerStep,
) -> bool {
    match version {
        None => step matches RunnerStep::AskVersion(command) && texts(command@) == seq![
            program,
            "--version"@,
        ],
        Some(outcome) => match reported_version(outcome) {
            None => step matches RunnerStep::Fail(message) && message@
                == "Could not determine the version of `"@ + program + "`. `cargo ohos "@ + name
                + "` needs `ohos-test-runner` 0.1.5 or newer. Install it with `cargo install --locked ohos-test-runner`."@,
            Some(found) => !recent_enough(found) && (step matches RunnerStep::Fail(message)
                && message@ == "`"@ + program + "` is version "@ + found.text() + ", but `cargo ohos "@
                + name
                + "` needs 0.1.5 or newer. Install it with `cargo install --locked ohos-test-runner`."@),
        },
    }
}

/// Whether the version of a runner is known to suffice.
pub open spec fn version_suffices(version: Option<Outcome>) -> bool {
    version matches Some(outcome) && reported_version(outcome) matches Some(found) && recent_enough(
        found,
    )
}

/// The step that follows `seen`. A runner the user has configured is used; the tool's own has to be
/// recent enough, wherever it comes from.
pub open spec fn runner_step(
    platform: Platform,
    name: Seq<char>,
    rest: Seq<Seq<char>>,
    configured: Option<Seq<char>>,
    seen: RunnerSeen,
    step: RunnerStep,
) -> bool {
    if !is_running(name) || before_separator(rest).contains("--no-run"@) || asks_for_help(rest) {
        step is NotNeeded
    } else {
        match configured {
            Some(value) => {
                let command = words(value);
                if command.len() == 0 || !is_test_runner(platform, command[0]) || version_suffices(
                    seen.version,
                ) {
                    step is UseConfigured
                } else {
                    version_step(name, command[0], seen.version, step)
                }
            },
            None => match seen.found {
                None => step matches RunnerStep::Find(name) && name@ == "ohos-test-runner"@,
                Some(None) => step matches RunnerStep::Fail(message) && message@ == "`cargo ohos "@
                    + name
                    + "` runs binaries on a connected device, which needs `ohos-test-runner`. Install it with `cargo install --locked ohos-test-runner`."@,
                Some(Some(path)) => if version_suffices(seen.version) {
                    step matches RunnerStep::Configure(runner) && runner@ == path@
                } else {
                    version_step(name, path@, seen.version, step)
                },
            },
        }
    }
}

fn read_version(outcome: &Outcome) -> (res: Option<Version>)
    ensures
        res == reported_version(*outcome),
{
    match outcome {
        Ok(output) => if output.success() {
            parse_version(from_utf8_lossy(output.stdout.as_slice()).as_str())
        } else {
            None
        },
        Err(_) => None,
    }
}

fn check_version(name: &str, program: &str, version: &Option<Outcome>) -> (res: Option<RunnerStep>)
    ensures
        match res {
            None => version_suffices(*version),
            Some(step) => !version_suffices(*version) && version_step(name@, program@, *version, step),
        },
{
    let outcome = match version {
        None => {
            let command = argv(vec![program, "--version"]);
            proof {
                assert(texts(command@) =~= seq![program@, "--version"@]);
            }
            return Some(RunnerStep::AskVersion(command));
        },
        Some(outcome) => outcome,
    };
    match read_version(outcome) {
        None => Some(
            RunnerStep::Fail(
                cat5(
                    "Could not determine the version of `",
                    program,
                    "`. `cargo ohos ",
                    name,
                    "` needs `ohos-test-runner` 0.1.5 or newer. Install it with `cargo install --locked ohos-test-runner`.",
                ),
            ),
        ),
        Some(found) => if found.is_recent_enough() {
            None
        } else {
            Some(
                RunnerStep::Fail(
                    cat7(
                        "`",
                        program,
                        "` is version ",
                        found.to_text().as_str(),
                        ", but `cargo ohos ",
                        name,
                        "` needs 0.1.5 or newer. Install it with `cargo install --locked ohos-test-runner`.",
                    ),
                ),
            )
        },
    }
}

/// Choose the runner for `cargo ohos <name>`: the step that follows what was seen so far.
/// `configured` is the runner the user has configured for the target.
pub fn choose_runner(
    platform: Platform,
    name: &str,
    rest: &Vec<String>,
    configured: &Option<String>,
    seen: &RunnerSeen,
) -> (res: RunnerStep)
    ensures
        runner_step(
            platform,
            name@,
            texts(rest@),
            crate::text::opt_text(*configured),
            *seen,
            res,
        ),
{
    if !runs_target_binaries(name, rest) {
        return RunnerStep::NotNeeded;
    }
    if let Some(value) = configured {
        let command = split_whitespace(value.as_str());
        if command.len() == 0 {
            return RunnerStep::UseConfigured;
        }
        proof {
            assert(texts(command@)[0] == command@[0]@);
        }
        let program = command[0].as_str();
        if !test_runner(platform, program) {
            return RunnerStep::UseConfigured;
        }
        return match check_version(name, program, &seen.version) {
            None => RunnerStep::UseConfigured,
            Some(step) => step,
        };
    }
    match &seen.found {
        None => RunnerStep::Find(TEST_RUNNER),
        Some(None) => RunnerStep::Fail(
            cat3(
                "`cargo ohos ",
                name,
                "` runs binaries on a connected device, which needs `ohos-test-runner`. Install it with `cargo install --locked ohos-test-runner`.",
            ),
        ),
        Some(Some(path)) => match check_version(name, path.as_str(), &seen.version) {
            None => RunnerStep::Configure(path.clone()),
            Some(step) => step,
        },
    }
}

/// The paths of the libraries.
pub open spec fn library_paths(libraries: Seq<RuntimeLibrary>) -> Seq<Seq<char>> {
    libraries.map_values(|library: RuntimeLibrary| library.path@)
}

/// The list of libraries the runner sends to the device; none if there are no libraries to send.
pub fn runtime_library_list(platform: Platform, libraries: &Vec<RuntimeLibrary>) -> (res: Result<
    Option<String>,
    Error,
>)
    ensures
        match res {
            Ok(None) => libraries.len() == 0,
            Ok(Some(list)) => {
                &&& libraries.len() > 0
                &&& listable(platform, library_paths(libraries@))
                &&& list@ == path_list_of(platform, library_paths(libraries@))
            },
            Err(error) => {
                &&& libraries.len() > 0
                &&& !listable(platform, library_paths(libraries@))
                &&& is_join_error(platform, error)
            },
        },
{
    if libraries.len() == 0 {
        return Ok(None);
    }
    let mut paths: Vec<String> = Vec::new();
    let mut i: usize = 0;
    while i < libraries.len()
        invariant
            i <= libraries.len(),
            paths.len() == i,
            forall|k: int| 0 <= k < i ==> (#[trigger] paths@[k])@ == libraries@[k].path@,
        decreases libraries.len() - i,
    {
        paths.push(libraries[i].path.clone());
        i += 1;
    }
    proof {
        assert(texts(paths@) =~= library_paths(libraries@));
    }
    match path_list(platform, &paths) {
        Ok(list) => Ok(Some(list)),
        Err(error) => Err(error),
    }
}

/// The tool's own runner is never used, whether it was found or configured, unless it reported a
/// version that is recent enough; a runner of the user's own choice is never questioned.
pub proof fn law_own_runner_is_recent_enough(
    platform: Platform,
    name: Seq<char>,
    rest: Seq<Seq<char>>,
    configured: Option<Seq<char>>,
    seen: RunnerSeen,
    step: RunnerStep,
)
    requires
        runner_step(platform, name, rest, configured, seen, step),
    ensures
        step is Configure ==> configured is None && version_suffices(seen.version),
        step is UseConfigured ==> (configured matches Some(value) && (words(value).len() > 0
            && is_test_runner(platform, words(value)[0]) ==> version_suffices(seen.version))),
        (configured matches Some(value) && (words(value).len() == 0 || !is_test_runner(
            platform,
            words(value)[0],
        ))) ==> step is NotNeeded || step is UseConfigured,
{
}

/// A version as it is written is understood.
pub proof fn law_versions_are_read_back(version: Version)
    ensures
        dotted(pieces(version.text(), Class::Is('.'))) == Some(version),
{
    let major = decimal(version.major as nat);
    let minor = decimal(version.minor as nat);
    let patch = decimal(version.patch as nat);
    let parts = seq![major, minor, patch];
    let class = Class::Is('.');
    lemma_decimal_is_read_back(version.major as nat);
    lemma_decimal_is_read_back(version.minor as nat);
    lemma_decimal_is_read_back(version.patch as nat);
    assert forall|i: int| 0 <= i < parts.len() implies !has_class(#[trigger] parts[i], class) by {
        let part = parts[i];
        assert forall|k: int| 0 <= k < part.len() implies !in_class(class, #[trigger] part[k]) by {
            assert(is_digit(part[k]));
        }
    }
    lemma_split_undoes_join(parts, '.');
    reveal_strlit(".");
    assert("."@ =~= seq!['.']);
    reveal_with_fuel(joined, 3);
    assert(parts.drop_last() =~= seq![major, minor]);
    assert(parts.drop_last().drop_last() =~= seq![major]);
    assert(joined(parts, seq!['.']) =~= version.text());
}

} // verus!
