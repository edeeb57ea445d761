//! Making sure rustc can compile for a target before cargo is invoked.

use crate::process::{argv, command_failure, failure_of, succeeded, Outcome};
use crate::text::{
    cat2, cat3, cat4, cat5, ends_with, equal, from_utf8_lossy, line_seq, lines, texts, trim,
    trimmed, utf8_lossy,
};
use vstd::prelude::*;

verus! {

/// The target a trimmed line of `rustup target list` names: the line without its ` (installed)`.
pub open spec fn named_target(line: Seq<char>) -> Seq<char> {
    if " (installed)"@.is_suffix_of(line) {
        line.take(line.len() - 12)
    } else {
        line
    }
}

/// The targets the given lines name, blank lines left out.
pub open spec fn named_targets(lines: Seq<Seq<char>>) -> Seq<Seq<char>>
    decreases lines.len(),
{
    if lines.len() == 0 {
        seq![]
    } else {
        let line = trimmed(lines.last());
        let front = named_targets(lines.drop_last());
        if line.len() == 0 {
            front
        } else {
            front.push(named_target(line))
        }
    }
}

/// The targets `rustup target list` printed.
pub open spec fn target_list(stdout: Seq<u8>) -> Seq<Seq<char>> {
    named_targets(line_seq(utf8_lossy(stdout)))
}

pub fn parse_target_list(stdout: &[u8]) -> (res: Vec<String>)
    ensures
        texts(res@) == target_list(stdout@),
{
    let all = lines(from_utf8_lossy(stdout).as_str());
    let mut res: Vec<String> = Vec::new();
    let mut i: usize = 0;
    proof {
        assert(texts(all@).take(0) =~= seq![]);
        assert(texts(res@) =~= seq![]);
    }
    while i < all.len()
        invariant
            i <= all.len(),
            texts(res@) == named_targets(texts(all@).take(i as int)),
        decreases all.len() - i,
    {
        let line = trim(all[i].as_str());
        let ghost before = texts(res@);
        proof {
            assert(texts(all@).take(i + 1).drop_last() =~= texts(all@).take(i as int));
            assert(texts(all@).take(i + 1).last() == all@[i as int]@);
        }
        if !line.as_str().is_empty() {
            let cs = crate::text::chars_of(line.as_str());
            let name = if ends_with(line.as_str(), " (installed)") {
                proof {
                    reveal_strlit(" (installed)");
                    assert(line@.subrange(0, line@.len() - 12) =~= line@.take(line@.len() - 12));
                }
                crate::text::string_of(&cs, 0, cs.len() - 12)
            } else {
                line
            };
            res.push(name);
            proof {
                assert(texts(res@) =~= before.push(name@));
            }
        }
        i += 1;
    }
    proof {
        assert(texts(all@).take(i as int) =~= texts(all@));
    }
    res
}

pub open spec fn rustup_missing_of(triple: Seq<char>) -> Seq<char> {
    "`rustup` was not found on PATH, so the `"@ + triple
        + "` target could not be installed. Install rustup from https://rustup.rs/ and run `rustup target add "@
        + triple + "`, or use a Rust toolchain that already includes this target."@
}

pub fn rustup_missing_error(triple: &str) -> (res: String)
    ensures
        res@ == rustup_missing_of(triple@),
{
    cat5(
        "`rustup` was not found on PATH, so the `",
        triple,
        "` target could not be installed. Install rustup from https://rustup.rs/ and run `rustup target add ",
        triple,
        "`, or use a Rust toolchain that already includes this target.",
    )
}

/// What was seen so far: the outcomes of the commands, and whether the directory asked about exists.
pub struct Seen {
    pub installed: Option<Outcome>,
    pub available: Option<Outcome>,
    pub added: Option<Outcome>,
    pub libdir: Option<Outcome>,
    pub libdir_exists: Option<bool>,
}

/// What to do next.
pub enum Step {
    /// Run this command, and record its outcome as `installed`.
    ListInstalled(Vec<String>),
    /// Run this command, and record its outcome as `available`.
    ListAvailable(Vec<String>),
    /// Print the announcement, run this command with its output shown, and record its outcome as `added`.
    Add { announcement: String, command: Vec<String> },
    /// Run this command, and record its outcome as `libdir`.
    PrintLibdir(Vec<String>),
    /// Record whether this directory exists as `libdir_exists`.
    IsDirectory(String),
    /// Print the note, and end with the result.
    Done { note: Option<String>, result: Result<(), String> },
}

/// The outcome of a list command: the targets, or what went wrong and whether that was that the
/// program is missing.
pub enum Listed {
    Targets(Vec<String>),
    Missing,
    Failed(String),
}

/// What the outcome of the list command `name` says.
pub open spec fn listed_is(name: Seq<char>, outcome: Outcome, listed: Listed) -> bool {
    match outcome {
        Ok(output) => if succeeded(output) {
            listed matches Listed::Targets(targets) && texts(targets@) == target_list(output.stdout@)
        } else {
            listed matches Listed::Failed(message) && message@ == "could not run `"@ + name + "`: "@
                + failure_of(name, output)
        },
        Err(error) => if error.not_found {
            listed is Missing
        } else {
            listed matches Listed::Failed(message) && message@ == "could not run `"@ + name + "`: "@
                + error.message@
        },
    }
}

/// Reads the outcome of the list command `name`.
pub fn rustup_target_list(name: &str, outcome: &Outcome) -> (res: Listed)
    ensures
        listed_is(name@, *outcome, res),
{
    match outcome {
        Ok(output) => if output.success() {
            Listed::Targets(parse_target_list(output.stdout.as_slice()))
        } else {
            Listed::Failed(
                cat4("could not run `", name, "`: ", command_failure(name, output).as_str()),
            )
        },
        Err(error) => if error.not_found {
            Listed::Missing
        } else {
            Listed::Failed(cat4("could not run `", name, "`: ", error.message.as_str()))
        },
    }
}

/// Whether the list command ran and printed `triple`.
pub open spec fn lists(outcome: Outcome, triple: Seq<char>) -> bool {
    outcome matches Ok(output) && succeeded(output) && target_list(output.stdout@).contains(triple)
}

fn contains_target(targets: &Vec<String>, triple: &str) -> (res: bool)
    ensures
        res == texts(targets@).contains(triple@),
{
    let mut i: usize = 0;
    while i < targets.len()
        invariant
            i <= targets.len(),
            forall|k: int| 0 <= k < i ==> (#[trigger] texts(targets@)[k]) != triple@,
        decreases targets.len() - i,
    {
        if equal(targets[i].as_str(), triple) {
            proof {
                assert(texts(targets@)[i as int] == triple@);
            }
            return true;
        }
        i += 1;
    }
    false
}

pub open spec fn done_with(step: Step, message: Seq<char>) -> bool {
    step matches Step::Done { note: None, result: Err(error) } && error@ == message
}

/// Without rustup: the target is usable if rustc has a library directory for it.
pub open spec fn without_rustup(triple: Seq<char>, seen: Seen, step: Step) -> bool {
    match seen.libdir {
        None => step matches Step::PrintLibdir(command) && texts(command@) == seq![
            "rustc"@,
            "--print"@,
            "target-libdir"@,
            "--target"@,
            triple,
        ],
        Some(Ok(output)) => {
            let path = trimmed(utf8_lossy(output.stdout@));
            if !succeeded(output) || path.len() == 0 {
                done_with(step, rustup_missing_of(triple))
            } else {
                match seen.libdir_exists {
                    None => step matches Step::IsDirectory(asked) && asked@ == path,
                    Some(true) => step matches Step::Done { note: None, result: Ok(()) },
                    Some(false) => done_with(step, rustup_missing_of(triple)),
                }
            }
        },
        Some(Err(error)) => if error.not_found {
            done_with(step, rustup_missing_of(triple))
        } else {
            done_with(
                step,
                "could not run `rustc --print target-libdir --target "@ + triple + "`: "@
                    + error.message@,
            )
        },
    }
}

/// The end of `rustup target add`.
pub open spec fn added_is(triple: Seq<char>, outcome: Outcome, step: Step) -> bool {
    match outcome {
        Ok(output) => if succeeded(output) {
            step matches Step::Done { note: None, result: Ok(()) }
        } else {
            done_with(step, failure_of("rustup target add "@ + triple, output))
        },
        Err(error) => if error.not_found {
            done_with(step, rustup_missing_of(triple))
        } else {
            done_with(
                step,
                "could not run `rustup target add "@ + triple + "`: "@ + error.message@,
            )
        },
    }
}

/// What follows once rustup is known not to have `triple` installed.
pub open spec fn not_installed(triple: Seq<char>, seen: Seen, step: Step) -> bool {
    match seen.available {
        None => step matches Step::ListAvailable(command) && texts(command@) == seq![
            "rustup"@,
            "target"@,
            "list"@,
        ],
        Some(outcome) => if lists(outcome, triple) {
            match seen.added {
                None => {
                    &&& step matches Step::Add { announcement, command }
                    &&& texts(command@) == seq!["rustup"@, "target"@, "add"@, triple]
                    &&& announcement@ == "note: rustup target `"@ + triple
                        + "` is not installed; running `rustup target add "@ + triple + "`"@
                },
                Some(added) => added_is(triple, added, step),
            }
        } else if outcome is Ok && succeeded(outcome->Ok_0) {
            step matches Step::Done { note: Some(note), result: Ok(()) } && note@
                == "note: rustup does not ship `"@ + triple
                + "`; skipping `rustup target add`. Use a toolchain that already includes this target, or build rust-std from source."@
        } else if outcome is Err && outcome->Err_0.not_found {
            done_with(step, rustup_missing_of(triple))
        } else {
            step matches Step::Done { note: None, result: Err(message) } && listed_is(
                "rustup target list"@,
                outcome,
                Listed::Failed(message),
            )
        },
    }
}

/// The step that follows `seen`.
pub open spec fn ensure_step(triple: Seq<char>, seen: Seen, step: Step) -> bool {
    match seen.installed {
        None => step matches Step::ListInstalled(command) && texts(command@) == seq![
            "rustup"@,
            "target"@,
            "list"@,
            "--installed"@,
        ],
        Some(outcome) => if lists(outcome, triple) {
            step matches Step::Done { note: None, result: Ok(()) }
        } else if outcome is Ok && succeeded(outcome->Ok_0) {
            not_installed(triple, seen, step)
        } else if outcome is Err && outcome->Err_0.not_found {
            without_rustup(triple, seen, step)
        } else {
            step matches Step::Done { note: None, result: Err(message) } && listed_is(
                "rustup target list --installed"@,
                outcome,
                Listed::Failed(message),
            )
        },
    }
}

fn failed(message: String) -> (res: Step)
    ensures
        done_with(res, message@),
{
    Step::Done { note: None, result: Err(message) }
}

fn rustc_has_std(triple: &str, seen: &Seen) -> (res: Step)
    ensures
        without_rustup(triple@, *seen, res),
{
    let output = match &seen.libdir {
        None => {
            let command = argv(vec!["rustc", "--print", "target-libdir", "--target", triple]);
            proof {
                assert(texts(command@) =~= seq![
                    "rustc"@,
                    "--print"@,
                    "target-libdir"@,
                    "--target"@,
                    triple@,
                ]);
            }
            return Step::PrintLibdir(command);
        },
        Some(Ok(output)) => output,
        Some(Err(error)) => {
            if error.not_found {
                return failed(rustup_missing_error(triple));
            }
            return failed(
                cat4(
                    "could not run `rustc --print target-libdir --target ",
                    triple,
                    "`: ",
                    error.message.as_str(),
                ),
            );
        },
    };
    let path = trim(from_utf8_lossy(output.stdout.as_slice()).as_str());
    if !output.success() || path.as_str().is_empty() {
        return failed(rustup_missing_error(triple));
    }
    match seen.libdir_exists {
        None => Step::IsDirectory(path),
        Some(true) => Step::Done { note: None, result: Ok(()) },
        Some(false) => failed(rustup_missing_error(triple)),
    }
}

fn rustup_target_add(triple: &str, outcome: &Outcome) -> (res: Step)
    ensures
        added_is(triple@, *outcome, res),
{
    match outcome {
        Ok(output) => if output.success() {
            Step::Done { note: None, result: Ok(()) }
        } else {
            failed(command_failure(cat2("rustup target add ", triple).as_str(), output))
        },
        Err(error) => if error.not_found {
            failed(rustup_missing_error(triple))
        } else {
            failed(cat4("could not run `rustup target add ", triple, "`: ", error.message.as_str()))
        },
    }
}

fn add_if_available(triple: &str, seen: &Seen) -> (res: Step)
    ensures
        not_installed(triple@, *seen, res),
{
    let outcome = match &seen.available {
        None => {
            let command = argv(vec!["rustup", "target", "list"]);
            proof {
                assert(texts(command@) =~= seq!["rustup"@, "target"@, "list"@]);
            }
            return Step::ListAvailable(command);
        },
        Some(outcome) => outcome,
    };
    let available = match rustup_target_list("rustup target list", outcome) {
        Listed::Targets(targets) => targets,
        Listed::Missing => return failed(rustup_missing_error(triple)),
        Listed::Failed(message) => return failed(message),
    };
    if !contains_target(&available, triple) {
        return Step::Done {
            note: Some(
                cat3(
                    "note: rustup does not ship `",
                    triple,
                    "`; skipping `rustup target add`. Use a toolchain that already includes this target, or build rust-std from source.",
                ),
            ),
            result: Ok(()),
        };
    }
    match &seen.added {
        None => {
            let command = argv(vec!["rustup", "target", "add", triple]);
            proof {
                assert(texts(command@) =~= seq!["rustup"@, "target"@, "add"@, triple@]);
            }
            let announcement = cat5(
                "note: rustup target `",
                triple,
                "` is not installed; running `rustup target add ",
                triple,
                "`",
            );
            Step::Add { announcement, command }
        },
        Some(added) => rustup_target_add(triple, added),
    }
}

/// Make sure rustc can compile for `triple`: the step that follows what was seen so far.
///
/// If `rustup target list --installed` does not name the triple, `rustup target add` is run, but
/// only when rustup lists the target at all. When rustup is missing, a standalone toolchain that
/// already has the target's library directory is enough.
pub fn ensure_target(triple: &str, seen: &Seen) -> (res: Step)
    ensures
        ensure_step(triple@, *seen, res),
{
    let outcome = match &seen.installed {
        None => {
            let command = argv(vec!["rustup", "target", "list", "--installed"]);
            proof {
                assert(texts(command@) =~= seq!["rustup"@, "target"@, "list"@, "--installed"@]);
            }
            return Step::ListInstalled(command);
        },
        Some(outcome) => outcome,
    };
    match rustup_target_list("rustup target list --installed", outcome) {
        Listed::Targets(installed) => {
            if contains_target(&installed, triple) {
                Step::Done { note: None, result: Ok(()) }
            } else {
                add_if_available(triple, seen)
            }
        },
        Listed::Missing => rustc_has_std(triple, seen),
        Listed::Failed(message) => failed(message),
    }
}

/// A target is added only if rustup does not have it installed and does list it.
pub proof fn law_only_published_targets_are_added(triple: Seq<char>, seen: Seen, step: Step)
    requires
        ensure_step(triple, seen, step),
        step is Add,
    ensures
        seen.installed matches Some(installed) && !lists(installed, triple) && installed is Ok,
        seen.available matches Some(available) && lists(available, triple),
{
}

/// Success means that the target is usable or that nothing can be done about it: rustup has it
/// installed, has just added it, or does not ship it, or rustc has a library directory for it.
pub proof fn law_success_is_earned(triple: Seq<char>, seen: Seen, step: Step)
    requires
        ensure_step(triple, seen, step),
        step matches Step::Done { result: Ok(()), .. },
    ensures
        ({
            ||| seen.installed matches Some(installed) && lists(installed, triple)
            ||| seen.added matches Some(Ok(added)) && succeeded(added)
            ||| seen.available matches Some(Ok(available)) && succeeded(available) && !target_list(
                available.stdout@,
            ).contains(triple)
            ||| seen.libdir_exists == Some(true)
        }),
{
}

/// Nothing is done twice: each step asks for something that was not seen yet, so that carrying out the
/// steps comes to an end.
pub proof fn law_every_step_is_new(triple: Seq<char>, seen: Seen, step: Step)
    requires
        ensure_step(triple, seen, step),
    ensures
        step is ListInstalled ==> seen.installed is None,
        step is ListAvailable ==> seen.available is None,
        step is Add ==> seen.added is None,
        step is PrintLibdir ==> seen.libdir is None,
        step is IsDirectory ==> seen.libdir_exists is None,
{
}

} // verus!
