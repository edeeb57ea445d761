//! What running another program gives back, and how it is reported.

use crate::text::{cat2, cat4, decimal, decimal_string, from_utf8_lossy, trim, trimmed, utf8_lossy};
use vstd::prelude::*;

verus! {

/// A program that ran to its end.
pub struct Output {
    /// The exit code; none if a signal ended the program.
    pub code: Option<i32>,
    pub stdout: Vec<u8>,
    pub stderr: Vec<u8>,
}

/// Why a program could not be run.
pub struct RunError {
    /// There is no such program.
    pub not_found: bool,
    pub message: String,
}

/// What became of a command.
pub type Outcome = Result<Output, RunError>;

pub open spec fn succeeded(output: Output) -> bool {
    output.code == Some(0i32)
}

impl Output {
    pub fn success(&self) -> (res: bool)
        ensures
            res == succeeded(*self),
    {
        match self.code {
            Some(code) => code == 0,
            None => false,
        }
    }
}

/// A decimal number with its sign.
pub open spec fn signed_decimal(n: int) -> Seq<char> {
    if n < 0 {
        "-"@ + decimal((-n) as nat)
    } else {
        decimal(n as nat)
    }
}

/// What a stream adds to a message: a label and the trimmed text, or nothing.
pub open spec fn captured(label: Seq<char>, bytes: Seq<u8>) -> Seq<char> {
    let text = trimmed(utf8_lossy(bytes));
    if text.len() == 0 {
        seq![]
    } else {
        "\n"@ + label + ":\n"@ + text
    }
}

/// `message` with what both streams add to it.
pub open spec fn with_output(message: Seq<char>, stdout: Seq<u8>, stderr: Seq<u8>) -> Seq<char> {
    message + captured("stdout"@, stdout) + captured("stderr"@, stderr)
}

/// How the failed run of `name` is reported.
pub open spec fn failure_of(name: Seq<char>, output: Output) -> Seq<char> {
    let message = "`"@ + name + "` failed"@;
    let status = match output.code {
        Some(code) => " with exit status "@ + signed_decimal(code as int),
        None => seq![],
    };
    with_output(message + status, output.stdout@, output.stderr@)
}

fn signed_decimal_string(n: i32) -> (res: String)
    ensures
        res@ == signed_decimal(n as int),
{
    if n < 0 {
        let magnitude: i64 = -(n as i64);
        cat2("-", decimal_string(magnitude as u64).as_str())
    } else {
        decimal_string(n as u64)
    }
}

fn append_captured(message: &mut String, label: &str, bytes: &[u8])
    ensures
        final(message)@ == old(message)@ + captured(label@, bytes@),
{
    let text = trim(from_utf8_lossy(bytes).as_str());
    let added = if text.as_str().is_empty() {
        String::new()
    } else {
        cat4("\n", label, ":\n", text.as_str())
    };
    proof {
        assert(text@.len() == 0 ==> added@ =~= seq![]);
    }
    message.append(added.as_str());
}

/// `message` followed by what a program wrote, stream by stream; an empty stream is left out.
pub fn with_command_output(message: String, stdout: &[u8], stderr: &[u8]) -> (res: String)
    ensures
        res@ == with_output(message@, stdout@, stderr@),
{
    let mut res = message;
    append_captured(&mut res, "stdout", stdout);
    append_captured(&mut res, "stderr", stderr);
    res
}

/// The report that the run of `name` failed.
pub fn command_failure(name: &str, output: &Output) -> (res: String)
    ensures
        res@ == failure_of(name@, *output),
{
    let mut res = crate::text::cat3("`", name, "` failed");
    let status = match output.code {
        Some(code) => cat2(" with exit status ", signed_decimal_string(code).as_str()),
        None => String::new(),
    };
    proof {
        assert(output.code is None ==> status@ =~= seq![]);
    }
    res.append(status.as_str());
    append_captured(&mut res, "stdout", output.stdout.as_slice());
    append_captured(&mut res, "stderr", output.stderr.as_slice());
    res
}

/// The words of a command.
pub fn argv(words: Vec<&str>) -> (res: Vec<String>)
    ensures
        crate::text::texts(res@) == words@.map_values(|w: &str| w@),
{
    let mut res: Vec<String> = Vec::new();
    let mut i: usize = 0;
    while i < words.len()
        invariant
            i <= words.len(),
            res.len() == i,
            forall|k: int| 0 <= k < i ==> (#[trigger] res@[k])@ == words@[k]@,
        decreases words.len() - i,
    {
        res.push(words[i].to_owned());
        i += 1;
    }
    proof {
        assert(crate::text::texts(res@) =~= words@.map_values(|w: &str| w@));
    }
    res
}

} // verus!
