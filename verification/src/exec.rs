//! Running commands: the errors a run can end in and their messages.

use vstd::prelude::*;
use crate::cli::parse::texts;
use crate::text::{chars_of, join_seq, join_vecs, owned, push_str, str_trim, string_of, trim_spec};
use crate::token_blob::{decimal, decimal_exec};

verus! {

/// What can go wrong running a command.
#[derive(Debug)]
pub enum ExecError {
    /// The program could not be started.
    Spawn { message: String },
    /// Its output could not be read.
    Io { message: String },
    /// It exited with a failure.
    Failed { message: String },
}

impl ExecError {
    pub open spec fn message_view(&self) -> Seq<char> {
        match self {
            ExecError::Spawn { message } => message@,
            ExecError::Io { message } => message@,
            ExecError::Failed { message } => message@,
        }
    }

    /// The user-facing text of the error.
    pub fn message(&self) -> (r: &String)
        ensures
            r@ == self.message_view(),
    {
        match self {
            ExecError::Spawn { message } => message,
            ExecError::Io { message } => message,
            ExecError::Failed { message } => message,
        }
    }
}

/// A command as shown: the program, a space, the arguments joined by spaces.
pub open spec fn command_text(program: Seq<char>, args: Seq<Seq<char>>) -> Seq<char> {
    program + " "@ + join_seq(args, " "@)
}

/// An exit code in decimal, with a minus sign when negative.
pub open spec fn code_text(code: int) -> Seq<char> {
    if code < 0 {
        "-"@ + decimal((-code) as nat)
    } else {
        decimal(code as nat)
    }
}

fn command_text_exec(program: &str, args: &Vec<String>) -> (r: String)
    ensures
        r@ == command_text(program@, texts(args@)),
{
    let mut v: Vec<Vec<char>> = Vec::new();
    let mut i: usize = 0;
    while i < args.len()
        invariant
            i <= args@.len(),
            v@.map_values(|x: Vec<char>| x@) == texts(args@).subrange(0, i as int),
        decreases args.len() - i,
    {
        let ghost before = v@.map_values(|x: Vec<char>| x@);
        v.push(chars_of(args[i].as_str()));
        assert(v@.map_values(|x: Vec<char>| x@) =~= before.push(args@[i as int]@));
        assert(texts(args@).subrange(0, i + 1) =~= texts(args@).subrange(0, i as int).push(args@[i as int]@));
        i = i + 1;
    }
    assert(texts(args@).subrange(0, args@.len() as int) =~= texts(args@));
    let mut r = owned(program);
    push_str(&mut r, " ");
    push_str(&mut r, string_of(&join_vecs(&v, " ")).as_str());
    r
}

/// The error of a command that exited with `code` (`-1` when it has none):
/// the command, the code and its trimmed error output.
pub fn failed(program: &str, args: &Vec<String>, code: i32, stderr: &str) -> (e: ExecError)
    ensures
        e matches ExecError::Failed { message } && message@ == command_text(program@, texts(args@))
            + " exited with code "@ + code_text(code as int) + ":\n"@ + trim_spec(stderr@),
{
    let mut m = command_text_exec(program, args);
    push_str(&mut m, " exited with code ");
    if code < 0 {
        push_str(&mut m, "-");
        let n: u64 = if code == i32::MIN { 2147483648u64 } else { (-code) as u64 };
        push_str(&mut m, string_of(&decimal_exec(n)).as_str());
    } else {
        push_str(&mut m, string_of(&decimal_exec(code as u64)).as_str());
    }
    push_str(&mut m, ":\n");
    push_str(&mut m, str_trim(stderr).as_str());
    ExecError::Failed { message: m }
}

/// The error of a program that could not be started.
pub fn spawn_failed(program: &str, args: &Vec<String>, reason: &str) -> (e: ExecError)
    ensures
        e matches ExecError::Spawn { message } && message@ == "failed to execute "@ + command_text(
            program@,
            texts(args@),
        ) + ": "@ + reason@,
{
    let mut m = owned("failed to execute ");
    push_str(&mut m, command_text_exec(program, args).as_str());
    push_str(&mut m, ": ");
    push_str(&mut m, reason);
    ExecError::Spawn { message: m }
}

/// The error of a run whose output could not be read.
pub fn output_failed(program: &str, reason: &str) -> (e: ExecError)
    ensures
        e matches ExecError::Io { message } && message@ == "failed to read output of "@ + program@ + ": "@ + reason@,
{
    let mut m = owned("failed to read output of ");
    push_str(&mut m, program);
    push_str(&mut m, ": ");
    push_str(&mut m, reason);
    ExecError::Io { message: m }
}

} // verus!
