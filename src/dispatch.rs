//! What the interpreter does with a command, and with each line that the
//! read loop hands it. The caller performs the chosen action: it runs the
//! built-in's handler, prints the report, or leaves the loop.

use vstd::prelude::*;
use vstd::string::*;
use crate::builtin::{Builtin, builtin_named};
use crate::tokenize::{Command, TokenizeError, tokenize_command, words_of, is_space, is_word};

verus! {

/// The status given back for a keyword that names no built-in.
pub const UNRESOLVED_STATUS: i32 = 1;

/// The decision for one turn of the read loop.
pub enum Action {
    /// Nothing to run: show the prompt again.
    Prompt,
    /// Run the handler of this built-in on these arguments; its status is
    /// the command's status.
    Invoke(Builtin, Vec<String>),
    /// Print this line; the command's status is the number given.
    Report(String, i32),
    /// Leave the loop and end the process cleanly.
    Exit,
}

/// The text that follows the keyword in the report on an unknown command.
pub open spec fn not_implemented_suffix() -> Seq<char> {
    seq![
        ':', ' ', 'c', 'o', 'm', 'm', 'a', 'n', 'd', ' ', 'n', 'o', 't', ' ', 'y', 'e', 't', ' ',
        'i', 'm', 'p', 'l', 'e', 'm', 'e', 'n', 't', 'e', 'd',
    ]
}

/// The report on keyword `k`, which names no built-in.
pub open spec fn not_implemented_text(k: Seq<char>) -> Seq<char> {
    k + not_implemented_suffix()
}

/// Whether `a` is what a command with keyword `k` and arguments `args`
/// calls for: `exit` leaves the loop, another built-in runs on the
/// arguments, and an unknown keyword is reported with status 1.
pub open spec fn dispatches_to(k: Seq<char>, args: Seq<Seq<char>>, a: Action) -> bool {
    match builtin_named(k) {
        Some(Builtin::Exit) => a is Exit,
        Some(b) => a matches Action::Invoke(b2, v) && b2 == b && v.deep_view() == args,
        None => a matches Action::Report(m, st) && m@ == not_implemented_text(k) && st == 1,
    }
}

/// The report on `keyword`, which names no built-in:
/// `<keyword>: command not yet implemented`.
pub fn not_implemented_message(keyword: &str) -> (r: String)
    ensures
        r@ == not_implemented_text(keyword@),
{
    proof { reveal_strlit(": command not yet implemented"); }
    keyword.to_owned().concat(": command not yet implemented")
}

/// Dispatches `c`: the built-in that its keyword names runs on its
/// arguments, `exit` leaves the loop, and an unknown keyword is reported.
pub fn process_command(c: Command) -> (r: Action)
    ensures
        dispatches_to(c.keyword@, c.args.deep_view(), r),
        r matches Action::Invoke(_, v) ==> v@ == c.args@,
{
    match Builtin::resolve(c.keyword.as_str()) {
        Some(Builtin::Exit) => Action::Exit,
        Some(b) => Action::Invoke(b, c.args),
        None => Action::Report(not_implemented_message(c.keyword.as_str()), UNRESOLVED_STATUS),
    }
}

/// One turn of the read loop, given the line read, or `None` where the
/// input has ended. An ended input leaves the loop; a line without words
/// shows the prompt again; any other line is dispatched as a command.
pub fn next_action(line: Option<String>) -> (r: Action)
    ensures
        line is None ==> r is Exit,
        line matches Some(l) ==> {
            let w = words_of(l@);
            if w.len() == 0 {
                r is Prompt
            } else {
                dispatches_to(w[0], w.drop_first(), r)
            }
        },
{
    match line {
        None => Action::Exit,
        Some(l) => match tokenize_command(l) {
            Err(TokenizeError::EmptyInput) => Action::Prompt,
            Ok(c) => process_command(c),
        },
    }
}

/// A command whose keyword is a word that names no built-in is answered by
/// exactly one line, `<keyword>: command not yet implemented`, with status 1.
pub proof fn lemma_unresolved_reports_one_line(k: Seq<char>, args: Seq<Seq<char>>, a: Action)
    requires
        dispatches_to(k, args, a),
        is_word(k),
        builtin_named(k) is None,
    ensures
        a matches Action::Report(m, st) && {
            &&& st == 1
            &&& m@ == not_implemented_text(k)
            &&& forall|j: int| 0 <= j < m@.len() ==> m@[j] != '\n'
        },
{
    if let Action::Report(m, st) = a {
        let sfx = not_implemented_suffix();
        assert forall|j: int| 0 <= j < m@.len() implies m@[j] != '\n' by {
            if j < k.len() {
                assert(m@[j] == k[j]);
                assert(!is_space(k[j]));
            } else {
                assert(m@[j] == sfx[j - k.len()]);
            }
        }
    }
}

} // verus!
