//! What is decided before an export: whether the directories will do, and in which mode the
//! export runs.
use vstd::prelude::*;

verus! {

use crate::text::{ascii_lowercase, lowercased, trimmed};

/// The fields of the index.
pub const F_ID: &'static str = "id";

pub const F_ACCOUNT_ID: &'static str = "account_id";

pub const F_MAILBOX_ID: &'static str = "mailbox_id";

pub const F_EML: &'static str = "eml";

/// Why a directory will not do.
#[derive(Clone, Copy, Debug, PartialEq, Eq, Structural)]
pub enum DirProblem {
    Missing,
    NotADirectory,
    NotAbsolute,
}

impl DirProblem {
    /// What is wrong with the directory.
    pub open spec fn complaint(self) -> Seq<char> {
        match self {
            DirProblem::Missing => "' does not exist."@,
            DirProblem::NotADirectory => "' is not a directory."@,
            DirProblem::NotAbsolute => "' must be an absolute path."@,
        }
    }

    /// The message for the user, who knows the directory by a label.
    pub fn message(&self, label: &str, path: &str) -> (message: String)
        ensures
            message@ == "Error: "@ + label@ + " '"@ + path@ + self.complaint(),
    {
        let mut message = String::new();
        message.append("Error: ");
        message.append(label);
        message.append(" '");
        message.append(path);
        match *self {
            DirProblem::Missing => message.append("' does not exist."),
            DirProblem::NotADirectory => message.append("' is not a directory."),
            DirProblem::NotAbsolute => message.append("' must be an absolute path."),
        }
        assert(message@ =~= "Error: "@ + label@ + " '"@ + path@ + self.complaint());
        message
    }
}

/// Accepts a directory that exists and is given by an absolute path. Otherwise the first of
/// the three conditions that fails is the problem.
pub fn validate_dir(exists: bool, is_dir: bool, is_absolute: bool) -> (r: Result<(), DirProblem>)
    ensures
        r is Ok <==> exists && is_dir && is_absolute,
        r == Err::<(), DirProblem>(DirProblem::Missing) <==> !exists,
        r == Err::<(), DirProblem>(DirProblem::NotADirectory) <==> exists && !is_dir,
        r == Err::<(), DirProblem>(DirProblem::NotAbsolute) <==> exists && is_dir && !is_absolute,
{
    if !exists {
        Err(DirProblem::Missing)
    } else if !is_dir {
        Err(DirProblem::NotADirectory)
    } else if !is_absolute {
        Err(DirProblem::NotAbsolute)
    } else {
        Ok(())
    }
}

/// How an export runs.
#[derive(Clone, Copy, Debug, PartialEq, Eq, Structural)]
pub enum Mode {
    /// With the accounts and mailboxes of the two databases.
    Native,
    /// By numeric ids, once the user has agreed.
    AskFallback,
    /// By numeric ids.
    Fallback,
}

/// Picks the mode. Whoever named a root directory expects the databases, and is asked before
/// the export goes on without them.
pub fn choose_mode(native_available: bool, root_given: bool) -> (mode: Mode)
    ensures
        mode == Mode::Native <==> native_available,
        mode == Mode::AskFallback <==> !native_available && root_given,
        mode == Mode::Fallback <==> !native_available && !root_given,
{
    if native_available {
        Mode::Native
    } else if root_given {
        Mode::AskFallback
    } else {
        Mode::Fallback
    }
}

/// Whether an answer in lowercase agrees.
pub open spec fn agrees(answer: Seq<char>) -> bool {
    answer == "y"@ || answer == "yes"@
}

/// Tells whether an answer in lowercase agrees.
pub fn is_yes(answer: &str) -> (r: bool)
    ensures
        r == agrees(answer@),
{
    let answer = answer.to_owned();
    answer == "y".to_owned() || answer == "yes".to_owned()
}

/// Tells whether the user agrees to go on, by the line that was typed: `y` or `yes`, in upper
/// or lower case, with white space around it. Everything else declines.
pub fn fallback_confirmed(input: &str) -> (r: bool)
    ensures
        r == agrees(lowercased(trimmed(input@))),
        (forall|i: int|
            0 <= i < trimmed(input@).len() ==> (#[trigger] trimmed(input@)[i] as int) < 128) ==> r
            == agrees(trimmed(input@).map_values(|c: char| ascii_lowercase(c))),
        ({
            let word = trimmed(input@);
            (forall|i: int| 0 <= i < word.len() ==> (#[trigger] word[i] as int) < 128) ==> (r <==> {
                ||| word.len() == 1 && (word[0] == 'y' || word[0] == 'Y')
                ||| {
                    &&& word.len() == 3
                    &&& word[0] == 'y' || word[0] == 'Y'
                    &&& word[1] == 'e' || word[1] == 'E'
                    &&& word[2] == 's' || word[2] == 'S'
                }
            })
        }),
{
    let answer = input.trim().to_lowercase();
    proof {
        let word = trimmed(input@);
        let lower = word.map_values(|c: char| ascii_lowercase(c));
        law_only_yes_agrees(lower);
        if word.len() == 1 && (word[0] == 'y' || word[0] == 'Y') {
            assert(lower =~= seq!['y']);
        }
        if word.len() == 3 && (word[0] == 'y' || word[0] == 'Y') && (word[1] == 'e' || word[1]
            == 'E') && (word[2] == 's' || word[2] == 'S') {
            assert(lower =~= seq!['y', 'e', 's']);
        }
        if lower == seq!['y'] {
            assert(lower.len() == 1 && lower[0] == 'y');
        }
        if lower == seq!['y', 'e', 's'] {
            assert(lower.len() == 3 && lower[0] == 'y' && lower[1] == 'e' && lower[2] == 's');
        }
    }
    is_yes(answer.as_str())
}

/// Only `y` and `yes` agree.
pub proof fn law_only_yes_agrees(answer: Seq<char>)
    ensures
        agrees(answer) <==> answer == seq!['y'] || answer == seq!['y', 'e', 's'],
{
    reveal_strlit("y");
    reveal_strlit("yes");
    assert("y"@ =~= seq!['y']);
    assert("yes"@ =~= seq!['y', 'e', 's']);
}

/// What is wrong with a directory is told by different words for each problem.
pub proof fn law_problems_are_told_apart(a: DirProblem, b: DirProblem)
    ensures
        a.complaint() == b.complaint() ==> a == b,
        a is Missing ==> a.complaint() == "' does not exist."@,
        a is NotADirectory ==> a.complaint() == "' is not a directory."@,
        a is NotAbsolute ==> a.complaint() == "' must be an absolute path."@,
{
    reveal_strlit("' does not exist.");
    reveal_strlit("' is not a directory.");
    reveal_strlit("' must be an absolute path.");
    assert("' does not exist."@.len() == 17);
    assert("' is not a directory."@.len() == 21);
    assert("' must be an absolute path."@.len() == 27);
}

} // verus!
