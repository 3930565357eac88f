//! Every command line is run by the user's login shell.

use vstd::prelude::*;

use crate::text::{join, joined, law_joined, offset, stands_at};

verus! {

/// The user's shell: what the variable says, or `/bin/bash` where it says nothing.
pub open spec fn user_shell(variable: Option<Seq<char>>) -> Seq<char> {
    match variable {
        Some(shell) => shell,
        None => "/bin/bash"@,
    }
}

/// The command line that runs `command` in a login shell.
pub open spec fn wrapped(variable: Option<Seq<char>>, command: Seq<Seq<char>>) -> Seq<Seq<char>> {
    seq![user_shell(variable), "-lc"@, joined(command, " "@)]
}

/// The user's preferred shell, given the value of the `SHELL` variable.
pub fn get_user_shell(variable: Option<String>) -> (r: String)
    ensures
        r@ == user_shell(variable.deep_view()),
{
    match variable {
        Some(shell) => shell,
        None => "/bin/bash".to_owned(),
    }
}

/// Wraps a command with the user's shell. The shell is a login shell (`-l`), so that it
/// loads the user's configuration.
pub fn wrap_with_user_shell(variable: Option<String>, command: &Vec<String>) -> (r: Vec<String>)
    ensures
        r.deep_view() == wrapped(variable.deep_view(), command.deep_view()),
{
    let shell = get_user_shell(variable);
    let command_str = join(command, " ");
    let mut r: Vec<String> = Vec::new();
    r.push(shell);
    r.push("-lc".to_owned());
    r.push(command_str);
    assert(r.deep_view() =~= wrapped(variable.deep_view(), command.deep_view()));
    r
}

/// Whether `text` is the words in order, with one blank between each two neighbours and
/// nothing else: each word stands where the words before it, with a blank behind each, end.
pub open spec fn spells(text: Seq<char>, words: Seq<Seq<char>>) -> bool {
    &&& if words.len() == 0 {
        text.len() == 0
    } else {
        text.len() + 1 == offset(words, 1, words.len())
    }
    &&& forall|i: int|
        0 <= i < words.len() ==> stands_at(
            text,
            offset(words, 1, i as nat) as int,
            #[trigger] words[i],
        )
    &&& forall|i: int|
        0 < i < words.len() ==> text[#[trigger] offset(words, 1, i as nat) - 1] == ' '
}

/// Whether `line` runs `command` in a login shell: the shell that the variable names, or
/// `/bin/bash` where it names none; the flags; and the words of the command as one text.
pub open spec fn is_login_run(
    line: Seq<Seq<char>>,
    variable: Option<Seq<char>>,
    command: Seq<Seq<char>>,
) -> bool {
    &&& line.len() == 3
    &&& variable matches Some(shell) ==> line[0] == shell
    &&& variable is None ==> line[0] == "/bin/bash"@
    &&& line[1] == "-lc"@
    &&& spells(line[2], command)
}

/// A wrapped command runs its words, in order and apart from each other, in a login shell.
pub proof fn law_wrapped(variable: Option<Seq<char>>, command: Seq<Seq<char>>)
    ensures
        is_login_run(wrapped(variable, command), variable, command),
        user_shell(variable) == wrapped(variable, command)[0],
{
    reveal_strlit(" ");
    let text = joined(command, " "@);
    law_joined(command, " "@);
    assert forall|i: int| 0 < i < command.len() implies text[#[trigger] offset(
        command,
        1,
        i as nat,
    ) - 1] == ' ' by {
        let at = offset(command, 1, i as nat) - 1;
        assert(stands_at(text, at, " "@));
        assert(text.subrange(at, at + 1)[0] == text[at]);
    }
}

} // verus!
