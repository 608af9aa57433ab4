//! The dispatch rule: which built-in a parsed command names, or which
//! external program it runs.
use vstd::prelude::*;
use crate::history::History;
use crate::tokenize::views;

verus! {

/// What the shell does for one parsed command. The caller performs it.
#[derive(Debug)]
pub enum Action {
    /// The empty command: nothing happens.
    Nothing,
    /// `cd` with at least one argument: change to `path`, the first one.
    /// `usage_warning` is set when more arguments were given; the change is
    /// still attempted.
    ChangeDirectory { path: String, usage_warning: bool },
    /// `cd` without an argument: only the usage diagnostic is reported.
    MissingArgument,
    /// `exit`: the process ends with status 0.
    Exit,
    /// `history`: print these lines, one per line.
    PrintHistory { lines: Vec<String> },
    /// Any other command: run `program` with `args`, inheriting the standard
    /// streams, and wait for it.
    Spawn { program: String, args: Vec<String> },
}

/// The built-in command words.
pub open spec fn word_cd() -> Seq<char> {
    seq!['c', 'd']
}

pub open spec fn word_exit() -> Seq<char> {
    seq!['e', 'x', 'i', 't']
}

pub open spec fn word_history() -> Seq<char> {
    seq!['h', 'i', 's', 't', 'o', 'r', 'y']
}

/// `r` is what the shell does for command word `cmd` with arguments `args`,
/// when its history holds `history`.
pub open spec fn dispatch_spec(
    cmd: Seq<char>,
    args: Seq<Seq<char>>,
    history: Seq<Seq<char>>,
    r: Action,
) -> bool {
    if cmd.len() == 0 {
        r is Nothing
    } else if cmd == word_cd() {
        if args.len() == 0 {
            r is MissingArgument
        } else {
            r matches Action::ChangeDirectory { path, usage_warning }
                && path@ == args[0] && usage_warning == (args.len() > 1)
        }
    } else if cmd == word_exit() {
        r is Exit
    } else if cmd == word_history() {
        r matches Action::PrintHistory { lines } && views(lines@) == history
    } else {
        r matches Action::Spawn { program, args: a } && program@ == cmd && views(a@) == args
    }
}

/// Decides what the shell does for command word `cmd` with arguments `args`.
pub fn dispatch(cmd: String, args: Vec<String>, history: &History) -> (r: Action)
    ensures
        dispatch_spec(cmd@, views(args@), history@, r),
{
    let cd = String::from_str("cd");
    let exit = String::from_str("exit");
    let hist = String::from_str("history");
    proof {
        reveal_strlit("cd");
        reveal_strlit("exit");
        reveal_strlit("history");
        assert(cd@ =~= word_cd());
        assert(exit@ =~= word_exit());
        assert(hist@ =~= word_history());
    }
    if cmd.as_str().unicode_len() == 0 {
        Action::Nothing
    } else if cmd == cd {
        if args.len() == 0 {
            Action::MissingArgument
        } else {
            let warn = args.len() > 1;
            Action::ChangeDirectory { path: args[0].clone(), usage_warning: warn }
        }
    } else if cmd == exit {
        Action::Exit
    } else if cmd == hist {
        Action::PrintHistory { lines: history.entries() }
    } else {
        Action::Spawn { program: cmd, args }
    }
}

} // verus!
