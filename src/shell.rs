//! The shell's long-lived state and the work of one loop iteration: alias
//! expansion, history recording, tokenizing and dispatch.
use vstd::prelude::*;
use crate::alias::{expand_spec, AliasTable};
use crate::dispatch::{dispatch, dispatch_spec, Action};
use crate::history::{record_spec, History};
use crate::tokenize::{args_of, command_of, parse, tokenize, views};

verus! {

/// How one attempt to read a line from the terminal ended.
pub enum ReadOutcome {
    /// A line was read.
    Line(String),
    /// The user interrupted the read.
    Interrupted,
    /// End of input or any other failure.
    Failed,
}

/// The tag that starts every diagnostic line.
pub open spec fn name_tag() -> Seq<char> {
    seq!['n', 'i', 'x', 'u', ':', ' ']
}

/// The message reported when `cd` gets other than one argument.
pub open spec fn usage_text() -> Seq<char> {
    "Expected 1 argument"@
}

/// A diagnostic line: `message` after the shell's name tag.
pub fn diagnostic(message: &str) -> (r: String)
    ensures
        r@ == name_tag() + message@,
{
    let tag = String::from_str("nixu: ");
    proof {
        reveal_strlit("nixu: ");
        assert(tag@ =~= name_tag());
    }
    tag.concat(message)
}

/// The diagnostic for a `cd` with other than one argument.
pub fn usage_diagnostic() -> (r: String)
    ensures
        r@ == name_tag() + usage_text(),
{
    diagnostic("Expected 1 argument")
}

/// The line that a read outcome stands for: an interrupted or failed read
/// counts as the empty line.
pub fn input_line(outcome: ReadOutcome) -> (r: String)
    ensures
        outcome matches ReadOutcome::Line(l) ==> r@ == l@,
        !(outcome is Line) ==> r@ == Seq::<char>::empty(),
{
    match outcome {
        ReadOutcome::Line(l) => l,
        _ => String::new(),
    }
}

/// The interactive shell: its history, alias table and current prompt.
pub struct Shell {
    history: History,
    prompt: String,
    aliases: AliasTable,
}

impl Shell {
    pub closed spec fn wf(&self) -> bool {
        self.aliases.wf()
    }

    /// The lines recorded so far, oldest first.
    pub closed spec fn history_view(&self) -> Seq<Seq<char>> {
        self.history@
    }

    /// The alias mapping.
    pub closed spec fn aliases_view(&self) -> Map<Seq<char>, Seq<char>> {
        self.aliases@
    }

    /// The prompt text shown before each read.
    pub closed spec fn prompt_view(&self) -> Seq<char> {
        self.prompt@
    }

    /// A shell with an empty history.
    pub fn new(prompt: String, aliases: AliasTable) -> (r: Shell)
        requires
            aliases.wf(),
        ensures
            r.wf(),
            r.history_view() == Seq::<Seq<char>>::empty(),
            r.aliases_view() == aliases@,
            r.prompt_view() == prompt@,
    {
        Shell { history: History::new(), prompt, aliases }
    }

    pub fn prompt(&self) -> (r: &String)
        ensures
            r@ == self.prompt_view(),
    {
        &self.prompt
    }

    /// Replaces the prompt; nothing else changes.
    pub fn set_prompt(&mut self, prompt: String)
        ensures
            final(self).prompt_view() == prompt@,
            final(self).history_view() == old(self).history_view(),
            final(self).aliases_view() == old(self).aliases_view(),
            final(self).wf() == old(self).wf(),
    {
        self.prompt = prompt;
    }

    pub fn history(&self) -> (r: &History)
        ensures
            r@ == self.history_view(),
    {
        &self.history
    }

    /// Records `cmd` in the history with capacity `history_cap`, then returns
    /// it with its alias applied. The history keeps the text before expansion.
    pub fn alias(&mut self, cmd: String, history_cap: usize) -> (r: String)
        requires
            old(self).wf(),
        ensures
            final(self).wf(),
            r@ == expand_spec(old(self).aliases_view(), cmd@),
            final(self).history_view() == record_spec(
                old(self).history_view(),
                cmd@,
                history_cap as nat,
            ),
            final(self).aliases_view() == old(self).aliases_view(),
            final(self).prompt_view() == old(self).prompt_view(),
    {
        self.history.record(cmd.clone(), history_cap);
        self.aliases.expand(cmd)
    }

    /// What the shell does for a line already split into tokens: the first
    /// token is the command word, the rest are its arguments.
    pub fn exec(&self, command: Vec<String>) -> (r: Action)
        ensures
            command@.len() == 0 ==> dispatch_spec(
                Seq::empty(),
                Seq::empty(),
                self.history_view(),
                r,
            ),
            command@.len() > 0 ==> dispatch_spec(
                command@[0]@,
                views(command@).drop_first(),
                self.history_view(),
                r,
            ),
    {
        let (cmd, args) = parse(command);
        proof {
            if args@.len() == 0 {
                assert(views(args@) =~= Seq::<Seq<char>>::empty());
            }
        }
        dispatch(cmd, args, &self.history)
    }

    /// What the shell does for a startup command: it is tokenized directly,
    /// with no alias expansion and no history recording.
    pub fn startup_command(&self, line: &str) -> (r: Action)
        ensures
            dispatch_spec(command_of(line@), args_of(line@), self.history_view(), r),
    {
        let (cmd, args) = tokenize(line);
        dispatch(cmd, args, &self.history)
    }

    /// One iteration of the interactive loop on the line read: the line is
    /// recorded and expanded, the expansion is tokenized, and the action for
    /// it is decided against the history that now holds the line.
    pub fn step(&mut self, line: String, history_cap: usize) -> (r: Action)
        requires
            old(self).wf(),
        ensures
            final(self).wf(),
            final(self).history_view() == record_spec(
                old(self).history_view(),
                line@,
                history_cap as nat,
            ),
            final(self).aliases_view() == old(self).aliases_view(),
            final(self).prompt_view() == old(self).prompt_view(),
            dispatch_spec(
                command_of(expand_spec(old(self).aliases_view(), line@)),
                args_of(expand_spec(old(self).aliases_view(), line@)),
                final(self).history_view(),
                r,
            ),
    {
        let expanded = self.alias(line, history_cap);
        let (cmd, args) = tokenize(expanded.as_str());
        dispatch(cmd, args, &self.history)
    }
}

/// Dispatching the empty line, or any line made only of spaces, does
/// nothing.
pub proof fn lemma_blank_line_no_op(line: Seq<char>, history: Seq<Seq<char>>, r: Action)
    requires
        crate::tokenize::is_blank(line),
        dispatch_spec(command_of(line), args_of(line), history, r),
    ensures
        r is Nothing,
{
    crate::tokenize::lemma_tokenize_blank(line);
}

/// After a line is recorded with a positive capacity, the newest history
/// entry is that line as it was typed, before any alias expansion.
pub proof fn lemma_history_records_typed_line(
    history: Seq<Seq<char>>,
    line: Seq<char>,
    cap: nat,
)
    requires
        cap > 0,
    ensures
        record_spec(history, line, cap).last() == line,
        record_spec(history, line, cap).len() > 0,
{
}

} // verus!
