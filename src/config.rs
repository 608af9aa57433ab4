//! The shell's configuration: prompt, aliases, startup commands and history
//! capacity.
use vstd::prelude::*;
use crate::alias::AliasTable;
use crate::tokenize::views;

verus! {

/// The number of history entries kept.
pub const HISTORY_CAP: usize = 100;

/// The prompt shown in directory `cwd`: the directory followed by `$ `.
pub open spec fn prompt_spec(cwd: Seq<char>) -> Seq<char> {
    cwd + seq!['$', ' ']
}

/// A snapshot of the configuration.
pub struct Config {
    pub prompt: String,
    pub aliases: AliasTable,
    pub startup: Vec<String>,
    pub history_cap: usize,
}

impl Config {
    /// The configuration for working directory `cwd`: the prompt shows the
    /// directory, `ls` is aliased to `ls --color=auto`, one startup command
    /// runs `colorscript --random`, and the history keeps 100 entries.
    pub fn new(cwd: &str) -> (r: Config)
        ensures
            r.aliases.wf(),
            r.prompt@ == prompt_spec(cwd@),
            r.aliases@ == map![
                "ls"@ => "ls --color=auto"@,
            ],
            views(r.startup@) == seq!["colorscript --random"@],
            r.history_cap == HISTORY_CAP,
    {
        let mut aliases = AliasTable::new();
        aliases.insert(String::from_str("ls"), String::from_str("ls --color=auto"));
        let prompt = String::from_str(cwd).concat("$ ");
        proof {
            reveal_strlit("$ ");
        }
        let mut startup: Vec<String> = Vec::new();
        startup.push(String::from_str("colorscript --random"));
        assert(views(startup@) =~= seq!["colorscript --random"@]);
        assert(aliases@ =~= map!["ls"@ => "ls --color=auto"@]);
        assert(prompt@ =~= prompt_spec(cwd@));
        Config { prompt, aliases, startup, history_cap: HISTORY_CAP }
    }
}

} // verus!
