use nixu::alias::AliasTable;
use nixu::config::{Config, HISTORY_CAP};
use nixu::dispatch::{dispatch, Action};
use nixu::history::History;
use nixu::shell::{diagnostic, input_line, usage_diagnostic, ReadOutcome, Shell};
use nixu::tokenize::{blank, parse, split_line, tokenize};

fn strings(v: &[&str]) -> Vec<String> {
    v.iter().map(|s| s.to_string()).collect()
}

fn ls_aliases() -> AliasTable {
    let mut t = AliasTable::new();
    t.insert("ls".to_string(), "ls --color=auto".to_string());
    t
}

#[test]
fn tokenize_command_and_args() {
    let (cmd, args) = tokenize("ls -la /tmp");
    assert_eq!(cmd, "ls");
    assert_eq!(args, strings(&["-la", "/tmp"]));
}

#[test]
fn tokenize_keeps_empty_tokens() {
    let (cmd, args) = tokenize("a  b ");
    assert_eq!(cmd, "a");
    assert_eq!(args, strings(&["", "b", ""]));
}

#[test]
fn tokenize_round_trip() {
    for line in ["echo hello world", "x", "cd /usr/local/bin"] {
        let (cmd, args) = tokenize(line);
        let mut parts = vec![cmd];
        parts.extend(args);
        assert_eq!(parts.join(" "), line);
    }
}

#[test]
fn tokenize_empty_line() {
    let (cmd, args) = tokenize("");
    assert_eq!(cmd, "");
    assert!(args.is_empty());
}

#[test]
fn tokenize_all_space_line() {
    let (cmd, args) = tokenize("   ");
    assert_eq!(cmd, "");
    assert!(args.is_empty());
    let (cmd, args) = tokenize(" ");
    assert_eq!(cmd, "");
    assert!(args.is_empty());
}

#[test]
fn blank_lines() {
    assert!(blank(""));
    assert!(blank("   "));
    assert!(!blank(" a "));
}

#[test]
fn step_on_all_space_line_is_no_op() {
    let mut sh = Shell::new("$ ".to_string(), AliasTable::new());
    assert!(matches!(sh.step("  ".to_string(), 100), Action::Nothing));
    assert_eq!(sh.history().entries(), strings(&["  "]));
}

#[test]
fn split_line_on_every_space() {
    assert_eq!(split_line(" a"), strings(&["", "a"]));
    assert_eq!(split_line(""), strings(&[""]));
    assert_eq!(split_line("héllo wörld"), strings(&["héllo", "wörld"]));
}

#[test]
fn parse_no_tokens() {
    let (cmd, args) = parse(Vec::new());
    assert_eq!(cmd, "");
    assert!(args.is_empty());
}

#[test]
fn history_fifo_bound() {
    let mut h = History::new();
    for l in ["l1", "l2", "l3", "l4", "l5"] {
        h.record(l.to_string(), 3);
    }
    assert_eq!(h.entries(), strings(&["l3", "l4", "l5"]));
    assert_eq!(h.len(), 3);
    assert_eq!(h.get(0), "l3");
}

#[test]
fn history_capacity_zero_keeps_nothing() {
    let mut h = History::new();
    h.record("a".to_string(), 0);
    assert_eq!(h.len(), 0);
}

#[test]
fn history_shrunk_capacity_evicts_one_per_record() {
    let mut h = History::new();
    for l in ["a", "b", "c", "d"] {
        h.record(l.to_string(), 10);
    }
    h.record("e".to_string(), 2);
    assert_eq!(h.entries(), strings(&["b", "c", "d", "e"]));
}

#[test]
fn alias_exact_match() {
    let t = ls_aliases();
    assert_eq!(t.expand("ls".to_string()), "ls --color=auto");
    assert_eq!(t.expand("ls -la".to_string()), "ls -la");
    assert_eq!(t.lookup(&"l".to_string()), None);
}

#[test]
fn alias_insert_replaces() {
    let mut t = ls_aliases();
    t.insert("ls".to_string(), "ls -1".to_string());
    t.insert("ll".to_string(), "ls -l".to_string());
    assert_eq!(t.expand("ls".to_string()), "ls -1");
    assert_eq!(t.expand("ll".to_string()), "ls -l");
}

#[test]
fn history_records_pre_expansion_text() {
    let mut sh = Shell::new("$ ".to_string(), ls_aliases());
    let expanded = sh.alias("ls".to_string(), 100);
    assert_eq!(expanded, "ls --color=auto");
    let entries = sh.history().entries();
    assert_eq!(entries.last().unwrap(), "ls");
}

#[test]
fn dispatch_empty_is_no_op() {
    let h = History::new();
    assert!(matches!(dispatch(String::new(), Vec::new(), &h), Action::Nothing));
    let sh = Shell::new("$ ".to_string(), AliasTable::new());
    assert!(matches!(sh.exec(split_line("")), Action::Nothing));
}

#[test]
fn dispatch_cd() {
    let h = History::new();
    match dispatch("cd".to_string(), strings(&["/no/such/dir-xyz"]), &h) {
        Action::ChangeDirectory { path, usage_warning } => {
            assert_eq!(path, "/no/such/dir-xyz");
            assert!(!usage_warning);
        }
        other => panic!("unexpected {:?}", other),
    }
    match dispatch("cd".to_string(), strings(&["a", "b"]), &h) {
        Action::ChangeDirectory { path, usage_warning } => {
            assert_eq!(path, "a");
            assert!(usage_warning);
        }
        other => panic!("unexpected {:?}", other),
    }
    assert!(matches!(dispatch("cd".to_string(), Vec::new(), &h), Action::MissingArgument));
}

#[test]
fn dispatch_exit() {
    let h = History::new();
    assert!(matches!(dispatch("exit".to_string(), Vec::new(), &h), Action::Exit));
}

#[test]
fn dispatch_history_lists_entries() {
    let mut h = History::new();
    h.record("ls".to_string(), 5);
    h.record("pwd".to_string(), 5);
    match dispatch("history".to_string(), Vec::new(), &h) {
        Action::PrintHistory { lines } => assert_eq!(lines, strings(&["ls", "pwd"])),
        other => panic!("unexpected {:?}", other),
    }
}

#[test]
fn dispatch_unknown_command_spawns() {
    let h = History::new();
    match dispatch("no-such-program-xyz".to_string(), strings(&["-v"]), &h) {
        Action::Spawn { program, args } => {
            assert_eq!(program, "no-such-program-xyz");
            assert_eq!(args, strings(&["-v"]));
        }
        other => panic!("unexpected {:?}", other),
    }
}

#[test]
fn step_expands_records_and_dispatches() {
    let mut sh = Shell::new("$ ".to_string(), ls_aliases());
    match sh.step("ls".to_string(), 100) {
        Action::Spawn { program, args } => {
            assert_eq!(program, "ls");
            assert_eq!(args, strings(&["--color=auto"]));
        }
        other => panic!("unexpected {:?}", other),
    }
    match sh.step("history".to_string(), 100) {
        Action::PrintHistory { lines } => assert_eq!(lines, strings(&["ls", "history"])),
        other => panic!("unexpected {:?}", other),
    }
    assert!(matches!(sh.step(String::new(), 100), Action::Nothing));
    assert_eq!(sh.history().len(), 3);
}

#[test]
fn startup_command_skips_alias_and_history() {
    let sh = Shell::new("$ ".to_string(), ls_aliases());
    match sh.startup_command("ls") {
        Action::Spawn { program, args } => {
            assert_eq!(program, "ls");
            assert!(args.is_empty());
        }
        other => panic!("unexpected {:?}", other),
    }
    assert_eq!(sh.history().len(), 0);
}

#[test]
fn diagnostics_carry_name_tag() {
    assert_eq!(diagnostic("No such file or directory"), "nixu: No such file or directory");
    assert_eq!(usage_diagnostic(), "nixu: Expected 1 argument");
}

#[test]
fn input_failures_become_empty_line() {
    assert_eq!(input_line(ReadOutcome::Line("pwd".to_string())), "pwd");
    assert_eq!(input_line(ReadOutcome::Interrupted), "");
    assert_eq!(input_line(ReadOutcome::Failed), "");
}

#[test]
fn config_defaults() {
    let c = Config::new("/home/me");
    assert_eq!(c.prompt, "/home/me$ ");
    assert_eq!(c.aliases.expand("ls".to_string()), "ls --color=auto");
    assert_eq!(c.startup, strings(&["colorscript --random"]));
    assert_eq!(c.history_cap, HISTORY_CAP);
    assert_eq!(HISTORY_CAP, 100);
}

#[test]
fn shell_prompt_is_replaced() {
    let mut sh = Shell::new("a$ ".to_string(), AliasTable::new());
    sh.set_prompt("b$ ".to_string());
    assert_eq!(sh.prompt(), "b$ ");
}
