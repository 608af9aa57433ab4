//! Splitting a command line into a command word and its arguments.
//!
//! A line is split on every single space character: there is no quoting, no
//! escaping, and consecutive spaces give empty tokens. A line made only of
//! spaces, the empty line included, has an empty command word and no
//! arguments.
use vstd::prelude::*;

verus! {

/// The space character that separates tokens.
pub open spec fn is_delim(c: char) -> bool {
    c == ' '
}

/// The tokens of `s`, split on every space. There is always at least one
/// token: the empty line gives one empty token.
pub open spec fn split_spec(s: Seq<char>) -> Seq<Seq<char>>
    decreases s.len(),
{
    if s.len() == 0 {
        seq![Seq::<char>::empty()]
    } else {
        let pre = split_spec(s.drop_last());
        if is_delim(s.last()) {
            pre.push(Seq::<char>::empty())
        } else {
            pre.update(pre.len() - 1, pre.last().push(s.last()))
        }
    }
}

/// The tokens of `t` joined with single spaces.
pub open spec fn join_spec(t: Seq<Seq<char>>) -> Seq<char>
    decreases t.len(),
{
    if t.len() == 0 {
        Seq::<char>::empty()
    } else if t.len() == 1 {
        t[0]
    } else {
        join_spec(t.drop_last()) + seq![' '] + t.last()
    }
}

/// The character sequences that a vector of strings holds.
pub open spec fn views(v: Seq<String>) -> Seq<Seq<char>> {
    v.map_values(|s: String| s@)
}

/// Whether every character of `line` is a space; true of the empty line.
pub open spec fn is_blank(line: Seq<char>) -> bool {
    forall|i: int| 0 <= i < line.len() ==> is_delim(#[trigger] line[i])
}

/// The command word of a line: empty for a blank line, its first token
/// otherwise.
pub open spec fn command_of(line: Seq<char>) -> Seq<char> {
    if is_blank(line) {
        Seq::empty()
    } else {
        split_spec(line)[0]
    }
}

/// The arguments of a line: none for a blank line, every token after the
/// first, in order, otherwise.
pub open spec fn args_of(line: Seq<char>) -> Seq<Seq<char>> {
    if is_blank(line) {
        Seq::empty()
    } else {
        split_spec(line).drop_first()
    }
}

/// Every line has at least one token.
pub proof fn lemma_split_nonempty(s: Seq<char>)
    ensures
        split_spec(s).len() >= 1,
    decreases s.len(),
{
    if s.len() > 0 {
        lemma_split_nonempty(s.drop_last());
    }
}

/// Splitting a line and joining its tokens with single spaces gives the
/// line back.
pub proof fn lemma_split_join(s: Seq<char>)
    ensures
        join_spec(split_spec(s)) == s,
    decreases s.len(),
{
    if s.len() > 0 {
        let init = s.drop_last();
        let pre = split_spec(init);
        lemma_split_join(init);
        lemma_split_nonempty(init);
        assert(s =~= init.push(s.last()));
        if is_delim(s.last()) {
            let q = pre.push(Seq::<char>::empty());
            assert(q.drop_last() =~= pre);
            assert(join_spec(q) =~= init + seq![' '] + Seq::<char>::empty());
        } else {
            let q = pre.update(pre.len() - 1, pre.last().push(s.last()));
            if pre.len() == 1 {
                assert(join_spec(q) =~= init.push(s.last()));
            } else {
                assert(q.drop_last() =~= pre.drop_last());
                assert(join_spec(q) =~= join_spec(pre).push(s.last()));
            }
        }
    }
}

/// For a line that neither starts nor ends with a space, rejoining its
/// command word and its arguments with single spaces reproduces the line.
pub proof fn lemma_tokenize_round_trip(line: Seq<char>)
    requires
        line.len() > 0 ==> !is_delim(line[0]) && !is_delim(line.last()),
    ensures
        join_spec(seq![command_of(line)] + args_of(line)) == line,
{
    lemma_split_nonempty(line);
    lemma_split_join(line);
    if line.len() == 0 {
        assert(seq![command_of(line)] + args_of(line) =~= seq![Seq::<char>::empty()]);
    } else {
        assert(!is_delim(line[0]));
        assert(seq![command_of(line)] + args_of(line) =~= split_spec(line));
    }
}

/// A line made only of spaces has an empty command word and no arguments.
pub proof fn lemma_tokenize_blank(line: Seq<char>)
    requires
        is_blank(line),
    ensures
        command_of(line) == Seq::<char>::empty(),
        args_of(line).len() == 0,
{
}

/// The empty line has an empty command word and no arguments.
pub proof fn lemma_tokenize_empty()
    ensures
        command_of(Seq::<char>::empty()) == Seq::<char>::empty(),
        args_of(Seq::<char>::empty()).len() == 0,
{
}

/// Splits `line` on every space character.
pub fn split_line(line: &str) -> (r: Vec<String>)
    ensures
        views(r@) == split_spec(line@),
{
    let n = line.unicode_len();
    let mut tokens: Vec<String> = Vec::new();
    let mut start: usize = 0;
    let mut i: usize = 0;
    assert(line@.subrange(0, 0) =~= Seq::<char>::empty());
    assert(views(tokens@).push(line@.subrange(0, 0)) =~= seq![Seq::<char>::empty()]);
    while i < n
        invariant
            n == line@.len(),
            start <= i <= n,
            views(tokens@).push(line@.subrange(start as int, i as int)) == split_spec(
                line@.subrange(0, i as int),
            ),
        decreases n - i,
    {
        let c = line.get_char(i);
        let ghost prefix = line@.subrange(0, i as int);
        assert(line@.subrange(0, i + 1).drop_last() =~= prefix);
        if c == ' ' {
            let piece = String::from_str(line.substring_char(start, i));
            assert(views(tokens@.push(piece)) =~= views(tokens@).push(piece@));
            tokens.push(piece);
            start = i + 1;
            assert(line@.subrange(start as int, i + 1) =~= Seq::<char>::empty());
        } else {
            let ghost pre = split_spec(prefix);
            assert(line@.subrange(start as int, i + 1) =~= line@.subrange(
                start as int,
                i as int,
            ).push(c));
            assert(views(tokens@).push(line@.subrange(start as int, i + 1)) =~= pre.update(
                pre.len() - 1,
                pre.last().push(c),
            ));
        }
        i = i + 1;
    }
    let last = String::from_str(line.substring_char(start, n));
    assert(line@.subrange(0, n as int) =~= line@);
    assert(views(tokens@.push(last)) =~= views(tokens@).push(last@));
    tokens.push(last);
    tokens
}

/// Separates a list of tokens into its first element, the command word, and
/// the rest, the arguments. No tokens give an empty command word.
pub fn parse(tokens: Vec<String>) -> (r: (String, Vec<String>))
    ensures
        tokens@.len() == 0 ==> r.0@ == Seq::<char>::empty() && r.1@.len() == 0,
        tokens@.len() > 0 ==> r.0@ == tokens@[0]@ && views(r.1@) == views(tokens@).drop_first(),
{
    let mut cmd = String::new();
    let mut args: Vec<String> = Vec::new();
    let n = tokens.len();
    let mut i: usize = 0;
    while i < n
        invariant
            n == tokens@.len(),
            i <= n,
            i > 0 ==> cmd@ == tokens@[0]@,
            i == 0 ==> cmd@ == Seq::<char>::empty(),
            i == 0 ==> args@.len() == 0,
            i > 0 ==> views(args@) == views(tokens@).subrange(1, i as int),
        decreases n - i,
    {
        let t = tokens[i].clone();
        if i == 0 {
            cmd = t;
        } else {
            assert(views(args@.push(t)) =~= views(args@).push(t@));
            assert(views(tokens@).subrange(1, i + 1) =~= views(tokens@).subrange(1, i as int).push(
                t@,
            ));
            args.push(t);
        }
        i = i + 1;
    }
    if n > 0 {
        assert(views(tokens@).subrange(1, n as int) =~= views(tokens@).drop_first());
    }
    (cmd, args)
}

/// Whether every character of `line` is a space.
pub fn blank(line: &str) -> (r: bool)
    ensures
        r == is_blank(line@),
{
    let n = line.unicode_len();
    let mut i: usize = 0;
    while i < n
        invariant
            n == line@.len(),
            i <= n,
            forall|j: int| 0 <= j < i ==> is_delim(#[trigger] line@[j]),
        decreases n - i,
    {
        if line.get_char(i) != ' ' {
            return false;
        }
        i = i + 1;
    }
    true
}

/// Splits `line` into its command word and its arguments.
pub fn tokenize(line: &str) -> (r: (String, Vec<String>))
    ensures
        r.0@ == command_of(line@),
        views(r.1@) == args_of(line@),
{
    if blank(line) {
        let args: Vec<String> = Vec::new();
        assert(views(args@) =~= Seq::<Seq<char>>::empty());
        return (String::new(), args);
    }
    let tokens = split_line(line);
    proof {
        lemma_split_nonempty(line@);
    }
    parse(tokens)
}

} // verus!
