//! The alias table: whole-line textual substitutions applied before a line
//! is tokenized.
use vstd::prelude::*;
use crate::tokenize::views;

verus! {

/// The mapping that parallel sequences of keys and values stand for; a later
/// key shadows an earlier equal one.
pub open spec fn map_of(keys: Seq<Seq<char>>, vals: Seq<Seq<char>>) -> Map<Seq<char>, Seq<char>>
    decreases keys.len(),
{
    if keys.len() == 0 || vals.len() == 0 {
        Map::empty()
    } else {
        map_of(keys.drop_last(), vals.drop_last()).insert(keys.last(), vals.last())
    }
}

/// No key occurs twice.
pub open spec fn unique(keys: Seq<Seq<char>>) -> bool {
    forall|i: int, j: int| 0 <= i < j < keys.len() ==> keys[i] != keys[j]
}

/// The line that `line` becomes under `aliases`: its replacement when the
/// whole line is a key, the line itself otherwise.
pub open spec fn expand_spec(aliases: Map<Seq<char>, Seq<char>>, line: Seq<char>) -> Seq<char> {
    if aliases.contains_key(line) {
        aliases[line]
    } else {
        line
    }
}

proof fn lemma_map_of_found(keys: Seq<Seq<char>>, vals: Seq<Seq<char>>, i: int)
    requires
        unique(keys),
        keys.len() == vals.len(),
        0 <= i < keys.len(),
    ensures
        map_of(keys, vals).contains_key(keys[i]),
        map_of(keys, vals)[keys[i]] == vals[i],
    decreases keys.len(),
{
    if i < keys.len() - 1 {
        lemma_map_of_found(keys.drop_last(), vals.drop_last(), i);
    }
}

proof fn lemma_map_of_absent(keys: Seq<Seq<char>>, vals: Seq<Seq<char>>, k: Seq<char>)
    requires
        keys.len() == vals.len(),
        forall|j: int| 0 <= j < keys.len() ==> keys[j] != k,
    ensures
        !map_of(keys, vals).contains_key(k),
    decreases keys.len(),
{
    if keys.len() > 0 {
        lemma_map_of_absent(keys.drop_last(), vals.drop_last(), k);
    }
}

proof fn lemma_map_of_update(keys: Seq<Seq<char>>, vals: Seq<Seq<char>>, i: int, v: Seq<char>)
    requires
        unique(keys),
        keys.len() == vals.len(),
        0 <= i < keys.len(),
    ensures
        map_of(keys, vals.update(i, v)) == map_of(keys, vals).insert(keys[i], v),
    decreases keys.len(),
{
    let upd = vals.update(i, v);
    if i == keys.len() - 1 {
        assert(upd.drop_last() =~= vals.drop_last());
        assert(map_of(keys, upd) =~= map_of(keys, vals).insert(keys[i], v));
    } else {
        assert(upd.drop_last() =~= vals.drop_last().update(i, v));
        lemma_map_of_update(keys.drop_last(), vals.drop_last(), i, v);
        assert(keys.last() != keys[i]);
        assert(map_of(keys, upd) =~= map_of(keys, vals).insert(keys[i], v));
    }
}

/// A mapping from whole command lines to replacement command lines.
pub struct AliasTable {
    keys: Vec<String>,
    vals: Vec<String>,
}

impl View for AliasTable {
    type V = Map<Seq<char>, Seq<char>>;

    closed spec fn view(&self) -> Map<Seq<char>, Seq<char>> {
        map_of(views(self.keys@), views(self.vals@))
    }
}

impl AliasTable {
    /// Keys and values pair up one for one, and no key occurs twice.
    pub closed spec fn wf(&self) -> bool {
        &&& self.keys@.len() == self.vals@.len()
        &&& unique(views(self.keys@))
    }

    /// An empty table.
    pub fn new() -> (r: AliasTable)
        ensures
            r.wf(),
            r@ == Map::<Seq<char>, Seq<char>>::empty(),
    {
        AliasTable { keys: Vec::new(), vals: Vec::new() }
    }

    /// The position of `key` among the keys, if it is one.
    fn position(&self, key: &String) -> (r: Option<usize>)
        requires
            self.wf(),
        ensures
            match r {
                Some(i) => i < self.keys@.len() && self.keys@[i as int]@ == key@,
                None => forall|j: int| 0 <= j < self.keys@.len() ==> self.keys@[j]@ != key@,
            },
    {
        let n = self.keys.len();
        let mut i: usize = 0;
        while i < n
            invariant
                n == self.keys@.len(),
                i <= n,
                forall|j: int| 0 <= j < i ==> self.keys@[j]@ != key@,
            decreases n - i,
        {
            if self.keys[i] == *key {
                return Some(i);
            }
            i = i + 1;
        }
        None
    }

    /// Maps `key` to `value`, replacing what `key` was mapped to before.
    pub fn insert(&mut self, key: String, value: String)
        requires
            old(self).wf(),
        ensures
            final(self).wf(),
            final(self)@ == old(self)@.insert(key@, value@),
    {
        let ghost ks = views(self.keys@);
        let ghost vs = views(self.vals@);
        match self.position(&key) {
            Some(i) => {
                proof {
                    lemma_map_of_update(ks, vs, i as int, value@);
                }
                self.vals.set(i, value);
                assert(views(self.vals@) =~= vs.update(i as int, value@));
                assert(self.keys@[i as int]@ == key@);
            },
            None => {
                let ghost old_keys = self.keys@;
                self.keys.push(key);
                self.vals.push(value);
                assert(views(self.keys@) =~= ks.push(key@));
                assert(views(self.vals@) =~= vs.push(value@));
                assert(views(self.keys@).drop_last() =~= ks);
                assert(views(self.vals@).drop_last() =~= vs);
                assert forall|a: int, b: int|
                    0 <= a < b < views(self.keys@).len() implies views(self.keys@)[a] != views(
                    self.keys@,
                )[b] by {
                    if b == ks.len() {
                        assert(old_keys[a]@ != key@);
                    }
                }
            },
        }
    }

    /// The replacement for `line`, if the whole line is a key.
    pub fn lookup(&self, line: &String) -> (r: Option<String>)
        requires
            self.wf(),
        ensures
            match r {
                Some(v) => self@.contains_key(line@) && v@ == self@[line@],
                None => !self@.contains_key(line@),
            },
    {
        match self.position(line) {
            Some(i) => {
                proof {
                    lemma_map_of_found(views(self.keys@), views(self.vals@), i as int);
                }
                Some(self.vals[i].clone())
            },
            None => {
                proof {
                    lemma_map_of_absent(views(self.keys@), views(self.vals@), line@);
                }
                None
            },
        }
    }

    /// `line` with its alias applied: the replacement when the whole line is
    /// a key, the line unchanged otherwise.
    pub fn expand(&self, line: String) -> (r: String)
        requires
            self.wf(),
        ensures
            r@ == expand_spec(self@, line@),
    {
        match self.lookup(&line) {
            Some(v) => v,
            None => line,
        }
    }
}

} // verus!
