//! String-to-string tables with unique keys, and the snapshot of the process
//! environment that the launcher works from.

use vstd::prelude::*;
use crate::text::{same_text, texts};

verus! {

/// The character sequences of a list of key/value pairs.
pub open spec fn pair_texts(v: Seq<(String, String)>) -> Seq<(Seq<char>, Seq<char>)> {
    Seq::new(v.len(), |i: int| (v[i].0@, v[i].1@))
}

/// The table that a list of pairs spells: later pairs win over earlier ones
/// with the same key.
pub open spec fn table_of(pairs: Seq<(Seq<char>, Seq<char>)>) -> Map<Seq<char>, Seq<char>>
    decreases pairs.len(),
{
    if pairs.len() == 0 {
        Map::empty()
    } else {
        table_of(pairs.drop_last()).insert(pairs.last().0, pairs.last().1)
    }
}

/// No key occurs twice in `pairs`.
pub open spec fn distinct_keys(pairs: Seq<(Seq<char>, Seq<char>)>) -> bool {
    forall|i: int, j: int| 0 <= i < j < pairs.len() ==> pairs[i].0 != pairs[j].0
}

/// Some pair of `pairs` has the key `key`.
pub open spec fn has_key(pairs: Seq<(Seq<char>, Seq<char>)>, key: Seq<char>) -> bool {
    exists|i: int| 0 <= i < pairs.len() && #[trigger] pairs[i].0 == key
}

/// Pairs with distinct keys keep them distinct when the last pair is
/// dropped.
pub proof fn lemma_distinct_init(pairs: Seq<(Seq<char>, Seq<char>)>)
    requires
        distinct_keys(pairs),
        pairs.len() > 0,
    ensures
        distinct_keys(pairs.drop_last()),
{
    let init = pairs.drop_last();
    assert forall|a: int, b: int| 0 <= a < b < init.len() implies init[a].0 != init[b].0 by {
        assert(pairs[a].0 != pairs[b].0);
    }
}

/// The keys of a table are the keys of its pairs.
pub proof fn lemma_table_keys(pairs: Seq<(Seq<char>, Seq<char>)>, key: Seq<char>)
    ensures
        table_of(pairs).dom().contains(key) <==> has_key(pairs, key),
    decreases pairs.len(),
{
    if pairs.len() > 0 {
        let init = pairs.drop_last();
        lemma_table_keys(init, key);
        if has_key(init, key) {
            let i = choose|i: int| 0 <= i < init.len() && #[trigger] init[i].0 == key;
            assert(pairs[i].0 == key);
        }
        if pairs.last().0 == key {
            assert(pairs[pairs.len() - 1].0 == key);
        }
        if has_key(pairs, key) {
            let i = choose|i: int| 0 <= i < pairs.len() && #[trigger] pairs[i].0 == key;
            if i < init.len() {
                assert(init[i].0 == key);
            }
        }
    }
}

/// With distinct keys, every pair is what the table holds for its key.
pub proof fn lemma_table_entry(pairs: Seq<(Seq<char>, Seq<char>)>, i: int)
    requires
        distinct_keys(pairs),
        0 <= i < pairs.len(),
    ensures
        table_of(pairs).dom().contains(pairs[i].0),
        table_of(pairs)[pairs[i].0] == pairs[i].1,
    decreases pairs.len(),
{
    let init = pairs.drop_last();
    if i < pairs.len() - 1 {
        lemma_distinct_init(pairs);
        lemma_table_entry(init, i);
        assert(pairs[i].0 != pairs[pairs.len() - 1].0);
    }
}

/// With distinct keys, the table has as many names as there are pairs.
pub proof fn lemma_table_len(pairs: Seq<(Seq<char>, Seq<char>)>)
    requires
        distinct_keys(pairs),
    ensures
        table_of(pairs).dom().finite(),
        table_of(pairs).dom().len() == pairs.len(),
    decreases pairs.len(),
{
    if pairs.len() > 0 {
        let init = pairs.drop_last();
        lemma_distinct_init(pairs);
        lemma_table_len(init);
        lemma_table_keys(init, pairs.last().0);
        assert(!has_key(init, pairs.last().0)) by {
            if has_key(init, pairs.last().0) {
                let i = choose|i: int| 0 <= i < init.len() && #[trigger] init[i].0 == pairs.last().0;
                assert(pairs[i].0 != pairs[pairs.len() - 1].0);
            }
        }
        assert(table_of(pairs).dom() =~= table_of(init).dom().insert(pairs.last().0));
    }
}

/// Appending a pair inserts it into the table.
pub proof fn lemma_table_push(pairs: Seq<(Seq<char>, Seq<char>)>, pair: (Seq<char>, Seq<char>))
    ensures
        table_of(pairs.push(pair)) == table_of(pairs).insert(pair.0, pair.1),
{
    assert(pairs.push(pair).drop_last() =~= pairs);
}

/// With distinct keys, replacing the value of one pair inserts the new
/// value under that pair's key.
pub proof fn lemma_table_update(pairs: Seq<(Seq<char>, Seq<char>)>, i: int, value: Seq<char>)
    requires
        distinct_keys(pairs),
        0 <= i < pairs.len(),
    ensures
        table_of(pairs.update(i, (pairs[i].0, value))) == table_of(pairs).insert(
            pairs[i].0,
            value,
        ),
        distinct_keys(pairs.update(i, (pairs[i].0, value))),
    decreases pairs.len(),
{
    let changed = pairs.update(i, (pairs[i].0, value));
    let init = pairs.drop_last();
    assert(distinct_keys(changed)) by {
        assert forall|a: int, b: int| 0 <= a < b < changed.len() implies changed[a].0
            != changed[b].0 by {
            assert(pairs[a].0 != pairs[b].0);
        }
    }
    if i == pairs.len() - 1 {
        assert(changed.drop_last() =~= init);
        assert(table_of(changed) =~= table_of(pairs).insert(pairs[i].0, value));
    } else {
        lemma_distinct_init(pairs);
        lemma_table_update(init, i, value);
        assert(changed.drop_last() =~= init.update(i, (init[i].0, value)));
        assert(pairs[i].0 != pairs[pairs.len() - 1].0);
        assert(changed.last() == pairs.last());
        assert(table_of(changed) =~= table_of(pairs).insert(pairs[i].0, value));
    }
}

/// A table from names to values in which no name occurs twice. Entries keep
/// the order in which their names were first inserted. The table is a list
/// that is searched by comparing texts, since nothing can be proved of a
/// map that orders or hashes strings.
#[derive(Debug)]
pub struct EnvVars {
    entries: Vec<(String, String)>,
}

impl View for EnvVars {
    type V = Map<Seq<char>, Seq<char>>;

    closed spec fn view(&self) -> Map<Seq<char>, Seq<char>> {
        table_of(pair_texts(self.entries@))
    }
}

impl EnvVars {
    #[verifier::type_invariant]
    spec fn well_formed(self) -> bool {
        distinct_keys(pair_texts(self.entries@))
    }

    /// The entries in order, as character sequences.
    pub closed spec fn pairs(&self) -> Seq<(Seq<char>, Seq<char>)> {
        pair_texts(self.entries@)
    }

    /// The empty table.
    pub fn new() -> (out: Self)
        ensures
            out@ == Map::<Seq<char>, Seq<char>>::empty(),
            out.pairs().len() == 0,
    {
        let out = EnvVars { entries: Vec::new() };
        assert(pair_texts(out.entries@) =~= Seq::empty());
        out
    }

    fn position(&self, key: &str) -> (out: Option<usize>)
        ensures
            match out {
                Some(i) => i < self.pairs().len() && self.pairs()[i as int].0 == key@,
                None => !has_key(self.pairs(), key@),
            },
    {
        let mut i: usize = 0;
        while i < self.entries.len()
            invariant
                i <= self.entries.len(),
                forall|j: int| 0 <= j < i ==> pair_texts(self.entries@)[j].0 != key@,
            decreases self.entries.len() - i,
        {
            if same_text(self.entries[i].0.as_str(), key) {
                return Some(i);
            }
            i += 1;
        }
        None
    }

    /// Whether `key` has a value.
    pub fn contains_key(&self, key: &str) -> (out: bool)
        ensures
            out == self@.dom().contains(key@),
    {
        proof {
            lemma_table_keys(self.pairs(), key@);
        }
        self.position(key).is_some()
    }

    /// The value of `key`, if it has one.
    pub fn get(&self, key: &str) -> (out: Option<String>)
        ensures
            match out {
                Some(value) => self@.dom().contains(key@) && value@ == self@[key@],
                None => !self@.dom().contains(key@),
            },
    {
        proof {
            use_type_invariant(self);
            lemma_table_keys(self.pairs(), key@);
        }
        match self.position(key) {
            Some(i) => {
                proof {
                    lemma_table_entry(self.pairs(), i as int);
                }
                Some(self.entries[i].1.clone())
            },
            None => None,
        }
    }

    /// Whether the table has no entry.
    pub fn is_empty(&self) -> (out: bool)
        ensures
            out == (self.pairs().len() == 0),
            out == (self@ == Map::<Seq<char>, Seq<char>>::empty()),
    {
        proof {
            if self.entries@.len() > 0 {
                lemma_table_keys(self.pairs(), self.pairs()[0].0);
                assert(self@.dom().contains(self.pairs()[0].0));
            }
        }
        self.entries.len() == 0
    }

    /// The number of entries, which is the number of names.
    pub fn len(&self) -> (out: usize)
        ensures
            out == self.pairs().len(),
            self@.dom().finite(),
            out == self@.dom().len(),
    {
        proof {
            use_type_invariant(self);
            lemma_table_len(self.pairs());
        }
        self.entries.len()
    }

    /// Sets the value of `key`, replacing the value it had.
    pub fn insert(&mut self, key: String, value: String)
        ensures
            final(self)@ == old(self)@.insert(key@, value@),
    {
        proof {
            use_type_invariant(&*self);
        }
        let ghost before = self.pairs();
        match self.position(key.as_str()) {
            Some(i) => {
                proof {
                    lemma_table_update(before, i as int, value@);
                }
                let mut entries: Vec<(String, String)> = Vec::new();
                core::mem::swap(&mut entries, &mut self.entries);
                entries[i] = (key, value);
                proof {
                    assert(pair_texts(entries@) =~= before.update(i as int, (before[i as int].0, value@)));
                }
                self.entries = entries;
            },
            None => {
                proof {
                    lemma_table_push(before, (key@, value@));
                    assert(distinct_keys(before.push((key@, value@)))) by {
                        assert forall|a: int, b: int|
                            0 <= a < b < before.len() + 1 implies before.push((key@, value@))[a].0
                            != before.push((key@, value@))[b].0 by {
                            if b == before.len() {
                                assert(before[a].0 != key@);
                            } else {
                                assert(before[a].0 != before[b].0);
                            }
                        }
                    }
                }
                let mut entries: Vec<(String, String)> = Vec::new();
                core::mem::swap(&mut entries, &mut self.entries);
                entries.push((key, value));
                proof {
                    assert(pair_texts(entries@) =~= before.push((key@, value@)));
                }
                self.entries = entries;
            },
        }
    }

    /// Builds the table that `pairs` spell, later pairs winning over earlier
    /// ones with the same name.
    pub fn from_pairs(pairs: Vec<(String, String)>) -> (out: Self)
        ensures
            out@ == table_of(pair_texts(pairs@)),
    {
        let mut out = EnvVars::new();
        let mut i: usize = 0;
        assert(pair_texts(pairs@).take(0) =~= Seq::empty());
        while i < pairs.len()
            invariant
                i <= pairs.len(),
                out@ == table_of(pair_texts(pairs@).take(i as int)),
            decreases pairs.len() - i,
        {
            proof {
                let next = pair_texts(pairs@).take(i + 1);
                assert(next.drop_last() =~= pair_texts(pairs@).take(i as int));
                assert(next.last() == (pairs@[i as int].0@, pairs@[i as int].1@));
            }
            out.insert(pairs[i].0.clone(), pairs[i].1.clone());
            i += 1;
        }
        assert(pair_texts(pairs@).take(pairs.len() as int) =~= pair_texts(pairs@));
        out
    }

    /// The entries in order. No name occurs twice among them, and together
    /// they spell the table.
    pub fn entries(&self) -> (out: Vec<(String, String)>)
        ensures
            pair_texts(out@) == self.pairs(),
            distinct_keys(self.pairs()),
            self@ == table_of(self.pairs()),
    {
        proof {
            use_type_invariant(self);
        }
        let mut out: Vec<(String, String)> = Vec::new();
        let mut i: usize = 0;
        while i < self.entries.len()
            invariant
                i <= self.entries.len(),
                pair_texts(out@) == pair_texts(self.entries@).take(i as int),
            decreases self.entries.len() - i,
        {
            let ghost before = pair_texts(out@);
            out.push((self.entries[i].0.clone(), self.entries[i].1.clone()));
            proof {
                assert(pair_texts(out@) =~= before.push(pair_texts(self.entries@)[i as int]));
                assert(pair_texts(self.entries@).take(i + 1) =~= pair_texts(self.entries@).take(
                    i as int,
                ).push(pair_texts(self.entries@)[i as int]));
            }
            i += 1;
        }
        assert(pair_texts(self.entries@).take(self.entries.len() as int) =~= pair_texts(
            self.entries@,
        ));
        out
    }

    /// Adds every entry of `other`, its values replacing those already here
    /// under the same name.
    pub fn extend(&mut self, other: &EnvVars)
        ensures
            final(self)@ == old(self)@.union_prefer_right(other@),
    {
        let items = other.entries();
        let ghost start = self@;
        let mut i: usize = 0;
        proof {
            assert(pair_texts(items@).take(0) =~= Seq::empty());
            assert(start.union_prefer_right(Map::empty()) =~= start);
        }
        while i < items.len()
            invariant
                i <= items.len(),
                self@ == start.union_prefer_right(table_of(pair_texts(items@).take(i as int))),
            decreases items.len() - i,
        {
            proof {
                let sofar = pair_texts(items@).take(i as int);
                let next = pair_texts(items@).take(i + 1);
                assert(next.drop_last() =~= sofar);
                assert(next.last() == (items@[i as int].0@, items@[i as int].1@));
                assert(start.union_prefer_right(table_of(sofar)).insert(
                    items@[i as int].0@,
                    items@[i as int].1@,
                ) =~= start.union_prefer_right(table_of(next)));
            }
            self.insert(items[i].0.clone(), items[i].1.clone());
            i += 1;
        }
        assert(pair_texts(items@).take(items.len() as int) =~= pair_texts(items@));
    }
}

impl Clone for EnvVars {
    fn clone(&self) -> (out: Self)
        ensures
            out@ == self@,
    {
        EnvVars::from_pairs(self.entries())
    }
}

impl Default for EnvVars {
    fn default() -> (out: Self)
        ensures
            out@ == Map::<Seq<char>, Seq<char>>::empty(),
    {
        EnvVars::new()
    }
}

/// What the launcher knows of the process it runs in: the user's home
/// directory and the environment variables, captured once.
#[derive(Debug)]
pub struct ProcessEnv {
    /// The home directory, empty when none is known.
    pub home: String,
    /// The environment variables.
    pub vars: EnvVars,
}

/// The mathematical content of a [`ProcessEnv`].
pub struct ProcessEnvView {
    pub home: Seq<char>,
    pub vars: Map<Seq<char>, Seq<char>>,
}

impl View for ProcessEnv {
    type V = ProcessEnvView;

    open spec fn view(&self) -> ProcessEnvView {
        ProcessEnvView { home: self.home@, vars: self.vars@ }
    }
}

/// What the named variable holds in `env`, if it is set.
pub open spec fn lookup(env: ProcessEnvView, name: Seq<char>) -> Option<Seq<char>> {
    if env.vars.dom().contains(name) {
        Some(env.vars[name])
    } else {
        None
    }
}

/// The text after tilde and variable expansion of `input`, where `~` stands
/// for `home` and `$NAME` / `${NAME}` for what `vars` holds under `NAME`;
/// references to names that `vars` lacks stay as they are written. The
/// rules are those of the `shellexpand` crate as built for the target
/// platform.
pub uninterp spec fn shell_expansion(
    input: Seq<char>,
    home: Seq<char>,
    vars: Map<Seq<char>, Seq<char>>,
) -> Seq<char>;

impl ProcessEnv {
    /// A snapshot with the given home directory and variables.
    pub fn new(home: String, vars: EnvVars) -> (out: Self)
        ensures
            out@ == (ProcessEnvView { home: home@, vars: vars@ }),
    {
        ProcessEnv { home, vars }
    }

    /// The value of the variable `name`, if it is set.
    pub fn var(&self, name: &str) -> (out: Option<String>)
        ensures
            match out {
                Some(value) => lookup(self@, name@) == Some(value@),
                None => lookup(self@, name@) is None,
            },
    {
        self.vars.get(name)
    }
}

/// `text` after expansion in `env`.
pub open spec fn expanded(text: Seq<char>, env: ProcessEnvView) -> Seq<char> {
    shell_expansion(text, env.home, env.vars)
}

/// Each of `items` after expansion in `env`.
pub open spec fn expanded_all(items: Seq<Seq<char>>, env: ProcessEnvView) -> Seq<Seq<char>> {
    Seq::new(items.len(), |i: int| expanded(items[i], env))
}

/// `table` with every value expanded in `env`.
pub open spec fn expanded_table(table: Map<Seq<char>, Seq<char>>, env: ProcessEnvView) -> Map<
    Seq<char>,
    Seq<char>,
> {
    Map::new(|k: Seq<char>| table.dom().contains(k), |k: Seq<char>| expanded(table[k], env))
}

/// `shellexpand::full_with_context_no_errors`, with `env.home` as the home
/// directory and `env.vars` as the variables. The expansion reads nothing but
/// its input and what the two closures hand it, so its result is a function
/// of the input text, the home directory and the variable table; it never
/// fails, since the lookup it is given cannot.
#[verifier::external_body]
pub(crate) fn shellexpand_full_no_errors(s: &str, env: &ProcessEnv) -> (out: String)
    ensures
        out@ == shell_expansion(s@, env.home@, env.vars@),
{
    shellexpand::full_with_context_no_errors::<str, _, _, String, _>(
        s,
        || Some(env.home.clone()),
        |name| env.vars.get(name),
    ).into_owned()
}

impl ProcessEnv {
    /// Expands `~` and variable references in `text`.
    pub fn expand(&self, text: &str) -> (out: String)
        ensures
            out@ == expanded(text@, self@),
    {
        shellexpand_full_no_errors(text, self)
    }

    /// Expands each of `items`.
    pub fn expand_all(&self, items: &Vec<String>) -> (out: Vec<String>)
        ensures
            texts(out@) == expanded_all(texts(items@), self@),
    {
        let mut out: Vec<String> = Vec::new();
        let mut i: usize = 0;
        while i < items.len()
            invariant
                i <= items.len(),
                out.len() == i,
                forall|j: int| 0 <= j < i ==> out@[j]@ == expanded(items@[j]@, self@),
            decreases items.len() - i,
        {
            out.push(self.expand(items[i].as_str()));
            i += 1;
        }
        assert(texts(out@) =~= expanded_all(texts(items@), self@));
        out
    }

    /// Expands every value of `table`.
    pub fn expand_table(&self, table: &EnvVars) -> (out: EnvVars)
        ensures
            out@ == expanded_table(table@, self@),
    {
        let mut out = EnvVars::new();
        let items = table.entries();
        let mut i: usize = 0;
        proof {
            assert(pair_texts(items@).take(0) =~= Seq::empty());
            assert(out@ =~= expanded_table(Map::empty(), self@));
        }
        while i < items.len()
            invariant
                i <= items.len(),
                out@ == expanded_table(table_of(pair_texts(items@).take(i as int)), self@),
            decreases items.len() - i,
        {
            let value = self.expand(items[i].1.as_str());
            proof {
                let sofar = pair_texts(items@).take(i as int);
                let next = pair_texts(items@).take(i + 1);
                assert(next.drop_last() =~= sofar);
                assert(next.last() == (items@[i as int].0@, items@[i as int].1@));
                assert(expanded_table(table_of(sofar), self@).insert(items@[i as int].0@, value@)
                    =~= expanded_table(table_of(next), self@));
            }
            out.insert(items[i].0.clone(), value);
            i += 1;
        }
        assert(pair_texts(items@).take(items.len() as int) =~= pair_texts(items@));
        out
    }
}

} // verus!
