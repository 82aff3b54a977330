//! The parameters of a query string, with repeated names gathered in order.
use vstd::prelude::*;
use crate::text::{char_pos, find_char, lemma_char_pos_bounds, split_on, split_text};

verus! {

/// The value(s) given for one parameter name: one value, or the values of
/// a name that was repeated, in order of appearance.
#[derive(Debug)]
pub enum Value {
    Single(String),
    Multiple(Vec<String>),
}

impl Value {
    /// The values in order of appearance.
    pub open spec fn values(self) -> Seq<Seq<char>> {
        match self {
            Value::Single(s) => seq![s@],
            Value::Multiple(v) => v@.map_values(|s: String| s@),
        }
    }

    /// A repeated name holds at least two values.
    pub open spec fn wf(self) -> bool {
        match self {
            Value::Single(_) => true,
            Value::Multiple(v) => v@.len() >= 2,
        }
    }
}

/// The entries of a query string, in order of first appearance of each name.
pub type Entries = Seq<(Seq<char>, Seq<Seq<char>>)>;

/// The name of a `name=value` pair: the text before its first `=`, or the
/// whole pair when it holds none.
pub open spec fn pair_name(p: Seq<char>) -> Seq<char> {
    p.subrange(0, char_pos(p, '='))
}

/// The value of a `name=value` pair: the text after its first `=`, or the
/// empty text when it holds none.
pub open spec fn pair_value(p: Seq<char>) -> Seq<char> {
    let i = char_pos(p, '=');
    if i < p.len() {
        p.subrange(i + 1, p.len() as int)
    } else {
        Seq::empty()
    }
}

/// The index of the entry named `k` in `es`, or `es.len()` when there is none.
pub open spec fn name_pos(es: Entries, k: Seq<char>) -> int
    decreases es.len(),
{
    if es.len() == 0 {
        0
    } else {
        let p = name_pos(es.drop_last(), k);
        if p < es.len() - 1 {
            p
        } else if es.last().0 == k {
            es.len() - 1
        } else {
            es.len() as int
        }
    }
}

/// `es` with the value `v` added under the name `k`: appended to the values
/// of an existing entry, or as a new entry at the end.
pub open spec fn add_pair(es: Entries, k: Seq<char>, v: Seq<char>) -> Entries {
    let i = name_pos(es, k);
    if i < es.len() {
        es.update(i, (k, es[i].1.push(v)))
    } else {
        es.push((k, seq![v]))
    }
}

/// The entries built from the pairs `ps`, taken in order.
pub open spec fn entries_of(ps: Seq<Seq<char>>) -> Entries
    decreases ps.len(),
{
    if ps.len() == 0 {
        Seq::empty()
    } else {
        let es = entries_of(ps.drop_last());
        add_pair(es, pair_name(ps.last()), pair_value(ps.last()))
    }
}

/// The entries of the raw query text `s`, split on `&` into pairs.
pub open spec fn query_of(s: Seq<char>) -> Entries {
    entries_of(split_on(s, '&'))
}

pub proof fn lemma_name_pos_bounds(es: Entries, k: Seq<char>)
    ensures
        0 <= name_pos(es, k) <= es.len(),
        name_pos(es, k) < es.len() ==> es[name_pos(es, k)].0 == k,
        forall|j: int| 0 <= j < name_pos(es, k) ==> (#[trigger] es[j]).0 != k,
    decreases es.len(),
{
    if es.len() > 0 {
        lemma_name_pos_bounds(es.drop_last(), k);
        assert forall|j: int| 0 <= j < name_pos(es, k) implies (#[trigger] es[j]).0 != k by {
            if j < es.len() - 1 {
                assert(es[j] == es.drop_last()[j]);
            }
        }
    }
}

pub proof fn lemma_name_pos_extend(es: Entries, t: Entries, k: Seq<char>)
    requires
        name_pos(es, k) < es.len(),
    ensures
        name_pos(es + t, k) == name_pos(es, k),
    decreases t.len(),
{
    if t.len() > 0 {
        lemma_name_pos_extend(es, t.drop_last(), k);
        assert((es + t).drop_last() =~= es + t.drop_last());
        lemma_name_pos_bounds(es, k);
    }
}

/// The parameters of a query string. Each name appears once, in order of
/// its first appearance.
#[derive(Debug)]
pub struct QueryString {
    data: Vec<(String, Value)>,
}

impl QueryString {
    pub closed spec fn entries(self) -> Entries {
        self.data@.map_values(|e: (String, Value)| (e.0@, e.1.values()))
    }

    pub closed spec fn wf(self) -> bool {
        &&& forall|i: int| 0 <= i < self.data@.len() ==> (#[trigger] self.data@[i]).1.wf()
        &&& forall|i: int, j: int|
            0 <= i < j < self.data@.len() ==> (#[trigger] self.data@[i]).0@ != (
            #[trigger] self.data@[j]).0@
    }

    /// The index of the entry named `k`, if there is one.
    fn find_name(&self, k: &str) -> (r: Option<usize>)
        ensures
            match r {
                Some(i) => i < self.entries().len() && i == name_pos(self.entries(), k@),
                None => name_pos(self.entries(), k@) == self.entries().len(),
            },
    {
        let ghost es = self.entries();
        let n = self.data.len();
        let mut i: usize = 0;
        while i < n
            invariant
                n == self.data@.len(),
                es == self.entries(),
                i <= n,
                name_pos(es.subrange(0, i as int), k@) == i,
            decreases n - i,
        {
            assert(es.subrange(0, i + 1).drop_last() =~= es.subrange(0, i as int));
            assert(es[i as int].0 == self.data@[i as int].0@);
            if crate::text::same_text(self.data[i].0.as_str(), k) {
                proof {
                    lemma_name_pos_extend(es.subrange(0, i + 1), es.subrange(i + 1, n as int), k@);
                    assert(es.subrange(0, i + 1) + es.subrange(i + 1, n as int) =~= es);
                }
                return Some(i);
            }
            i = i + 1;
        }
        assert(es.subrange(0, n as int) =~= es);
        None
    }

    /// Adds the value `v` under the name `k`.
    fn add(&mut self, k: &str, v: &str)
        requires
            old(self).wf(),
        ensures
            final(self).wf(),
            final(self).entries() == add_pair(old(self).entries(), k@, v@),
    {
        let ghost es = self.entries();
        match self.find_name(k) {
            Some(i) => {
                let ghost before = self.data@;
                proof {
                    lemma_name_pos_bounds(es, k@);
                }
                let (name, value) = self.data.remove(i);
                assert(name@ == k@);
                let ghost old_values = value.values();
                let next = match value {
                    Value::Single(first) => {
                        let mut vs: Vec<String> = Vec::new();
                        vs.push(first);
                        vs.push(v.to_owned());
                        Value::Multiple(vs)
                    },
                    Value::Multiple(mut vs) => {
                        vs.push(v.to_owned());
                        Value::Multiple(vs)
                    },
                };
                assert(next.values() =~= old_values.push(v@));
                self.data.insert(i, (name, next));
                assert(self.data@ =~= before.update(i as int, (name, next)));
                assert(self.entries() =~= es.update(i as int, (k@, es[i as int].1.push(v@))));
            },
            None => {
                proof {
                    lemma_name_pos_bounds(es, k@);
                    assert forall|j: int| 0 <= j < es.len() implies (#[trigger] self.data@[j]).0@
                        != k@ by {
                        assert(es[j].0 == self.data@[j].0@);
                    }
                }
                self.data.push((k.to_owned(), Value::Single(v.to_owned())));
                assert(self.entries() =~= es.push((k@, seq![v@])));
            },
        }
    }

    /// Builds the parameters of the raw query text `s`: split on `&`, each
    /// pair split at its first `=`. No decoding of the text is done.
    pub fn from(s: &str) -> (r: QueryString)
        ensures
            r.wf(),
            r.entries() == query_of(s@),
    {
        let pairs = split_text(s, '&');
        let ghost ps = split_on(s@, '&');
        let mut q = QueryString { data: Vec::new() };
        assert(q.entries() =~= entries_of(ps.subrange(0, 0)));
        let mut i: usize = 0;
        while i < pairs.len()
            invariant
                pairs@.map_values(|p: &str| p@) == ps,
                i <= pairs@.len(),
                q.wf(),
                q.entries() == entries_of(ps.subrange(0, i as int)),
            decreases pairs@.len() - i,
        {
            let p = pairs[i];
            assert(p@ == ps[i as int]);
            let (name, value) = match find_char(p, '=') {
                Some(j) => {
                    let n = p.unicode_len();
                    (p.substring_char(0, j), p.substring_char(j + 1, n))
                },
                None => {
                    let n = p.unicode_len();
                    proof {
                        reveal_strlit("");
                    }
                    (p.substring_char(0, n), "")
                },
            };
            proof {
                lemma_char_pos_bounds(p@, '=');
            }
            assert(name@ == pair_name(p@));
            assert(value@ =~= pair_value(p@));
            assert(ps.subrange(0, i + 1).drop_last() =~= ps.subrange(0, i as int));
            q.add(name, value);
            i = i + 1;
        }
        assert(ps.subrange(0, pairs@.len() as int) =~= ps);
        q
    }

    /// The value(s) given for the name `k`, if any.
    pub fn get(&self, k: &str) -> (r: Option<&Value>)
        requires
            self.wf(),
        ensures
            match r {
                Some(v) => name_pos(self.entries(), k@) < self.entries().len() && v.values()
                    == self.entries()[name_pos(self.entries(), k@)].1 && v.wf(),
                None => name_pos(self.entries(), k@) == self.entries().len(),
            },
    {
        match self.find_name(k) {
            Some(i) => Some(&self.data[i].1),
            None => None,
        }
    }

    /// The number of distinct names.
    pub fn len(&self) -> (r: usize)
        ensures
            r == self.entries().len(),
    {
        self.data.len()
    }
}

} // verus!
