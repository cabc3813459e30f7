//! A tabular record: column names mapped to string values.
use vstd::prelude::*;
use crate::text::str_eq;

verus! {

/// The column map that a list of (name, value) entries stands for; a later
/// entry for the same name takes precedence.
pub open spec fn entries_map(s: Seq<(String, String)>) -> Map<Seq<char>, Seq<char>>
    decreases s.len(),
{
    if s.len() == 0 {
        Map::empty()
    } else {
        entries_map(s.drop_last()).insert(s.last().0@, s.last().1@)
    }
}

/// The value of column `k` in `m`, or `default` where the column is absent.
pub open spec fn value_or(m: Map<Seq<char>, Seq<char>>, k: Seq<char>, default: Seq<char>) -> Seq<char> {
    if m.contains_key(k) {
        m[k]
    } else {
        default
    }
}

/// The value of column `k` in `m`, or the empty string where it is absent.
pub open spec fn value_of(m: Map<Seq<char>, Seq<char>>, k: Seq<char>) -> Seq<char> {
    value_or(m, k, Seq::empty())
}

/// One row of data, keyed by column name. Columns need not be the same
/// across records.
#[derive(Clone, Debug)]
pub struct Record {
    entries: Vec<(String, String)>,
}

impl View for Record {
    type V = Map<Seq<char>, Seq<char>>;

    closed spec fn view(&self) -> Map<Seq<char>, Seq<char>> {
        entries_map(self.entries@)
    }
}

proof fn lemma_entry_found(s: Seq<(String, String)>, j: int, k: Seq<char>)
    requires
        0 <= j < s.len(),
        s[j].0@ == k,
        forall|t: int| j < t < s.len() ==> (#[trigger] s[t]).0@ != k,
    ensures
        entries_map(s).contains_key(k),
        entries_map(s)[k] == s[j].1@,
    decreases s.len(),
{
    if j < s.len() - 1 {
        let p = s.drop_last();
        assert forall|t: int| j < t < p.len() implies (#[trigger] p[t]).0@ != k by {
            assert(p[t] == s[t]);
        }
        lemma_entry_found(p, j, k);
    }
}

proof fn lemma_entry_absent(s: Seq<(String, String)>, k: Seq<char>)
    requires
        forall|t: int| 0 <= t < s.len() ==> (#[trigger] s[t]).0@ != k,
    ensures
        !entries_map(s).contains_key(k),
    decreases s.len(),
{
    if s.len() > 0 {
        let p = s.drop_last();
        assert forall|t: int| 0 <= t < p.len() implies (#[trigger] p[t]).0@ != k by {
            assert(p[t] == s[t]);
        }
        lemma_entry_absent(p, k);
    }
}

proof fn lemma_entry_update(s: Seq<(String, String)>, j: int, e: (String, String))
    requires
        0 <= j < s.len(),
        s[j].0@ == e.0@,
        forall|t: int| j < t < s.len() ==> (#[trigger] s[t]).0@ != e.0@,
    ensures
        entries_map(s.update(j, e)) == entries_map(s).insert(e.0@, e.1@),
    decreases s.len(),
{
    let u = s.update(j, e);
    if j == s.len() - 1 {
        assert(u.drop_last() =~= s.drop_last());
        assert(entries_map(u) =~= entries_map(s).insert(e.0@, e.1@));
    } else {
        let p = s.drop_last();
        assert forall|t: int| j < t < p.len() implies (#[trigger] p[t]).0@ != e.0@ by {
            assert(p[t] == s[t]);
        }
        lemma_entry_update(p, j, e);
        assert(u.drop_last() =~= p.update(j, e));
        assert(entries_map(u) =~= entries_map(s).insert(e.0@, e.1@));
    }
}

impl Record {
    /// A record with no columns.
    pub fn new() -> (r: Record)
        ensures
            r@ == Map::<Seq<char>, Seq<char>>::empty(),
    {
        Record { entries: Vec::new() }
    }

    /// Position of the entry that holds column `key`, if any.
    fn position(&self, key: &str) -> (r: Option<usize>)
        ensures
            match r {
                Some(j) => {
                    &&& j < self.entries@.len()
                    &&& self.entries@[j as int].0@ == key@
                    &&& forall|t: int|
                        j < t < self.entries@.len() ==> (#[trigger] self.entries@[t]).0@ != key@
                },
                None => forall|t: int|
                    0 <= t < self.entries@.len() ==> (#[trigger] self.entries@[t]).0@ != key@,
            },
    {
        let mut i: usize = self.entries.len();
        while i > 0
            invariant
                i <= self.entries@.len(),
                forall|t: int|
                    i <= t < self.entries@.len() ==> (#[trigger] self.entries@[t]).0@ != key@,
            decreases i,
        {
            let j = i - 1;
            if str_eq(self.entries[j].0.as_str(), key) {
                return Some(j);
            }
            i = j;
        }
        None
    }

    /// The value of column `key`, if the record has that column.
    pub fn get(&self, key: &str) -> (r: Option<&String>)
        ensures
            match r {
                Some(v) => self@.contains_key(key@) && v@ == self@[key@],
                None => !self@.contains_key(key@),
            },
    {
        match self.position(key) {
            Some(j) => {
                proof {
                    lemma_entry_found(self.entries@, j as int, key@);
                }
                Some(&self.entries[j].1)
            },
            None => {
                proof {
                    lemma_entry_absent(self.entries@, key@);
                }
                None
            },
        }
    }

    /// The value of column `key`, or the empty string where it is absent.
    pub fn get_or_empty(&self, key: &str) -> (r: &str)
        ensures
            r@ == value_of(self@, key@),
    {
        match self.get(key) {
            Some(v) => v.as_str(),
            None => {
                proof {
                    reveal_strlit("");
                }
                ""
            },
        }
    }

    /// Sets column `key` to `value`, replacing any value it had.
    pub fn set(&mut self, key: String, value: String)
        ensures
            final(self)@ == old(self)@.insert(key@, value@),
    {
        match self.position(key.as_str()) {
            Some(j) => {
                let ghost e = (key, value);
                proof {
                    lemma_entry_update(self.entries@, j as int, e);
                }
                self.entries[j] = (key, value);
            },
            None => {
                self.entries.push((key, value));
                proof {
                    let s = self.entries@;
                    assert(s.drop_last() =~= old(self).entries@);
                }
            },
        }
    }

    /// Sets column `key` to `value`, replacing any value it had.
    pub fn set_str(&mut self, key: &str, value: &str)
        ensures
            final(self)@ == old(self)@.insert(key@, value@),
    {
        self.set(key.to_owned(), value.to_owned());
    }
}

} // verus!
