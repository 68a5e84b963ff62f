//! Small tables keyed by text.
use crate::text::same;
use vstd::prelude::*;

verus! {

/// The value that stands under `key`.
pub open spec fn found<V>(entries: Seq<(Seq<char>, V)>, key: Seq<char>) -> Option<V>
    decreases entries.len(),
{
    if entries.len() == 0 {
        None
    } else if entries[0].0 == key {
        Some(entries[0].1)
    } else {
        found(entries.drop_first(), key)
    }
}

/// The table without what stands under `key`.
pub open spec fn without<V>(entries: Seq<(Seq<char>, V)>, key: Seq<char>) -> Seq<(Seq<char>, V)>
    decreases entries.len(),
{
    if entries.len() == 0 {
        entries
    } else if entries.last().0 == key {
        without(entries.drop_last(), key)
    } else {
        without(entries.drop_last(), key).push(entries.last())
    }
}

/// The table with `value` under `key`.
pub open spec fn holding<V>(entries: Seq<(Seq<char>, V)>, key: Seq<char>, value: V) -> Seq<
    (Seq<char>, V),
> {
    without(entries, key).push((key, value))
}

proof fn lemma_found_push<V>(entries: Seq<(Seq<char>, V)>, last: (Seq<char>, V), key: Seq<char>)
    ensures
        found(entries.push(last), key) == (if found(entries, key) is Some {
            found(entries, key)
        } else if last.0 == key {
            Some(last.1)
        } else {
            None
        }),
    decreases entries.len(),
{
    let all = entries.push(last);
    if entries.len() == 0 {
        assert(found(all.drop_first(), key) is None);
    } else {
        assert(all[0] == entries[0]);
        assert(all.drop_first() =~= entries.drop_first().push(last));
        lemma_found_push(entries.drop_first(), last, key);
    }
}

/// What was removed is gone, and nothing else.
pub proof fn law_without<V>(entries: Seq<(Seq<char>, V)>, key: Seq<char>, other: Seq<char>)
    ensures
        found(without(entries, key), other) == (if other == key {
            None
        } else {
            found(entries, other)
        }),
    decreases entries.len(),
{
    if entries.len() > 0 {
        let rest = entries.drop_last();
        law_without(rest, key, other);
        assert(entries =~= rest.push(entries.last()));
        lemma_found_push(rest, entries.last(), other);
        lemma_found_push(without(rest, key), entries.last(), other);
    }
}

/// What was put is found, and everything else as before.
pub proof fn law_holding<V>(
    entries: Seq<(Seq<char>, V)>,
    key: Seq<char>,
    value: V,
    other: Seq<char>,
)
    ensures
        found(holding(entries, key, value), other) == (if other == key {
            Some(value)
        } else {
            found(entries, other)
        }),
{
    law_without(entries, key, other);
    lemma_found_push(without(entries, key), (key, value), other);
}

/// Values that stand under texts.
#[derive(Debug)]
pub struct Table<V> {
    pub entries: Vec<(String, V)>,
}

/// The entries, by their views.
pub open spec fn entry_views<V: View>(entries: Seq<(String, V)>) -> Seq<(Seq<char>, V::V)> {
    Seq::new(entries.len(), |i: int| (entries[i].0@, entries[i].1@))
}

impl<V: View> View for Table<V> {
    type V = Seq<(Seq<char>, V::V)>;

    open spec fn view(&self) -> Seq<(Seq<char>, V::V)> {
        entry_views(self.entries@)
    }
}

impl<V: View> Table<V> {
    pub fn new() -> (res: Table<V>)
        ensures
            res@ == Seq::<(Seq<char>, V::V)>::empty(),
    {
        let res = Table { entries: Vec::new() };
        assert(res@ =~= Seq::<(Seq<char>, V::V)>::empty());
        res
    }

    /// The value under `key`.
    pub fn get(&self, key: &str) -> (res: Option<&V>)
        ensures
            (match res {
                Some(value) => Some(value@),
                None => None,
            }) == found(self@, key@),
    {
        let mut i: usize = 0;
        assert(self@.skip(0) =~= self@);
        while i < self.entries.len()
            invariant
                i <= self.entries.len(),
                found(self@, key@) == found(self@.skip(i as int), key@),
            decreases self.entries.len() - i,
        {
            assert(self@.skip(i as int).drop_first() =~= self@.skip(i + 1));
            if same(self.entries[i].0.as_str(), key) {
                return Some(&self.entries[i].1);
            }
            i = i + 1;
        }
        None
    }

    /// Takes out what stands under `key`.
    pub fn remove(&mut self, key: &str)
        ensures
            final(self)@ == without(old(self)@, key@),
    {
        let ghost all = self@;
        let mut kept: Vec<(String, V)> = Vec::new();
        let mut rest: Vec<(String, V)> = Vec::new();
        let n = self.entries.len();
        while self.entries.len() > 0
            invariant
                n == all.len(),
                self.entries.len() + rest.len() == n,
                entry_views(self.entries@) == all.take(self.entries.len() as int),
                forall|i: int|
                    0 <= i < rest.len() ==> ((#[trigger] rest@[i]).0@, rest@[i].1@) == all[n - 1 - i],
            decreases self.entries.len(),
        {
            let ghost before = self.entries@;
            let last = self.entries.pop();
            match last {
                Some(entry) => {
                    assert((entry.0@, entry.1@) == entry_views(before)[before.len() - 1]);
                    rest.push(entry);
                    proof {
                        assert(entry_views(self.entries@) =~= all.take(self.entries.len() as int));
                    }
                },
                None => {},
            }
        }
        assert(entry_views(kept@) =~= without(all.take(0), key@));
        while rest.len() > 0
            invariant
                n == all.len(),
                rest.len() <= n,
                forall|i: int|
                    0 <= i < rest.len() ==> ((#[trigger] rest@[i]).0@, rest@[i].1@) == all[n - 1 - i],
                entry_views(kept@) == without(all.take(n - rest.len()), key@),
            decreases rest.len(),
        {
            let ghost at = n - rest.len();
            let ghost before = kept@;
            let last = rest.pop();
            match last {
                Some(entry) => {
                    assert((entry.0@, entry.1@) == all[at]);
                    assert(all.take(at + 1).drop_last() =~= all.take(at));
                    if !same(entry.0.as_str(), key) {
                        kept.push(entry);
                        assert(entry_views(kept@) =~= entry_views(before).push(
                            (entry.0@, entry.1@),
                        ));
                    }
                },
                None => {},
            }
        }
        assert(all.take(n as int) =~= all);
        self.entries = kept;
    }

    /// Puts `value` under `key`.
    pub fn insert(&mut self, key: &str, value: V)
        ensures
            final(self)@ == holding(old(self)@, key@, value@),
    {
        self.remove(key);
        let ghost before = self.entries@;
        self.entries.push((key.to_owned(), value));
        assert(entry_views(self.entries@) =~= entry_views(before).push((key@, value@)));
    }
}

} // verus!
