//! The connections that are open, each under its id.

use vstd::prelude::*;

use crate::config::BigQueryConfig;
use crate::text::same;

verus! {

/// An open connection: the client that it sends its requests with, and its
/// configuration.
#[derive(Debug, PartialEq, Eq)]
pub struct BigQueryConnection<C> {
    pub client: C,
    pub config: BigQueryConfig,
}

/// The connections that are open. Each id stands for one of them at most.
pub struct Connections<C> {
    entries: Vec<(String, BigQueryConnection<C>)>,
}

/// What stands under each id.
spec fn table<C>(entries: Seq<(String, BigQueryConnection<C>)>) -> Map<
    Seq<char>,
    BigQueryConnection<C>,
>
    decreases entries.len(),
{
    if entries.len() == 0 {
        Map::empty()
    } else {
        table(entries.drop_last()).insert(entries.last().0@, entries.last().1)
    }
}

/// Whether no id is listed twice.
spec fn distinct<C>(entries: Seq<(String, BigQueryConnection<C>)>) -> bool {
    forall|i: int, j: int|
        0 <= i < j < entries.len() ==> (#[trigger] entries[i]).0@ != (#[trigger] entries[j]).0@
}

impl<C> View for Connections<C> {
    type V = Map<Seq<char>, BigQueryConnection<C>>;

    closed spec fn view(&self) -> Map<Seq<char>, BigQueryConnection<C>> {
        table(self.entries@)
    }
}

/// What is listed is what stands under the ids.
proof fn listed<C>(entries: Seq<(String, BigQueryConnection<C>)>)
    requires
        distinct(entries),
    ensures
        forall|i: int|
            0 <= i < entries.len() ==> table(entries).contains_key((#[trigger] entries[i]).0@)
                && table(entries)[entries[i].0@] == entries[i].1,
        forall|id: Seq<char>|
            #![trigger table(entries).contains_key(id)]
            table(entries).contains_key(id) ==> exists|i: int|
                0 <= i < entries.len() && (#[trigger] entries[i]).0@ == id,
    decreases entries.len(),
{
    if entries.len() > 0 {
        let before = entries.drop_last();
        assert(distinct(before)) by {
            assert forall|i: int, j: int| 0 <= i < j < before.len() implies (
            #[trigger] before[i]).0@ != (#[trigger] before[j]).0@ by {
                assert(before[i] == entries[i] && before[j] == entries[j]);
            }
        }
        listed(before);
        assert forall|i: int| 0 <= i < entries.len() implies table(entries).contains_key(
            (#[trigger] entries[i]).0@,
        ) && table(entries)[entries[i].0@] == entries[i].1 by {
            if i < before.len() {
                assert(before[i] == entries[i]);
            }
        }
        assert forall|id: Seq<char>|
            #![trigger table(entries).contains_key(id)]
            table(entries).contains_key(id) implies exists|i: int|
            0 <= i < entries.len() && (#[trigger] entries[i]).0@ == id by {
            if entries.last().0@ == id {
                assert(entries[entries.len() - 1].0@ == id);
            } else {
                assert(table(before).contains_key(id));
                let i = choose|i: int| 0 <= i < before.len() && (#[trigger] before[i]).0@ == id;
                assert(entries[i] == before[i]);
            }
        }
    }
}

/// Without its entry an id stands for nothing, and every other id for what it
/// stood for.
proof fn taken_out<C>(entries: Seq<(String, BigQueryConnection<C>)>, at: int)
    requires
        distinct(entries),
        0 <= at < entries.len(),
    ensures
        distinct(entries.remove(at)),
        table(entries.remove(at)) == table(entries).remove(entries[at].0@),
{
    let rest = entries.remove(at);
    let id = entries[at].0@;
    assert forall|i: int, j: int| 0 <= i < j < rest.len() implies (#[trigger] rest[i]).0@ != (
    #[trigger] rest[j]).0@ by {
        let p = if i < at { i } else { i + 1 };
        let q = if j < at { j } else { j + 1 };
        assert(rest[i] == entries[p] && rest[j] == entries[q]);
    }
    listed(entries);
    listed(rest);
    assert forall|key: Seq<char>| #[trigger]
        table(rest).contains_key(key) == table(entries).remove(id).contains_key(key) by {
        if table(rest).contains_key(key) {
            let i = choose|i: int| 0 <= i < rest.len() && (#[trigger] rest[i]).0@ == key;
            let p = if i < at { i } else { i + 1 };
            assert(rest[i] == entries[p]);
            assert(entries[p].0@ != id);
        }
        if table(entries).remove(id).contains_key(key) {
            let p = choose|p: int| 0 <= p < entries.len() && (#[trigger] entries[p]).0@ == key;
            let i = if p < at { p } else { p - 1 };
            assert(rest[i] == entries[p]);
        }
    }
    assert forall|key: Seq<char>| #[trigger] table(rest).contains_key(key) implies table(rest)[key]
        == table(entries).remove(id)[key] by {
        let i = choose|i: int| 0 <= i < rest.len() && (#[trigger] rest[i]).0@ == key;
        let p = if i < at { i } else { i + 1 };
        assert(rest[i] == entries[p]);
    }
    assert(table(rest) =~= table(entries).remove(id));
}

impl<C> Connections<C> {
    /// Each id is listed once at most.
    pub closed spec fn wf(&self) -> bool {
        distinct(self.entries@)
    }

    /// No connections.
    pub fn new() -> (connections: Connections<C>)
        ensures
            connections.wf(),
            connections@ == Map::<Seq<char>, BigQueryConnection<C>>::empty(),
    {
        Connections { entries: Vec::new() }
    }

    /// Where the entry of an id is.
    fn position(&self, id: &str) -> (at: Option<usize>)
        requires
            self.wf(),
        ensures
            match at {
                Some(i) => i < self.entries@.len() && self.entries@[i as int].0@ == id@
                    && self@.contains_key(id@) && self@[id@] == self.entries@[i as int].1,
                None => !self@.contains_key(id@) && forall|j: int|
                    0 <= j < self.entries@.len() ==> (#[trigger] self.entries@[j]).0@ != id@,
            },
    {
        proof {
            listed(self.entries@);
        }
        let mut i: usize = 0;
        while i < self.entries.len()
            invariant
                i <= self.entries@.len(),
                forall|j: int| 0 <= j < i ==> (#[trigger] self.entries@[j]).0@ != id@,
                forall|j: int|
                    0 <= j < self.entries@.len() ==> self@.contains_key(
                        (#[trigger] self.entries@[j]).0@,
                    ) && self@[self.entries@[j].0@] == self.entries@[j].1,
            decreases self.entries@.len() - i,
        {
            if same(self.entries[i].0.as_str(), id) {
                return Some(i);
            }
            i += 1;
        }
        None
    }

    /// The connection under an id.
    pub fn get(&self, id: &str) -> (connection: Option<&BigQueryConnection<C>>)
        requires
            self.wf(),
        ensures
            connection == (if self@.contains_key(id@) {
                Some(&self@[id@])
            } else {
                None
            }),
    {
        match self.position(id) {
            Some(i) => Some(&self.entries[i].1),
            None => None,
        }
    }

    /// Closes the connection under an id. Whether there was one is the result.
    pub fn remove(&mut self, id: &str) -> (existed: bool)
        requires
            old(self).wf(),
        ensures
            final(self).wf(),
            existed == old(self)@.contains_key(id@),
            final(self)@ == old(self)@.remove(id@),
    {
        match self.position(id) {
            Some(i) => {
                proof {
                    taken_out(self.entries@, i as int);
                }
                self.entries.remove(i);
                true
            },
            None => {
                assert(self@.remove(id@) =~= self@);
                false
            },
        }
    }

    /// Puts a connection under an id, in place of any that was there.
    pub fn insert(&mut self, id: String, connection: BigQueryConnection<C>)
        requires
            old(self).wf(),
        ensures
            final(self).wf(),
            final(self)@ == old(self)@.insert(id@, connection),
    {
        let ghost before = self@;
        self.remove(id.as_str());
        let ghost rest = self.entries@;
        proof {
            listed(rest);
            assert(!table(rest).contains_key(id@));
            assert forall|j: int| 0 <= j < rest.len() implies (#[trigger] rest[j]).0@ != id@ by {
                assert(table(rest).contains_key(rest[j].0@));
            }
        }
        self.entries.push((id, connection));
        proof {
            let all = self.entries@;
            assert(all.drop_last() =~= rest);
            assert forall|i: int, j: int| 0 <= i < j < all.len() implies (#[trigger] all[i]).0@ != (
            #[trigger] all[j]).0@ by {
                assert(all[i] == rest[i]);
                if j < rest.len() {
                    assert(all[j] == rest[j]);
                }
            }
            assert(before.remove(id@).insert(id@, connection) =~= before.insert(id@, connection));
        }
    }
}

} // verus!
