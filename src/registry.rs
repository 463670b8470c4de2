use vstd::prelude::*;

use crate::error::CommandError;

verus! {

/// Registering `h` under `name` in `table`: the new table and the result. A
/// name that is taken already is refused, and the table stays as it was.
pub open spec fn register_outcome<H>(table: Map<Seq<char>, H>, name: Seq<char>, h: H) -> (
    Map<Seq<char>, H>,
    Result<(), CommandError>,
) {
    if table.contains_key(name) {
        (table, Err(CommandError::DuplicateCommand))
    } else {
        (table.insert(name, h), Ok(()))
    }
}

/// Resolving `name` in `table`: its handler, or `UnknownCommand`.
pub open spec fn lookup<H>(table: Map<Seq<char>, H>, name: Seq<char>) -> Result<H, CommandError> {
    if table.contains_key(name) {
        Ok(table[name])
    } else {
        Err(CommandError::UnknownCommand)
    }
}

/// The table that registering each entry in turn, from an empty table, leaves.
pub open spec fn registered<H>(entries: Seq<(Seq<char>, H)>) -> Map<Seq<char>, H>
    decreases entries.len(),
{
    if entries.len() == 0 {
        Map::empty()
    } else {
        register_outcome(registered(entries.drop_last()), entries.last().0, entries.last().1).0
    }
}

/// No two entries share a name.
pub open spec fn names_distinct<H>(entries: Seq<(Seq<char>, H)>) -> bool {
    forall|i: int, j: int|
        0 <= i < j < entries.len() ==> #[trigger] entries[i].0 != #[trigger] entries[j].0
}

/// Every entry's name is in the table that registering the entries leaves.
pub proof fn lemma_registered_contains<H>(entries: Seq<(Seq<char>, H)>, i: int)
    requires
        0 <= i < entries.len(),
    ensures
        registered(entries).contains_key(entries[i].0),
    decreases entries.len(),
{
    if i < entries.len() - 1 {
        let prefix = entries.drop_last();
        assert(prefix[i] == entries[i]);
        lemma_registered_contains(prefix, i);
    }
}

/// A name that no entry carries is not in the table.
pub proof fn lemma_registered_absent<H>(entries: Seq<(Seq<char>, H)>, name: Seq<char>)
    requires
        forall|i: int| 0 <= i < entries.len() ==> #[trigger] entries[i].0 != name,
    ensures
        !registered(entries).contains_key(name),
    decreases entries.len(),
{
    if entries.len() > 0 {
        let prefix = entries.drop_last();
        assert forall|i: int| 0 <= i < prefix.len() implies #[trigger] prefix[i].0 != name by {
            assert(prefix[i] == entries[i]);
        }
        lemma_registered_absent(prefix, name);
    }
}

/// After registering handlers under distinct names, resolving any of those
/// names gives exactly the handler that was registered under it.
pub proof fn lemma_resolve_after_register<H>(entries: Seq<(Seq<char>, H)>, i: int)
    requires
        names_distinct(entries),
        0 <= i < entries.len(),
    ensures
        lookup(registered(entries), entries[i].0) == Ok::<H, CommandError>(entries[i].1),
    decreases entries.len(),
{
    let prefix = entries.drop_last();
    let last = entries.last();
    assert forall|j: int| 0 <= j < prefix.len() implies #[trigger] prefix[j].0 != last.0 by {
        assert(prefix[j] == entries[j]);
        assert(entries[entries.len() - 1] == last);
    }
    lemma_registered_absent(prefix, last.0);
    if i < entries.len() - 1 {
        assert(prefix[i] == entries[i]);
        lemma_resolve_after_register(prefix, i);
    }
}

/// Registering a second handler under a name that is taken fails with
/// `DuplicateCommand`, and the table keeps the first handler.
pub proof fn lemma_duplicate_keeps_first<H>(table: Map<Seq<char>, H>, name: Seq<char>, first: H, second: H)
    requires
        !table.contains_key(name),
    ensures
        ({
            let after_first = register_outcome(table, name, first);
            let after_second = register_outcome(after_first.0, name, second);
            &&& after_first.1 is Ok
            &&& after_second.1 == Err::<(), CommandError>(CommandError::DuplicateCommand)
            &&& after_second.0 == after_first.0
            &&& lookup(after_second.0, name) == Ok::<H, CommandError>(first)
        }),
{
}

/// With distinct names, the table has one key per entry.
pub proof fn lemma_registered_len<H>(entries: Seq<(Seq<char>, H)>)
    requires
        names_distinct(entries),
    ensures
        registered(entries).dom().finite(),
        registered(entries).len() == entries.len(),
    decreases entries.len(),
{
    if entries.len() > 0 {
        let prefix = entries.drop_last();
        let last = entries.last();
        assert forall|i: int| 0 <= i < prefix.len() implies #[trigger] prefix[i].0 != last.0 by {
            assert(prefix[i] == entries[i]);
            assert(entries[entries.len() - 1] == last);
        }
        lemma_registered_absent(prefix, last.0);
        lemma_registered_len(prefix);
    }
}

/// The entries with each name as its characters.
pub open spec fn entries_view<H>(entries: Seq<(String, H)>) -> Seq<(Seq<char>, H)> {
    entries.map_values(|e: (String, H)| (e.0@, e.1))
}

/// Maps each command name to its handler. Names are unique; the registry is
/// filled once at startup and only read afterwards.
pub struct CommandRegistry<H> {
    entries: Vec<(String, H)>,
}

impl<H> CommandRegistry<H> {
    /// The registry as a table from command name to handler.
    pub closed spec fn view(&self) -> Map<Seq<char>, H> {
        registered(entries_view(self.entries@))
    }

    /// Every name is registered at most once.
    pub closed spec fn wf(&self) -> bool {
        names_distinct(entries_view(self.entries@))
    }

    /// An empty registry.
    pub fn new() -> (r: Self)
        ensures
            r.wf(),
            r@ == Map::<Seq<char>, H>::empty(),
    {
        let r = CommandRegistry { entries: Vec::new() };
        assert(entries_view(r.entries@) =~= Seq::<(Seq<char>, H)>::empty());
        r
    }

    /// The number of registered commands.
    pub fn len(&self) -> (r: usize)
        requires
            self.wf(),
        ensures
            r == self@.len(),
    {
        proof {
            lemma_registered_len(entries_view(self.entries@));
        }
        self.entries.len()
    }

    /// The position of the entry named `name`, if there is one.
    fn position(&self, name: &String) -> (r: Option<usize>)
        requires
            self.wf(),
        ensures
            match r {
                Some(i) => i < self.entries@.len() && self.entries@[i as int].0@ == name@,
                None => !self@.contains_key(name@),
            },
    {
        let mut i: usize = 0;
        while i < self.entries.len()
            invariant
                i <= self.entries@.len(),
                forall|j: int| 0 <= j < i ==> #[trigger] entries_view(self.entries@)[j].0 != name@,
            decreases self.entries@.len() - i,
        {
            if self.entries[i].0 == *name {
                return Some(i);
            }
            i = i + 1;
        }
        proof {
            lemma_registered_absent(entries_view(self.entries@), name@);
        }
        None
    }

    /// Registers `handler` under `name`. A name that is taken already is
    /// refused with `DuplicateCommand`, and the registry keeps the first
    /// handler.
    pub fn register(&mut self, name: String, handler: H) -> (r: Result<(), CommandError>)
        requires
            old(self).wf(),
        ensures
            final(self).wf(),
            (final(self)@, r) == register_outcome(old(self)@, name@, handler),
    {
        match self.position(&name) {
            Some(i) => {
                proof {
                    lemma_registered_contains(entries_view(self.entries@), i as int);
                }
                Err(CommandError::DuplicateCommand)
            },
            None => {
                let ghost before = entries_view(self.entries@);
                let ghost key = name@;
                self.entries.push((name, handler));
                proof {
                    let after = entries_view(self.entries@);
                    assert(after =~= before.push((key, handler)));
                    assert(after.drop_last() =~= before);
                    assert forall|i: int| 0 <= i < before.len() implies #[trigger] before[i].0
                        != key by {
                        if before[i].0 == key {
                            lemma_registered_contains(before, i);
                        }
                    }
                }
                Ok(())
            },
        }
    }

    /// The handler registered under `name`, or `UnknownCommand` where there is
    /// none.
    pub fn resolve(&self, name: &str) -> (r: Result<&H, CommandError>)
        requires
            self.wf(),
        ensures
            match r {
                Ok(h) => lookup(self@, name@) == Ok::<H, CommandError>(*h),
                Err(e) => lookup(self@, name@) == Err::<H, CommandError>(e),
            },
    {
        let key = name.to_owned();
        match self.position(&key) {
            Some(i) => {
                proof {
                    lemma_resolve_after_register(entries_view(self.entries@), i as int);
                }
                Ok(&self.entries[i].1)
            },
            None => Err(CommandError::UnknownCommand),
        }
    }
}

/// Builds a registry from `entries`, registering them in order. Where two
/// entries share a name, the whole registration is refused with
/// `DuplicateCommand`.
pub fn register_all<H>(entries: Vec<(String, H)>) -> (r: Result<CommandRegistry<H>, CommandError>)
    ensures
        match r {
            Ok(reg) => names_distinct(entries_view(entries@)) && reg.wf() && reg@ == registered(
                entries_view(entries@),
            ),
            Err(e) => !names_distinct(entries_view(entries@)) && e == CommandError::DuplicateCommand,
        },
{
    let ghost all = entries_view(entries@);
    let mut rest = entries;
    let mut reg = CommandRegistry::new();
    let ghost mut done: int = 0;
    while rest.len() > 0
        invariant
            all == entries_view(entries@),
            0 <= done <= all.len(),
            done + rest@.len() == all.len(),
            entries_view(rest@) == all.skip(done),
            reg.wf(),
            reg@ == registered(all.take(done)),
            names_distinct(all.take(done)),
        decreases rest@.len(),
    {
        let ghost prefix = all.take(done);
        let ghost before = rest@;
        let (name, handler) = rest.remove(0);
        assert(all[done] == entries_view(before)[0]);
        assert(entries_view(rest@) =~= entries_view(before).skip(1));
        assert(entries_view(rest@) =~= all.skip(done + 1));
        assert(all.take(done + 1).drop_last() =~= prefix);
        let ghost key = name@;
        assert(key == all[done].0);
        let res = reg.register(name, handler);
        if res.is_err() {
            proof {
                if names_distinct(all) {
                    assert forall|i: int| 0 <= i < prefix.len() implies #[trigger] prefix[i].0
                        != key by {
                        assert(prefix[i] == all[i]);
                        assert(all[i].0 != all[done].0);
                    }
                    lemma_registered_absent(prefix, key);
                    assert(false);
                }
            }
            return Err(CommandError::DuplicateCommand);
        }
        proof {
            let next = all.take(done + 1);
            assert(next.last() == all[done]);
            assert forall|i: int, j: int| 0 <= i < j < next.len() implies #[trigger] next[i].0
                != #[trigger] next[j].0 by {
                if j < done {
                    assert(next[i] == prefix[i] && next[j] == prefix[j]);
                } else {
                    assert(next[i] == prefix[i]);
                    if prefix[i].0 == key {
                        lemma_registered_contains(prefix, i);
                    }
                }
            }
        }
        proof {
            done = done + 1;
        }
    }
    assert(all.take(done) =~= all);
    Ok(reg)
}

} // verus!
