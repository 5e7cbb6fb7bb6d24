//! File forks and the path index over them.

use crate::cells::{CellDefault, SharedCells, SharedProcessValue};
use crate::guest_memory::copy_bytes;
use crate::text::equal_ignoring_case;
use vstd::prelude::*;

verus! {

/// A handle to the bytes of a file fork. Every index over the fork holds such
/// a handle and sees the same bytes.
pub struct ProcessForkBytes {
    pub cell: SharedProcessValue<Vec<u8>>,
}

/// Entries of a path index: the path and the identity of the fork.
pub type ForkEntries = Seq<(Seq<char>, int)>;

impl ProcessForkBytes {
    /// The identity of the fork.
    pub open spec fn id(&self) -> int {
        self.cell.id()
    }

    pub open spec fn valid(&self, forks: &SharedCells<Vec<u8>>) -> bool {
        self.cell.valid(forks@)
    }

    /// The bytes of the fork.
    pub open spec fn bytes(&self, forks: &SharedCells<Vec<u8>>) -> Seq<u8> {
        forks@[self.cell.id()]@
    }

    /// A fork of its own.
    pub fn from_bytes(forks: &mut SharedCells<Vec<u8>>, bytes: Vec<u8>) -> (fork: Self)
        ensures
            fork.id() == old(forks)@.len(),
            final(forks)@ == old(forks)@.push(bytes),
    {
        ProcessForkBytes { cell: forks.allocate(bytes) }
    }

    /// Another handle to the same fork.
    pub fn shared_handle(&self) -> (handle: Self)
        ensures
            handle.id() == self.id(),
    {
        ProcessForkBytes { cell: self.cell.shared_handle() }
    }

    /// A copy of the bytes in a fork of its own.
    pub fn detached_clone(&self, forks: &mut SharedCells<Vec<u8>>) -> (copy: Self)
        requires
            self.valid(old(forks)),
        ensures
            copy.id() == old(forks)@.len(),
            crate::cells::cells_extend(old(forks)@, final(forks)@),
            final(forks)@.len() == old(forks)@.len() + 1,
            copy.bytes(final(forks)) == self.bytes(old(forks)),
    {
        let bytes = copy_bytes(forks.get(&self.cell));
        ProcessForkBytes { cell: forks.allocate(bytes) }
    }

    /// Whether two handles name one fork.
    pub fn ptr_eq(&self, other: &Self) -> (same: bool)
        ensures
            same == (self.id() == other.id()),
    {
        self.cell.ptr_eq(&other.cell)
    }

    /// The bytes of the fork.
    pub fn as_bytes<'a>(&self, forks: &'a SharedCells<Vec<u8>>) -> (bytes: &'a Vec<u8>)
        requires
            self.valid(forks),
        ensures
            *bytes == forks@[self.id()],
    {
        forks.get(&self.cell)
    }

    /// Change the bytes during one operation.
    pub fn with_mut<R>(
        &self,
        forks: &mut SharedCells<Vec<u8>>,
        operation: impl FnOnce(&mut Vec<u8>) -> R,
    ) -> (result: R)
        requires
            self.valid(old(forks)),
            forall|bytes: &mut Vec<u8>|
                *bytes == old(forks)@[self.id()] ==> call_requires(operation, (bytes,)),
        ensures
            exists|bytes: &mut Vec<u8>|
                #![trigger call_ensures(operation, (bytes,), result)]
                *bytes == old(forks)@[self.id()] && call_ensures(operation, (bytes,), result)
                    && final(forks)@ == old(forks)@.update(self.id(), *final(bytes)),
    {
        self.cell.with_mut(forks, operation)
    }
}

/// The position of a path, or a negative number.
pub open spec fn entry_index(entries: ForkEntries, path: Seq<char>) -> int
    decreases entries.len(),
{
    if entries.len() == 0 {
        -1
    } else if entries[0].0 == path {
        0
    } else {
        let rest = entry_index(entries.drop_first(), path);
        if rest < 0 {
            -1
        } else {
            rest + 1
        }
    }
}

/// The position of the first path that agrees with `path` but for case, or a
/// negative number.
pub open spec fn named_index(entries: ForkEntries, path: Seq<char>) -> int
    decreases entries.len(),
{
    if entries.len() == 0 {
        -1
    } else if crate::text::same_name(entries[0].0, path) {
        0
    } else {
        let rest = named_index(entries.drop_first(), path);
        if rest < 0 {
            -1
        } else {
            rest + 1
        }
    }
}

pub proof fn lemma_entry_index(entries: ForkEntries, path: Seq<char>)
    ensures
        entry_index(entries, path) < entries.len(),
        entry_index(entries, path) >= 0 ==> entries[entry_index(entries, path)].0 == path,
        entry_index(entries, path) < 0 <==> forall|i: int|
            0 <= i < entries.len() ==> (#[trigger] entries[i]).0 != path,
        forall|i: int| 0 <= i < entry_index(entries, path) ==> (#[trigger] entries[i]).0 != path,
    decreases entries.len(),
{
    if entries.len() > 0 && entries[0].0 != path {
        let rest = entries.drop_first();
        lemma_entry_index(rest, path);
        assert forall|i: int|
            0 <= i < entries.len() && (entry_index(rest, path) < 0 || i < entry_index(rest, path)
                + 1) implies (#[trigger] entries[i]).0 != path by {
            if i > 0 {
                assert(rest[i - 1] == entries[i]);
            }
        }
    }
}

pub proof fn lemma_named_index(entries: ForkEntries, path: Seq<char>)
    ensures
        named_index(entries, path) < entries.len(),
        named_index(entries, path) >= 0 ==> crate::text::same_name(
            entries[named_index(entries, path)].0,
            path,
        ),
        named_index(entries, path) < 0 <==> forall|i: int|
            0 <= i < entries.len() ==> !crate::text::same_name((#[trigger] entries[i]).0, path),
        forall|i: int|
            0 <= i < named_index(entries, path) ==> !crate::text::same_name((#[trigger] entries[i]).0, path),
    decreases entries.len(),
{
    if entries.len() > 0 && !crate::text::same_name(entries[0].0, path) {
        let rest = entries.drop_first();
        lemma_named_index(rest, path);
        assert forall|i: int|
            0 <= i < entries.len() && (named_index(rest, path) < 0 || i < named_index(rest, path)
                + 1) implies !crate::text::same_name((#[trigger] entries[i]).0, path) by {
            if i > 0 {
                assert(rest[i - 1] == entries[i]);
            }
        }
    }
}

proof fn lemma_entry_index_is(entries: ForkEntries, path: Seq<char>, index: int)
    requires
        0 <= index < entries.len(),
        entries[index].0 == path,
        forall|i: int| 0 <= i < index ==> (#[trigger] entries[i]).0 != path,
    ensures
        entry_index(entries, path) == index,
{
    lemma_entry_index(entries, path);
}

proof fn lemma_named_index_is(entries: ForkEntries, path: Seq<char>, index: int)
    requires
        0 <= index < entries.len(),
        crate::text::same_name(entries[index].0, path),
        forall|i: int| 0 <= i < index ==> !crate::text::same_name((#[trigger] entries[i]).0, path),
    ensures
        named_index(entries, path) == index,
{
    lemma_named_index(entries, path);
}

/// The entries after a path was given a fork.
pub open spec fn fork_inserted(entries: ForkEntries, path: Seq<char>, fork: int) -> ForkEntries {
    if entry_index(entries, path) >= 0 {
        entries.update(entry_index(entries, path), (path, fork))
    } else {
        entries.push((path, fork))
    }
}

/// The entries after a path was dropped.
pub open spec fn fork_removed(entries: ForkEntries, path: Seq<char>) -> ForkEntries {
    if entry_index(entries, path) >= 0 {
        entries.remove(entry_index(entries, path))
    } else {
        entries
    }
}

/// The entries after others joined; paths that agree but for case stay as
/// they are.
pub open spec fn forks_merged(entries: ForkEntries, others: ForkEntries) -> ForkEntries
    decreases others.len(),
{
    if others.len() == 0 {
        entries
    } else {
        let merged = forks_merged(entries, others.drop_last());
        let (path, fork) = others.last();
        if named_index(merged, path) >= 0 {
            merged
        } else {
            fork_inserted(merged, path, fork)
        }
    }
}

/// The entries after a path took another's place.
pub open spec fn fork_renamed(entries: ForkEntries, old_path: Seq<char>, new_path: Seq<char>) -> ForkEntries {
    let index = named_index(entries, old_path);
    if index >= 0 {
        fork_inserted(entries.remove(index), new_path, entries[index].1)
    } else {
        entries
    }
}

/// No path occurs twice.
pub open spec fn one_fork_per_path(entries: ForkEntries) -> bool {
    forall|i: int, j: int|
        0 <= i < j < entries.len() ==> (#[trigger] entries[i]).0 != (#[trigger] entries[j]).0
}

/// Giving a path a fork keeps the paths apart.
proof fn lemma_inserted_apart(entries: ForkEntries, path: Seq<char>, fork: int)
    requires
        one_fork_per_path(entries),
    ensures
        one_fork_per_path(fork_inserted(entries, path, fork)),
{
    lemma_entry_index(entries, path);
}

/// A dropped path is gone from an index in which it occurred once.
pub proof fn removed_fork_is_gone(entries: ForkEntries, path: Seq<char>)
    requires
        one_fork_per_path(entries),
    ensures
        entry_index(fork_removed(entries, path), path) < 0,
        one_fork_per_path(fork_removed(entries, path)),
        forall|i: int|
            0 <= i < fork_removed(entries, path).len() ==> entries.contains(
                #[trigger] fork_removed(entries, path)[i],
            ),
{
    let after = fork_removed(entries, path);
    let at = entry_index(entries, path);
    lemma_entry_index(entries, path);
    lemma_entry_index(after, path);
    if at >= 0 {
        assert forall|i: int| 0 <= i < after.len() implies (#[trigger] after[i]).0 != path
            && entries.contains(after[i]) by {
            if i < at {
                assert(after[i] == entries[i]);
            } else {
                assert(after[i] == entries[i + 1]);
            }
        }
    }
}

/// Path index for process-owned forks; no path occurs twice.
pub struct ProcessForkMap {
    entries: Vec<(String, ProcessForkBytes)>,
}

/// The paths and the identities of the forks in a list.
spec fn entries_of(list: Seq<(String, ProcessForkBytes)>) -> ForkEntries {
    Seq::new(list.len(), |i: int| (list[i].0@, list[i].1.id()))
}

impl View for ProcessForkMap {
    type V = ForkEntries;

    closed spec fn view(&self) -> ForkEntries {
        entries_of(self.entries@)
    }
}

impl ProcessForkMap {
    #[verifier::type_invariant]
    pub open spec fn paths_apart(self) -> bool {
        one_fork_per_path(self@)
    }

    /// The fork of every entry exists.
    pub open spec fn valid(&self, forks: &SharedCells<Vec<u8>>) -> bool {
        forall|i: int| 0 <= i < self@.len() ==> 0 <= (#[trigger] self@[i]).1 < forks@.len()
    }

    /// An index without entries.
    pub fn new() -> (map: Self)
        ensures
            map@ == Seq::<(Seq<char>, int)>::empty(),
    {
        let map = ProcessForkMap { entries: Vec::new() };
        assert(map@ =~= Seq::<(Seq<char>, int)>::empty());
        map
    }

    pub fn is_empty(&self) -> (empty: bool)
        ensures
            empty == (self@.len() == 0),
            one_fork_per_path(self@),
    {
        proof {
            use_type_invariant(self);
        }
        self.entries.len() == 0
    }

    pub fn len(&self) -> (n: usize)
        ensures
            n == self@.len(),
            one_fork_per_path(self@),
    {
        proof {
            use_type_invariant(self);
        }
        self.entries.len()
    }

    /// The entry at a position.
    pub fn entry_at(&self, index: usize) -> (entry: (&String, &ProcessForkBytes))
        requires
            index < self@.len(),
        ensures
            (entry.0@, entry.1.id()) == self@[index as int],
    {
        let entry = &self.entries[index];
        (&entry.0, &entry.1)
    }

    fn position(&self, path: &str) -> (found: Option<usize>)
        ensures
            match found {
                Some(i) => i < self@.len() && i == entry_index(self@, path@),
                None => entry_index(self@, path@) < 0,
            },
    {
        let wanted = path.to_owned();
        let mut i: usize = 0;
        while i < self.entries.len()
            invariant
                i <= self.entries@.len(),
                wanted@ == path@,
                forall|j: int| 0 <= j < i ==> (#[trigger] self@[j]).0 != path@,
            decreases self.entries@.len() - i,
        {
            if self.entries[i].0 == wanted {
                proof {
                    assert(self@[i as int].0 == path@);
                    lemma_entry_index_is(self@, path@, i as int);
                }
                return Some(i);
            }
            assert(self@[i as int].0 != path@);
            i += 1;
        }
        proof {
            lemma_entry_index(self@, path@);
        }
        None
    }

    /// The first path that agrees with `path` but for case.
    pub fn find_ignoring_case(&self, path: &str) -> (found: Option<usize>)
        ensures
            match found {
                Some(i) => i < self@.len() && i == named_index(self@, path@),
                None => named_index(self@, path@) < 0,
            },
    {
        let mut i: usize = 0;
        while i < self.entries.len()
            invariant
                i <= self.entries@.len(),
                forall|j: int| 0 <= j < i ==> !crate::text::same_name((#[trigger] self@[j]).0, path@),
            decreases self.entries@.len() - i,
        {
            if equal_ignoring_case(self.entries[i].0.as_str(), path) {
                proof {
                    assert(crate::text::same_name(self@[i as int].0, path@));
                    lemma_named_index_is(self@, path@, i as int);
                }
                return Some(i);
            }
            assert(!crate::text::same_name(self@[i as int].0, path@));
            i += 1;
        }
        proof {
            lemma_named_index(self@, path@);
        }
        None
    }

    /// Give a path a fork; the result is the fork that it had.
    pub fn insert(&mut self, path: String, bytes: ProcessForkBytes) -> (previous: Option<
        ProcessForkBytes,
    >)
        ensures
            final(self)@ == fork_inserted(old(self)@, path@, bytes.id()),
            one_fork_per_path(final(self)@),
            match previous {
                Some(fork) => entry_index(old(self)@, path@) >= 0 && fork.id() == old(
                    self,
                )@[entry_index(old(self)@, path@)].1,
                None => entry_index(old(self)@, path@) < 0,
            },
    {
        let ghost before = self@;
        let ghost all = self.entries@;
        let ghost id = bytes.id();
        proof {
            use_type_invariant(&*self);
            lemma_inserted_apart(before, path@, id);
        }
        let found = self.position(path.as_str());
        let mut entries: Vec<(String, ProcessForkBytes)> = Vec::new();
        core::mem::swap(&mut entries, &mut self.entries);
        let mut previous: Option<ProcessForkBytes> = None;
        match found {
            Some(i) => {
                let (_, replaced) = entries.remove(i);
                assert(before[i as int].1 == all[i as int].1.id());
                entries.insert(i, (path, bytes));
                previous = Some(replaced);
            },
            None => {
                entries.push((path, bytes));
            },
        }
        assert(entries_of(entries@) =~= fork_inserted(before, path@, id));
        self.entries = entries;
        previous
    }

    /// Let a path name a fork that another index holds.
    pub fn insert_shared(&mut self, path: String, bytes: &ProcessForkBytes) -> (previous: Option<
        ProcessForkBytes,
    >)
        ensures
            final(self)@ == fork_inserted(old(self)@, path@, bytes.id()),
            one_fork_per_path(final(self)@),
            match previous {
                Some(fork) => entry_index(old(self)@, path@) >= 0 && fork.id() == old(
                    self,
                )@[entry_index(old(self)@, path@)].1,
                None => entry_index(old(self)@, path@) < 0,
            },
    {
        self.insert(path, bytes.shared_handle())
    }

    /// The handle of a path's fork.
    pub fn get_shared(&self, path: &str) -> (fork: Option<&ProcessForkBytes>)
        ensures
            match fork {
                Some(fork) => 0 <= entry_index(self@, path@) < self@.len() && fork.id()
                    == self@[entry_index(self@, path@)].1,
                None => entry_index(self@, path@) < 0,
            },
    {
        match self.position(path) {
            Some(i) => {
                assert(self@[i as int].1 == self.entries@[i as int].1.id());
                Some(&self.entries[i].1)
            },
            None => None,
        }
    }

    pub fn contains_key(&self, path: &str) -> (present: bool)
        ensures
            present == (entry_index(self@, path@) >= 0),
    {
        self.position(path).is_some()
    }

    /// The bytes of a path's fork.
    pub fn get<'a>(&self, forks: &'a SharedCells<Vec<u8>>, path: &str) -> (bytes: Option<&'a Vec<u8>>)
        requires
            self.valid(forks),
        ensures
            match bytes {
                Some(bytes) => entry_index(self@, path@) >= 0 && *bytes == forks@[self@[entry_index(
                    self@,
                    path@,
                )].1],
                None => entry_index(self@, path@) < 0,
            },
    {
        match self.get_shared(path) {
            Some(fork) => Some(fork.as_bytes(forks)),
            None => None,
        }
    }

    /// Change the bytes of a path's fork during one operation.
    pub fn with_entry_mut<R>(
        &self,
        forks: &mut SharedCells<Vec<u8>>,
        path: &str,
        operation: impl FnOnce(&mut Vec<u8>) -> R,
    ) -> (result: Option<R>)
        requires
            self.valid(old(forks)),
            entry_index(self@, path@) >= 0 ==> forall|bytes: &mut Vec<u8>|
                *bytes == old(forks)@[self@[entry_index(self@, path@)].1] ==> call_requires(
                    operation,
                    (bytes,),
                ),
        ensures
            result is Some <==> entry_index(self@, path@) >= 0,
            result is None ==> final(forks)@ == old(forks)@,
            result is Some ==> exists|bytes: &mut Vec<u8>|
                #![trigger call_ensures(operation, (bytes,), result->0)]
                *bytes == old(forks)@[self@[entry_index(self@, path@)].1] && call_ensures(
                    operation,
                    (bytes,),
                    result->0,
                ) && final(forks)@ == old(forks)@.update(
                    self@[entry_index(self@, path@)].1,
                    *final(bytes),
                ),
    {
        match self.position(path) {
            Some(i) => {
                assert(self@[i as int].1 == self.entries@[i as int].1.id());
                let outcome = self.entries[i].1.with_mut(forks, operation);
                let result = Some(outcome);
                assert(result->0 == outcome);
                result
            },
            None => None,
        }
    }

    /// Drop a path; the result is the fork that it had.
    pub fn remove(&mut self, path: &str) -> (removed: Option<ProcessForkBytes>)
        ensures
            final(self)@ == fork_removed(old(self)@, path@),
            one_fork_per_path(final(self)@),
            entry_index(final(self)@, path@) < 0,
            match removed {
                Some(fork) => entry_index(old(self)@, path@) >= 0 && fork.id() == old(
                    self,
                )@[entry_index(old(self)@, path@)].1,
                None => entry_index(old(self)@, path@) < 0,
            },
    {
        proof {
            use_type_invariant(&*self);
            removed_fork_is_gone(self@, path@);
        }
        match self.position(path) {
            Some(i) => Some(self.remove_at(i)),
            None => None,
        }
    }

    fn remove_at(&mut self, index: usize) -> (fork: ProcessForkBytes)
        requires
            index < old(self)@.len(),
        ensures
            final(self)@ == old(self)@.remove(index as int),
            one_fork_per_path(final(self)@),
            fork.id() == old(self)@[index as int].1,
    {
        let ghost before = self@;
        proof {
            use_type_invariant(&*self);
        }
        let mut entries: Vec<(String, ProcessForkBytes)> = Vec::new();
        core::mem::swap(&mut entries, &mut self.entries);
        let (_, fork) = entries.remove(index);
        assert(entries_of(entries@) =~= before.remove(index as int));
        self.entries = entries;
        fork
    }

    /// Make room for further entries.
    pub fn reserve(&mut self, additional: usize)
        ensures
            final(self)@ == old(self)@,
    {
        let ghost before = self@;
        proof {
            use_type_invariant(&*self);
        }
        let mut entries: Vec<(String, ProcessForkBytes)> = Vec::new();
        core::mem::swap(&mut entries, &mut self.entries);
        entries.reserve(additional);
        assert(entries_of(entries@) =~= before);
        self.entries = entries;
    }

    pub fn clear(&mut self)
        ensures
            final(self)@ == Seq::<(Seq<char>, int)>::empty(),
    {
        self.entries = Vec::new();
        assert(self@ =~= Seq::<(Seq<char>, int)>::empty());
    }

    /// Keep the entries whose path a predicate accepts.
    pub fn retain(&mut self, keep: impl Fn(&String) -> bool)
        requires
            forall|path: &String| call_requires(keep, (path,)),
        ensures
            exists|marks: Seq<bool>, paths: Seq<String>|
                #![trigger crate::lists::selected(old(self)@, marks), paths.len()]
                marks.len() == old(self)@.len() && paths.len() == marks.len() && (forall|i: int|
                    0 <= i < marks.len() ==> (#[trigger] paths[i])@ == old(self)@[i].0
                        && call_ensures(keep, (&paths[i],), marks[i])) && final(self)@ == crate::lists::selected(
                    old(self)@,
                    marks,
                ),
            one_fork_per_path(final(self)@),
    {
        let ghost before = self@;
        proof {
            use_type_invariant(&*self);
        }
        let mut kept_entries: Vec<(String, ProcessForkBytes)> = Vec::new();
        let ghost mut marks: Seq<bool> = Seq::empty();
        let ghost mut paths: Seq<String> = Seq::empty();
        let mut rest: Vec<(String, ProcessForkBytes)> = Vec::new();
        core::mem::swap(&mut rest, &mut self.entries);
        let ghost all = rest@;
        let count: usize = rest.len();
        let mut i: usize = 0;
        assert(entries_of(kept_entries@) =~= crate::lists::selected(before.take(0), marks));
        while i < count
            invariant
                i <= count,
                count == before.len(),
                all.len() == count,
                before == entries_of(all),
                rest@ == all.skip(i as int),
                marks.len() == i,
                paths.len() == i,
                forall|path: &String| call_requires(keep, (path,)),
                forall|j: int|
                    0 <= j < i ==> (#[trigger] paths[j])@ == before[j].0 && call_ensures(
                        keep,
                        (&paths[j],),
                        marks[j],
                    ),
                entries_of(kept_entries@) == crate::lists::selected(before.take(i as int), marks),
            decreases count - i,
        {
            let (path, fork) = rest.remove(0);
            let kept = keep(&path);
            let ghost current = entries_of(kept_entries@);
            proof {
                assert(all.skip(i as int).remove(0) =~= all.skip(i + 1));
                assert(before.take(i + 1).drop_last() =~= before.take(i as int));
                assert(before.take(i + 1).last() == (path@, fork.id()));
                assert(marks.push(kept).drop_last() =~= marks);
                marks = marks.push(kept);
                paths = paths.push(path);
            }
            if kept {
                let ghost entry = (path@, fork.id());
                kept_entries.push((path, fork));
                assert(entries_of(kept_entries@) =~= current.push(entry));
            }
            i += 1;
        }
        assert(before.take(count as int) =~= before);
        proof {
            lemma_selected_apart(before, marks);
        }
        self.entries = kept_entries;
        assert(self@ == crate::lists::selected(before, marks) && paths.len() == marks.len());
    }

    /// Move the entries of another index in; paths that agree but for case
    /// stay as they are.
    pub fn merge_from(&mut self, source: ProcessForkMap)
        ensures
            final(self)@ == forks_merged(old(self)@, source@),
            one_fork_per_path(final(self)@),
    {
        let ghost before = self@;
        let ghost all = source@;
        let mut rest = source.entries;
        let count: usize = rest.len();
        let mut i: usize = 0;
        proof {
            use_type_invariant(&*self);
        }
        assert(all.take(0) =~= Seq::empty());
        while i < count
            invariant
                i <= count,
                count == all.len(),
                entries_of(rest@) == all.skip(i as int),
                one_fork_per_path(self@),
                self@ == forks_merged(before, all.take(i as int)),
            decreases count - i,
        {
            let ghost left = entries_of(rest@);
            assert(left.len() == rest@.len());
            let (path, fork) = rest.remove(0);
            proof {
                assert(left[0] == (path@, fork.id()));
                assert(entries_of(rest@) =~= left.remove(0));
                assert(left.remove(0) =~= all.skip(i + 1));
                assert(all.take(i + 1).drop_last() =~= all.take(i as int));
                assert(all.take(i + 1).last() == (path@, fork.id()));
            }
            if self.find_ignoring_case(path.as_str()).is_none() {
                self.insert(path, fork);
            }
            i += 1;
        }
        assert(all.take(count as int) =~= all);
    }

    /// Let a path take the place of one that agrees with `old_path` but for
    /// case.
    pub fn rename(&mut self, old_path: &str, new_path: &str)
        ensures
            final(self)@ == fork_renamed(old(self)@, old_path@, new_path@),
            one_fork_per_path(final(self)@),
    {
        proof {
            use_type_invariant(&*self);
        }
        match self.find_ignoring_case(old_path) {
            Some(i) => {
                let fork = self.remove_at(i);
                self.insert(new_path.to_owned(), fork);
            },
            None => {},
        }
    }

    /// A path that is not there yet gets an empty fork.
    pub fn ensure_empty(&mut self, forks: &mut SharedCells<Vec<u8>>, path: String)
        ensures
            one_fork_per_path(final(self)@),
            crate::cells::cells_extend(old(forks)@, final(forks)@),
            if entry_index(old(self)@, path@) >= 0 {
                final(self)@ == old(self)@ && final(forks)@ == old(forks)@
            } else {
                &&& final(forks)@.len() == old(forks)@.len() + 1
                &&& final(forks)@.last()@.len() == 0
                &&& final(self)@ == old(self)@.push((path@, old(forks)@.len() as int))
            },
    {
        proof {
            use_type_invariant(&*self);
        }
        if self.contains_key(path.as_str()) {
            return;
        }
        let fork = ProcessForkBytes::from_bytes(forks, Vec::new());
        self.insert(path, fork);
    }

    /// A path that is not there yet gets a fork.
    pub fn insert_if_absent(&mut self, path: String, bytes: ProcessForkBytes)
        ensures
            one_fork_per_path(final(self)@),
            final(self)@ == (if entry_index(old(self)@, path@) >= 0 {
                old(self)@
            } else {
                old(self)@.push((path@, bytes.id()))
            }),
    {
        proof {
            use_type_invariant(&*self);
        }
        if !self.contains_key(path.as_str()) {
            self.insert(path, bytes);
        }
    }

    /// Another index over the same forks.
    pub(crate) fn shared_entries(&self) -> (copy: Self)
        ensures
            copy@ == self@,
            one_fork_per_path(self@),
    {
        proof {
            use_type_invariant(self);
        }
        let mut entries: Vec<(String, ProcessForkBytes)> = Vec::new();
        let mut i: usize = 0;
        while i < self.entries.len()
            invariant
                i <= self.entries@.len(),
                entries_of(entries@) == self@.take(i as int),
            decreases self.entries@.len() - i,
        {
            let ghost current = entries_of(entries@);
            entries.push((self.entries[i].0.clone(), self.entries[i].1.shared_handle()));
            assert(entries_of(entries@) =~= current.push(self@[i as int]));
            assert(self@.take(i + 1) =~= self@.take(i as int).push(self@[i as int]));
            i += 1;
        }
        assert(self@.take(self@.len() as int) =~= self@);
        ProcessForkMap { entries }
    }

    /// An index over copies of the forks.
    pub fn detached_clone(&self, forks: &mut SharedCells<Vec<u8>>) -> (copy: Self)
        requires
            self.valid(old(forks)),
        ensures
            crate::cells::cells_extend(old(forks)@, final(forks)@),
            final(forks)@.len() == old(forks)@.len() + self@.len(),
            copy@.len() == self@.len(),
            copy.valid(final(forks)),
            one_fork_per_path(copy@),
            forall|i: int|
                0 <= i < self@.len() ==> {
                    &&& (#[trigger] copy@[i]).0 == self@[i].0
                    &&& copy@[i].1 == old(forks)@.len() + i
                    &&& final(forks)@[copy@[i].1]@ == old(forks)@[self@[i].1]@
                },
    {
        let ghost before = forks@;
        proof {
            use_type_invariant(self);
        }
        let mut entries: Vec<(String, ProcessForkBytes)> = Vec::new();
        let mut i: usize = 0;
        while i < self.entries.len()
            invariant
                i <= self.entries@.len(),
                self@.len() == self.entries@.len(),
                self.valid(forks),
                crate::cells::cells_extend(before, forks@),
                forks@.len() == before.len() + i,
                entries@.len() == i,
                forall|j: int| 0 <= j < self@.len() ==> 0 <= (#[trigger] self@[j]).1 < before.len(),
                forall|j: int|
                    0 <= j < i ==> {
                        &&& (#[trigger] entries_of(entries@)[j]).0 == self@[j].0
                        &&& entries_of(entries@)[j].1 == before.len() + j
                        &&& forks@[before.len() + j]@ == before[self@[j].1]@
                    },
            decreases self.entries@.len() - i,
        {
            let ghost current = entries_of(entries@);
            let ghost now = forks@;
            assert(self@[i as int] == (self.entries@[i as int].0@, self.entries@[i as int].1.id()));
            let fork = self.entries[i].1.detached_clone(forks);
            let ghost entry = (self.entries@[i as int].0@, fork.id());
            entries.push((self.entries[i].0.clone(), fork));
            assert(entries_of(entries@) =~= current.push(entry));
            i += 1;
        }
        proof {
            let copied = entries_of(entries@);
            assert forall|a: int, b: int| 0 <= a < b < copied.len() implies (
            #[trigger] copied[a]).0 != (#[trigger] copied[b]).0 by {
                assert(self@[a].0 != self@[b].0);
            }
        }
        ProcessForkMap { entries }
    }
}

impl CellDefault for ProcessForkMap {
    open spec fn is_default(&self) -> bool {
        self@.len() == 0
    }

    fn default_value() -> (value: Self) {
        ProcessForkMap::new()
    }
}

/// What marks select of entries keeps the paths apart.
proof fn lemma_selected_apart(entries: ForkEntries, marks: Seq<bool>)
    requires
        one_fork_per_path(entries),
        marks.len() == entries.len(),
    ensures
        one_fork_per_path(crate::lists::selected(entries, marks)),
        forall|k: int|
            0 <= k < crate::lists::selected(entries, marks).len() ==> entries.contains(
                #[trigger] crate::lists::selected(entries, marks)[k],
            ),
    decreases entries.len(),
{
    if entries.len() > 0 {
        let rest = entries.drop_last();
        let chosen = crate::lists::selected(rest, marks.drop_last());
        lemma_selected_apart(rest, marks.drop_last());
        assert forall|k: int| 0 <= k < chosen.len() implies entries.contains(#[trigger] chosen[k])
            && chosen[k].0 != entries.last().0 by {
            let at = choose|at: int| 0 <= at < rest.len() && rest[at] == chosen[k];
            assert(entries[at] == chosen[k]);
        }
        assert(entries.contains(entries[entries.len() - 1]));
    }
}

/// A path that was given a fork names it.
pub proof fn inserted_fork_is_found(entries: ForkEntries, path: Seq<char>, fork: int, other: Seq<char>)
    ensures
        ({
            let after = fork_inserted(entries, path, fork);
            &&& entry_index(after, path) >= 0
            &&& after[entry_index(after, path)].1 == fork
            &&& other != path ==> {
                &&& entry_index(entries, other) < 0 <==> entry_index(after, other) < 0
                &&& entry_index(entries, other) >= 0 ==> after[entry_index(after, other)].1
                    == entries[entry_index(entries, other)].1
            }
        }),
{
    let after = fork_inserted(entries, path, fork);
    lemma_entry_index(entries, path);
    lemma_entry_index(after, path);
    lemma_entry_index(entries, other);
    lemma_entry_index(after, other);
    let at = entry_index(entries, path);
    if at >= 0 {
        assert(after[at].0 == path);
    } else {
        assert(after[entries.len() as int].0 == path);
    }
    if entry_index(after, path) < entries.len() && at < 0 {
        assert(after[entry_index(after, path)] == entries[entry_index(after, path)]);
    }
    if other != path {
        let o = entry_index(entries, other);
        if o >= 0 {
            assert(after[o].0 == other);
            assert forall|i: int| 0 <= i < o implies (#[trigger] after[i]).0 != other by {
                assert(entries[i].0 != other);
            }
            lemma_entry_index_is(after, other, o);
        } else {
            assert forall|i: int| 0 <= i < after.len() implies (#[trigger] after[i]).0 != other by {
                if i < entries.len() {
                    assert(entries[i].0 != other);
                }
            }
        }
    }
}

} // verus!
