//! The lock table: every resource together with the task that holds its
//! exclusive lock, if any. Contents are read and written only through a
//! lock held by the caller.
use vstd::prelude::*;
use crate::resource::{ResourceView, SharedResource, strings_view};

verus! {

/// Why an operation on the lock table was refused.
#[derive(Debug, Clone, Copy, PartialEq, Eq, Structural)]
pub enum LockError {
    /// No resource has that index.
    NoSuchResource,
    /// The lock is held by a task (possibly the caller itself).
    Unavailable,
    /// The caller does not hold the lock it needs.
    NotHolder,
}

/// The mathematical value of a lock table.
pub struct TableView {
    pub resources: Seq<ResourceView>,
    pub holders: Seq<Option<u64>>,
}

impl TableView {
    pub open spec fn wf(self) -> bool {
        self.resources.len() == self.holders.len()
    }

    pub open spec fn has(self, r: int) -> bool {
        0 <= r < self.holders.len()
    }

    pub open spec fn held_by(self, r: int, task: u64) -> bool {
        self.has(r) && self.holders[r] == Some(task)
    }

    /// What a non-blocking lock attempt by `task` on `r` answers.
    pub open spec fn lock_result(self, r: int, task: u64) -> Result<(), LockError> {
        if !self.has(r) {
            Err(LockError::NoSuchResource)
        } else if self.holders[r] is Some {
            Err(LockError::Unavailable)
        } else {
            Ok(())
        }
    }

    /// The table after a non-blocking lock attempt by `task` on `r`.
    pub open spec fn after_lock(self, r: int, task: u64) -> TableView {
        if self.lock_result(r, task) is Ok {
            TableView { holders: self.holders.update(r, Some(task)), ..self }
        } else {
            self
        }
    }

    /// Whether `task` may use resource `r` through its lock.
    pub open spec fn guard_result(self, r: int, task: u64) -> Result<(), LockError> {
        if !self.has(r) {
            Err(LockError::NoSuchResource)
        } else if self.holders[r] != Some(task) {
            Err(LockError::NotHolder)
        } else {
            Ok(())
        }
    }

    pub open spec fn after_release(self, r: int, task: u64) -> TableView {
        if self.guard_result(r, task) is Ok {
            TableView { holders: self.holders.update(r, None), ..self }
        } else {
            self
        }
    }

    pub open spec fn after_append(self, r: int, task: u64, item: Seq<char>) -> TableView {
        if self.guard_result(r, task) is Ok {
            TableView {
                resources: self.resources.update(
                    r,
                    ResourceView {
                        items: self.resources[r].items.push(item),
                        ..self.resources[r]
                    },
                ),
                ..self
            }
        } else {
            self
        }
    }

    pub open spec fn after_clear(self, r: int, task: u64) -> TableView {
        if self.guard_result(r, task) is Ok {
            TableView {
                resources: self.resources.update(
                    r,
                    ResourceView { items: Seq::empty(), ..self.resources[r] },
                ),
                ..self
            }
        } else {
            self
        }
    }
}

/// The resources of one scenario and the holder of each one's lock.
pub struct ResourceTable {
    resources: Vec<SharedResource>,
    holders: Vec<Option<u64>>,
}

impl View for ResourceTable {
    type V = TableView;

    closed spec fn view(&self) -> TableView {
        TableView {
            resources: self.resources@.map_values(|r: SharedResource| r@),
            holders: self.holders@,
        }
    }
}

impl ResourceTable {
    /// A table with no resources.
    pub fn new() -> (t: ResourceTable)
        ensures
            t@.wf(),
            t@.resources.len() == 0,
    {
        let t = ResourceTable { resources: Vec::new(), holders: Vec::new() };
        proof {
            assert(t@.resources =~= Seq::<ResourceView>::empty());
        }
        t
    }

    /// How many resources the table holds.
    pub fn count(&self) -> (n: usize)
        requires
            self@.wf(),
        ensures
            n == self@.holders.len(),
    {
        self.holders.len()
    }

    /// Adds an empty, unlocked resource named `name`; returns its index.
    pub fn add_resource(&mut self, name: String) -> (r: usize)
        requires
            old(self)@.wf(),
            old(self)@.holders.len() < usize::MAX,
        ensures
            final(self)@.wf(),
            r == old(self)@.holders.len(),
            final(self)@.resources == old(self)@.resources.push(
                ResourceView { name: name@, items: Seq::empty() },
            ),
            final(self)@.holders == old(self)@.holders.push(None),
    {
        let r = self.holders.len();
        let res = SharedResource::new(name);
        self.resources.push(res);
        self.holders.push(None);
        proof {
            assert(self@.resources =~= old(self)@.resources.push(
                ResourceView { name: name@, items: Seq::empty() },
            ));
        }
        r
    }

    /// The task that holds resource `r`'s lock, if any.
    pub fn holder(&self, r: usize) -> (h: Option<u64>)
        requires
            self@.wf(),
            self@.has(r as int),
        ensures
            h == self@.holders[r as int],
    {
        self.holders[r]
    }

    /// The name of resource `r`.
    pub fn name(&self, r: usize) -> (s: String)
        requires
            self@.wf(),
            self@.has(r as int),
        ensures
            s@ == self@.resources[r as int].name,
    {
        self.resources[r].name()
    }

    /// Takes resource `r`'s lock for `task` if nobody holds it; never waits.
    pub fn try_lock(&mut self, r: usize, task: u64) -> (res: Result<(), LockError>)
        requires
            old(self)@.wf(),
        ensures
            final(self)@.wf(),
            res == old(self)@.lock_result(r as int, task),
            final(self)@ == old(self)@.after_lock(r as int, task),
    {
        if r >= self.holders.len() {
            return Err(LockError::NoSuchResource);
        }
        if self.holders[r].is_some() {
            return Err(LockError::Unavailable);
        }
        self.holders.set(r, Some(task));
        Ok(())
    }

    fn check_guard(&self, r: usize, task: u64) -> (res: Result<(), LockError>)
        requires
            self@.wf(),
        ensures
            res == self@.guard_result(r as int, task),
    {
        if r >= self.holders.len() {
            Err(LockError::NoSuchResource)
        } else if self.holders[r] != Some(task) {
            Err(LockError::NotHolder)
        } else {
            Ok(())
        }
    }

    /// Gives up `task`'s lock on `r`.
    pub fn release(&mut self, r: usize, task: u64) -> (res: Result<(), LockError>)
        requires
            old(self)@.wf(),
        ensures
            final(self)@.wf(),
            res == old(self)@.guard_result(r as int, task),
            final(self)@ == old(self)@.after_release(r as int, task),
    {
        let g = self.check_guard(r, task);
        if g.is_ok() {
            self.holders.set(r, None);
        }
        g
    }

    /// Appends `item` to resource `r`, through `task`'s lock on it.
    pub fn append(&mut self, r: usize, task: u64, item: String) -> (res: Result<(), LockError>)
        requires
            old(self)@.wf(),
        ensures
            final(self)@.wf(),
            res == old(self)@.guard_result(r as int, task),
            final(self)@ == old(self)@.after_append(r as int, task, item@),
    {
        let g = self.check_guard(r, task);
        if g.is_ok() {
            let mut res = self.resources.remove(r);
            res.append(item);
            self.resources.insert(r, res);
            proof {
                assert(self@.resources =~= old(self)@.after_append(
                    r as int,
                    task,
                    item@,
                ).resources);
            }
        }
        g
    }

    /// Empties resource `r`, through `task`'s lock on it.
    pub fn clear(&mut self, r: usize, task: u64) -> (res: Result<(), LockError>)
        requires
            old(self)@.wf(),
        ensures
            final(self)@.wf(),
            res == old(self)@.guard_result(r as int, task),
            final(self)@ == old(self)@.after_clear(r as int, task),
    {
        let g = self.check_guard(r, task);
        if g.is_ok() {
            let mut res = self.resources.remove(r);
            res.clear();
            self.resources.insert(r, res);
            proof {
                assert(self@.resources =~= old(self)@.after_clear(r as int, task).resources);
            }
        }
        g
    }

    /// A copy of resource `r`'s items, read through `task`'s lock on it.
    pub fn snapshot(&self, r: usize, task: u64) -> (res: Result<Vec<String>, LockError>)
        requires
            self@.wf(),
        ensures
            match res {
                Ok(v) => self@.guard_result(r as int, task) is Ok && strings_view(v@)
                    == self@.resources[r as int].items,
                Err(e) => self@.guard_result(r as int, task) == Err::<(), LockError>(e),
            },
    {
        match self.check_guard(r, task) {
            Ok(()) => Ok(self.resources[r].snapshot()),
            Err(e) => Err(e),
        }
    }
}

/// While `owner` holds resource `r`'s lock, no other task can take the lock,
/// release it, change the resource or read it: critical sections of two
/// distinct tasks on one resource never overlap.
pub proof fn lemma_mutual_exclusion(m: TableView, r: int, owner: u64, other: u64, item: Seq<char>)
    requires
        m.wf(),
        m.held_by(r, owner),
        owner != other,
    ensures
        m.lock_result(r, other) == Err::<(), LockError>(LockError::Unavailable),
        m.after_lock(r, other) == m,
        m.guard_result(r, other) == Err::<(), LockError>(LockError::NotHolder),
        m.after_release(r, other) == m,
        m.after_append(r, other, item) == m,
        m.after_clear(r, other) == m,
{
}

/// A lock attempt succeeds only on a free resource, and leaves it held by
/// the caller alone.
pub proof fn lemma_lock_grants_exclusive(m: TableView, r: int, task: u64)
    requires
        m.wf(),
        m.lock_result(r, task) is Ok,
    ensures
        m.holders[r] is None,
        m.after_lock(r, task).held_by(r, task),
        m.after_lock(r, task).resources == m.resources,
{
}

/// Clearing a resource twice leaves it empty both times; clearing an
/// empty resource changes nothing.
pub proof fn lemma_clear_idempotent(m: TableView, r: int, task: u64)
    requires
        m.wf(),
        m.held_by(r, task),
    ensures
        m.after_clear(r, task).resources[r].items.len() == 0,
        m.after_clear(r, task).after_clear(r, task) == m.after_clear(r, task),
        m.resources[r].items.len() == 0 ==> m.after_clear(r, task) == m,
{
    let once = m.after_clear(r, task);
    assert(once.resources.update(r, ResourceView { items: Seq::empty(), ..once.resources[r] })
        =~= once.resources);
    if m.resources[r].items.len() == 0 {
        assert(m.resources[r].items =~= Seq::<Seq<char>>::empty());
        assert(m.resources.update(r, ResourceView { items: Seq::empty(), ..m.resources[r] })
            =~= m.resources);
    }
}

/// An operation on resource `a` leaves every other resource `b` as it was:
/// its items, its name and its lock.
pub proof fn lemma_isolation(m: TableView, a: int, b: int, task: u64, item: Seq<char>)
    requires
        m.wf(),
        m.has(b),
        a != b,
    ensures
        m.after_lock(a, task).resources[b] == m.resources[b],
        m.after_lock(a, task).holders[b] == m.holders[b],
        m.after_release(a, task).resources[b] == m.resources[b],
        m.after_release(a, task).holders[b] == m.holders[b],
        m.after_append(a, task, item).resources[b] == m.resources[b],
        m.after_append(a, task, item).holders[b] == m.holders[b],
        m.after_clear(a, task).resources[b] == m.resources[b],
        m.after_clear(a, task).holders[b] == m.holders[b],
{
}

} // verus!
