//! The coordinator's part: the resources of a scenario, the plans of each
//! phase, the reset between phases and the final report, all made through
//! the locks.
use vstd::prelude::*;
use crate::resource::{ResourceView, strings_view};
use crate::retry::RetryPolicy;
use crate::table::{LockError, ResourceTable, TableView};
use crate::worker::{Policy, TaskPlan};

verus! {

/// Index of the resource that holds the recipe.
pub const RECIPE: usize = 0;

/// Index of the resource that holds the extra ingredients.
pub const EXTRAS: usize = 1;

/// The task id that the coordinator uses for its own lock operations.
pub const COORDINATOR: u64 = 0;

/// Pause between two attempts of a bounded-retry acquisition.
pub const POLL_MS: u64 = 5;

/// `m` with every resource emptied; names and locks as they were.
pub open spec fn cleared(m: TableView) -> TableView {
    TableView {
        resources: m.resources.map_values(
            |v: ResourceView| ResourceView { items: Seq::empty(), ..v },
        ),
        holders: m.holders,
    }
}

/// No task holds any lock of `m`.
pub open spec fn all_free(m: TableView) -> bool {
    forall|r: int| m.has(r) ==> #[trigger] m.holders[r] is None
}

/// The two empty, unlocked resources of the scenario: the recipe, then the
/// extra ingredients.
pub fn new_pantry() -> (t: ResourceTable)
    ensures
        t@.wf(),
        t@.resources == seq![
            ResourceView { name: "recipe"@, items: Seq::empty() },
            ResourceView { name: "extras"@, items: Seq::empty() },
        ],
        t@.holders == seq![None::<u64>, None::<u64>],
{
    let mut t = ResourceTable::new();
    let r = t.add_resource("recipe".to_owned());
    let e = t.add_resource("extras".to_owned());
    proof {
        assert(t@.resources =~= seq![
            ResourceView { name: "recipe"@, items: Seq::empty() },
            ResourceView { name: "extras"@, items: Seq::empty() },
        ]);
        assert(t@.holders =~= seq![None::<u64>, None::<u64>]);
    }
    t
}

/// A plan with the fields given.
fn plan(
    id: u64,
    first: usize,
    first_item: &str,
    second: usize,
    second_item: &str,
    policy: Policy,
    start_delay_ms: u64,
    hold_ms: u64,
    timeout_ms: u64,
) -> (p: TaskPlan)
    ensures
        p.id == id,
        p.first == first,
        p.first_item@ == first_item@,
        p.second == second,
        p.second_item@ == second_item@,
        p.policy == policy,
        p.start_delay_ms == start_delay_ms,
        p.hold_ms == hold_ms,
        p.retry == (RetryPolicy { timeout_ms, poll_ms: POLL_MS }),
{
    TaskPlan {
        id,
        first,
        first_item: first_item.to_owned(),
        second,
        second_item: second_item.to_owned(),
        policy,
        start_delay_ms,
        hold_ms,
        retry: RetryPolicy::new(timeout_ms, POLL_MS),
    }
}

/// The deadlock phase: two tasks under the unsafe policy take the two
/// resources in opposite orders and hold the first for 500 ms before
/// probing the second.
pub fn deadlock_plans() -> (v: Vec<TaskPlan>)
    ensures
        v@.len() == 2,
        v@[0].id == 1 && v@[1].id == 2,
        v@[0].first == RECIPE && v@[0].second == EXTRAS,
        v@[1].first == EXTRAS && v@[1].second == RECIPE,
        v@[0].first_item@ == "Captain Crunch"@ && v@[0].second_item@ == "Vanilla"@,
        v@[1].first_item@ == "Salt"@ && v@[1].second_item@ == "Baking Powder"@,
        forall|i: int|
            0 <= i < 2 ==> (#[trigger] v@[i]).policy == Policy::Unsafe && v@[i].start_delay_ms
                == 0 && v@[i].hold_ms == 500 && v@[i].retry == (RetryPolicy {
                timeout_ms: 0,
                poll_ms: POLL_MS,
            }),
{
    let mut v: Vec<TaskPlan> = Vec::new();
    v.push(plan(1, RECIPE, "Captain Crunch", EXTRAS, "Vanilla", Policy::Unsafe, 0, 500, 0));
    v.push(plan(2, EXTRAS, "Salt", RECIPE, "Baking Powder", Policy::Unsafe, 0, 500, 0));
    v
}

/// The safe phase: two tasks under the safe policy, each holding its first
/// resource 100 ms and giving it back before asking for the second; every
/// acquisition may take 200 ms, more than any hold; the second task starts
/// 50 ms late.
pub fn safe_plans() -> (v: Vec<TaskPlan>)
    ensures
        v@.len() == 2,
        v@[0].id == 3 && v@[1].id == 4,
        v@[0].first == RECIPE && v@[0].second == EXTRAS,
        v@[1].first == EXTRAS && v@[1].second == RECIPE,
        v@[0].first_item@ == "Captain Crunch"@ && v@[0].second_item@ == "Pinch of salt"@,
        v@[1].first_item@ == "Pinch of sugar"@ && v@[1].second_item@ == "Sugar"@,
        v@[0].start_delay_ms == 0 && v@[1].start_delay_ms == 50,
        forall|i: int|
            0 <= i < 2 ==> (#[trigger] v@[i]).policy == Policy::Safe && v@[i].hold_ms == 100
                && v@[i].retry == (RetryPolicy { timeout_ms: 200, poll_ms: POLL_MS }),
{
    let mut v: Vec<TaskPlan> = Vec::new();
    v.push(plan(3, RECIPE, "Captain Crunch", EXTRAS, "Pinch of salt", Policy::Safe, 0, 100, 200));
    v.push(plan(4, EXTRAS, "Pinch of sugar", RECIPE, "Sugar", Policy::Safe, 50, 100, 200));
    v
}

/// Empties every resource between phases, each under its lock taken by
/// `task`. Succeeds exactly when no lock is held; otherwise fails with
/// `Unavailable` and leaves every lock as it was.
pub fn reset_all(table: &mut ResourceTable, task: u64) -> (res: Result<(), LockError>)
    requires
        old(table)@.wf(),
    ensures
        final(table)@.wf(),
        res is Ok <==> all_free(old(table)@),
        res is Ok ==> final(table)@ == cleared(old(table)@),
        res is Err ==> res == Err::<(), LockError>(LockError::Unavailable) && final(table)@.holders
            == old(table)@.holders,
{
    let n = table.count();
    let mut i: usize = 0;
    while i < n
        invariant
            n == old(table)@.holders.len(),
            old(table)@.wf(),
            i <= n,
            table@.wf(),
            table@.holders == old(table)@.holders,
            table@.resources.len() == n,
            forall|j: int| 0 <= j < i ==> #[trigger] old(table)@.holders[j] is None,
            forall|j: int| 0 <= j < i ==> #[trigger] table@.resources[j] == cleared(old(table)@).resources[j],
            forall|j: int| i <= j < n ==> #[trigger] table@.resources[j] == old(table)@.resources[j],
        decreases n - i,
    {
        let got = table.try_lock(i, task);
        if got.is_err() {
            return Err(LockError::Unavailable);
        }
        let ghost locked = table@;
        let _ = table.clear(i, task);
        let ghost emptied = table@;
        let _ = table.release(i, task);
        proof {
            assert(locked.resources[i as int] == old(table)@.resources[i as int]);
            assert(emptied.resources[i as int] == ResourceView {
                items: Seq::empty(),
                ..old(table)@.resources[i as int]
            });
            assert(table@.resources == emptied.resources);
            assert(table@.holders =~= old(table)@.holders);
            assert(cleared(old(table)@).resources[i as int] == ResourceView {
                items: Seq::empty(),
                ..old(table)@.resources[i as int]
            });
        }
        i = i + 1;
    }
    proof {
        assert(table@.resources =~= cleared(old(table)@).resources);
    }
    Ok(())
}

/// The items of every resource, in order, each read under its lock taken by
/// `task` and given back at once. Succeeds exactly when no lock is held;
/// the table is left as it was either way.
pub fn final_report(table: &mut ResourceTable, task: u64) -> (res: Result<Vec<Vec<String>>, LockError>)
    requires
        old(table)@.wf(),
    ensures
        final(table)@ == old(table)@,
        res is Ok <==> all_free(old(table)@),
        match res {
            Ok(v) => v@.len() == old(table)@.resources.len() && forall|j: int|
                0 <= j < v@.len() ==> strings_view((#[trigger] v@[j])@)
                    == old(table)@.resources[j].items,
            Err(e) => e == LockError::Unavailable,
        },
{
    let n = table.count();
    let mut out: Vec<Vec<String>> = Vec::new();
    let mut i: usize = 0;
    while i < n
        invariant
            n == old(table)@.holders.len(),
            i <= n,
            table@ == old(table)@,
            table@.wf(),
            out@.len() == i,
            forall|j: int| 0 <= j < i ==> #[trigger] old(table)@.holders[j] is None,
            forall|j: int|
                0 <= j < i ==> strings_view((#[trigger] out@[j])@) == old(table)@.resources[j].items,
        decreases n - i,
    {
        let got = table.try_lock(i, task);
        if got.is_err() {
            return Err(LockError::Unavailable);
        }
        let snap = table.snapshot(i, task);
        let _ = table.release(i, task);
        proof {
            assert(table@.holders =~= old(table)@.holders);
        }
        match snap {
            Ok(items) => out.push(items),
            Err(_) => {
                return Err(LockError::Unavailable);
            },
        }
        i = i + 1;
    }
    Ok(out)
}

} // verus!
