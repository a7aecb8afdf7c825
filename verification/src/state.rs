//! A snapshot of the daemon's tasks, and the resolution of requested ids
//! against it.

use std::collections::BTreeMap;
use vstd::prelude::*;
use vstd::std_specs::btree::axiom_spec_btree_map_iter;
use vstd::std_specs::iter::IteratorSpec;

use crate::order::{ascending, lemma_increasing_is_ascending, lists_ascending};
use crate::task::{Task, TaskView};

verus! {

/// All tasks that the daemon knew when the snapshot was taken, keyed by id.
#[derive(Debug, PartialEq, Eq)]
pub struct State {
    tasks: BTreeMap<usize, Task>,
}

/// The ids that a filter found and those that it did not.
#[derive(Debug, PartialEq, Eq)]
pub struct FilteredTasks {
    /// The ids whose task exists and meets the condition.
    pub matching_ids: Vec<usize>,
    /// The ids that no task has.
    pub non_matching_ids: Vec<usize>,
}

/// Every task is held under its own id.
pub open spec fn keyed_by_id(tasks: Map<usize, TaskView>) -> bool {
    forall|id: usize| tasks.contains_key(id) ==> (#[trigger] tasks[id]).id == id
}

/// The ids of the tasks, in their order.
pub open spec fn task_ids(tasks: Seq<&Task>) -> Seq<usize> {
    tasks.map_values(|task: &Task| task.id)
}

/// The condition can be asked of every task, and no task gets both answers.
pub open spec fn decides<F: Fn(&Task) -> bool>(condition: F) -> bool {
    &&& forall|task: &Task| #[trigger] condition.requires((task,))
    &&& forall|task: &Task|
        !(#[trigger] condition.ensures((task,), true) && condition.ensures((task,), false))
}

/// The condition holds of the task: its answer cannot be `false`.
pub open spec fn accepts<F: Fn(&Task) -> bool>(condition: F, task: Task) -> bool {
    !condition.ensures((&task,), false)
}

/// The requested ids whose task exists and meets the condition, in the order
/// of the request.
pub open spec fn matching<F: Fn(&Task) -> bool>(
    tasks: Map<usize, Task>,
    condition: F,
    ids: Seq<usize>,
) -> Seq<usize> {
    ids.filter(|id: usize| tasks.contains_key(id) && accepts(condition, tasks[id]))
}

/// The requested ids that a known task has, in the order of the request.
pub open spec fn found(known: Set<usize>, ids: Seq<usize>) -> Seq<usize> {
    ids.filter(|id: usize| known.contains(id))
}

/// The requested ids that no known task has, in the order of the request.
pub open spec fn missing(known: Set<usize>, ids: Seq<usize>) -> Seq<usize> {
    ids.filter(|id: usize| !known.contains(id))
}

/// The ids of the tasks that meet the condition.
pub open spec fn accepted<F: Fn(&Task) -> bool>(tasks: Map<usize, Task>, condition: F) -> Set<
    usize,
> {
    Set::new(|id: usize| tasks.contains_key(id) && accepts(condition, tasks[id]))
}

/// A filter keeps the order of what it filters.
pub proof fn lemma_filter_ascending(ids: Seq<usize>, keep: spec_fn(usize) -> bool)
    requires
        ascending(ids),
    ensures
        ascending(ids.filter(keep)),
        forall|id: usize| #[trigger]
            ids.filter(keep).contains(id) <==> ids.contains(id) && keep(id),
    decreases ids.len(),
{
    reveal(Seq::filter);
    if ids.len() > 0 {
        let front = ids.drop_last();
        lemma_filter_ascending(front, keep);
        let kept = front.filter(keep);
        assert forall|id: usize| #[trigger]
            ids.filter(keep).contains(id) <==> ids.contains(id) && keep(id) by {
            if ids.filter(keep).contains(id) {
                let i = choose|i: int| 0 <= i < ids.filter(keep).len() && ids.filter(keep)[i] == id;
                if i < kept.len() {
                    assert(kept[i] == id);
                    assert(kept.contains(id));
                    let j = choose|j: int| 0 <= j < front.len() && front[j] == id;
                    assert(ids[j] == id);
                } else {
                    assert(id == ids.last());
                    assert(ids[ids.len() - 1] == id);
                }
            }
            if ids.contains(id) && keep(id) {
                let j = choose|j: int| 0 <= j < ids.len() && ids[j] == id;
                if j < front.len() {
                    assert(front[j] == id);
                    assert(front.contains(id));
                    let i = choose|i: int| 0 <= i < kept.len() && kept[i] == id;
                    assert(ids.filter(keep)[i] == id);
                } else {
                    assert(ids.filter(keep)[kept.len() as int] == id);
                }
            }
        }
        assert forall|i: int, j: int| 0 <= i < j < ids.filter(keep).len() implies ids.filter(
            keep,
        )[i] < ids.filter(keep)[j] by {
            if j == kept.len() {
                assert(kept.contains(kept[i]));
                let k = choose|k: int| 0 <= k < front.len() && front[k] == kept[i];
                assert(ids[k] < ids[ids.len() - 1]);
            }
        }
    }
}

/// Where every task meets the condition, the matching ids are the ids found.
pub proof fn lemma_matching_all<F: Fn(&Task) -> bool>(
    tasks: Map<usize, Task>,
    condition: F,
    ids: Seq<usize>,
)
    requires
        forall|task: Task| accepts(condition, task),
    ensures
        matching(tasks, condition, ids) == found(tasks.dom(), ids),
{
    let by_condition = |id: usize| tasks.contains_key(id) && accepts(condition, tasks[id]);
    let by_presence = |id: usize| tasks.dom().contains(id);
    assert(by_condition =~= by_presence) by {
        assert forall|id: usize| #[trigger] by_condition(id) == by_presence(id) by {
            assert(accepts(condition, tasks[id]));
        }
    }
}

impl Clone for FilteredTasks {
    fn clone(&self) -> (copy: Self)
        ensures
            copy.matching_ids@ == self.matching_ids@,
            copy.non_matching_ids@ == self.non_matching_ids@,
    {
        FilteredTasks {
            matching_ids: self.matching_ids.clone(),
            non_matching_ids: self.non_matching_ids.clone(),
        }
    }
}

impl Clone for State {
    fn clone(&self) -> (copy: Self)
        ensures
            copy@ == self@,
    {
        proof {
            use_type_invariant(self);
        }
        State { tasks: self.tasks.clone() }
    }
}

impl View for State {
    type V = Map<usize, TaskView>;

    open spec fn view(&self) -> Map<usize, TaskView> {
        self.tasks().map_values(|task: Task| task@)
    }
}

impl State {
    #[verifier::type_invariant]
    spec fn tasks_keyed_by_id(self) -> bool {
        forall|id: usize| self.tasks@.contains_key(id) ==> (#[trigger] self.tasks@[id]).id == id
    }

    /// The tasks of the snapshot under their ids.
    pub closed spec fn tasks(&self) -> Map<usize, Task> {
        self.tasks@
    }

    /// A snapshot without tasks.
    pub fn new() -> (state: State)
        ensures
            state.tasks() == Map::<usize, Task>::empty(),
            state@ == Map::<usize, TaskView>::empty(),
    {
        let state = State { tasks: BTreeMap::new() };
        assert(state@ =~= Map::<usize, TaskView>::empty());
        state
    }

    /// Puts a task under its id, in place of the task that had the id before.
    pub fn insert(&mut self, task: Task)
        ensures
            final(self).tasks() == old(self).tasks().insert(task.id, task),
            final(self)@ == old(self)@.insert(task.id, task@),
    {
        let mut taken = State::new();
        std::mem::swap(self, &mut taken);
        proof {
            use_type_invariant(&taken);
        }
        let mut tasks = taken.tasks;
        tasks.insert(task.id, task);
        *self = State { tasks };
        assert(self@ =~= old(self)@.insert(task.id, task@));
    }

    /// The number of tasks.
    pub fn len(&self) -> (n: usize)
        ensures
            n == self.tasks().len(),
            n == self@.len(),
    {
        assert(self@.dom() =~= self.tasks().dom());
        self.tasks.len()
    }

    /// Whether a task has the id.
    pub fn contains(&self, id: usize) -> (r: bool)
        ensures
            r == self.tasks().contains_key(id),
            r == self@.contains_key(id),
    {
        self.tasks.contains_key(&id)
    }

    /// The task with the id, if there is one.
    pub fn get(&self, id: usize) -> (r: Option<&Task>)
        ensures
            match r {
                Some(task) => self.tasks().contains_key(id) && *task == self.tasks()[id]
                    && task.id == id,
                None => !self.tasks().contains_key(id),
            },
            match r {
                Some(task) => self@.contains_key(id) && task@ == self@[id],
                None => !self@.contains_key(id),
            },
    {
        proof {
            use_type_invariant(self);
        }
        self.tasks.get(&id)
    }

    /// All tasks in ascending order of their ids.
    pub fn values(&self) -> (tasks: Vec<&Task>)
        ensures
            keyed_by_id(self@),
            lists_ascending(task_ids(tasks@), self@.dom()),
            forall|i: int| 0 <= i < tasks@.len() ==> (#[trigger] tasks@[i])@ == self@[tasks@[i].id],
            forall|i: int|
                0 <= i < tasks@.len() ==> *(#[trigger] tasks@[i]) == self.tasks()[tasks@[i].id],
    {
        proof {
            use_type_invariant(self);
        }
        let mut tasks: Vec<&Task> = Vec::new();
        let iter = self.tasks.iter();
        let ghost entries = iter.remaining();
        let ghost keys = entries.map_values(|entry: (&usize, &Task)| *entry.0);
        proof {
            axiom_spec_btree_map_iter(&self.tasks);
            lemma_increasing_is_ascending(keys);
        }
        for entry in it: iter
            invariant
                it.seq() == entries,
                tasks@ == entries.take(it.index()).map_values(|entry: (&usize, &Task)| entry.1),
        {
            tasks.push(entry.1);
            assert(tasks@ =~= entries.take(it.index() + 1).map_values(
                |entry: (&usize, &Task)| entry.1,
            ));
        }
        proof {
            assert(entries.take(entries.len() as int) =~= entries);
            assert forall|i: int| 0 <= i < tasks@.len() implies (#[trigger] tasks@[i]).id
                == keys[i] && self.tasks@.contains_key(keys[i]) && *tasks@[i]
                == self.tasks@[keys[i]] by {
                assert(self.tasks@.contains_key(*entries[i].0));
            }
            assert(task_ids(tasks@) =~= keys);
            assert forall|id: usize| self.tasks@.contains_key(id) implies keys.contains(id) by {
                let entry = (&id, &self.tasks@[id]);
                assert(entries.contains(entry));
                let i = choose|i: int| 0 <= i < entries.len() && entries[i] == entry;
                assert(keys[i] == id);
            }
            assert(keys.to_set() =~= self.tasks@.dom());
            assert(self@.dom() =~= self.tasks@.dom());
        }
        tasks
    }

    /// The ids of all tasks in ascending order.
    pub fn task_ids(&self) -> (ids: Vec<usize>)
        ensures
            lists_ascending(ids@, self.tasks().dom()),
            lists_ascending(ids@, self@.dom()),
    {
        let tasks = self.values();
        let mut ids: Vec<usize> = Vec::new();
        let mut i: usize = 0;
        while i < tasks.len()
            invariant
                i <= tasks.len(),
                ids@ == task_ids(tasks@).take(i as int),
            decreases tasks.len() - i,
        {
            ids.push(tasks[i].id);
            assert(ids@ =~= task_ids(tasks@).take(i + 1));
            i = i + 1;
        }
        assert(ids@ =~= task_ids(tasks@));
        assert(self@.dom() =~= self.tasks().dom());
        ids
    }

    /// Sorts the requested ids into those whose task exists and meets the
    /// condition, and those that no task has. A task that exists and does not
    /// meet the condition is in neither list. Without requested ids, all tasks
    /// of the snapshot are asked, in ascending order of their ids.
    pub fn filter_tasks<F: Fn(&Task) -> bool>(
        &self,
        condition: F,
        task_ids: Option<Vec<usize>>,
    ) -> (filtered: FilteredTasks)
        requires
            decides(condition),
        ensures
            match task_ids {
                Some(ids) => {
                    &&& filtered.matching_ids@ == matching(self.tasks(), condition, ids@)
                    &&& filtered.non_matching_ids@ == missing(self.tasks().dom(), ids@)
                },
                None => {
                    &&& lists_ascending(filtered.matching_ids@, accepted(self.tasks(), condition))
                    &&& filtered.non_matching_ids@.len() == 0
                },
            },
    {
        match task_ids {
            Some(ids) => self.filter_task_ids(condition, &ids),
            None => {
                let ids = self.task_ids();
                let filtered = self.filter_task_ids(condition, &ids);
                proof {
                    let tasks = self.tasks();
                    let keep = |id: usize| tasks.contains_key(id) && accepts(condition, tasks[id]);
                    lemma_filter_ascending(ids@, keep);
                    assert(filtered.matching_ids@.to_set() =~= accepted(tasks, condition));
                    let absent = |id: usize| !tasks.dom().contains(id);
                    lemma_filter_ascending(ids@, absent);
                    if filtered.non_matching_ids@.len() > 0 {
                        let id = filtered.non_matching_ids@[0];
                        assert(filtered.non_matching_ids@.contains(id));
                        assert(ids@.to_set().contains(id));
                    }
                }
                filtered
            },
        }
    }

    fn filter_task_ids<F: Fn(&Task) -> bool>(&self, condition: F, ids: &Vec<usize>) -> (filtered:
        FilteredTasks)
        requires
            decides(condition),
        ensures
            filtered.matching_ids@ == matching(self.tasks(), condition, ids@),
            filtered.non_matching_ids@ == missing(self.tasks().dom(), ids@),
    {
        let mut matching_ids: Vec<usize> = Vec::new();
        let mut non_matching_ids: Vec<usize> = Vec::new();
        let ghost tasks = self.tasks();
        let ghost keep = |id: usize| tasks.contains_key(id) && accepts(condition, tasks[id]);
        let ghost absent = |id: usize| !tasks.dom().contains(id);
        let mut i: usize = 0;
        while i < ids.len()
            invariant
                i <= ids.len(),
                decides(condition),
                tasks == self.tasks(),
                keep == |id: usize| tasks.contains_key(id) && accepts(condition, tasks[id]),
                absent == |id: usize| !tasks.dom().contains(id),
                matching_ids@ == ids@.take(i as int).filter(keep),
                non_matching_ids@ == ids@.take(i as int).filter(absent),
            decreases ids.len() - i,
        {
            let id = ids[i];
            proof {
                assert(ids@.take(i + 1) =~= ids@.take(i as int).push(id));
                ids@.take(i as int).lemma_filter_push(id, keep);
                ids@.take(i as int).lemma_filter_push(id, absent);
            }
            match self.get(id) {
                None => {
                    non_matching_ids.push(id);
                },
                Some(task) => {
                    if condition(task) {
                        matching_ids.push(id);
                    }
                },
            }
            i = i + 1;
        }
        assert(ids@.take(ids.len() as int) =~= ids@);
        FilteredTasks { matching_ids, non_matching_ids }
    }
}

} // verus!
