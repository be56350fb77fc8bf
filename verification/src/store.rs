//! The task store: an ordered, singly-owned sequence of tasks with lookup by
//! exact name (first match), in-place edit, removal, rendering, and a JSON
//! textual form for persistence.

use vstd::prelude::*;
use vstd::string::StringExecFns;
use crate::codec::decode_tasks;
use crate::codec::encode_tasks;
use crate::codec::spec_parse_tasks;
use crate::codec::tasks_json;
use crate::task::Task;
use crate::task::TaskView;
use crate::text::chars_vec;
use crate::text::str_eq;
use crate::text::string_from_chars;

verus! {

/// The index of the first task named `name`, or `None` if no task matches.
pub open spec fn spec_find(s: Seq<TaskView>, name: Seq<char>) -> Option<int>
    decreases s.len(),
{
    if s.len() == 0 {
        None
    } else if s[0].name == name {
        Some(0int)
    } else {
        match spec_find(s.skip(1), name) {
            Some(i) => Some(i + 1),
            None => None,
        }
    }
}

/// `spec_find` returns the first match: a found index holds a task with the
/// requested name and no earlier index does; `None` means no index matches.
pub proof fn lemma_find_first(s: Seq<TaskView>, name: Seq<char>)
    ensures
        match spec_find(s, name) {
            Some(i) => 0 <= i < s.len() && s[i].name == name && (forall|j: int|
                0 <= j < i ==> s[j].name != name),
            None => forall|j: int| 0 <= j < s.len() ==> s[j].name != name,
        },
    decreases s.len(),
{
    if s.len() > 0 && s[0].name != name {
        lemma_find_first(s.skip(1), name);
        assert forall|j: int| 1 <= j < s.len() implies s[j] == s.skip(1)[j - 1] by {}
    }
}

/// The converse direction: a position that matches, with no earlier match,
/// is exactly what `spec_find` returns, and a store with no match yields
/// `None`.
pub proof fn lemma_find_at(s: Seq<TaskView>, name: Seq<char>, i: int)
    requires
        0 <= i < s.len(),
        s[i].name == name,
        forall|j: int| 0 <= j < i ==> s[j].name != name,
    ensures
        spec_find(s, name) == Some(i),
    decreases s.len(),
{
    if i > 0 {
        lemma_find_at(s.skip(1), name, i - 1);
    }
}

/// `None` from `spec_find` when no position matches.
pub proof fn lemma_find_none(s: Seq<TaskView>, name: Seq<char>)
    requires
        forall|j: int| 0 <= j < s.len() ==> s[j].name != name,
    ensures
        spec_find(s, name) is None,
    decreases s.len(),
{
    if s.len() > 0 {
        lemma_find_none(s.skip(1), name);
    }
}

/// The success message of a removal.
pub open spec fn spec_removed_msg(name: Seq<char>) -> Seq<char> {
    "Task \""@ + name + "\" removed successfully"@
}

/// The success message of an edit.
pub open spec fn spec_updated_msg(name: Seq<char>) -> Seq<char> {
    "Task \""@ + name + "\" updated successfully"@
}

/// The failure message when a name has no match.
pub open spec fn spec_missing_msg(name: Seq<char>) -> Seq<char> {
    "Task with name \""@ + name + "\" doesn't exist"@
}

/// What a successful edit leaves in the store: the task at `i` keeps its
/// creation timestamp and takes the replacement's other fields.
pub open spec fn spec_edited(s: Seq<TaskView>, i: int, r: TaskView) -> Seq<TaskView> {
    s.update(
        i,
        TaskView {
            name: r.name,
            description: r.description,
            priority: r.priority,
            add_time: s[i].add_time,
        },
    )
}

/// An in-memory, insertion-ordered collection of tasks. Names need not be
/// unique; every lookup is a linear scan returning the first match.
pub struct TaskStore {
    tasks: Vec<Task>,
}

impl View for TaskStore {
    type V = Seq<TaskView>;

    closed spec fn view(&self) -> Seq<TaskView> {
        self.tasks@.map_values(|t: Task| t@)
    }
}

impl TaskStore {
    /// All tasks in the store have well-formed timestamps.
    pub open spec fn wf(&self) -> bool {
        forall|i: int| 0 <= i < self@.len() ==> (#[trigger] self@[i]).wf()
    }

    /// A new, empty store.
    pub fn new() -> (s: TaskStore)
        ensures
            s@ =~= Seq::<TaskView>::empty(),
            s.wf(),
    {
        TaskStore { tasks: Vec::new() }
    }

    /// The number of tasks.
    pub fn len(&self) -> (n: usize)
        ensures
            n == self@.len(),
    {
        self.tasks.len()
    }

    /// The task at position `i`.
    pub fn get(&self, i: usize) -> (t: &Task)
        requires
            i < self@.len(),
        ensures
            t@ == self@[i as int],
    {
        &self.tasks[i]
    }

    /// Appends a task at the end; never fails.
    pub fn add_task(&mut self, task: Task)
        ensures
            final(self)@ == old(self)@.push(task@),
            old(self).wf() && task@.wf() ==> final(self).wf(),
    {
        self.tasks.push(task);
        proof {
            assert(final(self)@ =~= old(self)@.push(task@));
            if old(self).wf() && task@.wf() {
                assert forall|i: int|
                    0 <= i < final(self)@.len() implies (#[trigger] final(self)@[i]).wf() by {
                    if i < old(self)@.len() {
                        assert(old(self)@[i].wf());
                    }
                }
            }
        }
    }

    /// The position of the first task whose name equals `name`, scanning
    /// from the start, or `None` if no task matches.
    pub fn find_task(&self, name: &str) -> (r: Option<usize>)
        ensures
            match r {
                Some(i) => spec_find(self@, name@) == Some(i as int),
                None => spec_find(self@, name@) is None,
            },
    {
        let n = self.tasks.len();
        let mut i: usize = 0;
        while i < n
            invariant
                i <= n,
                n == self@.len(),
                forall|j: int| 0 <= j < i ==> self@[j].name != name@,
            decreases n - i,
        {
            if str_eq(self.tasks[i].name.as_str(), name) {
                proof {
                    lemma_find_at(self@, name@, i as int);
                }
                return Some(i);
            }
            i += 1;
        }
        proof {
            lemma_find_none(self@, name@);
        }
        None
    }

    /// Removes the first task named `name`, shifting later tasks left; fails
    /// with a not-found message when no task matches, leaving the store
    /// unchanged.
    pub fn remove_task(&mut self, name: &str) -> (r: Result<String, String>)
        ensures
            match spec_find(old(self)@, name@) {
                Some(i) => {
                    &&& final(self)@ == old(self)@.remove(i)
                    &&& r matches Ok(m) && m@ == spec_removed_msg(name@)
                },
                None => {
                    &&& final(self)@ == old(self)@
                    &&& r matches Err(m) && m@ == spec_missing_msg(name@)
                },
            },
            old(self).wf() ==> final(self).wf(),
    {
        match self.find_task(name) {
            Some(i) => {
                proof {
                    lemma_find_first(self@, name@);
                }
                self.tasks.remove(i);
                proof {
                    assert(final(self)@ =~= old(self)@.remove(i as int));
                    if old(self).wf() {
                        assert forall|k: int| 0 <= k < final(self)@.len() implies (#[trigger] final(self)@[k]).wf() by {
                            if k < i {
                                assert(old(self)@[k].wf());
                            } else {
                                assert(old(self)@[k + 1].wf());
                            }
                        }
                    }
                }
                let mut m = String::from_str("Task \"");
                m.append(name);
                m.append("\" removed successfully");
                Ok(m)
            },
            None => {
                let mut m = String::from_str("Task with name \"");
                m.append(name);
                m.append("\" doesn't exist");
                Err(m)
            },
        }
    }

    /// Overwrites the name, description and priority of the first task named
    /// `name` with the replacement's fields, keeping the original creation
    /// timestamp; fails with a not-found message when no task matches,
    /// leaving the store unchanged.
    pub fn edit_task(&mut self, name: &str, updated: Task) -> (r: Result<String, String>)
        ensures
            match spec_find(old(self)@, name@) {
                Some(i) => {
                    &&& final(self)@ == spec_edited(old(self)@, i, updated@)
                    &&& r matches Ok(m) && m@ == spec_updated_msg(name@)
                },
                None => {
                    &&& final(self)@ == old(self)@
                    &&& r matches Err(m) && m@ == spec_missing_msg(name@)
                },
            },
            old(self).wf() ==> final(self).wf(),
    {
        match self.find_task(name) {
            Some(i) => {
                proof {
                    lemma_find_first(self@, name@);
                }
                let kept_time = self.tasks[i].add_time;
                let replacement = Task {
                    name: updated.name,
                    description: updated.description,
                    priority: updated.priority,
                    add_time: kept_time,
                };
                self.tasks.remove(i);
                self.tasks.insert(i, replacement);
                proof {
                    assert(final(self)@ =~= spec_edited(old(self)@, i as int, updated@));
                    if old(self).wf() {
                        assert forall|k: int| 0 <= k < final(self)@.len() implies (#[trigger] final(self)@[k]).wf() by {
                            assert(old(self)@[k].wf());
                        }
                    }
                }
                let mut m = String::from_str("Task \"");
                m.append(name);
                m.append("\" updated successfully");
                Ok(m)
            },
            None => {
                let mut m = String::from_str("Task with name \"");
                m.append(name);
                m.append("\" doesn't exist");
                Err(m)
            },
        }
    }
}

/// The rendering of a whole store: each task's block in order.
pub open spec fn spec_render_all(s: Seq<TaskView>) -> Seq<char>
    decreases s.len(),
{
    if s.len() == 0 {
        Seq::empty()
    } else {
        s[0].spec_render() + spec_render_all(s.skip(1))
    }
}

/// Rendering distributes over appending one task at the end.
proof fn lemma_render_all_snoc(s: Seq<TaskView>, t: TaskView)
    ensures
        spec_render_all(s.push(t)) == spec_render_all(s) + t.spec_render(),
    decreases s.len(),
{
    if s.len() == 0 {
        assert(s.push(t)[0] == t);
        assert(s.push(t).skip(1) =~= Seq::<TaskView>::empty());
        assert(spec_render_all(s.push(t)) == t.spec_render() + spec_render_all(
            Seq::<TaskView>::empty(),
        ));
        assert(spec_render_all(Seq::<TaskView>::empty()) == Seq::<char>::empty());
        assert(t.spec_render() + Seq::<char>::empty() =~= Seq::<char>::empty()
            + t.spec_render());
    } else {
        assert(s.push(t).skip(1) =~= s.skip(1).push(t));
        lemma_render_all_snoc(s.skip(1), t);
        assert(s.push(t)[0] == s[0]);
        assert(spec_render_all(s.push(t)) == s[0].spec_render() + spec_render_all(
            s.skip(1).push(t),
        ));
        assert(spec_render_all(s.push(t)) == s[0].spec_render() + (spec_render_all(s.skip(1))
            + t.spec_render()));
        assert(s[0].spec_render() + (spec_render_all(s.skip(1)) + t.spec_render()) =~= (
        s[0].spec_render() + spec_render_all(s.skip(1))) + t.spec_render());
    }
}

impl TaskStore {
    /// Renders every task, in order, as one text.
    pub fn render_all(&self) -> (out: String)
        requires
            self.wf(),
        ensures
            out@ == spec_render_all(self@),
    {
        let mut out = String::new();
        let n = self.tasks.len();
        let mut i: usize = 0;
        while i < n
            invariant
                i <= n,
                n == self@.len(),
                self.wf(),
                out@ == spec_render_all(self@.take(i as int)),
            decreases n - i,
        {
            assert(self@[i as int].wf());
            let block = self.tasks[i].render();
            out.append(block.as_str());
            proof {
                assert(self@.take(i + 1) =~= self@.take(i as int).push(self@[i as int]));
                lemma_render_all_snoc(self@.take(i as int), self@[i as int]);
            }
            i += 1;
        }
        proof {
            assert(self@.take(n as int) =~= self@);
        }
        out
    }

    /// The store's canonical JSON text, suitable for persistence.
    pub fn to_json(&self) -> (out: String)
        requires
            self.wf(),
        ensures
            out@ == tasks_json(self@),
    {
        proof {
            assert forall|i: int|
                0 <= i < self.tasks@.len() implies (#[trigger] self.tasks@[i])@.wf() by {
                assert(self@[i].wf());
            }
        }
        let chars = encode_tasks(&self.tasks);
        string_from_chars(&chars)
    }

    /// Decodes `text` as a JSON task array and, on success, replaces the
    /// whole store with the decoded tasks; on a malformed text the store is
    /// left completely unchanged and the failure message is returned.
    pub fn load_from_json(&mut self, text: &str) -> (r: Result<String, String>)
        ensures
            match spec_parse_tasks(text@) {
                Some(ts) => {
                    &&& final(self)@ == ts
                    &&& final(self).wf()
                    &&& r matches Ok(m) && m@ == "Data read successfully"@
                },
                None => {
                    &&& final(self)@ == old(self)@
                    &&& r matches Err(m) && m@ == "Error reading file: malformed JSON"@
                },
            },
            old(self).wf() ==> final(self).wf(),
    {
        let chars = chars_vec(text);
        match decode_tasks(&chars) {
            Some(tasks) => {
                self.tasks = tasks;
                Ok(String::from_str("Data read successfully"))
            },
            None => Err(String::from_str("Error reading file: malformed JSON")),
        }
    }
}

// ---------------------------------------------------------------------------
// Laws of the store, stated over its mathematical model.
// ---------------------------------------------------------------------------
/// Adding a task under a name not yet in the store, then looking that name
/// up, finds exactly the added task, at the end of the store; and its
/// priority text is one of the three tags.
pub proof fn lemma_add_then_find(s: Seq<TaskView>, t: TaskView)
    requires
        spec_find(s, t.name) is None,
    ensures
        spec_find(s.push(t), t.name) == Some(s.len() as int),
        s.push(t)[s.len() as int] == t,
        t.priority.spec_text() == "Low"@ || t.priority.spec_text() == "Medium"@
            || t.priority.spec_text() == "High"@,
{
    lemma_find_first(s, t.name);
    lemma_find_at(s.push(t), t.name, s.len() as int);
}

/// Removing the name of a store's only task empties the store.
pub proof fn lemma_remove_singleton(s: Seq<TaskView>, name: Seq<char>)
    requires
        s.len() == 1,
        s[0].name == name,
    ensures
        spec_find(s, name) == Some(0int),
        s.remove(0) =~= Seq::<TaskView>::empty(),
{
}

/// A successful edit preserves the found task's creation timestamp while
/// taking the replacement's name, description and priority, and touches no
/// other task; when the name has no match, `edit_task`'s contract leaves the
/// store unchanged.
pub proof fn lemma_edit_preserves_time(s: Seq<TaskView>, name: Seq<char>, r: TaskView)
    ensures
        match spec_find(s, name) {
            Some(i) => {
                &&& spec_edited(s, i, r).len() == s.len()
                &&& spec_edited(s, i, r)[i].add_time == s[i].add_time
                &&& spec_edited(s, i, r)[i].name == r.name
                &&& spec_edited(s, i, r)[i].description == r.description
                &&& spec_edited(s, i, r)[i].priority == r.priority
                &&& forall|j: int| 0 <= j < s.len() && j != i ==> spec_edited(s, i, r)[j] == s[j]
            },
            None => true,
        },
{
    lemma_find_first(s, name);
}


} // verus!
